//! A virtual MTP device that speaks the binary protocol against local directories.
//!
//! Containers that the host sends are parsed here, and turned into operations to carry out; response
//! and event containers wait in queues until the host receives them.

pub mod config;
pub mod laws;
pub mod registry;
pub mod state;
pub mod tree;

use vstd::prelude::*;

use crate::error::{PtpError, PtpErrorView};
use crate::ptp::OperationCode;
use crate::text;
use crate::transport::virtual_device::state::{Dispatch, DispatchView, PendingCommand,
    PendingCommandView, VirtualDeviceState, VirtualDeviceStateView};
use crate::wire;

verus! {

/// The container type of a command.
pub const CONTAINER_TYPE_COMMAND: u16 = 1;

/// The container type of a data phase.
pub const CONTAINER_TYPE_DATA: u16 = 2;

/// The parameters of a command container: as many whole 32-bit numbers as follow the header.
pub open spec fn command_params(data: Seq<u8>) -> Seq<u32> {
    Seq::new(((data.len() - 12) / 4) as nat, |i: int| wire::u32_at(data, 12 + 4 * i))
}

/// What a received container amounts to: an operation to carry out now, nothing yet, or an error.
pub type SendOutcome = Result<Option<DispatchView>, PtpErrorView>;

/// What the device makes of a container, and the state it is in afterwards.
pub open spec fn received(state: VirtualDeviceStateView, data: Seq<u8>) -> (
    VirtualDeviceStateView,
    SendOutcome,
) {
    if data.len() < 12 {
        (state, Err(PtpErrorView::InvalidData { message: "container too small"@ }))
    } else {
        let container_type = wire::u16_at(data, 4);
        let code = wire::u16_at(data, 6);
        let tx_id = wire::u32_at(data, 8);
        if container_type == CONTAINER_TYPE_COMMAND {
            if state.operation_wedge {
                (
                    VirtualDeviceStateView { operation_wedge: false, ..state },
                    Err(PtpErrorView::DeviceReset),
                )
            } else if crate::ptp::has_host_data_phase(crate::ptp::operation_of(code)) {
                (
                    VirtualDeviceStateView {
                        pending: Some(
                            PendingCommandView { code, tx_id, params: command_params(data) },
                        ),
                        ..state
                    },
                    Ok(None),
                )
            } else {
                (
                    state,
                    Ok(
                        Some(
                            DispatchView {
                                code,
                                tx_id,
                                params: command_params(data),
                                payload: None,
                            },
                        ),
                    ),
                )
            }
        } else if container_type == CONTAINER_TYPE_DATA {
            match state.pending {
                Some(command) => (
                    VirtualDeviceStateView { pending: None, ..state },
                    Ok(
                        Some(
                            DispatchView {
                                code: command.code,
                                tx_id: command.tx_id,
                                params: command.params,
                                payload: Some(data.skip(12)),
                            },
                        ),
                    ),
                ),
                None => (
                    state,
                    Err(
                        PtpErrorView::InvalidData {
                            message: "received data container without pending command"@,
                        },
                    ),
                ),
            }
        } else {
            (
                state,
                Err(
                    PtpErrorView::InvalidData {
                        message: "unexpected container type: "@ + text::decimal(
                            container_type as nat,
                        ),
                    },
                ),
            )
        }
    }
}

/// The device with one more response container waiting.
pub open spec fn response_queued(state: VirtualDeviceStateView, data: Seq<u8>) -> VirtualDeviceStateView {
    VirtualDeviceStateView { responses: state.responses.push(data), ..state }
}

/// The response container that the host receives next, if one waits, and the device after it.
pub open spec fn response_taken(state: VirtualDeviceStateView) -> (VirtualDeviceStateView, Option<Seq<u8>>) {
    if state.responses.len() > 0 {
        (
            VirtualDeviceStateView { responses: state.responses.skip(1), ..state },
            Some(state.responses[0]),
        )
    } else {
        (state, None)
    }
}

/// The event container that the host receives next, if one waits, and the device after it.
pub open spec fn event_taken(state: VirtualDeviceStateView) -> (VirtualDeviceStateView, Option<Seq<u8>>) {
    if state.events.len() > 0 {
        (VirtualDeviceStateView { events: state.events.skip(1), ..state }, Some(state.events[0]))
    } else {
        (state, None)
    }
}

/// The device after a transfer was abandoned.
pub open spec fn transfer_abandoned(state: VirtualDeviceStateView) -> VirtualDeviceStateView {
    VirtualDeviceStateView { pending: None, responses: Seq::empty(), cancel_wedge: false, ..state }
}

/// A send as a view.
pub open spec fn send_view(r: Result<Option<Dispatch>, PtpError>) -> SendOutcome {
    match r {
        Ok(Some(dispatch)) => Ok(Some(dispatch@)),
        Ok(None) => Ok(None),
        Err(e) => Err(e@),
    }
}

/// Read the parameters of a command container.
fn read_params(data: &[u8]) -> (r: Vec<u32>)
    requires
        data@.len() >= 12,
    ensures
        r@ == command_params(data@),
{
    let len: usize = data.len();
    let count: usize = (len - 12) / 4;
    let mut params: Vec<u32> = Vec::new();
    let mut i: usize = 0;
    while i < count
        invariant
            i <= count,
            count == (len - 12) / 4,
            12 <= len == data@.len(),
            params@.len() == i,
            forall|j: int| 0 <= j < i ==> params@[j] == command_params(data@)[j],
        decreases count - i,
    {
        assert(12 + i * 4 + 4 <= len);
        params.push(wire::unpack_u32(data, 12 + i * 4));
        i = i + 1;
    }
    assert(params@ =~= command_params(data@));
    params
}

impl VirtualDeviceState {
    /// Take a container from the host.
    ///
    /// A command whose operation takes data from the host waits for its data container; any other
    /// command is to be carried out at once. A device that was armed to wedge reports the reset on its
    /// next command, once, before doing anything; a data phase never meets it.
    pub fn send_bulk(&mut self, data: &[u8]) -> (r: Result<Option<Dispatch>, PtpError>)
        ensures
            final(self)@ == received(old(self)@, data@).0,
            send_view(r) == received(old(self)@, data@).1,
    {
        if data.len() < 12 {
            return Err(PtpError::invalid_data("container too small"));
        }
        let container_type: u16 = wire::unpack_u16(data, 4);
        let code: u16 = wire::unpack_u16(data, 6);
        let tx_id: u32 = wire::unpack_u32(data, 8);
        if container_type == CONTAINER_TYPE_COMMAND {
            if self.pending_operation_wedge {
                self.pending_operation_wedge = false;
                return Err(PtpError::DeviceReset);
            }
            let params = read_params(data);
            if OperationCode::from_code(code).expects_host_data() {
                self.pending_command = Some(PendingCommand { code, tx_id, params });
                Ok(None)
            } else {
                Ok(Some(Dispatch { code, tx_id, params, payload: None }))
            }
        } else if container_type == CONTAINER_TYPE_DATA {
            match self.pending_command.take() {
                Some(command) => {
                    let payload = vstd::slice::slice_to_vec(
                        vstd::slice::slice_subrange(data, 12, data.len()),
                    );
                    assert(payload@ =~= data@.skip(12));
                    Ok(
                        Some(
                            Dispatch {
                                code: command.code,
                                tx_id: command.tx_id,
                                params: command.params,
                                payload: Some(payload),
                            },
                        ),
                    )
                },
                None => Err(
                    PtpError::invalid_data("received data container without pending command"),
                ),
            }
        } else {
            let mut message = "unexpected container type: ".to_owned();
            message.append(text::write_decimal(container_type as u64).as_str());
            Err(PtpError::InvalidData { message })
        }
    }

    /// Hand the next response container to the host.
    pub fn receive_bulk(&mut self) -> (r: Result<Vec<u8>, PtpError>)
        ensures
            final(self)@ == response_taken(old(self)@).0,
            match r {
                Ok(data) => response_taken(old(self)@).1 == Some(data@),
                Err(e) => response_taken(old(self)@).1 is None && e@ == (PtpErrorView::InvalidData {
                    message: "no response available"@,
                }),
            },
    {
        let ghost before = self@;
        match self.response_queue.pop_front() {
            Some(data) => {
                assert(self@.responses =~= before.responses.skip(1));
                Ok(data)
            },
            None => {
                assert(self@.responses =~= before.responses);
                Err(PtpError::invalid_data("no response available"))
            },
        }
    }

    /// Hand the next event container to the host. `None` means that there is none: the caller waits for
    /// the poll interval, and then reports a timeout.
    pub fn receive_interrupt(&mut self) -> (r: Option<Vec<u8>>)
        ensures
            final(self)@ == event_taken(old(self)@).0,
            event_taken(old(self)@).1 == (match r {
                Some(data) => Some(data@),
                None => None,
            }),
    {
        let ghost before = self@;
        match self.event_queue.pop_front() {
            Some(data) => {
                assert(self@.events =~= before.events.skip(1));
                Some(data)
            },
            None => {
                assert(self@.events =~= before.events);
                None
            },
        }
    }

    /// Abandon whatever is in flight. A device that was armed to wedge on a cancel reports the reset,
    /// once.
    pub fn cancel_transfer(&mut self) -> (r: Result<(), PtpError>)
        ensures
            final(self)@ == transfer_abandoned(old(self)@),
            match r {
                Ok(_) => !old(self)@.cancel_wedge,
                Err(e) => old(self)@.cancel_wedge && e@ is DeviceReset,
            },
    {
        self.pending_command = None;
        self.response_queue.clear();
        assert(self@.responses =~= Seq::empty());
        if self.pending_cancel_wedge {
            self.pending_cancel_wedge = false;
            return Err(PtpError::DeviceReset);
        }
        Ok(())
    }

    /// Queue a response container.
    pub fn queue_response(&mut self, data: Vec<u8>)
        ensures
            final(self)@ == response_queued(old(self)@, data@),
    {
        let ghost before = self@;
        self.response_queue.push_back(data);
        assert(self@.responses =~= before.responses.push(data@));
    }
}

/// An armed wedge fires on one command only: the command after it is received as by a healthy device.
pub proof fn law_operation_wedge_is_one_shot(state: VirtualDeviceStateView, first: Seq<u8>)
    requires
        state.operation_wedge,
        first.len() >= 12,
        wire::u16_at(first, 4) == CONTAINER_TYPE_COMMAND,
    ensures
        received(state, first).1 == Err::<Option<DispatchView>, PtpErrorView>(
            PtpErrorView::DeviceReset,
        ),
        received(state, first).0 == (VirtualDeviceStateView { operation_wedge: false, ..state }),
{
}

/// Only a command meets an armed wedge: whatever else is received, the wedge stays armed and is not
/// reported.
pub proof fn law_data_never_meets_the_wedge(state: VirtualDeviceStateView, data: Seq<u8>)
    requires
        data.len() < 12 || wire::u16_at(data, 4) != CONTAINER_TYPE_COMMAND,
    ensures
        received(state, data).0.operation_wedge == state.operation_wedge,
        !(received(state, data).1 matches Err(e) && e is DeviceReset),
{
}

/// A command that takes data and the data container that follows it come to one operation, with the
/// command's code, transaction and parameters and the container's payload; and the device waits for no
/// further data after it.
pub proof fn law_command_and_data_come_to_one_operation(
    state: VirtualDeviceStateView,
    command: Seq<u8>,
    data: Seq<u8>,
)
    requires
        !state.operation_wedge,
        command.len() >= 12,
        wire::u16_at(command, 4) == CONTAINER_TYPE_COMMAND,
        crate::ptp::has_host_data_phase(crate::ptp::operation_of(wire::u16_at(command, 6))),
        data.len() >= 12,
        wire::u16_at(data, 4) == CONTAINER_TYPE_DATA,
    ensures
        received(state, command).1 == Ok::<Option<DispatchView>, PtpErrorView>(None),
        received(received(state, command).0, data).1 == Ok::<Option<DispatchView>, PtpErrorView>(
            Some(
                DispatchView {
                    code: wire::u16_at(command, 6),
                    tx_id: wire::u32_at(command, 8),
                    params: command_params(command),
                    payload: Some(data.skip(12)),
                },
            ),
        ),
        received(received(state, command).0, data).0 == (VirtualDeviceStateView {
            pending: None,
            ..state
        }),
{
}

} // verus!
