//! `reset`: last-resort recovery of a stuck device without replugging it.
//!
//! The request goes out at the transport level, with no session: opening one is exactly what a stuck
//! device cannot answer.

use vstd::prelude::*;

use crate::cli::error;
use crate::cli::error::{CliError, CliErrorKind, CliErrorView};
use crate::mtp::error::{Error, ErrorView};

verus! {

/// How the device to reset is picked.
#[derive(Debug)]
pub enum ResetSelection {
    Serial(String),
    Location(u64),
    /// The one device there is.
    Only,
}

/// A [`ResetSelection`] with its text as a sequence of characters.
pub enum ResetSelectionView {
    Serial(Seq<char>),
    Location(u64),
    Only,
}

impl View for ResetSelection {
    type V = ResetSelectionView;

    open spec fn view(&self) -> ResetSelectionView {
        match self {
            ResetSelection::Serial(s) => ResetSelectionView::Serial(s@),
            ResetSelection::Location(l) => ResetSelectionView::Location(*l),
            ResetSelection::Only => ResetSelectionView::Only,
        }
    }
}

/// How the device to reset is picked: by its serial number where one is given, then by its location.
pub fn reset_selection(device: &Option<String>, location: Option<u64>) -> (r: ResetSelection)
    ensures
        r@ == (match device {
            Some(serial) => ResetSelectionView::Serial(serial@),
            None => match location {
                Some(location) => ResetSelectionView::Location(location),
                None => ResetSelectionView::Only,
            },
        }),
{
    match device {
        Some(serial) => ResetSelection::Serial(serial.clone()),
        None => match location {
            Some(location) => ResetSelection::Location(location),
            None => ResetSelection::Only,
        },
    }
}

/// Where the one device there is stands.
pub open spec fn only_device(listed: Result<Seq<u64>, ErrorView>) -> Result<u64, CliErrorView> {
    match listed {
        Err(e) => Err(CliErrorView::Device { context: "list devices"@, source: e }),
        Ok(locations) => if locations.len() == 0 {
            Err(
                CliErrorView::Plain {
                    kind: CliErrorKind::NoDevice,
                    message: "no MTP device found"@,
                },
            )
        } else if locations.len() == 1 {
            Ok(locations[0])
        } else {
            Err(
                CliErrorView::Plain {
                    kind: CliErrorKind::AmbiguousSelection,
                    message: "multiple MTP devices found; pass --device SERIAL or --location LOCATION"@,
                },
            )
        },
    }
}

/// Find where the one device there is stands, among the locations of the devices that were listed.
pub fn find_only_device(listed: Result<Vec<u64>, Error>) -> (r: Result<u64, CliError>)
    ensures
        error::cli_outcome(r) == only_device(
            match listed {
                Ok(locations) => Ok(locations@),
                Err(e) => Err(e@),
            },
        ),
{
    match listed {
        Err(e) => Err(CliError::from_mtp("list devices", e)),
        Ok(locations) => {
            if locations.len() == 0 {
                Err(CliError::new(CliErrorKind::NoDevice, "no MTP device found"))
            } else if locations.len() == 1 {
                Ok(locations[0])
            } else {
                Err(
                    CliError::new(
                        CliErrorKind::AmbiguousSelection,
                        "multiple MTP devices found; pass --device SERIAL or --location LOCATION",
                    ),
                )
            }
        },
    }
}

/// What is reported of a reset.
#[derive(Debug)]
pub struct ResetRow {
    pub reset: bool,
    /// The model, where the device answered after the reset.
    pub responding_model: Option<String>,
}

/// The step of a reset that can fail it.
#[derive(Debug, Clone, Copy, PartialEq, Eq, Structural)]
pub enum ResetStep {
    Open,
    Reset,
}

/// Why a reset failed.
pub fn reset_failure(step: ResetStep, source: Error) -> (r: CliError)
    ensures
        r@ == (CliErrorView::Device {
            context: match step {
                ResetStep::Open => "open device"@,
                ResetStep::Reset => "reset device"@,
            },
            source: source@,
        }),
{
    match step {
        ResetStep::Open => CliError::from_mtp("open device", source),
        ResetStep::Reset => CliError::from_mtp("reset device", source),
    }
}

impl ResetRow {
    /// Report a reset that was sent. A device that does not answer afterwards is no failure: some need a
    /// moment.
    pub fn new(answer: Result<String, Error>) -> (r: Self)
        ensures
            r.reset,
            match answer {
                Ok(model) => r.responding_model matches Some(m) && m@ == model@,
                Err(_) => r.responding_model is None,
            },
    {
        ResetRow {
            reset: true,
            responding_model: match answer {
                Ok(model) => Some(model),
                Err(_) => None,
            },
        }
    }

    /// The line that reports the reset.
    pub fn line(&self) -> (r: String)
        ensures
            r@ == (match self.responding_model {
                Some(model) => "Reset OK, device responding: "@ + model@,
                None => "Reset sent, but the device didn't answer GetDeviceInfo yet. Give it a moment or replug if it stays silent."@,
            }),
    {
        match &self.responding_model {
            Some(model) => {
                let mut r = "Reset OK, device responding: ".to_owned();
                r.append(model.as_str());
                r
            },
            None => "Reset sent, but the device didn't answer GetDeviceInfo yet. Give it a moment or replug if it stays silent.".to_owned(),
        }
    }
}

} // verus!
