//! The PTP vocabulary the rest of the library speaks: handles, storage IDs, operation and
//! response codes, and the object record a device hands out.

use vstd::prelude::*;

use crate::text;

verus! {

/// A 32-bit PTP object handle.
#[derive(Debug, Clone, Copy, PartialEq, Eq, Structural)]
pub struct PtpHandle(pub u32);

/// The reserved handle that names the storage root as a parent.
pub const ROOT_HANDLE: u32 = 0;

/// The reserved handle that asks for every object, or for the root's children.
pub const ALL_HANDLE: u32 = 0xFFFF_FFFF;

/// The parent that `SendObjectInfo` takes for the storage root.
pub const SEND_ROOT_HANDLE: u32 = 0xFFFF_FFFF;

/// A 32-bit PTP storage ID.
#[derive(Debug, Clone, Copy, PartialEq, Eq, Structural)]
pub struct PtpStorageId(pub u32);

/// The response codes the library tells apart; every other code is [`ResponseCode::Unknown`].
#[derive(Debug, Clone, Copy, PartialEq, Eq, Structural)]
pub enum ResponseCode {
    GeneralError,
    SessionNotOpen,
    OperationNotSupported,
    ParameterNotSupported,
    InvalidStorageId,
    InvalidObjectHandle,
    StoreFull,
    ObjectWriteProtected,
    StoreReadOnly,
    AccessDenied,
    DeviceBusy,
    InvalidParentObject,
    InvalidParameter,
    TransactionCancelled,
    SessionAlreadyOpen,
    ObjectTooLarge,
    Unknown(u16),
}

/// The name of a response code, as diagnostics print it.
pub open spec fn response_name(code: ResponseCode) -> Seq<char> {
    match code {
        ResponseCode::GeneralError => "GeneralError"@,
        ResponseCode::SessionNotOpen => "SessionNotOpen"@,
        ResponseCode::OperationNotSupported => "OperationNotSupported"@,
        ResponseCode::ParameterNotSupported => "ParameterNotSupported"@,
        ResponseCode::InvalidStorageId => "InvalidStorageId"@,
        ResponseCode::InvalidObjectHandle => "InvalidObjectHandle"@,
        ResponseCode::StoreFull => "StoreFull"@,
        ResponseCode::ObjectWriteProtected => "ObjectWriteProtected"@,
        ResponseCode::StoreReadOnly => "StoreReadOnly"@,
        ResponseCode::AccessDenied => "AccessDenied"@,
        ResponseCode::DeviceBusy => "DeviceBusy"@,
        ResponseCode::InvalidParentObject => "InvalidParentObject"@,
        ResponseCode::InvalidParameter => "InvalidParameter"@,
        ResponseCode::TransactionCancelled => "TransactionCancelled"@,
        ResponseCode::SessionAlreadyOpen => "SessionAlreadyOpen"@,
        ResponseCode::ObjectTooLarge => "ObjectTooLarge"@,
        ResponseCode::Unknown(n) => "Unknown("@ + text::decimal(n as nat) + ")"@,
    }
}

impl ResponseCode {
    /// The name of this code, as diagnostics print it.
    pub fn name(self) -> (r: String)
        ensures
            r@ == response_name(self),
    {
        match self {
            ResponseCode::GeneralError => "GeneralError".to_owned(),
            ResponseCode::SessionNotOpen => "SessionNotOpen".to_owned(),
            ResponseCode::OperationNotSupported => "OperationNotSupported".to_owned(),
            ResponseCode::ParameterNotSupported => "ParameterNotSupported".to_owned(),
            ResponseCode::InvalidStorageId => "InvalidStorageId".to_owned(),
            ResponseCode::InvalidObjectHandle => "InvalidObjectHandle".to_owned(),
            ResponseCode::StoreFull => "StoreFull".to_owned(),
            ResponseCode::ObjectWriteProtected => "ObjectWriteProtected".to_owned(),
            ResponseCode::StoreReadOnly => "StoreReadOnly".to_owned(),
            ResponseCode::AccessDenied => "AccessDenied".to_owned(),
            ResponseCode::DeviceBusy => "DeviceBusy".to_owned(),
            ResponseCode::InvalidParentObject => "InvalidParentObject".to_owned(),
            ResponseCode::InvalidParameter => "InvalidParameter".to_owned(),
            ResponseCode::TransactionCancelled => "TransactionCancelled".to_owned(),
            ResponseCode::SessionAlreadyOpen => "SessionAlreadyOpen".to_owned(),
            ResponseCode::ObjectTooLarge => "ObjectTooLarge".to_owned(),
            ResponseCode::Unknown(n) => {
                let mut s = "Unknown(".to_owned();
                s.append(text::write_decimal(n as u64).as_str());
                s.append(")");
                s
            },
        }
    }
}

/// The operation codes the library issues or tells apart; every other code is
/// [`OperationCode::Unknown`].
#[derive(Debug, Clone, Copy, PartialEq, Eq, Structural)]
pub enum OperationCode {
    GetDeviceInfo,
    OpenSession,
    CloseSession,
    GetObjectHandles,
    GetObjectInfo,
    GetObject,
    DeleteObject,
    SendObjectInfo,
    SendObject,
    MoveObject,
    CopyObject,
    GetPartialObject,
    GetObjectPropValue,
    SetObjectPropValue,
    GetPartialObject64,
    Unknown(u16),
}

/// The name of an operation code, as diagnostics print it.
pub open spec fn operation_name(code: OperationCode) -> Seq<char> {
    match code {
        OperationCode::GetDeviceInfo => "GetDeviceInfo"@,
        OperationCode::OpenSession => "OpenSession"@,
        OperationCode::CloseSession => "CloseSession"@,
        OperationCode::GetObjectHandles => "GetObjectHandles"@,
        OperationCode::GetObjectInfo => "GetObjectInfo"@,
        OperationCode::GetObject => "GetObject"@,
        OperationCode::DeleteObject => "DeleteObject"@,
        OperationCode::SendObjectInfo => "SendObjectInfo"@,
        OperationCode::SendObject => "SendObject"@,
        OperationCode::MoveObject => "MoveObject"@,
        OperationCode::CopyObject => "CopyObject"@,
        OperationCode::GetPartialObject => "GetPartialObject"@,
        OperationCode::GetObjectPropValue => "GetObjectPropValue"@,
        OperationCode::SetObjectPropValue => "SetObjectPropValue"@,
        OperationCode::GetPartialObject64 => "GetPartialObject64"@,
        OperationCode::Unknown(n) => "Unknown("@ + text::decimal(n as nat) + ")"@,
    }
}

/// The operation that a code on the wire names.
pub open spec fn operation_of(code: u16) -> OperationCode {
    if code == 0x1001 {
        OperationCode::GetDeviceInfo
    } else if code == 0x1002 {
        OperationCode::OpenSession
    } else if code == 0x1003 {
        OperationCode::CloseSession
    } else if code == 0x1007 {
        OperationCode::GetObjectHandles
    } else if code == 0x1008 {
        OperationCode::GetObjectInfo
    } else if code == 0x1009 {
        OperationCode::GetObject
    } else if code == 0x100B {
        OperationCode::DeleteObject
    } else if code == 0x100C {
        OperationCode::SendObjectInfo
    } else if code == 0x100D {
        OperationCode::SendObject
    } else if code == 0x1019 {
        OperationCode::MoveObject
    } else if code == 0x101A {
        OperationCode::CopyObject
    } else if code == 0x101B {
        OperationCode::GetPartialObject
    } else if code == 0x9803 {
        OperationCode::GetObjectPropValue
    } else if code == 0x9804 {
        OperationCode::SetObjectPropValue
    } else if code == 0x95C1 {
        OperationCode::GetPartialObject64
    } else {
        OperationCode::Unknown(code)
    }
}

/// Whether the host sends a data phase after the command container of this operation.
pub open spec fn has_host_data_phase(op: OperationCode) -> bool {
    op is SendObjectInfo || op is SendObject || op is SetObjectPropValue
}

impl OperationCode {
    /// The operation that a code on the wire names.
    pub fn from_code(code: u16) -> (r: OperationCode)
        ensures
            r == operation_of(code),
    {
        match code {
            0x1001 => OperationCode::GetDeviceInfo,
            0x1002 => OperationCode::OpenSession,
            0x1003 => OperationCode::CloseSession,
            0x1007 => OperationCode::GetObjectHandles,
            0x1008 => OperationCode::GetObjectInfo,
            0x1009 => OperationCode::GetObject,
            0x100B => OperationCode::DeleteObject,
            0x100C => OperationCode::SendObjectInfo,
            0x100D => OperationCode::SendObject,
            0x1019 => OperationCode::MoveObject,
            0x101A => OperationCode::CopyObject,
            0x101B => OperationCode::GetPartialObject,
            0x9803 => OperationCode::GetObjectPropValue,
            0x9804 => OperationCode::SetObjectPropValue,
            0x95C1 => OperationCode::GetPartialObject64,
            other => OperationCode::Unknown(other),
        }
    }

    /// The name of this code, as diagnostics print it.
    pub fn name(self) -> (r: String)
        ensures
            r@ == operation_name(self),
    {
        match self {
            OperationCode::GetDeviceInfo => "GetDeviceInfo".to_owned(),
            OperationCode::OpenSession => "OpenSession".to_owned(),
            OperationCode::CloseSession => "CloseSession".to_owned(),
            OperationCode::GetObjectHandles => "GetObjectHandles".to_owned(),
            OperationCode::GetObjectInfo => "GetObjectInfo".to_owned(),
            OperationCode::GetObject => "GetObject".to_owned(),
            OperationCode::DeleteObject => "DeleteObject".to_owned(),
            OperationCode::SendObjectInfo => "SendObjectInfo".to_owned(),
            OperationCode::SendObject => "SendObject".to_owned(),
            OperationCode::MoveObject => "MoveObject".to_owned(),
            OperationCode::CopyObject => "CopyObject".to_owned(),
            OperationCode::GetPartialObject => "GetPartialObject".to_owned(),
            OperationCode::GetObjectPropValue => "GetObjectPropValue".to_owned(),
            OperationCode::SetObjectPropValue => "SetObjectPropValue".to_owned(),
            OperationCode::GetPartialObject64 => "GetPartialObject64".to_owned(),
            OperationCode::Unknown(n) => {
                let mut s = "Unknown(".to_owned();
                s.append(text::write_decimal(n as u64).as_str());
                s.append(")");
                s
            },
        }
    }

    /// Whether the host sends a data phase after the command container of this operation.
    pub fn expects_host_data(self) -> (r: bool)
        ensures
            r == has_host_data_phase(self),
    {
        match self {
            OperationCode::SendObjectInfo
            | OperationCode::SendObject
            | OperationCode::SetObjectPropValue => true,
            _ => false,
        }
    }
}

/// The metadata a device answers `GetObjectInfo` with, as far as the library reads it.
#[derive(Debug)]
pub struct PtpObjectInfo {
    pub handle: PtpHandle,
    pub storage_id: PtpStorageId,
    pub parent: PtpHandle,
    pub format: u16,
    pub size: u64,
    pub filename: String,
}

} // verus!
