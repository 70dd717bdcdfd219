//! Backend-neutral types.

use vstd::prelude::*;

use crate::ptp::{PtpHandle, PtpObjectInfo, PtpStorageId};

verus! {

/// A backend-neutral object handle.
#[derive(Debug, Clone, Copy, PartialEq, Eq, Structural)]
pub struct ObjectHandle(pub u64);

/// A backend-neutral storage ID.
#[derive(Debug, Clone, Copy, PartialEq, Eq, Structural)]
pub struct StorageId(pub u64);

/// The 32-bit PTP handle behind a neutral handle.
pub open spec fn ptp_handle(h: ObjectHandle) -> PtpHandle {
    PtpHandle((h.0 % 0x1_0000_0000) as u32)
}

/// The neutral form of a PTP handle.
pub open spec fn neutral_handle(h: PtpHandle) -> ObjectHandle {
    ObjectHandle(h.0 as u64)
}

/// The 32-bit PTP storage ID behind a neutral one.
pub open spec fn ptp_storage(id: StorageId) -> PtpStorageId {
    PtpStorageId((id.0 % 0x1_0000_0000) as u32)
}

/// The neutral form of a PTP storage ID.
pub open spec fn neutral_storage(id: PtpStorageId) -> StorageId {
    StorageId(id.0 as u64)
}

/// A PTP handle or storage ID survives the trip through its neutral form.
pub proof fn law_neutral_ids_keep_ptp_ids(h: PtpHandle, id: PtpStorageId)
    ensures
        ptp_handle(neutral_handle(h)) == h,
        ptp_storage(neutral_storage(id)) == id,
{
}

impl ObjectHandle {
    /// The 32-bit PTP handle: the low half of the neutral one.
    pub fn to_ptp(self) -> (r: PtpHandle)
        ensures
            r == ptp_handle(self),
    {
        PtpHandle((self.0 % 0x1_0000_0000) as u32)
    }

    /// The neutral form of a PTP handle.
    pub fn from_ptp(h: PtpHandle) -> (r: ObjectHandle)
        ensures
            r == neutral_handle(h),
    {
        ObjectHandle(h.0 as u64)
    }
}

impl StorageId {
    /// The 32-bit PTP storage ID: the low half of the neutral one.
    pub fn to_ptp(self) -> (r: PtpStorageId)
        ensures
            r == ptp_storage(self),
    {
        PtpStorageId((self.0 % 0x1_0000_0000) as u32)
    }

    /// The neutral form of a PTP storage ID.
    pub fn from_ptp(id: PtpStorageId) -> (r: StorageId)
        ensures
            r == neutral_storage(id),
    {
        StorageId(id.0 as u64)
    }
}

/// The object format that marks a folder.
pub const FORMAT_ASSOCIATION: u16 = 0x3001;

/// Metadata of one object.
#[derive(Debug)]
pub struct ObjectInfo {
    pub handle: ObjectHandle,
    pub storage_id: StorageId,
    pub parent: ObjectHandle,
    pub format: u16,
    pub size: u64,
    pub filename: String,
}

/// An [`ObjectInfo`] with its name as a sequence of characters.
pub struct ObjectInfoView {
    pub handle: ObjectHandle,
    pub storage_id: StorageId,
    pub parent: ObjectHandle,
    pub format: u16,
    pub size: u64,
    pub filename: Seq<char>,
}

impl View for ObjectInfo {
    type V = ObjectInfoView;

    open spec fn view(&self) -> ObjectInfoView {
        ObjectInfoView {
            handle: self.handle,
            storage_id: self.storage_id,
            parent: self.parent,
            format: self.format,
            size: self.size,
            filename: self.filename@,
        }
    }
}

impl ObjectInfoView {
    /// Whether the object is a folder.
    pub open spec fn is_folder(self) -> bool {
        self.format == FORMAT_ASSOCIATION
    }
}

/// The neutral metadata of an object, filed under the handle it was asked for.
pub open spec fn neutral_object(info: PtpObjectInfo, handle: PtpHandle) -> ObjectInfoView {
    ObjectInfoView {
        handle: neutral_handle(handle),
        storage_id: neutral_storage(info.storage_id),
        parent: neutral_handle(info.parent),
        format: info.format,
        size: info.size,
        filename: info.filename@,
    }
}

impl ObjectInfo {
    /// The neutral metadata of an object, filed under the handle it was asked for: a device that
    /// answers with another handle, or with none, is not believed.
    pub fn from_ptp(info: PtpObjectInfo, handle: PtpHandle) -> (r: ObjectInfo)
        ensures
            r@ == neutral_object(info, handle),
    {
        ObjectInfo {
            handle: ObjectHandle::from_ptp(handle),
            storage_id: StorageId::from_ptp(info.storage_id),
            parent: ObjectHandle::from_ptp(info.parent),
            format: info.format,
            size: info.size,
            filename: info.filename,
        }
    }

    /// Whether this object is a folder.
    pub fn is_folder(&self) -> (r: bool)
        ensures
            r == self@.is_folder(),
    {
        self.format == FORMAT_ASSOCIATION
    }

    /// Whether this object is a file.
    pub fn is_file(&self) -> (r: bool)
        ensures
            r == !self@.is_folder(),
    {
        self.format != FORMAT_ASSOCIATION
    }
}

/// What a device says of one storage.
#[derive(Debug)]
pub struct StorageInfo {
    pub id: StorageId,
    pub description: String,
    pub total_capacity: u64,
    pub free_space: u64,
    pub is_writable: bool,
}

/// Device identity.
#[derive(Debug)]
pub struct DeviceInfo {
    pub manufacturer: String,
    pub model: String,
    pub serial_number: String,
}

/// What a device supports.
#[derive(Debug, Clone, Copy, PartialEq, Eq, Structural)]
pub struct Capabilities {
    pub can_upload: bool,
    pub can_delete: bool,
    pub can_rename: bool,
    pub can_move: bool,
    pub can_copy: bool,
    pub can_create_folder: bool,
    pub supports_partial_download: bool,
    pub supports_thumbnails: bool,
    pub supports_events: bool,
}

/// Negotiated USB link speed.
#[derive(Debug, Clone, Copy, PartialEq, Eq, Structural)]
pub enum UsbSpeed {
    Low,
    Full,
    High,
    Super,
    SuperPlus,
}

/// Why a USB device was classified as an MTP candidate.
#[derive(Debug, Clone, Copy, PartialEq, Eq, Structural)]
pub enum MtpMatchReason {
    /// Its descriptors carry the standard MTP class codes.
    StandardClass,
    /// Its vendor and product IDs are on the list of known devices.
    KnownVidPid,
    /// Its descriptors look like MTP in some other way.
    Other,
}

} // verus!
