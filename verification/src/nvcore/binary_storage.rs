//! Where binary data (audio, video, images, large manuscripts) is kept:
//! inside the project file, or in files on disk.
use vstd::prelude::*;
use crate::nvcore::ecs::Id;

verus! {

/// A path inside the project.
pub struct VirtualPath(pub String);

/// Data that can be kept as bytes.
pub trait BinaryStorageTy {
    fn to_bytes(&self) -> Vec<u8>;
}

/// Data kept in a file on disk.
pub struct BinaryFileItem<T: BinaryStorageTy> {
    pub id: Id,
    pub path: String,
    pub data: T,
}

/// Data kept inside the project file.
pub struct BinaryInternalItem<T: BinaryStorageTy> {
    pub id: Id,
    pub data: T,
}

/// The storage inside the project file.
pub struct InternalStorage {}

/// Where data is kept.
pub enum StorageKind {
    /// Inside the project file.
    Internal(InternalStorage),
    /// In a file on disk, at the path.
    File(String),
}

/// A storage that hands out the bytes of an item.
pub trait StorageTy {
    fn fetch(&self, id: Id) -> Option<Vec<u8>>;
}

/// The directory where binary data is kept.
pub struct BinaryStorage {
    pub path: String,
}

} // verus!
