//! The bytes of a model file.

use vstd::prelude::*;

verus! {

/// The least length of a model file.
pub const MIN_MODEL_BYTES: u64 = 32;

/// Why a model file could not be mapped.
#[derive(Clone, Copy, Debug, PartialEq, Eq, Structural)]
pub enum MapError {
    /// Shorter than any model file.
    TooSmall,
    /// Longer than the address space.
    TooLarge,
    /// The system refused.
    Io,
}

impl MapError {
    /// The data itself is at fault, not the system.
    pub open spec fn invalid_data(self) -> bool {
        self is TooSmall || self is TooLarge
    }
}

/// What is wrong with a file of `len` bytes.
pub open spec fn len_fault(len: u64) -> Option<MapError> {
    if len < MIN_MODEL_BYTES {
        Some(MapError::TooSmall)
    } else if len > isize::MAX {
        Some(MapError::TooLarge)
    } else {
        None
    }
}

/// The number of bytes to map for a file of `len` bytes.
pub fn mappable_len(len: u64) -> (r: Result<usize, MapError>)
    ensures
        match r {
            Ok(n) => len_fault(len) is None && n == len,
            Err(e) => len_fault(len) == Some(e),
        },
{
    if len < MIN_MODEL_BYTES {
        return Err(MapError::TooSmall);
    }
    if len > isize::MAX as u64 {
        return Err(MapError::TooLarge);
    }
    Ok(len as usize)
}

/// A model file, read only: the mapping is the file, and nothing is copied out
/// of it.
pub struct MappedFile<'a> {
    bytes: &'a [u8],
}

impl<'a> MappedFile<'a> {
    pub closed spec fn spec_bytes(self) -> Seq<u8> {
        self.bytes@
    }

    /// The file that is mapped at `bytes`, where its length allows it.
    pub fn from_bytes(bytes: &'a [u8]) -> (r: Result<MappedFile<'a>, MapError>)
        ensures
            match r {
                Ok(m) => len_fault(bytes@.len() as u64) is None && m.spec_bytes() == bytes@,
                Err(e) => len_fault(bytes@.len() as u64) == Some(e),
            },
    {
        match mappable_len(bytes.len() as u64) {
            Ok(_) => Ok(MappedFile { bytes }),
            Err(e) => Err(e),
        }
    }

    /// The bytes of the file.
    pub fn as_slice(&self) -> (r: &'a [u8])
        ensures
            r@ == self.spec_bytes(),
    {
        self.bytes
    }
}

/// The page size that the system reported, 4096 where it reported none.
pub fn page_size(reported: i64) -> (r: u64)
    ensures
        r == if reported > 0 {
            reported as int
        } else {
            4096
        },
{
    if reported > 0 {
        reported as u64
    } else {
        4096
    }
}

} // verus!
