//! The decisions of the persistence gateway: where the store may live, and
//! what a load yields from what is on disk. Reading and writing the file
//! itself is left to the host.

use vstd::prelude::*;
use crate::codec::{decode, text_decoding, DecodeError};
use crate::schema::{empty_store, ProfileStore};

verus! {

/// The name of the store file inside the application's data directory.
pub fn store_file_name() -> (r: &'static str)
    ensures
        r@ == "profiles.json"@,
{
    "profiles.json"
}

/// Why a load or a save failed.
#[derive(Debug, Clone, Copy, PartialEq, Eq)]
pub enum StoreError {
    /// The host reported no usable data directory, or it could not be created.
    Location,
    /// The store file holds text that is not a valid document.
    Decode(DecodeError),
    /// Reading or writing the store file failed.
    Io,
}

/// Accepts the data directory the host reported, unless it is empty.
pub fn check_data_dir(dir: &str) -> (r: Result<(), StoreError>)
    ensures
        dir@.len() == 0 ==> r == Err::<(), StoreError>(StoreError::Location),
        dir@.len() != 0 ==> r is Ok,
{
    if dir.is_empty() {
        Err(StoreError::Location)
    } else {
        Ok(())
    }
}

/// What a load yields from the store file's contents, `None` where no file
/// exists: a missing or blank file is the empty document, anything else is
/// decoded.
pub fn read_store(contents: Option<&str>) -> (r: Result<ProfileStore, StoreError>)
    ensures
        match contents {
            None => r matches Ok(s) && s@ == empty_store(),
            Some(text) => match text_decoding(text@) {
                Ok(v) => r matches Ok(s) && s@ == v,
                Err(e) => r == Err::<ProfileStore, StoreError>(StoreError::Decode(e)),
            },
        },
{
    match contents {
        None => Ok(ProfileStore::default()),
        Some(text) => match decode(text) {
            Ok(s) => Ok(s),
            Err(e) => Err(StoreError::Decode(e)),
        },
    }
}

} // verus!
