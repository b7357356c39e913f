//! A file-backed store of learner profiles: guests, classrooms with their
//! students, and per-level progress, held as one JSON document.

pub mod codec;
pub mod json;
pub mod laws;
pub mod schema;
pub mod store;

pub use codec::{decode, decode_tree, encode, encode_tree, DecodeError, JsonRecord};
pub use json::JsonValue;
pub use store::{check_data_dir, read_store, store_file_name, StoreError};
pub use schema::{default_version, ClassRoom, GuestProfile, LevelProgress, ProfileStore, StudentProfile, TeacherInfo};
