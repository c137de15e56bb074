//! A small persistence layer for a three-entity content model: users, posts,
//! and comments. Each user and post is one JSON document keyed by its id;
//! comments have no storage of their own and live embedded in their parent
//! post's document as untyped entries. A post may only be loaded by the user
//! that owns it; that ownership gate is the sole access control.
//!
//! The library works on document text: persisting returns the text to write
//! at the entity's key, loading takes the text read from that key (or nothing
//! when the file is absent). The caller owns the files themselves.

use vstd::prelude::*;

pub mod json;
pub mod users;
pub mod posts;
pub mod comments;

pub use users::User;
pub use posts::Post;
pub use comments::Comment;

verus! {

/// How a storage operation fails: an underlying file operation failed, the
/// document could not be encoded, or the referenced entity is absent (for
/// posts, "absent" deliberately covers "present but owned by someone else").
#[derive(Clone, Copy, Debug, PartialEq, Eq, Structural)]
pub enum StorageError {
    IoError,
    SerializationError,
    NotFound,
}

/// Relies on `uuid::Uuid::new_v4` and its hyphenated display form: a freshly
/// generated identifier, 36 characters long. Nothing else can be promised of
/// a random id. `new_v4` aborts if the operating system's random source
/// fails, an input-independent environmental failure of the same class as
/// allocation failure.
#[verifier::external_body]
pub(crate) fn fresh_uuid() -> (r: String)
    ensures
        r@.len() == 36,
{
    uuid::Uuid::new_v4().to_string()
}

} // verus!
