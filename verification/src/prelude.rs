//! The most important items of the crate, for glob import by users.

pub use crate::Bytes;
pub use crate::Ulid;
