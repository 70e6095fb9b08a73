//! Adapters for various string formats for [`Ulid`](crate::Ulid)s.

pub mod lowercase;
pub mod uppercase;

pub use self::lowercase::Lowercase;
pub use self::lowercase::LowercaseRef;
pub use self::uppercase::Uppercase;
pub use self::uppercase::UppercaseRef;
