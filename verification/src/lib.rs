//! A copyable UUID string: the canonical 36-byte lowercase hyphenated text of a
//! UUID, held inline in a fixed-size buffer.

pub mod codec;
pub mod error;
pub mod laws;
pub mod text;
pub mod uuid_str;

pub use error::ParseError;
pub use uuid_str::UuidStr;
