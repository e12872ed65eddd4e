//! Wire codec for the Sun Ray authentication protocol: newline-delimited
//! `type key=value ...` lines, decoded from and encoded into byte buffers.

pub mod buffer;
pub mod codec;
pub mod error;
pub mod field;
pub mod laws;
pub mod message;
pub mod number;
pub mod proto;
pub mod text;

pub use codec::AuthCodec;
pub use error::CodecError;
pub use field::{FieldKind, FieldName};
pub use message::{AuthMessage, AuthMessageType, Ipv4};
pub use proto::AuthProto;
