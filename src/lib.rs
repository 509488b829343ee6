//! Type-directed codec for the fixed-width scalar values of the native
//! columnar wire protocol.

pub mod decode;
pub mod encode;
pub mod laws;
pub mod types;
pub mod wire;

pub use decode::SizedDeserializer;
pub use encode::SizedSerializer;
pub use types::{CodecError, Type, Value};
