//! Codec for a satellite short-burst-data wire format.
//!
//! A message on the wire is a protocol revision byte (always one), a
//! 16-bit big-endian overall length, and exactly that many bytes of
//! information elements, each one a tag byte, a 16-bit big-endian length,
//! and a body. Decoding parses the element sequence and assembles it into
//! a [`Message`]: exactly one header, exactly one payload, at most one
//! location, any other elements kept in arrival order. Encoding frames a
//! message back into bytes, and is proved to be inverted exactly by
//! decoding for every well-formed message.

pub mod errors;
pub mod imei;
pub mod information_element;
pub mod mo;
pub mod mt;
pub mod sbd_message;
pub mod wire;

pub use errors::Error;
pub use information_element::{Header, InformationElement};
pub use imei::Imei;
pub use sbd_message::Message;
