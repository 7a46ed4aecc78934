//! Stand-alone VarInt and string codecs that read byte by byte from a stream.
pub mod string;
pub mod varint;
