//! Minecraft network protocol: wire data types, packet framing and packet
//! encoders/decoders, with their behaviour stated and proved.
pub mod client;
pub mod chunk_pool;
pub mod commands;
pub mod data_types;
pub mod entity;
pub mod events;
pub mod handlers;

pub mod nbt_map;
pub mod packets;
pub mod summon;
pub mod text;

use vstd::prelude::*;

verus! {

broadcast use vstd::string::group_string_axioms;

/// The standard library's I/O error, carried through unchanged.
#[verifier::external_type_specification]
#[verifier::external_body]
pub struct ExIoError(std::io::Error);

/// What went wrong while decoding.
#[derive(Debug)]
pub enum DecodingError {
    IoError(std::io::Error),
    NotEnoughBytes,
    ParseError { data_type: String, message: String },
}

/// A decoding error with its texts as character sequences.
pub enum DecodingErrorView {
    IoError,
    NotEnoughBytes,
    ParseError { data_type: Seq<char>, message: Seq<char> },
}

impl View for DecodingError {
    type V = DecodingErrorView;

    open spec fn view(&self) -> DecodingErrorView {
        match self {
            DecodingError::IoError(_) => DecodingErrorView::IoError,
            DecodingError::NotEnoughBytes => DecodingErrorView::NotEnoughBytes,
            DecodingError::ParseError { data_type, message } => DecodingErrorView::ParseError {
                data_type: data_type@,
                message: message@,
            },
        }
    }
}

pub type DecodingResult<T> = Result<T, DecodingError>;

/// Whether `e` is of the kind "unexpected end of file".
///
/// Calls `std::io::Error::kind`; nothing is claimed of the answer.
#[verifier::external_body]
fn io_error_is_unexpected_eof(e: &std::io::Error) -> bool {
    e.kind() == std::io::ErrorKind::UnexpectedEof
}

impl DecodingError {
    pub fn parse_error(data_type: &str, message: &str) -> (e: Self)
        ensures
            e@ == (DecodingErrorView::ParseError { data_type: data_type@, message: message@ }),
    {
        DecodingError::ParseError { data_type: data_type.to_string(), message: message.to_string() }
    }

    /// The decoding error that an I/O error stands for: running out of input
    /// is `NotEnoughBytes`, anything else is carried as it is.
    pub fn from_io(error: std::io::Error) -> (e: Self)
        ensures
            e@ == DecodingErrorView::NotEnoughBytes || e@ == DecodingErrorView::IoError,
            e matches DecodingError::IoError(carried) ==> carried == error,
    {
        if io_error_is_unexpected_eof(&error) {
            DecodingError::NotEnoughBytes
        } else {
            DecodingError::IoError(error)
        }
    }
}

} // verus!
