//! Errors of the skry wire protocol.
//!
//! Two families: failures of the underlying input (it ran out before a value
//! was complete) and violations of the protocol itself. Nothing malformed is
//! ever accepted as data: every deviation yields an explicit error.

use vstd::prelude::*;

verus! {

#[verifier::external_type_specification]
#[verifier::external_body]
pub struct ExIoError(std::io::Error);

/// Errors of the skry protocol.
#[derive(Debug)]
pub enum ProtoError {
    /// Failure of the underlying I/O while reading or writing.
    Io(std::io::Error),
    /// The handshake magic is not "SKRY".
    BadMagic([u8; 4]),
    /// Client and server speak different protocol versions.
    VersionMismatch { expected: u16, found: u16 },
    /// Unknown enum discriminant (codec, gear, message tag).
    UnknownDiscriminant { kind: &'static str, value: u8 },
    /// A length field exceeds its maximum.
    LengthExceeded { kind: &'static str, len: u64, max: u64 },
    /// A string is not valid UTF-8.
    InvalidUtf8,
    /// When writing a frame, `header.len` differs from the payload size.
    FrameLenMismatch { header_len: u32, payload_len: usize },
    /// A buffer of the declared size could not be allocated.
    AllocFailed { kind: &'static str, bytes: usize },
}

/// What a [`ProtoError`] says, with the I/O failure reduced to its presence.
pub enum ProtoErrorView {
    Io,
    BadMagic(Seq<u8>),
    VersionMismatch { expected: u16, found: u16 },
    UnknownDiscriminant { kind: Seq<char>, value: u8 },
    LengthExceeded { kind: Seq<char>, len: u64, max: u64 },
    InvalidUtf8,
    FrameLenMismatch { header_len: u32, payload_len: usize },
    AllocFailed { kind: Seq<char>, bytes: usize },
}

impl View for ProtoError {
    type V = ProtoErrorView;

    open spec fn view(&self) -> ProtoErrorView {
        match self {
            ProtoError::Io(_) => ProtoErrorView::Io,
            ProtoError::BadMagic(m) => ProtoErrorView::BadMagic(m@),
            ProtoError::VersionMismatch { expected, found } => ProtoErrorView::VersionMismatch {
                expected: *expected,
                found: *found,
            },
            ProtoError::UnknownDiscriminant { kind, value } => ProtoErrorView::UnknownDiscriminant {
                kind: kind@,
                value: *value,
            },
            ProtoError::LengthExceeded { kind, len, max } => ProtoErrorView::LengthExceeded {
                kind: kind@,
                len: *len,
                max: *max,
            },
            ProtoError::InvalidUtf8 => ProtoErrorView::InvalidUtf8,
            ProtoError::FrameLenMismatch { header_len, payload_len } =>
                ProtoErrorView::FrameLenMismatch {
                header_len: *header_len,
                payload_len: *payload_len,
            },
            ProtoError::AllocFailed { kind, bytes } => ProtoErrorView::AllocFailed {
                kind: kind@,
                bytes: *bytes,
            },
        }
    }
}

/// The outcome of decoding a prefix of some bytes: the value or the error,
/// and how many bytes were consumed to reach it.
pub type Decoded<V> = (Result<V, ProtoErrorView>, int);

/// A read that ran out of input: the error is an I/O failure and the whole
/// input is consumed (as `read_exact` on a byte slice does).
pub open spec fn truncated<V>(s: Seq<u8>) -> Decoded<V> {
    (Err(ProtoErrorView::Io), s.len() as int)
}

/// A result, seen through the views of its value and its error.
pub open spec fn view_result<T: View>(r: Result<T, ProtoError>) -> Result<T::V, ProtoErrorView> {
    match r {
        Ok(v) => Ok(v@),
        Err(e) => Err(e@),
    }
}

/// `std::io::Error::new`: the error of a read that found the input exhausted.
#[verifier::external_body]
pub(crate) fn unexpected_eof() -> std::io::Error {
    std::io::Error::new(std::io::ErrorKind::UnexpectedEof, "failed to fill whole buffer")
}

impl ProtoError {
    /// The underlying I/O failure, when there is one.
    pub fn source(&self) -> (r: Option<&std::io::Error>)
        ensures
            r is Some <==> self is Io,
            r matches Some(e) ==> *self == ProtoError::Io(*e),
    {
        match self {
            ProtoError::Io(e) => Some(e),
            _ => None,
        }
    }
}

impl From<std::io::Error> for ProtoError {
    fn from(e: std::io::Error) -> (r: ProtoError) {
        ProtoError::Io(e)
    }
}

impl vstd::std_specs::convert::FromSpecImpl<std::io::Error> for ProtoError {
    open spec fn obeys_from_spec() -> bool {
        true
    }

    open spec fn from_spec(e: std::io::Error) -> ProtoError {
        ProtoError::Io(e)
    }
}

} // verus!
