//! Errors of the FIX engine.
use vstd::prelude::*;
use vstd::string::*;
use crate::fix::text::push_decimal_chars;
use crate::fix::wire::decimal_chars;

verus! {

#[verifier::external_type_specification]
#[verifier::external_body]
pub struct ExIoError(std::io::Error);

/// Everything that can go wrong while reading or framing FIX messages.
#[derive(Debug)]
pub enum FixError {
    Io(std::io::Error),
    Parse(String),
    ChecksumMismatch { expected: u8, actual: u8 },
    /// Tag 9 (BodyLength) framing is inconsistent with the bytes actually
    /// present: the declared length lands inside the buffer but does not
    /// point at the CheckSum field. (Distinct from "not enough bytes yet",
    /// which is `Ok(None)`, not an error.)
    BodyLengthFraming(String),
    /// The frame's CheckSum field (tag 10) is missing where BodyLength said
    /// it would be, or is not a parseable numeric value.
    MissingChecksumField(String),
    /// Catch-all for a structurally malformed frame at the current `8=`
    /// start (e.g. no `9=` after `8=`, non-numeric BodyLength).
    MalformedFrame { reason: String },
}

/// A `FixError` as data: the variant and its text or numbers.
pub enum FixErrorView {
    Io,
    Parse(Seq<char>),
    ChecksumMismatch { expected: u8, actual: u8 },
    BodyLengthFraming(Seq<char>),
    MissingChecksumField(Seq<char>),
    MalformedFrame(Seq<char>),
}

impl View for FixError {
    type V = FixErrorView;

    open spec fn view(&self) -> FixErrorView {
        match self {
            FixError::Io(_) => FixErrorView::Io,
            FixError::Parse(s) => FixErrorView::Parse(s@),
            FixError::ChecksumMismatch { expected, actual } => FixErrorView::ChecksumMismatch {
                expected: *expected,
                actual: *actual,
            },
            FixError::BodyLengthFraming(s) => FixErrorView::BodyLengthFraming(s@),
            FixError::MissingChecksumField(s) => FixErrorView::MissingChecksumField(s@),
            FixError::MalformedFrame { reason } => FixErrorView::MalformedFrame(reason@),
        }
    }
}

/// The message text of each error other than `Io`.
pub open spec fn error_text(e: FixErrorView) -> Seq<char> {
    match e {
        FixErrorView::Io => "I/O error: "@,
        FixErrorView::Parse(s) => "Parse error: "@ + s,
        FixErrorView::ChecksumMismatch { expected, actual } => "Checksum mismatch: expected "@
            + decimal_chars(expected as nat) + ", got "@ + decimal_chars(actual as nat),
        FixErrorView::BodyLengthFraming(s) => "BodyLength framing error: "@ + s,
        FixErrorView::MissingChecksumField(s) => "missing or malformed CheckSum field: "@ + s,
        FixErrorView::MalformedFrame(s) => "malformed FIX frame: "@ + s,
    }
}

/// Calls `std::io::Error`'s `Display`. Trusted for nothing: the text of an
/// I/O error depends on the operating system and is not stated.
#[verifier::external_body]
fn io_error_text(e: &std::io::Error) -> String {
    e.to_string()
}

impl FixError {
    /// The human-readable message of the error.
    pub fn to_string(&self) -> (s: String)
        ensures
            self@ is Io ==> exists|t: Seq<char>| s@ == error_text(self@) + t,
            !(self@ is Io) ==> s@ == error_text(self@),
    {
        match self {
            FixError::Io(e) => {
                let mut s = String::from_str("I/O error: ");
                let t = io_error_text(e);
                s.append(t.as_str());
                assert(s@ == error_text(self@) + t@);
                s
            },
            FixError::Parse(m) => {
                let mut s = String::from_str("Parse error: ");
                s.append(m.as_str());
                s
            },
            FixError::ChecksumMismatch { expected, actual } => {
                let mut s = String::from_str("Checksum mismatch: expected ");
                push_decimal_chars(&mut s, *expected as u64);
                s.append(", got ");
                push_decimal_chars(&mut s, *actual as u64);
                s
            },
            FixError::BodyLengthFraming(m) => {
                let mut s = String::from_str("BodyLength framing error: ");
                s.append(m.as_str());
                s
            },
            FixError::MissingChecksumField(m) => {
                let mut s = String::from_str("missing or malformed CheckSum field: ");
                s.append(m.as_str());
                s
            },
            FixError::MalformedFrame { reason } => {
                let mut s = String::from_str("malformed FIX frame: ");
                s.append(reason.as_str());
                s
            },
        }
    }
}

impl From<std::io::Error> for FixError {
    fn from(e: std::io::Error) -> (r: FixError) {
        FixError::Io(e)
    }
}

impl vstd::std_specs::convert::FromSpecImpl<std::io::Error> for FixError {
    open spec fn obeys_from_spec() -> bool {
        true
    }

    open spec fn from_spec(e: std::io::Error) -> FixError {
        FixError::Io(e)
    }
}

} // verus!
