//! Text handling for the wire format: UTF-8 decoding of byte runs, and the
//! std formatting that error messages are built from.
use vstd::prelude::*;
use vstd::utf8::*;
use vstd::string::*;
use crate::fix::wire::{decimal, decimal_chars};

verus! {

broadcast use vstd::seq::group_seq_axioms;

/// The text that `std::str::Utf8Error`'s `Display` gives for the error that
/// `std::str::from_utf8` reports on these bytes.
pub uninterp spec fn utf8_error_text(bytes: Seq<u8>) -> Seq<char>;

/// The text that `str`'s `Debug` gives (the quoted, escaped string).
pub uninterp spec fn debug_text(s: Seq<char>) -> Seq<char>;

/// Calls `std::str::from_utf8`. Trusted: it succeeds exactly on well-formed
/// UTF-8 (vstd's `valid_utf8`) and then hands back a `str` over the same
/// bytes; on failure the `Display` text of its `Utf8Error`, which depends on
/// the bytes alone, is returned under the name `utf8_error_text`.
#[verifier::external_body]
pub(crate) fn str_from_utf8(bytes: &[u8]) -> (r: Result<&str, String>)
    ensures
        r is Ok <==> valid_utf8(bytes@),
        r matches Ok(s) ==> s.spec_bytes() == bytes@,
        r matches Err(t) ==> t@ == utf8_error_text(bytes@),
{
    match std::str::from_utf8(bytes) {
        Ok(s) => Ok(s),
        Err(e) => Err(e.to_string()),
    }
}

/// Calls `format!("{:?}", s)`. Trusted: the result is the `Debug` text of
/// the string, a function of its characters alone, named `debug_text`.
#[verifier::external_body]
pub(crate) fn debug_string(s: &str) -> (r: String)
    ensures
        r@ == debug_text(s@),
{
    format!("{:?}", s)
}

/// Calls `String::push`. Trusted: the character is appended at the end.
#[verifier::external_body]
pub(crate) fn push_char(s: &mut String, c: char)
    ensures
        final(s)@ == old(s)@.push(c),
{
    s.push(c)
}

/// Appends the decimal rendering of `n` as characters.
pub(crate) fn push_decimal_chars(s: &mut String, n: u64)
    ensures
        final(s)@ == old(s)@ + decimal_chars(n as nat),
    decreases n,
{
    if n >= 10 {
        push_decimal_chars(s, n / 10);
    }
    let d: u8 = (n % 10) as u8 + 48;
    push_char(s, d as char);
    proof {
        if n >= 10 {
            assert(decimal(n as nat) == decimal((n / 10) as nat).push(d));
            assert(decimal_chars(n as nat) =~= decimal_chars((n / 10) as nat).push(d as char));
        } else {
            assert(decimal_chars(n as nat) =~= seq![d as char]);
        }
        assert(final(s)@ =~= old(s)@ + decimal_chars(n as nat));
    }
}

/// A run of bytes that starts at a character boundary of well-formed UTF-8
/// and stops just before an ASCII byte (or at the end) is itself well-formed.
pub proof fn lemma_ascii_delimited_valid(bytes: Seq<u8>, lo: int, hi: int)
    requires
        valid_utf8(bytes),
        0 <= lo <= hi <= bytes.len(),
        lo == 0 || bytes[lo - 1] < 0x80,
        hi == bytes.len() || bytes[hi] < 0x80,
    ensures
        valid_utf8(bytes.subrange(lo, hi)),
{
    broadcast use is_char_boundary_start_end_of_seq, is_char_boundary_iff_not_is_continuation_byte;

    lemma_boundary_after_ascii(bytes, lo);
    valid_utf8_split(bytes, lo);
    let tail = bytes.subrange(lo, bytes.len() as int);
    if hi < bytes.len() {
        assert(tail[hi - lo] == bytes[hi]);
        is_char_boundary_iff_not_is_continuation_byte(tail, hi - lo);
        assert(is_char_boundary(tail, hi - lo));
    } else {
        assert(is_char_boundary(tail, tail.len() as int));
    }
    valid_utf8_split(tail, hi - lo);
    assert(tail.subrange(0, hi - lo) =~= bytes.subrange(lo, hi));
}

/// In well-formed UTF-8, the position just after an ASCII byte (or the
/// start) is a character boundary.
pub proof fn lemma_boundary_after_ascii(bytes: Seq<u8>, lo: int)
    requires
        valid_utf8(bytes),
        0 <= lo <= bytes.len(),
        lo == 0 || bytes[lo - 1] < 0x80,
    ensures
        is_char_boundary(bytes, lo),
{
    broadcast use is_char_boundary_start_end_of_seq, is_char_boundary_iff_not_is_continuation_byte;

    if lo > 0 && lo < bytes.len() {
        is_char_boundary_iff_not_is_continuation_byte(bytes, lo - 1);
        assert(is_char_boundary(bytes, lo - 1));
        valid_utf8_split(bytes, lo - 1);
        let s = bytes.subrange(lo - 1, bytes.len() as int);
        assert(s[0] == bytes[lo - 1]);
        assert(valid_first_scalar(s));
        assert(length_of_first_scalar(s) == 1);
        let rest = pop_first_scalar(s);
        assert(valid_utf8(rest));
        assert(rest =~= bytes.subrange(lo, bytes.len() as int));
        assert(rest[0] == bytes[lo]);
        assert(valid_first_scalar(rest));
        assert(!is_continuation_byte(bytes[lo]));
        is_char_boundary_iff_not_is_continuation_byte(bytes, lo);
    }
}

} // verus!
