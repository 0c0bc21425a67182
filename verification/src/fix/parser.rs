//! Length-delimited framing of a FIX byte stream.
use vstd::prelude::*;
use vstd::string::*;
use vstd::utf8::*;
use crate::fix::error::{FixError, FixErrorView};
use crate::fix::message::{FixMessage, tag_values, find_byte_from};
use crate::fix::text::{str_from_utf8, debug_string, debug_text, push_decimal_chars};
use crate::fix::wire::{
    SOH, EQUALS, tag_at, is_first_tag, first_tag, first_byte, is_first_byte, lemma_first_tag_found,
    lemma_first_tag_absent, lemma_first_byte_found, parse_unsigned, parse_unsigned_in, decimal, decimal_chars, push_decimal,
    checksum, checksum_in, append_bytes,
};

verus! {

broadcast use {
    vstd::seq::group_seq_axioms,
    vstd::utf8::encode_utf8_decode_utf8,
};

/// `8=`, the start of BeginString.
pub open spec fn begin_pat() -> Seq<u8> {
    seq![56u8, 61u8]
}

/// `9=`, the start of BodyLength.
pub open spec fn length_pat() -> Seq<u8> {
    seq![57u8, 61u8]
}

/// `10=`, the start of CheckSum.
pub open spec fn checksum_pat() -> Seq<u8> {
    seq![49u8, 48u8, 61u8]
}

/// What the head of a buffer amounts to.
pub enum FrameStep {
    /// Not enough bytes yet: nothing is consumed.
    Incomplete,
    /// The frame starting at the given position is malformed, for the given
    /// reason.
    Malformed(FixErrorView, int),
    /// A checksum-valid frame occupies `[start, end)`.
    Complete(int, int),
}

/// The fewest bytes that can hold a frame.
pub open spec fn min_frame_len() -> nat {
    20
}

/// How the head of `buf` frames, following BodyLength framing:
/// find `8=`, then `9=<BodyLength>`, expect `10=` exactly BodyLength bytes
/// after the BodyLength field, and check the CheckSum over everything from
/// `8=` up to `10=`.
pub open spec fn frame_step(buf: Seq<u8>) -> FrameStep {
    if buf.len() < min_frame_len() {
        FrameStep::Incomplete
    } else {
        match first_tag(buf, begin_pat(), 0, buf.len() as int) {
            None => FrameStep::Incomplete,
            Some(s) => match first_tag(buf, length_pat(), s, buf.len() - 2) {
                None => FrameStep::Malformed(
                    FixErrorView::MalformedFrame("no BodyLength (tag 9) after BeginString"@),
                    s,
                ),
                Some(t) => match first_byte(buf, SOH, t + 2) {
                    None => FrameStep::Incomplete,
                    Some(soh) => length_step(buf, s, t + 2, soh),
                },
            },
        }
    }
}

/// The framing once the BodyLength value `buf[v..soh]` is delimited.
pub open spec fn length_step(buf: Seq<u8>, s: int, v: int, soh: int) -> FrameStep {
    let digits = buf.subrange(v, soh);
    if !valid_utf8(digits) {
        FrameStep::Malformed(
            FixErrorView::BodyLengthFraming("BodyLength field is not valid UTF-8"@),
            s,
        )
    } else {
        match parse_unsigned(digits, usize::MAX as nat) {
            None => FrameStep::Malformed(
                FixErrorView::BodyLengthFraming(
                    "BodyLength is not a number: "@ + debug_text(decode_utf8(digits)),
                ),
                s,
            ),
            Some(n) => body_step(buf, s, n, soh + 1 + n),
        }
    }
}

/// The framing once the body `[.., end)` of declared length `n` is known.
pub open spec fn body_step(buf: Seq<u8>, s: int, n: nat, end: int) -> FrameStep {
    if buf.len() < end + 5 {
        FrameStep::Incomplete
    } else if buf.subrange(end, end + 3) != checksum_pat() {
        FrameStep::Malformed(
            FixErrorView::BodyLengthFraming(
                "BodyLength="@ + decimal_chars(n)
                    + " does not point at the CheckSum field (no `10=` there)"@,
            ),
            s,
        )
    } else {
        match first_byte(buf, SOH, end + 3) {
            None => FrameStep::Incomplete,
            Some(cs_soh) => checksum_step(buf, s, end, cs_soh),
        }
    }
}

/// The framing once the CheckSum value `buf[end + 3..cs_soh]` is delimited.
pub open spec fn checksum_step(buf: Seq<u8>, s: int, end: int, cs_soh: int) -> FrameStep {
    let digits = buf.subrange(end + 3, cs_soh);
    if !valid_utf8(digits) {
        FrameStep::Malformed(
            FixErrorView::MissingChecksumField("CheckSum value is not valid UTF-8"@),
            s,
        )
    } else {
        match parse_unsigned(digits, 255) {
            None => FrameStep::Malformed(
                FixErrorView::MissingChecksumField(
                    "CheckSum is not a number: "@ + debug_text(decode_utf8(digits)),
                ),
                s,
            ),
            Some(expected) => {
                let actual = checksum(buf.subrange(s, end));
                if expected != actual {
                    FrameStep::Malformed(
                        FixErrorView::ChecksumMismatch { expected: expected as u8, actual },
                        s,
                    )
                } else {
                    FrameStep::Complete(s, cs_soh + 1)
                }
            },
        }
    }
}

/// The buffer after discarding a corrupt frame that starts at `bad`: it
/// resumes at the next `8=` that starts a field after `bad`, or is empty.
pub open spec fn resync(buf: Seq<u8>, bad: int) -> Seq<u8> {
    match first_tag(buf, begin_pat(), bad + 1, buf.len() as int) {
        Some(p) => buf.subrange(p, buf.len() as int),
        None => Seq::empty(),
    }
}

/// Length-delimited FIX parser.
///
/// Accumulates bytes via `push_bytes()`, then call `next_message()`
/// to extract complete messages using the BodyLength (tag 9) framing.
pub struct FixParser {
    buffer: Vec<u8>,
}

impl View for FixParser {
    type V = Seq<u8>;

    closed spec fn view(&self) -> Seq<u8> {
        self.buffer@
    }
}

impl Default for FixParser {
    fn default() -> (p: Self)
        ensures
            p@ == Seq::<u8>::empty(),
    {
        Self::new()
    }
}

/// The framing decided for the head of the buffer.
enum Framing {
    Incomplete,
    Malformed(FixError, usize),
    Complete(usize, usize),
}

impl Framing {
    /// This decision is the one `step` describes, on a buffer of `len` bytes.
    spec fn agrees(&self, step: FrameStep, len: nat) -> bool {
        match step {
            FrameStep::Incomplete => self is Incomplete,
            FrameStep::Malformed(e, bad) => self matches Framing::Malformed(err, b) && err@ == e
                && b == bad && b < len,
            FrameStep::Complete(st, end) => self matches Framing::Complete(a, b) && a == st && b
                == end && *a < *b <= len,
        }
    }
}

/// `pat` starts at `buf[i]` (as bytes, without regard to field starts).
fn bytes_at(buf: &[u8], i: usize, pat: &[u8]) -> (r: bool)
    ensures
        r == (i + pat@.len() <= buf@.len() && buf@.subrange(i as int, i + pat@.len()) == pat@),
{
    if i > buf.len() || pat.len() > buf.len() - i {
        return false;
    }
    let mut k: usize = 0;
    while k < pat.len()
        invariant
            i + pat@.len() <= buf@.len(),
            k <= pat@.len(),
            forall|j: int| 0 <= j < k ==> buf@[i + j] == pat@[j],
        decreases pat@.len() - k,
    {
        let n = buf.len();
        assert(i + k < n);
        if buf[i + k] != pat[k] {
            assert(buf@.subrange(i as int, i + pat@.len())[k as int] != pat@[k as int]);
            return false;
        }
        k = k + 1;
    }
    assert(buf@.subrange(i as int, i + pat@.len()) =~= pat@);
    true
}

/// The least position in `[lo, hi)` where `pat` starts a field.
fn scan_tag(buf: &[u8], pat: &[u8], lo: usize, hi: usize) -> (r: Option<usize>)
    ensures
        match r {
            Some(i) => first_tag(buf@, pat@, lo as int, hi as int) == Some(i as int),
            None => first_tag(buf@, pat@, lo as int, hi as int) is None,
        },
{
    let mut i = lo;
    while i < hi
        invariant
            lo <= i,
            lo < hi ==> i <= hi,
            forall|j: int| lo <= j < i ==> !tag_at(buf@, j, pat@),
        decreases hi - i,
    {
        let start = i == 0 || (i <= buf.len() && buf[i - 1] == SOH);
        if start && bytes_at(buf, i, pat) {
            proof {
                assert(tag_at(buf@, i as int, pat@));
                lemma_first_tag_found(buf@, pat@, lo as int, hi as int, i as int);
            }
            return Some(i);
        }
        i = i + 1;
    }
    proof {
        lemma_first_tag_absent(buf@, pat@, lo as int, hi as int);
    }
    None
}

impl FixParser {
    pub fn new() -> (p: Self)
        ensures
            p@ == Seq::<u8>::empty(),
    {
        Self { buffer: Vec::with_capacity(4096) }
    }

    /// Appends bytes read from the wire.
    pub fn push_bytes(&mut self, bytes: &[u8])
        ensures
            final(self)@ == old(self)@ + bytes@,
    {
        append_bytes(&mut self.buffer, bytes);
    }

    /// Extract the next complete FIX message from the buffer.
    ///
    /// Three-way result — "wait for more bytes" is not conflated with "this
    /// frame is garbage":
    ///   * `Ok(Some(msg))` — a complete, checksum-valid frame was read and
    ///     consumed, together with any bytes before its `8=`.
    ///   * `Ok(None)` — not enough bytes yet (including: tag 9's declared
    ///     BodyLength runs past what is buffered). The buffer is untouched.
    ///   * `Err(..)` — the frame at the current `8=` start is malformed (bad
    ///     BodyLength framing, missing or bad CheckSum, wrong checksum), or the
    ///     fields of a framed message do not read. A malformed frame is
    ///     discarded up to the next `8=` that starts a field, so that a good
    ///     message behind it is still read on the next call.
    pub fn next_message(&mut self) -> (r: Result<Option<FixMessage>, FixError>)
        ensures
            match frame_step(old(self)@) {
                FrameStep::Incomplete => r matches Ok(None) && final(self)@ == old(self)@,
                FrameStep::Malformed(e, bad) => r matches Err(err) && err@ == e && final(self)@
                    == resync(old(self)@, bad),
                FrameStep::Complete(s, end) => {
                    &&& final(self)@ == old(self)@.subrange(end, old(self)@.len() as int)
                    &&& match tag_values(old(self)@.subrange(s, end)) {
                        Ok(v) => r matches Ok(Some(m)) && m@ == v,
                        Err(e) => r matches Err(err) && err@ == e,
                    }
                },
            },
    {
        let ghost buf = self.buffer@;
        match self.frame_head() {
            Framing::Incomplete => Ok(None),
            Framing::Malformed(err, msg_start) => self.fail_resync(msg_start, err),
            Framing::Complete(msg_start, msg_end) => {
                let mut frame = self.buffer.split_off(msg_end);
                std::mem::swap(&mut self.buffer, &mut frame);
                let msg_bytes = &frame.as_slice()[msg_start..msg_end];
                assert(msg_bytes@ =~= buf.subrange(msg_start as int, msg_end as int));
                match FixMessage::from_tag_values(msg_bytes) {
                    Ok(m) => Ok(Some(m)),
                    Err(e) => Err(e),
                }
            },
        }
    }

    /// Frames the head of the buffer: finds `8=` and `9=`, and delimits the
    /// BodyLength value.
    fn frame_head(&self) -> (f: Framing)
        ensures
            f.agrees(frame_step(self@), self@.len()),
    {
        let ghost buf = self@;
        let len = self.buffer.len();
        if len < 20 {
            return Framing::Incomplete;
        }
        proof {
            assert(decimal(8) + seq![EQUALS] =~= begin_pat());
            assert(decimal(9) + seq![EQUALS] =~= length_pat());
        }
        let msg_start = match self.find_tag_start(8) {
            Some(s) => s,
            None => {
                return Framing::Incomplete;
            },
        };
        let tag9_start = match self.find_tag_in_range(9, msg_start) {
            Some(t) => t,
            None => {
                let reason = String::from_str("no BodyLength (tag 9) after BeginString");
                return Framing::Malformed(FixError::MalformedFrame { reason }, msg_start);
            },
        };
        proof {
            let t = tag9_start as int;
            assert(is_first_tag(buf, length_pat(), msg_start as int, buf.len() - 2, t));
            assert(tag_at(buf, t, length_pat()));
            assert(buf.subrange(t, t + 2)[1] == EQUALS);
            assert(buf.subrange(t, t + 2)[0] != EQUALS);
            assert(is_first_byte(buf, EQUALS, t, t + 1));
            lemma_first_byte_found(buf, EQUALS, t, t + 1);
        }
        let tag9_val_start = match self.skip_past_equals(tag9_start) {
            Some(p) => p,
            None => {
                return Framing::Incomplete;
            },
        };
        let tag9_soh = match self.find_soh_after(tag9_val_start) {
            Some(p) => p,
            None => {
                return Framing::Incomplete;
            },
        };
        self.frame_length(msg_start, tag9_val_start, tag9_soh)
    }

    /// Reads the BodyLength value `buffer[v..soh]` of the frame at `s`.
    fn frame_length(&self, s: usize, v: usize, soh: usize) -> (f: Framing)
        requires
            s < v <= soh < self@.len(),
            first_byte(self@, SOH, v as int) == Some(soh as int),
        ensures
            f.agrees(length_step(self@, s as int, v as int, soh as int), self@.len()),
    {
        let ghost buf = self@;
        let len = self.buffer.len();
        let ghost digits = buf.subrange(v as int, soh as int);
        let len_slice = &self.buffer.as_slice()[v..soh];
        assert(len_slice@ == digits);
        assert(len_slice@.subrange(0, len_slice@.len() as int) =~= len_slice@);
        let len_text = match str_from_utf8(len_slice) {
            Ok(t) => t,
            Err(_) => {
                let why = String::from_str("BodyLength field is not valid UTF-8");
                return Framing::Malformed(FixError::BodyLengthFraming(why), s);
            },
        };
        match parse_unsigned_in(len_slice, 0, len_slice.len(), usize::MAX as u64) {
            Some(n) => self.frame_body(s, n as usize, soh + 1),
            None => {
                let mut why = String::from_str("BodyLength is not a number: ");
                let shown = debug_string(len_text);
                why.append(shown.as_str());
                Framing::Malformed(FixError::BodyLengthFraming(why), s)
            },
        }
    }

    /// Checks where BodyLength `n` says the body of the frame at `s` ends.
    fn frame_body(&self, s: usize, n: usize, body_start: usize) -> (f: Framing)
        requires
            s < body_start <= self@.len(),
        ensures
            f.agrees(
                body_step(self@, s as int, n as nat, body_start + n),
                self@.len(),
            ),
    {
        let len = self.buffer.len();
        if n > len - body_start || len - body_start - n < 5 {
            return Framing::Incomplete;
        }
        let body_end = body_start + n;
        let ten: [u8; 3] = [49, 48, 61];
        assert(ten@ =~= checksum_pat());
        if !bytes_at(self.buffer.as_slice(), body_end, &ten) {
            let mut why = String::from_str("BodyLength=");
            push_decimal_chars(&mut why, n as u64);
            why.append(" does not point at the CheckSum field (no `10=` there)");
            return Framing::Malformed(FixError::BodyLengthFraming(why), s);
        }
        match self.find_soh_after(body_end + 3) {
            Some(cs_soh) => self.frame_checksum(s, body_end, cs_soh),
            None => Framing::Incomplete,
        }
    }

    /// Reads and checks the CheckSum value `buffer[end + 3..cs_soh]` of the
    /// frame at `s` whose body ends at `end`.
    fn frame_checksum(&self, s: usize, end: usize, cs_soh: usize) -> (f: Framing)
        requires
            s < end,
            end + 3 <= cs_soh < self@.len(),
        ensures
            f.agrees(checksum_step(self@, s as int, end as int, cs_soh as int), self@.len()),
    {
        let ghost buf = self@;
        let ghost digits = buf.subrange(end + 3, cs_soh as int);
        let cs_slice = &self.buffer.as_slice()[end + 3..cs_soh];
        assert(cs_slice@ == digits);
        assert(cs_slice@.subrange(0, cs_slice@.len() as int) =~= cs_slice@);
        let cs_text = match str_from_utf8(cs_slice) {
            Ok(t) => t,
            Err(_) => {
                let why = String::from_str("CheckSum value is not valid UTF-8");
                return Framing::Malformed(FixError::MissingChecksumField(why), s);
            },
        };
        let expected: u8 = match parse_unsigned_in(cs_slice, 0, cs_slice.len(), 255) {
            Some(n) => n as u8,
            None => {
                let mut why = String::from_str("CheckSum is not a number: ");
                let shown = debug_string(cs_text);
                why.append(shown.as_str());
                return Framing::Malformed(FixError::MissingChecksumField(why), s);
            },
        };
        let actual = checksum_in(self.buffer.as_slice(), s, end);
        if expected != actual {
            return Framing::Malformed(FixError::ChecksumMismatch { expected, actual }, s);
        }
        let n = self.buffer.len();
        assert(cs_soh < n);
        Framing::Complete(s, cs_soh + 1)
    }

    /// Discard the corrupt frame starting at `bad_start` and resynchronize:
    /// scan forward for the next plausible `8=` (either at buffer start or
    /// immediately after a SOH) and drop everything before it. If no further
    /// `8=` exists, drain the whole buffer. Returns the supplied error.
    fn fail_resync(&mut self, bad_start: usize, err: FixError) -> (r: Result<
        Option<FixMessage>,
        FixError,
    >)
        requires
            bad_start < old(self)@.len(),
        ensures
            r matches Err(e) && e@ == err@,
            final(self)@ == resync(old(self)@, bad_start as int),
    {
        let pat: [u8; 2] = [56, 61];
        assert(pat@ =~= begin_pat());
        let n = self.buffer.len();
        assert(bad_start < n);
        let resync_at = scan_tag(self.buffer.as_slice(), &pat, bad_start + 1, self.buffer.len());
        match resync_at {
            Some(pos) => {
                let rest = self.buffer.split_off(pos);
                self.buffer = rest;
            },
            None => {
                self.buffer.clear();
            },
        }
        Err(err)
    }

    /// The first position where `<tag>=` starts a field.
    fn find_tag_start(&self, tag: u32) -> (r: Option<usize>)
        ensures
            match r {
                Some(i) => first_tag(
                    self@,
                    decimal(tag as nat) + seq![EQUALS],
                    0,
                    self@.len() as int,
                ) == Some(i as int),
                None => first_tag(
                    self@,
                    decimal(tag as nat) + seq![EQUALS],
                    0,
                    self@.len() as int,
                ) is None,
            },
    {
        let mut prefix: Vec<u8> = Vec::new();
        push_decimal(&mut prefix, tag as u64);
        prefix.push(EQUALS);
        assert(prefix@ =~= decimal(tag as nat) + seq![EQUALS]);
        scan_tag(self.buffer.as_slice(), prefix.as_slice(), 0, self.buffer.len())
    }

    /// The first position at or after `start` where `<tag>=` starts a field,
    /// not counting a match that ends at the very end of the buffer.
    fn find_tag_in_range(&self, tag: u32, start: usize) -> (r: Option<usize>)
        ensures
            ({
                let pat = decimal(tag as nat) + seq![EQUALS];
                match r {
                    Some(i) => first_tag(self@, pat, start as int, self@.len() - pat.len())
                        == Some(i as int),
                    None => first_tag(self@, pat, start as int, self@.len() - pat.len()) is None,
                }
            }),
    {
        let mut prefix: Vec<u8> = Vec::new();
        push_decimal(&mut prefix, tag as u64);
        prefix.push(EQUALS);
        assert(prefix@ =~= decimal(tag as nat) + seq![EQUALS]);
        let hi = if self.buffer.len() > prefix.len() {
            self.buffer.len() - prefix.len()
        } else {
            0
        };
        let r = scan_tag(self.buffer.as_slice(), prefix.as_slice(), start, hi);
        proof {
            if self@.len() <= prefix@.len() {
                assert forall|i: int|
                    start <= i < self@.len() - prefix@.len() implies !tag_at(
                    self@,
                    i,
                    prefix@,
                ) by {}
                lemma_first_tag_absent(self@, prefix@, start as int, self@.len() - prefix@.len());
                if start as int <= 0 {
                    lemma_first_tag_absent(self@, prefix@, start as int, hi as int);
                }
            }
        }
        r
    }

    /// The position just past the first `=` at or after `pos`.
    fn skip_past_equals(&self, pos: usize) -> (r: Option<usize>)
        requires
            pos <= self@.len(),
        ensures
            match first_byte(self@, EQUALS, pos as int) {
                Some(i) => r == Some((i + 1) as usize),
                None => r is None,
            },
    {
        match find_byte_from(self.buffer.as_slice(), EQUALS, pos) {
            Some(i) => {
                let n = self.buffer.len();
                assert(i < n);
                Some(i + 1)
            },
            None => None,
        }
    }

    /// The first SOH at or after `pos`.
    fn find_soh_after(&self, pos: usize) -> (r: Option<usize>)
        requires
            pos <= self@.len(),
        ensures
            match r {
                Some(i) => first_byte(self@, SOH, pos as int) == Some(i as int),
                None => first_byte(self@, SOH, pos as int) is None,
            },
    {
        find_byte_from(self.buffer.as_slice(), SOH, pos)
    }
}

} // verus!
