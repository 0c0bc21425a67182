//! Byte-level vocabulary of the tag=value wire format: field boundaries,
//! ASCII decimal numbers, and the modulo-256 checksum.
use vstd::prelude::*;

verus! {

/// The field delimiter (ASCII SOH).
pub const SOH: u8 = 1u8;

/// The byte that separates a tag from its value (`=`).
pub const EQUALS: u8 = 61u8;

/// The byte `+`, which may lead an unsigned decimal number.
pub const PLUS: u8 = 43u8;

/// An ASCII decimal digit.
pub open spec fn is_digit(b: u8) -> bool {
    48 <= b <= 57
}

pub open spec fn all_digits(s: Seq<u8>) -> bool {
    forall|i: int| 0 <= i < s.len() ==> is_digit(#[trigger] s[i])
}

/// The value of a run of ASCII digits, most significant digit first.
pub open spec fn digits_value(s: Seq<u8>) -> nat
    decreases s.len(),
{
    if s.len() == 0 {
        0
    } else {
        digits_value(s.drop_last()) * 10 + (s.last() - 48) as nat
    }
}

/// The digits of an unsigned number once an optional leading `+` is dropped.
pub open spec fn unsigned_digits(s: Seq<u8>) -> Seq<u8> {
    if s.len() > 0 && s[0] == PLUS {
        s.drop_first()
    } else {
        s
    }
}

/// The number that `str::parse` gives for these bytes when the target is an
/// unsigned integer type whose largest value is `max`: an optional `+`, then
/// one or more ASCII digits whose value does not exceed `max`.
pub open spec fn parse_unsigned(s: Seq<u8>, max: nat) -> Option<nat> {
    let d = unsigned_digits(s);
    if d.len() > 0 && all_digits(d) && digits_value(d) <= max {
        Some(digits_value(d))
    } else {
        None
    }
}

/// The ASCII decimal rendering of `n`, without leading zeros.
pub open spec fn decimal(n: nat) -> Seq<u8>
    decreases n,
{
    if n < 10 {
        seq![(n + 48) as u8]
    } else {
        decimal(n / 10).push((n % 10 + 48) as u8)
    }
}

/// `decimal(n)` read as characters.
pub open spec fn decimal_chars(n: nat) -> Seq<char> {
    ascii_chars(decimal(n))
}

/// Bytes below 0x80 read as the characters they encode.
pub open spec fn ascii_chars(s: Seq<u8>) -> Seq<char> {
    s.map_values(|b: u8| b as char)
}

/// A checksum value zero-padded to three ASCII digits.
pub open spec fn three_digits(v: u8) -> Seq<u8> {
    seq![(v / 100 + 48) as u8, (v / 10 % 10 + 48) as u8, (v % 10 + 48) as u8]
}

/// The sum of all bytes.
pub open spec fn byte_sum(s: Seq<u8>) -> nat
    decreases s.len(),
{
    if s.len() == 0 {
        0
    } else {
        byte_sum(s.drop_last()) + s.last() as nat
    }
}

/// The FIX checksum of a byte run: the sum of its bytes modulo 256.
pub open spec fn checksum(s: Seq<u8>) -> u8 {
    (byte_sum(s) % 256) as u8
}

/// Position `i` starts a field (it is the buffer start or follows a SOH)
/// and the bytes there begin with `pat`.
pub open spec fn tag_at(buf: Seq<u8>, i: int, pat: Seq<u8>) -> bool {
    &&& 0 <= i
    &&& i + pat.len() <= buf.len()
    &&& (i == 0 || buf[i - 1] == SOH)
    &&& buf.subrange(i, i + pat.len()) == pat
}

/// `i` is the least position in `[lo, hi)` at which `pat` starts a field.
pub open spec fn is_first_tag(buf: Seq<u8>, pat: Seq<u8>, lo: int, hi: int, i: int) -> bool {
    &&& lo <= i < hi
    &&& tag_at(buf, i, pat)
    &&& forall|j: int| lo <= j < i ==> !tag_at(buf, j, pat)
}

/// The least position in `[lo, hi)` at which `pat` starts a field, if any.
pub open spec fn first_tag(buf: Seq<u8>, pat: Seq<u8>, lo: int, hi: int) -> Option<int> {
    if exists|i: int| is_first_tag(buf, pat, lo, hi, i) {
        Some(choose|i: int| is_first_tag(buf, pat, lo, hi, i))
    } else {
        None
    }
}

/// `i` is the first position at or after `from` holding byte `b`.
pub open spec fn is_first_byte(buf: Seq<u8>, b: u8, from: int, i: int) -> bool {
    &&& from <= i < buf.len()
    &&& buf[i] == b
    &&& forall|j: int| from <= j < i ==> buf[j] != b
}

/// The first position at or after `from` holding byte `b`, if any.
pub open spec fn first_byte(buf: Seq<u8>, b: u8, from: int) -> Option<int> {
    if exists|i: int| is_first_byte(buf, b, from, i) {
        Some(choose|i: int| is_first_byte(buf, b, from, i))
    } else {
        None
    }
}

pub proof fn lemma_first_tag_found(buf: Seq<u8>, pat: Seq<u8>, lo: int, hi: int, i: int)
    requires
        is_first_tag(buf, pat, lo, hi, i),
    ensures
        first_tag(buf, pat, lo, hi) == Some(i),
{
    let c = choose|k: int| is_first_tag(buf, pat, lo, hi, k);
    assert(is_first_tag(buf, pat, lo, hi, c));
    if c < i {
        assert(!tag_at(buf, c, pat));
    } else if i < c {
        assert(!tag_at(buf, i, pat));
    }
}

pub proof fn lemma_first_tag_absent(buf: Seq<u8>, pat: Seq<u8>, lo: int, hi: int)
    requires
        forall|j: int| lo <= j < hi ==> !tag_at(buf, j, pat),
    ensures
        first_tag(buf, pat, lo, hi) is None,
{
}

pub proof fn lemma_first_byte_found(buf: Seq<u8>, b: u8, from: int, i: int)
    requires
        is_first_byte(buf, b, from, i),
    ensures
        first_byte(buf, b, from) == Some(i),
{
    let c = choose|k: int| is_first_byte(buf, b, from, k);
    assert(is_first_byte(buf, b, from, c));
    if c < i {
        assert(buf[c] != b);
    } else if i < c {
        assert(buf[i] != b);
    }
}

pub proof fn lemma_first_byte_absent(buf: Seq<u8>, b: u8, from: int)
    requires
        forall|j: int| from <= j < buf.len() ==> buf[j] != b,
    ensures
        first_byte(buf, b, from) is None,
{
}

/// Where `b` occurs at or after `from`, there is a first such position.
pub proof fn lemma_first_byte_exists(buf: Seq<u8>, b: u8, from: int, j: int)
    requires
        from <= j < buf.len(),
        buf[j] == b,
    ensures
        exists|i: int| is_first_byte(buf, b, from, i),
    decreases j - from,
{
    if exists|k: int| from <= k < j && buf[k] == b {
        let k = choose|k: int| from <= k < j && buf[k] == b;
        lemma_first_byte_exists(buf, b, from, k);
    } else {
        assert(is_first_byte(buf, b, from, j));
    }
}

/// Where `pat` starts a field in `[lo, hi)`, there is a first such position.
pub proof fn lemma_first_tag_exists(buf: Seq<u8>, pat: Seq<u8>, lo: int, hi: int, j: int)
    requires
        lo <= j < hi,
        tag_at(buf, j, pat),
    ensures
        exists|i: int| is_first_tag(buf, pat, lo, hi, i),
    decreases j - lo,
{
    if exists|k: int| lo <= k < j && tag_at(buf, k, pat) {
        let k = choose|k: int| lo <= k < j && tag_at(buf, k, pat);
        lemma_first_tag_exists(buf, pat, lo, hi, k);
    } else {
        assert(is_first_tag(buf, pat, lo, hi, j));
    }
}

/// Extending a run of digits never lowers its value.
pub proof fn lemma_digits_prefix_le(s: Seq<u8>, k: int)
    requires
        all_digits(s),
        0 <= k <= s.len(),
    ensures
        digits_value(s.subrange(0, k)) <= digits_value(s),
    decreases s.len(),
{
    if k < s.len() {
        let t = s.drop_last();
        assert(all_digits(t));
        assert(t.subrange(0, k) =~= s.subrange(0, k));
        lemma_digits_prefix_le(t, k);
    } else {
        assert(s.subrange(0, k) =~= s);
    }
}

/// The ASCII decimal reading of a run of digits: the value of the bytes
/// `buf[lo..hi]` under `str::parse` for an unsigned type bounded by `max`.
pub(crate) fn parse_unsigned_in(buf: &[u8], lo: usize, hi: usize, max: u64) -> (r: Option<u64>)
    requires
        lo <= hi <= buf@.len(),
    ensures
        match r {
            Some(v) => parse_unsigned(buf@.subrange(lo as int, hi as int), max as nat) == Some(
                v as nat,
            ),
            None => parse_unsigned(buf@.subrange(lo as int, hi as int), max as nat) is None,
        },
{
    let ghost s = buf@.subrange(lo as int, hi as int);
    let mut start = lo;
    if start < hi && buf[start] == PLUS {
        start = start + 1;
    }
    let ghost d = buf@.subrange(start as int, hi as int);
    assert(d =~= unsigned_digits(s));
    if start == hi {
        return None;
    }
    let mut i = start;
    let mut acc: u128 = 0;
    while i < hi
        invariant
            lo <= start < hi <= buf@.len(),
            start <= i <= hi,
            d == buf@.subrange(start as int, hi as int),
            s == buf@.subrange(lo as int, hi as int),
            d == unsigned_digits(s),
            all_digits(buf@.subrange(start as int, i as int)),
            acc == digits_value(buf@.subrange(start as int, i as int)),
            acc <= max,
        decreases hi - i,
    {
        let b = buf[i];
        let ghost prefix = buf@.subrange(start as int, i as int);
        let ghost next = buf@.subrange(start as int, i + 1);
        assert(next.drop_last() =~= prefix);
        assert(d[i - start] == b);
        if b < 48 || b > 57 {
            assert(!is_digit(d[i - start]));
            return None;
        }
        acc = acc * 10 + (b - 48) as u128;
        assert(acc == digits_value(next));
        assert(all_digits(next));
        if acc > max as u128 {
            proof {
                if all_digits(d) {
                    assert(d.subrange(0, i + 1 - start) =~= next);
                    lemma_digits_prefix_le(d, i + 1 - start);
                }
            }
            return None;
        }
        i = i + 1;
    }
    assert(buf@.subrange(start as int, i as int) =~= d);
    Some(acc as u64)
}

/// Appends the ASCII decimal rendering of `n`.
pub(crate) fn push_decimal(out: &mut Vec<u8>, n: u64)
    ensures
        final(out)@ == old(out)@ + decimal(n as nat),
    decreases n,
{
    if n >= 10 {
        push_decimal(out, n / 10);
    }
    let d: u8 = (n % 10) as u8;
    out.push(d + 48);
    proof {
        if n >= 10 {
            assert(old(out)@ + decimal(n as nat) =~= old(out)@ + decimal((n / 10) as nat) + seq![
                (d + 48) as u8,
            ]);
        } else {
            assert(old(out)@ + decimal(n as nat) =~= old(out)@ + seq![(d + 48) as u8]);
        }
    }
}

/// Appends `bytes`.
pub(crate) fn append_bytes(out: &mut Vec<u8>, bytes: &[u8])
    ensures
        final(out)@ == old(out)@ + bytes@,
{
    let mut i: usize = 0;
    while i < bytes.len()
        invariant
            i <= bytes@.len(),
            out@ == old(out)@ + bytes@.subrange(0, i as int),
        decreases bytes@.len() - i,
    {
        out.push(bytes[i]);
        assert(bytes@.subrange(0, i + 1) =~= bytes@.subrange(0, i as int).push(bytes@[i as int]));
        i = i + 1;
    }
    assert(bytes@.subrange(0, i as int) =~= bytes@);
}

/// The modulo-256 sum of `buf[lo..hi]`.
pub(crate) fn checksum_in(buf: &[u8], lo: usize, hi: usize) -> (r: u8)
    requires
        lo <= hi <= buf@.len(),
    ensures
        r == checksum(buf@.subrange(lo as int, hi as int)),
{
    let mut acc: u32 = 0;
    let mut i = lo;
    while i < hi
        invariant
            lo <= i <= hi <= buf@.len(),
            acc < 256,
            acc == byte_sum(buf@.subrange(lo as int, i as int)) % 256,
        decreases hi - i,
    {
        let ghost prefix = buf@.subrange(lo as int, i as int);
        let ghost next = buf@.subrange(lo as int, i + 1);
        assert(next.drop_last() =~= prefix);
        let b = buf[i];
        proof {
            vstd::arithmetic::div_mod::lemma_add_mod_noop(byte_sum(prefix) as int, b as int, 256);
            vstd::arithmetic::div_mod::lemma_small_mod(b as nat, 256);
            vstd::arithmetic::div_mod::lemma_mod_twice(byte_sum(prefix) as int, 256);
        }
        acc = (acc + b as u32) % 256;
        i = i + 1;
    }
    acc as u8
}

} // verus!
