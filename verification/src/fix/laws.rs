//! What holds across the engine's functions: reading back an encoded
//! message, truncated frames, and resynchronisation after a bad frame.
use vstd::prelude::*;
use vstd::utf8::*;
use crate::fix::message::{
    MessageView, encoded, encoded_head, encoded_body, field_bytes, fields_bytes, field_order,
    type_value, tag_values, read_fields, read_field, field_end, after_field, enumerates,
    is_body_tag, lemma_field_end_bounds,
};
use crate::fix::msg_type::{MsgType, msg_type_of};
use crate::fix::parser::{
    FrameStep, frame_step, length_step, body_step, checksum_step, resync, begin_pat, length_pat,
    checksum_pat,
};
use crate::fix::wire::{
    SOH, EQUALS, decimal, decimal_chars, ascii_chars, three_digits, checksum, byte_sum, is_digit,
    all_digits, digits_value, unsigned_digits, parse_unsigned, tag_at, is_first_tag, first_tag,
    first_byte, is_first_byte, lemma_first_tag_found, lemma_first_byte_found,
};

verus! {

broadcast use {
    vstd::seq::group_seq_axioms,
    vstd::utf8::encode_utf8_decode_utf8,
    vstd::utf8::encode_utf8_valid_utf8,
    vstd::utf8::valid_utf8_concat,
};

/// Bytes that are all ASCII.
pub open spec fn all_ascii(s: Seq<u8>) -> bool {
    forall|i: int| 0 <= i < s.len() ==> #[trigger] s[i] < 0x80
}

pub proof fn lemma_decimal(n: nat)
    ensures
        decimal(n).len() >= 1,
        all_digits(decimal(n)),
        digits_value(decimal(n)) == n,
    decreases n,
{
    if n >= 10 {
        lemma_decimal(n / 10);
        let d = decimal(n / 10);
        let s = decimal(n);
        assert(s.drop_last() =~= d);
        assert(s.last() == (n % 10 + 48) as u8);
        assert(n % 10 < 10);
        assert((s.last() - 48) as nat == n % 10);
        assert(digits_value(s) == digits_value(d) * 10 + n % 10);
        vstd::arithmetic::div_mod::lemma_fundamental_div_mod(n as int, 10);
    } else {
        assert(decimal(n).drop_last() =~= Seq::<u8>::empty());
        assert(digits_value(Seq::<u8>::empty()) == 0);
        assert(decimal(n).last() == (n + 48) as u8);
    }
}

/// The decimal rendering of a number reads back as that number.
pub proof fn lemma_decimal_parses(n: nat, max: nat)
    requires
        n <= max,
    ensures
        parse_unsigned(decimal(n), max) == Some(n),
{
    lemma_decimal(n);
    assert(is_digit(decimal(n)[0]));
    assert(unsigned_digits(decimal(n)) == decimal(n));
}

pub proof fn lemma_three_digits_parse(v: u8)
    ensures
        all_digits(three_digits(v)),
        parse_unsigned(three_digits(v), 255) == Some(v as nat),
{
    let s = three_digits(v);
    assert(s.drop_last().drop_last().drop_last() =~= Seq::<u8>::empty());
    assert(unsigned_digits(s) == s);
    let a = v / 100;
    let b = v / 10 % 10;
    let c = v % 10;
    assert(s.drop_last().drop_last().drop_last() =~= Seq::<u8>::empty());
    let s1 = s.drop_last().drop_last();
    assert(s1 =~= seq![(a + 48) as u8]);
    assert(s1.drop_last() =~= Seq::<u8>::empty());
    assert(digits_value(Seq::<u8>::empty()) == 0);
    assert(s1.last() == (a + 48) as u8);
    assert(digits_value(s1) == a);
    assert(s.drop_last() =~= seq![(a + 48) as u8, (b + 48) as u8]);
    assert(digits_value(s.drop_last()) == a * 10 + b);
    assert(digits_value(s) == (a * 10 + b) * 10 + c);
    assert((a * 10 + b) * 10 + c == v) by (nonlinear_arith)
        requires
            a == v / 100,
            b == v / 10 % 10,
            c == v % 10,
            v < 256,
    ;
}

pub proof fn lemma_small_decimals()
    ensures
        decimal(8) == seq![56u8],
        decimal(9) == seq![57u8],
        decimal(10) == seq![49u8, 48u8],
        decimal(35) == seq![51u8, 53u8],
{
    reveal_with_fuel(decimal, 2);
    assert(decimal(10) =~= seq![49u8, 48u8]);
    assert(decimal(35) =~= seq![51u8, 53u8]);
}

/// ASCII bytes are well-formed UTF-8 and decode to the same characters.
pub proof fn lemma_ascii_text(s: Seq<u8>)
    requires
        all_ascii(s),
    ensures
        valid_utf8(s),
        encode_utf8(ascii_chars(s)) == s,
        decode_utf8(s) == ascii_chars(s),
    decreases s.len(),
{
    if s.len() > 0 {
        let t = s.drop_first();
        assert(all_ascii(t));
        lemma_ascii_text(t);
        assert(valid_first_scalar(s));
        assert(pop_first_scalar(s) =~= t);
        let c = ascii_chars(s);
        assert(c.drop_first() =~= ascii_chars(t));
        let b = s[0];
        assert((b as char) as u32 == b as u32);
        assert(encode_scalar(b as u32) == seq![b]) by {
            assert(leading_byte_width_1(b as u32) == b) by (bit_vector)
                requires
                    b < 0x80u8,
            ;
        }
        assert(encode_utf8(c) =~= s);
    }
}


/// No byte of the UTF-8 encoding of a scalar other than U+0001 is SOH.
pub proof fn lemma_scalar_no_soh(c: u32)
    requires
        c != 1,
    ensures
        forall|i: int| 0 <= i < encode_scalar(c).len() ==> encode_scalar(c)[i] != SOH,
{
    assert(c <= 0x7f && c != 1 ==> leading_byte_width_1(c) != 1u8) by (bit_vector);
    assert(leading_byte_width_2(c) != 1u8) by (bit_vector);
    assert(leading_byte_width_3(c) != 1u8) by (bit_vector);
    assert(leading_byte_width_4(c) != 1u8) by (bit_vector);
    assert(last_continuation_byte(c) != 1u8) by (bit_vector);
    assert(second_last_continuation_byte(c) != 1u8) by (bit_vector);
    assert(third_last_continuation_byte(c) != 1u8) by (bit_vector);
}

/// Text without U+0001 encodes to bytes without SOH.
pub proof fn lemma_encode_no_soh(v: Seq<char>)
    requires
        !v.contains('\u{1}'),
    ensures
        forall|i: int| 0 <= i < encode_utf8(v).len() ==> encode_utf8(v)[i] != SOH,
    decreases v.len(),
{
    if v.len() > 0 {
        let t = v.drop_first();
        assert(!t.contains('\u{1}')) by {
            if t.contains('\u{1}') {
                let k = choose|k: int| 0 <= k < t.len() && t[k] == '\u{1}';
                assert(v[k + 1] == '\u{1}');
            }
        }
        lemma_encode_no_soh(t);
        assert(v[0] != '\u{1}');
        assert((v[0] as u32) != 1) by {
            if (v[0] as u32) == 1 {
                vstd::utf8::char_u32_cast(v[0], 1u32);
                assert((1u32 as char) == '\u{1}');
            }
        }
        lemma_scalar_no_soh(v[0] as u32);
        let es = encode_scalar(v[0] as u32);
        assert(encode_utf8(v) == es + encode_utf8(t));
        assert forall|i: int| 0 <= i < encode_utf8(v).len() implies encode_utf8(v)[i] != SOH by {
            if i < es.len() {
                assert(encode_utf8(v)[i] == es[i]);
            } else {
                assert(encode_utf8(v)[i] == encode_utf8(t)[i - es.len()]);
            }
        }
    }
}


/// Reading the field `tag=value<SOH>` (value without U+0001) records the
/// value under the tag, sets the type at tag 35, and moves past it.
pub proof fn lemma_read_one(
    t: u32,
    v: Seq<char>,
    rest: Seq<u8>,
    mt: MsgType,
    acc: Map<u32, Seq<char>>,
)
    requires
        !v.contains('\u{1}'),
    ensures
        read_fields(field_bytes(t as nat, encode_utf8(v)) + rest, mt, acc) == read_fields(
            rest,
            if t == 35 {
                msg_type_of(v)
            } else {
                mt
            },
            acc.insert(t, v),
        ),
{
    let d = decimal(t as nat);
    let e = encode_utf8(v);
    let f = field_bytes(t as nat, e);
    let raw = f + rest;
    lemma_decimal(t as nat);
    lemma_decimal_parses(t as nat, u32::MAX as nat);
    lemma_encode_no_soh(v);
    let k = f.len() - 1;
    assert(raw[k] == SOH);
    assert forall|j: int| 0 <= j < k implies raw[j] != SOH by {
        if j < d.len() {
            assert(raw[j] == d[j]);
            assert(is_digit(d[j]));
        } else if j == d.len() {
            assert(raw[j] == EQUALS);
        } else {
            assert(raw[j] == e[j - d.len() - 1]);
        }
    }
    assert(is_first_byte(raw, SOH, 0, k));
    lemma_first_byte_found(raw, SOH, 0, k);
    assert(field_end(raw) == k);
    let seg = raw.subrange(0, k);
    assert(seg =~= d + seq![EQUALS] + e);
    assert forall|j: int| 0 <= j < d.len() implies seg[j] != EQUALS by {
        assert(seg[j] == d[j]);
        assert(is_digit(d[j]));
    }
    assert(is_first_byte(seg, EQUALS, 0, d.len() as int));
    lemma_first_byte_found(seg, EQUALS, 0, d.len() as int);
    assert(seg.subrange(0, d.len() as int) =~= d);
    assert(seg.subrange(d.len() as int + 1, seg.len() as int) =~= e);
    assert(read_field(seg) == Ok::<(u32, Seq<char>), crate::fix::error::FixErrorView>((t, v)));
    assert(after_field(raw) =~= rest);
}

/// The map after inserting the values of `m` at `tags`, in order.
pub open spec fn insert_all(acc: Map<u32, Seq<char>>, m: Map<u32, Seq<char>>, tags: Seq<u32>) -> Map<
    u32,
    Seq<char>,
>
    decreases tags.len(),
{
    if tags.len() == 0 {
        acc
    } else {
        insert_all(acc, m, tags.drop_last()).insert(tags.last(), m[tags.last()])
    }
}

pub proof fn lemma_insert_all(
    acc: Map<u32, Seq<char>>,
    m: Map<u32, Seq<char>>,
    tags: Seq<u32>,
    k: u32,
)
    ensures
        insert_all(acc, m, tags).contains_key(k) <==> (acc.contains_key(k) || tags.contains(k)),
        tags.contains(k) ==> insert_all(acc, m, tags)[k] == m[k],
        !tags.contains(k) && acc.contains_key(k) ==> insert_all(acc, m, tags)[k] == acc[k],
    decreases tags.len(),
{
    if tags.len() > 0 {
        let init = tags.drop_last();
        lemma_insert_all(acc, m, init, k);
        assert(tags.contains(k) <==> (init.contains(k) || tags.last() == k)) by {
            if tags.contains(k) {
                let j = choose|j: int| 0 <= j < tags.len() && tags[j] == k;
                if j < tags.len() - 1 {
                    assert(init[j] == k);
                }
            }
            if init.contains(k) {
                let j = choose|j: int| 0 <= j < init.len() && init[j] == k;
                assert(tags[j] == k);
            }
        }
    }
}

/// Reading the fields `fields_bytes(m, tags)` (no tag 35, no value with
/// U+0001) records each of them and leaves the type alone.
pub proof fn lemma_read_many(
    m: Map<u32, Seq<char>>,
    tags: Seq<u32>,
    rest: Seq<u8>,
    mt: MsgType,
    acc: Map<u32, Seq<char>>,
)
    requires
        forall|i: int| 0 <= i < tags.len() ==> tags[i] != 35,
        forall|i: int| 0 <= i < tags.len() ==> !(#[trigger] m[tags[i]]).contains('\u{1}'),
    ensures
        read_fields(fields_bytes(m, tags) + rest, mt, acc) == read_fields(
            rest,
            mt,
            insert_all(acc, m, tags),
        ),
    decreases tags.len(),
{
    if tags.len() > 0 {
        let init = tags.drop_last();
        let last = tags.last();
        let fb = field_bytes(last as nat, encode_utf8(m[last]));
        assert(fields_bytes(m, tags) == fields_bytes(m, init) + fb);
        assert(fields_bytes(m, tags) + rest =~= fields_bytes(m, init) + (fb + rest));
        assert(!m[tags[tags.len() - 1]].contains('\u{1}'));
        lemma_read_many(m, init, fb + rest, mt, acc);
        lemma_read_one(last, m[last], rest, mt, insert_all(acc, m, init));
    } else {
        assert(fields_bytes(m, tags) + rest =~= rest);
    }
}


/// Inserting a new tag into an ascending list keeps an ascending list.
pub proof fn lemma_ascending_insert(q: Seq<u32>, a: u32)
    requires
        crate::fix::message::strictly_increasing(q),
        !q.contains(a),
    ensures
        exists|r: Seq<u32>|
            crate::fix::message::strictly_increasing(r) && forall|x: u32|
                r.contains(x) <==> (q.contains(x) || x == a),
    decreases q.len(),
{
    if q.len() == 0 {
        let r = seq![a];
        assert(r[0] == a);
        assert(r.contains(a));
        assert(crate::fix::message::strictly_increasing(r) && forall|x: u32|
            r.contains(x) <==> (q.contains(x) || x == a));
    } else if a < q[0] {
        let r = seq![a] + q;
        assert(r[0] == a);
        assert forall|x: u32| r.contains(x) <==> (q.contains(x) || x == a) by {
            if r.contains(x) {
                let j = choose|j: int| 0 <= j < r.len() && r[j] == x;
                if j > 0 {
                    assert(q[j - 1] == x);
                }
            }
            if q.contains(x) {
                let j = choose|j: int| 0 <= j < q.len() && q[j] == x;
                assert(r[j + 1] == x);
            }
        }
        assert forall|i: int, j: int| 0 <= i < j < r.len() implies r[i] < r[j] by {
            if i > 0 {
                assert(r[i] == q[i - 1] && r[j] == q[j - 1]);
            } else {
                assert(q[0] <= q[j - 1]);
            }
        }
        assert(crate::fix::message::strictly_increasing(r));
    } else {
        let t = q.drop_first();
        assert(!t.contains(a)) by {
            if t.contains(a) {
                let j = choose|j: int| 0 <= j < t.len() && t[j] == a;
                assert(q[j + 1] == a);
            }
        }
        lemma_ascending_insert(t, a);
        let r0 = choose|r: Seq<u32>|
            crate::fix::message::strictly_increasing(r) && forall|x: u32|
                r.contains(x) <==> (t.contains(x) || x == a);
        let r = seq![q[0]] + r0;
        assert(q.contains(q[0]));
        assert(a != q[0]);
        assert forall|x: u32| r0.contains(x) implies q[0] < x by {
            if t.contains(x) {
                let j = choose|j: int| 0 <= j < t.len() && t[j] == x;
                assert(q[j + 1] == x);
            }
        }
        assert forall|x: u32| r.contains(x) <==> (q.contains(x) || x == a) by {
            if r.contains(x) {
                let j = choose|j: int| 0 <= j < r.len() && r[j] == x;
                if j > 0 {
                    assert(r0[j - 1] == x);
                    assert(r0.contains(x));
                    if t.contains(x) {
                        let k = choose|k: int| 0 <= k < t.len() && t[k] == x;
                        assert(q[k + 1] == x);
                    }
                }
            }
            if q.contains(x) {
                let j = choose|j: int| 0 <= j < q.len() && q[j] == x;
                if j > 0 {
                    assert(t[j - 1] == x);
                    assert(r0.contains(x));
                    let k = choose|k: int| 0 <= k < r0.len() && r0[k] == x;
                    assert(r[k + 1] == x);
                } else {
                    assert(r[0] == x);
                }
            }
            if x == a {
                assert(r0.contains(a));
                let k = choose|k: int| 0 <= k < r0.len() && r0[k] == a;
                assert(r[k + 1] == a);
            }
        }
        assert forall|i: int, j: int| 0 <= i < j < r.len() implies r[i] < r[j] by {
            if i > 0 {
                assert(r[i] == r0[i - 1] && r[j] == r0[j - 1]);
            } else {
                assert(r0.contains(r0[j - 1]));
            }
        }
        assert(crate::fix::message::strictly_increasing(r));
    }
}

/// Every finite set of tags has an ascending enumeration of its body tags.
pub proof fn lemma_enumeration_exists(dom: Set<u32>)
    requires
        dom.finite(),
    ensures
        exists|q: Seq<u32>| enumerates(q, dom),
    decreases dom.len(),
{
    if dom.len() == 0 {
        let q = Seq::<u32>::empty();
        assert(enumerates(q, dom));
    } else {
        let a = dom.choose();
        let d0 = dom.remove(a);
        lemma_enumeration_exists(d0);
        let q = choose|q: Seq<u32>| enumerates(q, d0);
        if is_body_tag(a) {
            assert(!q.contains(a));
            lemma_ascending_insert(q, a);
            let r = choose|r: Seq<u32>|
                crate::fix::message::strictly_increasing(r) && forall|x: u32|
                    r.contains(x) <==> (q.contains(x) || x == a);
            assert(enumerates(r, dom));
        } else {
            assert(enumerates(q, dom));
        }
    }
}


/// An encoded field is well-formed UTF-8 when its value is.
pub proof fn lemma_field_valid(t: nat, vb: Seq<u8>)
    requires
        valid_utf8(vb),
    ensures
        valid_utf8(field_bytes(t, vb)),
{
    lemma_decimal(t);
    let d = decimal(t);
    assert(all_ascii(d)) by {
        assert forall|i: int| 0 <= i < d.len() implies #[trigger] d[i] < 0x80 by {
            assert(is_digit(d[i]));
        }
    }
    lemma_ascii_text(d);
    lemma_ascii_text(seq![EQUALS]);
    lemma_ascii_text(seq![SOH]);
    assert(valid_utf8(d + seq![EQUALS]));
    assert(valid_utf8(d + seq![EQUALS] + vb));
    assert(valid_utf8(d + seq![EQUALS] + vb + seq![SOH]));
}

pub proof fn lemma_fields_valid(m: Map<u32, Seq<char>>, tags: Seq<u32>)
    ensures
        valid_utf8(fields_bytes(m, tags)),
    decreases tags.len(),
{
    if tags.len() == 0 {
        assert(valid_utf8(Seq::<u8>::empty()));
    } else {
        lemma_fields_valid(m, tags.drop_last());
        lemma_field_valid(tags.last() as nat, encode_utf8(m[tags.last()]));
        assert(valid_utf8(
            fields_bytes(m, tags.drop_last()) + field_bytes(
                tags.last() as nat,
                encode_utf8(m[tags.last()]),
            ),
        ));
    }
}

/// Digits, as characters, never hold U+0001.
pub proof fn lemma_digit_chars(d: Seq<u8>)
    requires
        all_digits(d),
    ensures
        all_ascii(d),
        !ascii_chars(d).contains('\u{1}'),
        encode_utf8(ascii_chars(d)) == d,
{
    assert(all_ascii(d)) by {
        assert forall|i: int| 0 <= i < d.len() implies #[trigger] d[i] < 0x80 by {
            assert(is_digit(d[i]));
        }
    }
    lemma_ascii_text(d);
    if ascii_chars(d).contains('\u{1}') {
        let k = choose|k: int| 0 <= k < ascii_chars(d).len() && ascii_chars(d)[k] == '\u{1}';
        assert(is_digit(d[k]));
        assert((d[k] as char) as u32 == d[k] as u32);
        assert(('\u{1}' as u32) == 1);
    }
}

/// What an encoded message must satisfy to be read back: finitely many
/// fields, a BeginString, no value holding U+0001, and a frame of at least
/// the minimal length that fits in memory.
pub open spec fn encodable(msg: MessageView) -> bool {
    &&& msg.fields.dom().finite()
    &&& msg.fields.contains_key(8)
    &&& forall|k: u32| #[trigger] msg.fields.contains_key(k) ==> !msg.fields[k].contains('\u{1}')
    &&& crate::fix::parser::min_frame_len() <= encoded(msg).len() <= usize::MAX
}

/// The message an encoded frame reads back as: the same fields, with
/// MsgType, BodyLength and CheckSum as written, and the type that the
/// written MsgType names.
pub open spec fn read_back(msg: MessageView) -> MessageView {
    let pre = encoded_head(msg) + encoded_body(msg);
    MessageView {
        msg_type: msg_type_of(type_value(msg)),
        fields: msg.fields.insert(35, type_value(msg)).insert(
            9,
            decimal_chars(encoded_body(msg).len()),
        ).insert(10, ascii_chars(three_digits(checksum(pre)))),
    }
}

/// The frame with BeginString bytes `e8` around the given body.
pub open spec fn frame_of(e8: Seq<u8>, body: Seq<u8>) -> Seq<u8> {
    let pre = field_bytes(8, e8) + field_bytes(9, decimal(body.len())) + body;
    pre + field_bytes(10, three_digits(checksum(pre)))
}

pub proof fn lemma_encoded_is_frame(msg: MessageView)
    requires
        msg.fields.contains_key(8),
    ensures
        encoded(msg) == frame_of(encode_utf8(msg.fields[8]), encoded_body(msg)),
{
}

/// In the first `k` bytes of a frame: BeginString at 0 and BodyLength
/// right after it.
pub proof fn lemma_frame_start(e8: Seq<u8>, body: Seq<u8>, k: int)
    requires
        forall|i: int| 0 <= i < e8.len() ==> e8[i] != SOH,
        e8.len() + 6 <= k <= frame_of(e8, body).len(),
    ensures
        first_tag(frame_of(e8, body).subrange(0, k), begin_pat(), 0, k) == Some(0int),
        first_tag(frame_of(e8, body).subrange(0, k), length_pat(), 0, k - 2) == Some(
            (e8.len() + 3) as int,
        ),
{
    lemma_small_decimals();
    let part = frame_of(e8, body).subrange(0, k);
    assert(part.subrange(0, 2) =~= begin_pat());
    assert(tag_at(part, 0, begin_pat()));
    assert(is_first_tag(part, begin_pat(), 0, k, 0));
    lemma_first_tag_found(part, begin_pat(), 0, k, 0);
    let p9 = (e8.len() + 3) as int;
    assert(part.subrange(p9, p9 + 2) =~= length_pat());
    assert(part[p9 - 1] == SOH);
    assert forall|j: int| 0 <= j < p9 implies !tag_at(part, j, length_pat()) by {
        if j == 0 {
            assert(part.subrange(0, 2)[0] == 56);
        } else if j == 1 {
            assert(part[0] == 56);
        } else if j == 2 {
            assert(part[1] == 61);
        } else {
            assert(part[j - 1] == e8[j - 3]);
        }
    }
    assert(is_first_tag(part, length_pat(), 0, k - 2, p9));
    lemma_first_tag_found(part, length_pat(), 0, k - 2, p9);
}

/// The BodyLength field of the first `k` bytes of a frame: its value ends
/// at the SOH after the digits (if the cut reaches it) and reads as the
/// body's length.
pub proof fn lemma_frame_length(e8: Seq<u8>, body: Seq<u8>, k: int)
    requires
        e8.len() + 6 <= k <= frame_of(e8, body).len() <= usize::MAX,
    ensures
        ({
            let part = frame_of(e8, body).subrange(0, k);
            let v = (e8.len() + 5) as int;
            let soh = v + decimal(body.len()).len() as int;
            &&& k <= soh ==> first_byte(part, SOH, v) is None
            &&& soh < k ==> first_byte(part, SOH, v) == Some(soh)
            &&& soh < k ==> length_step(part, 0, v, soh) == body_step(
                part,
                0,
                body.len(),
                soh + 1 + body.len(),
            )
            &&& soh + 1 + body.len() == e8.len() + 3 + field_bytes(9, decimal(body.len())).len()
                + body.len()
        }),
{
    let frame = frame_of(e8, body);
    let part = frame.subrange(0, k);
    let n = body.len();
    let d = decimal(n);
    lemma_decimal(n);
    let v = (e8.len() + 5) as int;
    let soh = v + d.len() as int;
    assert forall|j: int| v <= j < soh && j < k implies part[j] != SOH by {
        assert(part[j] == d[j - v]);
        assert(is_digit(d[j - v]));
    }
    if k <= soh {
        crate::fix::wire::lemma_first_byte_absent(part, SOH, v);
    } else {
        assert(part[soh] == SOH);
        assert(is_first_byte(part, SOH, v, soh));
        lemma_first_byte_found(part, SOH, v, soh);
        assert(part.subrange(v, soh) =~= d);
        lemma_digit_chars(d);
        lemma_decimal_parses(n, usize::MAX as nat);
    }
}

/// The CheckSum field of the first `k` bytes of a frame, once `k` reaches
/// five bytes past the body.
pub proof fn lemma_frame_checksum(e8: Seq<u8>, body: Seq<u8>, k: int)
    requires
        ({
            let end = (field_bytes(8, e8).len() + field_bytes(9, decimal(body.len())).len()
                + body.len()) as int;
            end + 5 <= k <= frame_of(e8, body).len()
        }),
    ensures
        ({
            let part = frame_of(e8, body).subrange(0, k);
            let end = (field_bytes(8, e8).len() + field_bytes(9, decimal(body.len())).len()
                + body.len()) as int;
            &&& k < frame_of(e8, body).len() ==> body_step(part, 0, body.len(), end)
                == FrameStep::Incomplete
            &&& k == frame_of(e8, body).len() ==> body_step(part, 0, body.len(), end)
                == FrameStep::Complete(0, k)
        }),
{
    lemma_small_decimals();
    let frame = frame_of(e8, body);
    let part = frame.subrange(0, k);
    let pre = field_bytes(8, e8) + field_bytes(9, decimal(body.len())) + body;
    let cs = three_digits(checksum(pre));
    let end = pre.len() as int;
    assert(field_bytes(10, cs) =~= seq![49u8, 48u8, 61u8] + cs + seq![SOH]);
    assert(part.subrange(end, end + 3) =~= checksum_pat());
    let c = end + 3;
    lemma_three_digits_parse(checksum(pre));
    assert forall|j: int| c <= j < k && j < c + 3 implies part[j] != SOH by {
        assert(part[j] == cs[j - c]);
        assert(is_digit(cs[j - c]));
    }
    if k < frame.len() {
        crate::fix::wire::lemma_first_byte_absent(part, SOH, c);
    } else {
        assert(part[c + 3] == SOH);
        assert(is_first_byte(part, SOH, c, c + 3));
        lemma_first_byte_found(part, SOH, c, c + 3);
        assert(part.subrange(c, c + 3) =~= cs);
        lemma_digit_chars(cs);
        assert(part.subrange(0, end) =~= pre);
    }
}

/// A frame read from its full bytes is one complete frame.
pub proof fn lemma_frame_complete(e8: Seq<u8>, body: Seq<u8>)
    requires
        forall|i: int| 0 <= i < e8.len() ==> e8[i] != SOH,
        crate::fix::parser::min_frame_len() <= frame_of(e8, body).len() <= usize::MAX,
    ensures
        frame_step(frame_of(e8, body)) == FrameStep::Complete(0, frame_of(e8, body).len() as int),
{
    let frame = frame_of(e8, body);
    let k = frame.len() as int;
    assert(frame.subrange(0, k) =~= frame);
    lemma_decimal(body.len());
    lemma_frame_start(e8, body, k);
    lemma_frame_length(e8, body, k);
    lemma_frame_checksum(e8, body, k);
}

/// An encoded message frames as one complete frame spanning all its bytes.
pub proof fn lemma_encoded_frames(msg: MessageView)
    requires
        encodable(msg),
    ensures
        frame_step(encoded(msg)) == FrameStep::Complete(0, encoded(msg).len() as int),
{
    lemma_encoded_is_frame(msg);
    lemma_encode_no_soh(msg.fields[8]);
    lemma_frame_complete(encode_utf8(msg.fields[8]), encoded_body(msg));
}

/// Encoding a message and framing the bytes gives back one complete frame
/// that reads as the same message: every field it had, MsgType, BodyLength
/// and CheckSum as written, and the type that MsgType names.
#[verifier::rlimit(100)]
#[verifier::spinoff_prover]
pub proof fn law_encode_then_read(msg: MessageView)
    requires
        encodable(msg),
    ensures
        frame_step(encoded(msg)) == FrameStep::Complete(0, encoded(msg).len() as int),
        tag_values(encoded(msg)) == Ok::<MessageView, crate::fix::error::FixErrorView>(
            read_back(msg),
        ),
{
    lemma_encoded_frames(msg);
    lemma_small_decimals();
    let m = msg.fields;
    let frame = encoded(msg);
    let v8 = m[8];
    let h8 = field_bytes(8, encode_utf8(v8));
    let body = encoded_body(msg);
    let n = body.len();
    let d = decimal(n);
    let h9 = field_bytes(9, d);
    let pre = encoded_head(msg) + body;
    let cs = three_digits(checksum(pre));
    let tail = field_bytes(10, cs);
    let tv = type_value(msg);
    let f35 = field_bytes(35, encode_utf8(tv));
    let keys = field_order(msg);
    lemma_enumeration_exists(m.dom());
    assert(enumerates(keys, m.dom()));
    assert(encoded_head(msg) == h8 + h9);
    assert(body == f35 + fields_bytes(m, keys));
    // Well-formed UTF-8.
    lemma_decimal(n);
    lemma_digit_chars(d);
    lemma_three_digits_parse(checksum(pre));
    lemma_digit_chars(cs);
    lemma_field_valid(8, encode_utf8(v8));
    lemma_field_valid(9, d);
    lemma_field_valid(35, encode_utf8(tv));
    lemma_fields_valid(m, keys);
    lemma_field_valid(10, cs);
    assert(valid_utf8(body));
    assert(valid_utf8(h8 + h9));
    assert(valid_utf8(pre));
    assert(valid_utf8(frame));
    // Field by field.
    let dc = ascii_chars(d);
    let cc = ascii_chars(cs);
    assert(!tv.contains('\u{1}')) by {
        if !m.contains_key(35) {
            if tv.contains('\u{1}') {
                let k = choose|k: int| 0 <= k < tv.len() && tv[k] == '\u{1}';
                assert(tv[k] == crate::fix::msg_type::fix_code(msg.msg_type));
            }
        }
    }
    assert(m.contains_key(8));
    let rest1 = h9 + (f35 + (fields_bytes(m, keys) + (tail + Seq::<u8>::empty())));
    assert(frame =~= h8 + rest1);
    lemma_read_one(8, v8, rest1, MsgType::Unknown, Map::empty());
    let a1 = Map::<u32, Seq<char>>::empty().insert(8, v8);
    let rest2 = f35 + (fields_bytes(m, keys) + (tail + Seq::<u8>::empty()));
    assert(h9 == field_bytes(9, encode_utf8(dc)));
    lemma_read_one(9, dc, rest2, MsgType::Unknown, a1);
    let a2 = a1.insert(9, dc);
    let rest3 = fields_bytes(m, keys) + (tail + Seq::<u8>::empty());
    lemma_read_one(35, tv, rest3, MsgType::Unknown, a2);
    let a3 = a2.insert(35, tv);
    let mt = msg_type_of(tv);
    assert forall|i: int| 0 <= i < keys.len() implies keys[i] != 35 && !(#[trigger] m[keys[i]]).contains(
        '\u{1}',
    ) by {
        assert(keys.contains(keys[i]));
    }
    lemma_read_many(m, keys, tail + Seq::<u8>::empty(), mt, a3);
    let a4 = insert_all(a3, m, keys);
    assert(tail == field_bytes(10, encode_utf8(cc)));
    lemma_read_one(10, cc, Seq::<u8>::empty(), mt, a4);
    let a5 = a4.insert(10, cc);
    assert(read_fields(Seq::<u8>::empty(), mt, a5) == Ok::<
        MessageView,
        crate::fix::error::FixErrorView,
    >(MessageView { msg_type: mt, fields: a5 }));
    let expected = read_back(msg).fields;
    assert forall|k: u32| #[trigger] a5.contains_key(k) <==> expected.contains_key(k) by {
        lemma_insert_all(a3, m, keys, k);
    }
    assert forall|k: u32| #[trigger] a5.contains_key(k) implies a5[k] == expected[k] by {
        lemma_insert_all(a3, m, keys, k);
    }
    assert(a5 =~= expected);
}


/// Where the BodyLength field of an encoded message starts.
pub open spec fn length_field_start(msg: MessageView) -> int {
    field_bytes(8, encode_utf8(msg.fields[8])).len() as int
}

/// A frame cut short is reported as waiting for more bytes (and so left in
/// the buffer), provided the cut is shorter than the minimal frame or lies
/// past the `9=` that opens BodyLength.
pub proof fn law_truncated_frame_waits(msg: MessageView, k: int)
    requires
        encodable(msg),
        0 <= k < encoded(msg).len(),
        k < crate::fix::parser::min_frame_len() || length_field_start(msg) + 3 <= k,
    ensures
        frame_step(encoded(msg).subrange(0, k)) == FrameStep::Incomplete,
{
    if k >= crate::fix::parser::min_frame_len() {
        let e8 = encode_utf8(msg.fields[8]);
        let body = encoded_body(msg);
        lemma_small_decimals();
        lemma_encoded_is_frame(msg);
        lemma_encode_no_soh(msg.fields[8]);
        lemma_decimal(body.len());
        assert(length_field_start(msg) == e8.len() + 3);
        lemma_frame_start(e8, body, k);
        lemma_frame_length(e8, body, k);
        let end = (field_bytes(8, e8).len() + field_bytes(9, decimal(body.len())).len()
            + body.len()) as int;
        if k >= end + 5 {
            lemma_frame_checksum(e8, body, k);
        }
    }
}

/// After a malformed frame, resynchronising keeps the frame that follows
/// it intact: when the bad bytes end with SOH and no `8=` starts a field
/// among them after the bad frame's start, the buffer resumes exactly at
/// the next frame.
pub proof fn law_resync_keeps_next_frame(bad: Seq<u8>, good: Seq<u8>, s: int)
    requires
        0 <= s < bad.len(),
        bad.last() == SOH,
        good.len() >= 2,
        good.subrange(0, 2) == begin_pat(),
        forall|j: int| s < j < bad.len() ==> !tag_at(bad, j, begin_pat()),
    ensures
        resync(bad + good, s) == good,
{
    let buf = bad + good;
    let p = bad.len() as int;
    assert(buf.subrange(p, p + 2) =~= good.subrange(0, 2));
    assert(tag_at(buf, p, begin_pat()));
    assert forall|j: int| s + 1 <= j < p implies !tag_at(buf, j, begin_pat()) by {
        if j + 2 <= p {
            assert(buf.subrange(j, j + 2) =~= bad.subrange(j, j + 2));
            assert(!tag_at(bad, j, begin_pat()));
        } else {
            assert(buf.subrange(j, j + 2)[0] == bad[p - 1]);
        }
    }
    assert(is_first_tag(buf, begin_pat(), s + 1, buf.len() as int, p));
    lemma_first_tag_found(buf, begin_pat(), s + 1, buf.len() as int, p);
    assert(buf.subrange(p, buf.len() as int) =~= good);
}

/// A field written with `set_field` is what `get_field` then reads.
pub proof fn law_set_then_get(msg: MessageView, tag: u32, value: Seq<char>, other: u32)
    ensures
        msg.fields.insert(tag, value).contains_key(tag),
        msg.fields.insert(tag, value)[tag] == value,
        other != tag ==> msg.fields.insert(tag, value).contains_key(other)
            == msg.fields.contains_key(other),
        other != tag && msg.fields.contains_key(other) ==> msg.fields.insert(tag, value)[other]
            == msg.fields[other],
{
}

} // verus!
