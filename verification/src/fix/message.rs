//! A FIX message as a map from tags to values, its reading from the
//! `tag=value<SOH>` fields of a frame, and its encoding into a frame.
use vstd::prelude::*;
use vstd::string::*;
use vstd::utf8::*;
use std::collections::HashMap;
use crate::fix::error::{FixError, FixErrorView};
use crate::fix::msg_type::{MsgType, msg_type_of, fix_value};
use crate::fix::text::{str_from_utf8, lemma_ascii_delimited_valid, utf8_error_text};
use crate::fix::wire::{
    SOH, EQUALS, first_byte, is_first_byte, lemma_first_byte_found, lemma_first_byte_absent, lemma_first_byte_exists,
    parse_unsigned, parse_unsigned_in, decimal, push_decimal, three_digits, checksum, checksum_in, append_bytes,
};

verus! {

broadcast use {
    vstd::std_specs::hash::group_hash_axioms,
    vstd::seq::group_seq_axioms,
    vstd::utf8::encode_utf8_decode_utf8,
    vstd::utf8::encode_utf8_valid_utf8,
};

/// A message as data: its type and the text of each tag.
pub struct MessageView {
    pub msg_type: MsgType,
    pub fields: Map<u32, Seq<char>>,
}

/// The end of the field that begins `raw`: its first SOH, or the end.
pub open spec fn field_end(raw: Seq<u8>) -> int {
    match first_byte(raw, SOH, 0) {
        Some(i) => i,
        None => raw.len() as int,
    }
}

/// What follows the field that begins `raw` and its SOH.
pub open spec fn after_field(raw: Seq<u8>) -> Seq<u8> {
    let e = field_end(raw);
    if e < raw.len() {
        raw.subrange(e + 1, raw.len() as int)
    } else {
        Seq::empty()
    }
}

/// One non-empty `tag=value` field: the tag before the first `=` must read
/// as a `u32`; the value is the text after it.
pub open spec fn read_field(seg: Seq<u8>) -> Result<(u32, Seq<char>), FixErrorView> {
    match first_byte(seg, EQUALS, 0) {
        None => Err(FixErrorView::Parse("Missing '=' in field: "@ + decode_utf8(seg))),
        Some(eq) => match parse_unsigned(seg.subrange(0, eq), u32::MAX as nat) {
            None => Err(
                FixErrorView::Parse("Invalid tag: "@ + decode_utf8(seg.subrange(0, eq))),
            ),
            Some(t) => Ok((t as u32, decode_utf8(seg.subrange(eq + 1, seg.len() as int)))),
        },
    }
}

/// Reads the SOH-separated fields of `raw` in order, skipping empty ones,
/// on top of the type and fields read so far. A later field replaces an
/// earlier one with the same tag; tag 35 sets the message type. The first
/// bad field is the error.
pub open spec fn read_fields(raw: Seq<u8>, mt: MsgType, acc: Map<u32, Seq<char>>) -> Result<
    MessageView,
    FixErrorView,
>
    decreases raw.len(),
{
    if raw.len() == 0 {
        Ok(MessageView { msg_type: mt, fields: acc })
    } else {
        proof {
            lemma_field_end_bounds(raw);
        }
        let seg = raw.subrange(0, field_end(raw));
        if seg.len() == 0 {
            read_fields(after_field(raw), mt, acc)
        } else {
            match read_field(seg) {
                Err(e) => Err(e),
                Ok((t, v)) => read_fields(
                    after_field(raw),
                    if t == 35 {
                        msg_type_of(v)
                    } else {
                        mt
                    },
                    acc.insert(t, v),
                ),
            }
        }
    }
}

/// The message that the bytes of a frame hold: well-formed UTF-8 read
/// field by field, or the error that stops the reading.
pub open spec fn tag_values(raw: Seq<u8>) -> Result<MessageView, FixErrorView> {
    if valid_utf8(raw) {
        read_fields(raw, MsgType::Unknown, Map::empty())
    } else {
        Err(FixErrorView::Parse("Invalid UTF-8: "@ + utf8_error_text(raw)))
    }
}

pub proof fn lemma_field_end_bounds(raw: Seq<u8>)
    ensures
        0 <= field_end(raw) <= raw.len(),
        after_field(raw).len() < raw.len() || raw.len() == 0,
        field_end(raw) < raw.len() ==> raw[field_end(raw)] == SOH,
        forall|j: int| 0 <= j < field_end(raw) ==> raw[j] != SOH,
{
    if exists|i: int| is_first_byte(raw, SOH, 0, i) {
        let i = choose|i: int| is_first_byte(raw, SOH, 0, i);
        lemma_first_byte_found(raw, SOH, 0, i);
    } else {
        assert forall|j: int| 0 <= j < raw.len() implies raw[j] != SOH by {
            if raw[j] == SOH {
                lemma_first_byte_exists(raw, SOH, 0, j);
            }
        }
    }
}

/// Length-delimited FIX message: its type and its fields.
#[derive(Debug)]
pub struct FixMessage {
    msg_type: MsgType,
    fields: HashMap<u32, String>,
}

/// The text of each tag of a map of strings.
pub open spec fn texts(m: Map<u32, String>) -> Map<u32, Seq<char>> {
    m.map_values(|s: String| s@)
}

impl View for FixMessage {
    type V = MessageView;

    closed spec fn view(&self) -> MessageView {
        MessageView { msg_type: self.msg_type, fields: texts(self.fields@) }
    }
}

impl FixMessage {
    /// A message of the given type with no fields.
    pub fn new(msg_type: MsgType) -> (m: FixMessage)
        ensures
            m@.msg_type == msg_type,
            m@.fields == Map::<u32, Seq<char>>::empty(),
    {
        let m = FixMessage { msg_type, fields: HashMap::new() };
        assert(texts(m.fields@) =~= Map::<u32, Seq<char>>::empty());
        m
    }

    /// Parse a FixMessage from raw tag=value pairs (SOH-delimited bytes).
    /// This is used internally by FixParser after framing.
    pub fn from_tag_values(raw: &[u8]) -> (r: Result<FixMessage, FixError>)
        ensures
            match tag_values(raw@) {
                Ok(v) => r matches Ok(m) && m@ == v,
                Err(e) => r matches Err(err) && err@ == e,
            },
    {
        let text = str_from_utf8(raw);
        match text {
            Ok(_) => {},
            Err(why) => {
                let mut s = String::from_str("Invalid UTF-8: ");
                s.append(why.as_str());
                return Err(FixError::Parse(s));
            },
        }
        let len = raw.len();
        let mut fields: HashMap<u32, String> = HashMap::new();
        let mut msg_type = MsgType::Unknown;
        let mut pos: usize = 0;
        assert(texts(fields@) =~= Map::<u32, Seq<char>>::empty());
        assert(raw@.subrange(0, len as int) =~= raw@);
        while pos < len
            invariant
                len == raw@.len(),
                pos <= len,
                valid_utf8(raw@),
                pos == 0 || pos == len || raw@[pos - 1] == SOH,
                tag_values(raw@) == read_fields(
                    raw@.subrange(pos as int, len as int),
                    msg_type,
                    texts(fields@),
                ),
            decreases len - pos,
        {
            let ghost rest = raw@.subrange(pos as int, len as int);
            let tail = &raw[pos..len];
            assert(tail@ == rest);
            let found = find_byte_from(tail, SOH, 0);
            let end: usize = match found {
                Some(e) => e,
                None => tail.len(),
            };
            proof {
                lemma_field_end_bounds(rest);
                assert(end == field_end(rest));
            }
            let ghost seg = rest.subrange(0, end as int);
            if end > 0 {
                let piece = &tail[0..end];
                assert(piece@ == seg);
                proof {
                    assert(seg =~= raw@.subrange(pos as int, pos + end));
                    assert(pos + end == len || raw@[pos + end] == SOH);
                }
                match Self::read_one_field(raw, pos, pos + end) {
                    Ok((tag, value)) => {
                        if tag == 35 {
                            msg_type = MsgType::from_fix_value(value.as_str());
                        }
                        let ghost before = fields@;
                        let ghost text = value@;
                        fields.insert(tag, value);
                        proof {
                            assert(texts(fields@) =~= texts(before).insert(tag, text));
                        }
                    },
                    Err(e) => {
                        return Err(e);
                    },
                }
            }
            let next = if end < tail.len() {
                pos + end + 1
            } else {
                len
            };
            proof {
                if end < rest.len() {
                    assert(raw@.subrange(next as int, len as int) =~= after_field(rest));
                } else {
                    assert(raw@.subrange(next as int, len as int) =~= after_field(rest));
                }
            }
            pos = next;
        }
        Ok(FixMessage { msg_type, fields })
    }

    /// Reads the non-empty field `raw[lo..hi]` of well-formed UTF-8 text.
    fn read_one_field(raw: &[u8], lo: usize, hi: usize) -> (r: Result<(u32, String), FixError>)
        requires
            valid_utf8(raw@),
            lo < hi <= raw@.len(),
            lo == 0 || raw@[lo - 1] == SOH,
            hi == raw@.len() || raw@[hi as int] == SOH,
        ensures
            match read_field(raw@.subrange(lo as int, hi as int)) {
                Ok((t, v)) => r matches Ok((tag, value)) && tag == t && value@ == v,
                Err(e) => r matches Err(err) && err@ == e,
            },
    {
        let piece = &raw[lo..hi];
        let ghost seg = piece@;
        let eq = find_byte_from(piece, EQUALS, 0);
        match eq {
            None => {
                proof {
                    lemma_ascii_delimited_valid(raw@, lo as int, hi as int);
                }
                let mut s = String::from_str("Missing '=' in field: ");
                s.append(Self::utf8_text(piece));
                Err(FixError::Parse(s))
            },
            Some(e) => {
                match parse_unsigned_in(piece, 0, e, u32::MAX as u64) {
                    None => {
                        let name = &piece[0..e];
                        proof {
                            assert(name@ =~= raw@.subrange(lo as int, lo + e));
                            lemma_ascii_delimited_valid(raw@, lo as int, lo + e);
                        }
                        let mut s = String::from_str("Invalid tag: ");
                        s.append(Self::utf8_text(name));
                        Err(FixError::Parse(s))
                    },
                    Some(t) => {
                        let rest = &piece[e + 1..piece.len()];
                        proof {
                            assert(rest@ =~= raw@.subrange(lo + e + 1, hi as int));
                            assert(raw@[lo + e] == EQUALS);
                            lemma_ascii_delimited_valid(raw@, lo + e + 1, hi as int);
                        }
                        let value = Self::utf8_text(rest).to_owned();
                        Ok((t as u32, value))
                    },
                }
            },
        }
    }

    /// The text of a run of bytes known to be well-formed UTF-8.
    fn utf8_text(bytes: &[u8]) -> (s: &str)
        requires
            valid_utf8(bytes@),
        ensures
            s@ == decode_utf8(bytes@),
    {
        match str_from_utf8(bytes) {
            Ok(s) => s,
            Err(_) => {
                assert(false);
                ""
            },
        }
    }


    /// The frame of this message: BeginString (tag 8) if present, then
    /// BodyLength (tag 9), MsgType (tag 35, taken from the fields or from the
    /// message type), the other fields by ascending tag, and CheckSum (tag
    /// 10). Fields 9 and 10 of the map are not written.
    pub fn encode(&self) -> (out: Vec<u8>)
        ensures
            out@ == encoded(self@),
    {
        let tags = sorted_body_tags(&self.fields);
        proof {
            assert(self@.fields.dom() =~= self.fields@.dom());
            assert(enumerates(tags@, self@.fields.dom()));
            assert(exists|s: Seq<u32>| enumerates(s, self@.fields.dom()));
            let chosen = field_order(self@);
            assert(enumerates(chosen, self@.fields.dom()));
            assert forall|x: u32| tags@.contains(x) <==> chosen.contains(x) by {
                assert(tags@.contains(x) <==> (self@.fields.dom().contains(x) && is_body_tag(x)));
                assert(chosen.contains(x) <==> (self@.fields.dom().contains(x) && is_body_tag(x)));
            }
            lemma_ascending_unique(tags@, chosen);
        }
        let mut body: Vec<u8> = Vec::new();
        match self.fields.get(&35) {
            Some(v) => push_field(&mut body, 35, v.as_str().as_bytes()),
            None => push_field(&mut body, 35, self.msg_type.to_fix_value().as_bytes()),
        }
        let mut i: usize = 0;
        while i < tags.len()
            invariant
                i <= tags@.len(),
                enumerates(tags@, self@.fields.dom()),
                tags@ == field_order(self@),
                body@ == field_bytes(35, encode_utf8(type_value(self@))) + fields_bytes(
                    self@.fields,
                    tags@.subrange(0, i as int),
                ),
            decreases tags@.len() - i,
        {
            let t = tags[i];
            assert(tags@.contains(t));
            assert(self@.fields.dom() =~= self.fields@.dom());
            assert(tags@.contains(t) <==> (self@.fields.dom().contains(t) && is_body_tag(t)));
            assert(self.fields@.contains_key(t));
            let v = self.fields.get(&t);
            match v {
                Some(v) => {
                    push_field(&mut body, t as u64, v.as_str().as_bytes());
                },
                None => {
                    assert(false);
                },
            }
            assert(tags@.subrange(0, i + 1).drop_last() =~= tags@.subrange(0, i as int));
            i = i + 1;
        }
        assert(tags@.subrange(0, i as int) =~= tags@);
        let mut out: Vec<u8> = Vec::new();
        match self.fields.get(&8) {
            Some(v) => push_field(&mut out, 8, v.as_str().as_bytes()),
            None => {},
        }
        let mut len_digits: Vec<u8> = Vec::new();
        push_decimal(&mut len_digits, body.len() as u64);
        push_field(&mut out, 9, len_digits.as_slice());
        append_bytes(&mut out, body.as_slice());
        let cs = checksum_in(out.as_slice(), 0, out.len());
        assert(out@.subrange(0, out@.len() as int) =~= out@);
        let digits: Vec<u8> = vec![cs / 100 + 48, cs / 10 % 10 + 48, cs % 10 + 48];
        assert(digits@ =~= three_digits(cs));
        push_field(&mut out, 10, digits.as_slice());
        assert(out@ =~= encoded(self@));
        out
    }

    pub fn msg_type(&self) -> (t: MsgType)
        ensures
            t == self@.msg_type,
    {
        self.msg_type.copied()
    }

    pub fn set_field(&mut self, tag: u32, val: &str)
        ensures
            final(self)@.msg_type == old(self)@.msg_type,
            final(self)@.fields == old(self)@.fields.insert(tag, val@),
    {
        let ghost before = self.fields@;
        self.fields.insert(tag, val.to_owned());
        assert(texts(self.fields@) =~= texts(before).insert(tag, val@));
    }

    pub fn get_field(&self, tag: u32) -> (r: Option<&String>)
        ensures
            match r {
                Some(s) => self@.fields.contains_key(tag) && s@ == self@.fields[tag],
                None => !self@.fields.contains_key(tag),
            },
    {
        self.fields.get(&tag)
    }

    /// Get all fields (for debugging/logging).
    pub fn fields(&self) -> (m: &HashMap<u32, String>)
        ensures
            texts(m@) == self@.fields,
    {
        &self.fields
    }
}


/// Tags that the encoder writes in the body in ascending order: all but
/// BeginString (8), BodyLength (9), CheckSum (10) and MsgType (35).
pub open spec fn is_body_tag(t: u32) -> bool {
    t != 8 && t != 9 && t != 10 && t != 35
}

pub open spec fn strictly_increasing(s: Seq<u32>) -> bool {
    forall|i: int, j: int| 0 <= i < j < s.len() ==> s[i] < s[j]
}

/// `s` lists the body tags of the domain `dom` once each, in ascending order.
pub open spec fn enumerates(s: Seq<u32>, dom: Set<u32>) -> bool {
    &&& strictly_increasing(s)
    &&& forall|x: u32|
        #![trigger s.contains(x)]
        #![trigger dom.contains(x)]
        s.contains(x) <==> (dom.contains(x) && is_body_tag(x))
}

/// The tags of a map's body tags in ascending order.
fn sorted_body_tags(m: &HashMap<u32, String>) -> (v: Vec<u32>)
    ensures
        enumerates(v@, m@.dom()),
{
    let mut tags: Vec<u32> = Vec::new();
    for k in it: m.keys()
        invariant
            strictly_increasing(tags@),
            it.seq().unref().to_set() == m@.dom(),
            it.seq().no_duplicates(),
            forall|x: u32|
                #![trigger tags@.contains(x)]
                tags@.contains(x) ==> is_body_tag(x) && m@.dom().contains(x) && exists|j: int|
                    0 <= j < it.index() && *it.seq()[j] == x,
            forall|x: u32|
                #![trigger m@.dom().contains(x)]
                is_body_tag(x) && m@.dom().contains(x) && !tags@.contains(x) ==> exists|j: int|
                    it.index() <= j < it.seq().len() && *it.seq()[j] == x,
    {
        let t = *k;
        let ghost idx = it.index();
        assert(t == *it.seq()[idx]);
        assert(forall|j: int| 0 <= j < idx ==> *it.seq()[j] != t) by {
            assert forall|j: int| 0 <= j < idx implies *it.seq()[j] != t by {
                if *it.seq()[j] == t {
                    assert(it.seq()[j] == it.seq()[idx]);
                }
            }
        }
        let ghost before = tags@;
        assert(!before.contains(t));
        assert(it.seq().unref()[idx] == t);
        assert(it.seq().unref().to_set().contains(t));
        if t != 8 && t != 9 && t != 10 && t != 35 {
            let mut p: usize = 0;
            while p < tags.len() && tags[p] < t
                invariant
                    p <= tags@.len(),
                    forall|i: int| 0 <= i < p ==> tags@[i] < t,
                decreases tags@.len() - p,
            {
                p = p + 1;
            }
            tags.insert(p, t);
            assert forall|i: int, j: int| 0 <= i < j < tags@.len() implies tags@[i] < tags@[j] by {
                if j < p {
                } else if j == p {
                } else if i < p {
                    assert(before[j - 1] >= t) by {
                        if before[j - 1] < t {
                            assert(before[p as int] <= before[j - 1]);
                        }
                    }
                    assert(before[j - 1] != t);
                } else if i == p {
                    assert(before[j - 1] != t);
                    assert(before[p as int] >= t);
                    assert(p == j - 1 || before[p as int] < before[j - 1]);
                } else {
                }
            }
            assert forall|x: u32| tags@.contains(x) <==> (before.contains(x) || x == t) by {
                if tags@.contains(x) {
                    let j = choose|j: int| 0 <= j < tags@.len() && tags@[j] == x;
                    if j < p {
                        assert(before[j] == x);
                    } else if j > p {
                        assert(before[j - 1] == x);
                    }
                }
                if before.contains(x) {
                    let j = choose|j: int| 0 <= j < before.len() && before[j] == x;
                    if j < p {
                        assert(tags@[j] == x);
                    } else {
                        assert(tags@[j + 1] == x);
                    }
                }
                if x == t {
                    assert(tags@[p as int] == x);
                }
            }
        }
        assert forall|x: u32| #[trigger] tags@.contains(x) implies is_body_tag(x) && m@.dom().contains(
            x,
        ) && exists|j: int| 0 <= j < idx + 1 && *it.seq()[j] == x by {
            if x != t {
                assert(before.contains(x));
            } else {
                assert(m@.dom().contains(t));
                assert(*it.seq()[idx] == x);
            }
        }
    }
    tags
}


/// Two ascending lists with the same elements are the same list.
pub proof fn lemma_ascending_unique(a: Seq<u32>, b: Seq<u32>)
    requires
        strictly_increasing(a),
        strictly_increasing(b),
        forall|x: u32| a.contains(x) <==> b.contains(x),
    ensures
        a == b,
    decreases a.len(),
{
    if a.len() == 0 {
        if b.len() > 0 {
            assert(b.contains(b[0]));
        }
        assert(a =~= b);
    } else {
        assert(a.contains(a[0]));
        let j = choose|j: int| 0 <= j < b.len() && b[j] == a[0];
        assert(b.contains(b[0]));
        let i = choose|i: int| 0 <= i < a.len() && a[i] == b[0];
        if j > 0 {
            assert(b[0] < b[j]);
            if i > 0 {
                assert(a[0] < a[i]);
            }
        }
        assert(a[0] == b[0]);
        let a1 = a.drop_first();
        let b1 = b.drop_first();
        assert forall|x: u32| a1.contains(x) <==> b1.contains(x) by {
            if a1.contains(x) {
                let k = choose|k: int| 0 <= k < a1.len() && a1[k] == x;
                assert(a[k + 1] == x);
                assert(a[0] < a[k + 1]);
                assert(b.contains(x));
                let l = choose|l: int| 0 <= l < b.len() && b[l] == x;
                assert(l != 0);
                assert(b1[l - 1] == x);
            }
            if b1.contains(x) {
                let k = choose|k: int| 0 <= k < b1.len() && b1[k] == x;
                assert(b[k + 1] == x);
                assert(b[0] < b[k + 1]);
                assert(a.contains(x));
                let l = choose|l: int| 0 <= l < a.len() && a[l] == x;
                assert(l != 0);
                assert(a1[l - 1] == x);
            }
        }
        lemma_ascending_unique(a1, b1);
        assert(a =~= b) by {
            assert forall|k: int| 0 <= k < a.len() implies a[k] == b[k] by {
                if k > 0 {
                    assert(a[k] == a1[k - 1]);
                    assert(b[k] == b1[k - 1]);
                }
            }
        }
    }
}

/// The body tags of a message, in the order the encoder writes them.
pub open spec fn field_order(msg: MessageView) -> Seq<u32> {
    choose|s: Seq<u32>| enumerates(s, msg.fields.dom())
}

/// One encoded field: `tag=value<SOH>`.
pub open spec fn field_bytes(tag: nat, value: Seq<u8>) -> Seq<u8> {
    decimal(tag) + seq![EQUALS] + value + seq![SOH]
}

/// The fields with the given tags, in that order.
pub open spec fn fields_bytes(m: Map<u32, Seq<char>>, tags: Seq<u32>) -> Seq<u8>
    decreases tags.len(),
{
    if tags.len() == 0 {
        Seq::empty()
    } else {
        fields_bytes(m, tags.drop_last()) + field_bytes(
            tags.last() as nat,
            encode_utf8(m[tags.last()]),
        )
    }
}

/// The MsgType value written: the tag 35 field if present, else the code
/// of the message's type.
pub open spec fn type_value(msg: MessageView) -> Seq<char> {
    if msg.fields.contains_key(35) {
        msg.fields[35]
    } else {
        fix_value(msg.msg_type)
    }
}

/// The body that BodyLength counts: MsgType first, then the body tags in
/// ascending order.
pub open spec fn encoded_body(msg: MessageView) -> Seq<u8> {
    field_bytes(35, encode_utf8(type_value(msg))) + fields_bytes(msg.fields, field_order(msg))
}

/// BeginString (when present) and BodyLength.
pub open spec fn encoded_head(msg: MessageView) -> Seq<u8> {
    (if msg.fields.contains_key(8) {
        field_bytes(8, encode_utf8(msg.fields[8]))
    } else {
        Seq::empty()
    }) + field_bytes(9, decimal(encoded_body(msg).len()))
}

/// The complete frame of a message: head, body, and the CheckSum field over
/// every byte before it.
pub open spec fn encoded(msg: MessageView) -> Seq<u8> {
    let pre = encoded_head(msg) + encoded_body(msg);
    pre + field_bytes(10, three_digits(checksum(pre)))
}

/// Appends the field `tag=value<SOH>`.
fn push_field(out: &mut Vec<u8>, tag: u64, value: &[u8])
    ensures
        final(out)@ == old(out)@ + field_bytes(tag as nat, value@),
{
    push_decimal(out, tag);
    out.push(EQUALS);
    append_bytes(out, value);
    out.push(SOH);
    assert(final(out)@ =~= old(out)@ + field_bytes(tag as nat, value@));
}

/// The first position at or after `from` holding byte `b`.
pub(crate) fn find_byte_from(buf: &[u8], b: u8, from: usize) -> (r: Option<usize>)
    requires
        from <= buf@.len(),
    ensures
        match r {
            Some(i) => is_first_byte(buf@, b, from as int, i as int) && first_byte(
                buf@,
                b,
                from as int,
            ) == Some(i as int),
            None => first_byte(buf@, b, from as int) is None,
        },
{
    let mut i = from;
    while i < buf.len()
        invariant
            from <= i <= buf@.len(),
            forall|j: int| from <= j < i ==> buf@[j] != b,
        decreases buf@.len() - i,
    {
        if buf[i] == b {
            proof {
                lemma_first_byte_found(buf@, b, from as int, i as int);
            }
            return Some(i);
        }
        i = i + 1;
    }
    proof {
        lemma_first_byte_absent(buf@, b, from as int);
    }
    None
}

} // verus!
