use rustforge::fix::error::FixError;
use rustforge::fix::message::FixMessage;
use rustforge::fix::msg_type::MsgType;
use rustforge::fix::parser::FixParser;

/// Build a valid FIX message from tag-value pairs (correct BodyLength
/// and CheckSum, courtesy of `encode()`).
fn build_fix_message(fields: &[(u32, &str)]) -> Vec<u8> {
    let mut m = FixMessage::new(MsgType::Unknown);
    for (tag, val) in fields {
        m.set_field(*tag, val);
    }
    m.encode()
}

/// A small, always-valid heartbeat we can append after a corrupt frame
/// to prove resync recovered it.
fn good_heartbeat() -> Vec<u8> {
    build_fix_message(&[(8, "FIX.4.4"), (35, "0"), (49, "A"), (56, "B"), (34, "99")])
}

/// Hand-build a frame from *exactly* the given body fields (no auto
/// MsgType injection, unlike `FixMessage::encode()`), with a correct
/// BodyLength and CheckSum. Lets us construct a wire-valid frame that
/// genuinely lacks tag 35.
///
/// `begin_string` becomes `8=...`, then `9=<len>`, then the body, then
/// `10=<sum>`. BodyLength counts the bytes after the `9=N\x01` field up
/// to and including the SOH before `10=` (i.e. the body part).
fn build_raw_frame(begin_string: &str, body_fields: &[(u32, &str)]) -> Vec<u8> {
    let mut body = String::new();
    for (tag, val) in body_fields {
        body.push_str(&format!("{tag}={val}\x01"));
    }
    let mut out = String::new();
    out.push_str(&format!("8={begin_string}\x01"));
    out.push_str(&format!("9={}\x01", body.len()));
    out.push_str(&body);
    let sum: u32 = out.as_bytes().iter().map(|b| *b as u32).sum();
    out.push_str(&format!("10={:03}\x01", (sum % 256) as u8));
    out.into_bytes()
}

/// Rewrite the value of the first SOH-delimited `9=...` field in an
/// otherwise-valid encoded frame, *without* recomputing the checksum.
/// Used to manufacture BodyLength-framing corruption.
fn corrupt_body_length(frame: &[u8], new_len: &str) -> Vec<u8> {
    let s = std::str::from_utf8(frame).unwrap();
    let nine = s.find("\x019=").map(|i| i + 1).unwrap();
    let val_start = nine + 2; // past "9="
    let soh = s[val_start..].find('\x01').unwrap() + val_start;
    let mut out = Vec::new();
    out.extend_from_slice(&frame[..val_start]);
    out.extend_from_slice(new_len.as_bytes());
    out.extend_from_slice(&frame[soh..]);
    out
}

// ── Happy-path / pre-existing behavior (call sites updated for the
//    new `Result<Option<_>, _>` signature) ──────────────────────────

#[test]
fn test_parse_logon_message() {
    let raw = build_fix_message(&[
        (8, "FIX.4.4"),
        (35, "A"),
        (49, "CLIENT"),
        (56, "SERVER"),
        (34, "1"),
        (98, "0"),
        (108, "30"),
    ]);

    let mut parser = FixParser::new();
    parser.push_bytes(&raw);
    let msg = parser
        .next_message()
        .expect("well-formed frame must not error")
        .expect("buffer holds a complete message");

    assert_eq!(msg.msg_type(), MsgType::Logon);
    assert_eq!(msg.get_field(49).map(|s| s.as_str()), Some("CLIENT"));
    assert_eq!(msg.get_field(56).map(|s| s.as_str()), Some("SERVER"));
    assert_eq!(msg.get_field(34).map(|s| s.as_str()), Some("1"));
}

#[test]
fn test_parse_execution_report() {
    let raw = build_fix_message(&[
        (8, "FIX.4.4"),
        (35, "8"),
        (49, "EXCHANGE"),
        (56, "ALGO"),
        (34, "42"),
        (17, "EXEC-001"),
        (150, "F"),
        (39, "2"),
        (55, "AAPL"),
        (54, "1"),
        (32, "100"),
        (31, "175.50"),
    ]);

    let mut parser = FixParser::new();
    parser.push_bytes(&raw);
    let msg = parser
        .next_message()
        .expect("well-formed frame must not error")
        .expect("buffer holds a complete message");

    assert_eq!(msg.msg_type(), MsgType::ExecutionReport);
    assert_eq!(msg.get_field(55).map(|s| s.as_str()), Some("AAPL"));
    assert_eq!(msg.get_field(32).map(|s| s.as_str()), Some("100"));
    assert_eq!(msg.get_field(31).map(|s| s.as_str()), Some("175.50"));
}

#[test]
fn test_multiple_messages() {
    let msg1 =
        build_fix_message(&[(8, "FIX.4.4"), (35, "0"), (49, "A"), (56, "B"), (34, "1")]);
    let msg2 =
        build_fix_message(&[(8, "FIX.4.4"), (35, "5"), (49, "A"), (56, "B"), (34, "2")]);

    let mut parser = FixParser::new();
    parser.push_bytes(&msg1);
    parser.push_bytes(&msg2);

    let parsed1 = parser.next_message().unwrap().expect("first message");
    assert_eq!(parsed1.msg_type(), MsgType::Heartbeat);

    let parsed2 = parser.next_message().unwrap().expect("second message");
    assert_eq!(parsed2.msg_type(), MsgType::Logout);
}

#[test]
fn test_roundtrip_encode_parse() {
    let mut outgoing = FixMessage::new(MsgType::NewOrderSingle);
    outgoing.set_field(8, "FIX.4.4");
    outgoing.set_field(49, "RUSTFORGE");
    outgoing.set_field(56, "NSE");
    outgoing.set_field(55, "RELIANCE");
    outgoing.set_field(54, "1"); // Buy
    outgoing.set_field(38, "500"); // Qty
    outgoing.set_field(44, "2650.50"); // Price

    let encoded = outgoing.encode();

    let mut parser = FixParser::new();
    parser.push_bytes(&encoded);
    let decoded = parser
        .next_message()
        .expect("roundtrip frame must not error")
        .expect("roundtrip frame is complete");

    assert_eq!(decoded.msg_type(), MsgType::NewOrderSingle);
    assert_eq!(decoded.get_field(55).map(|s| s.as_str()), Some("RELIANCE"));
    assert_eq!(decoded.get_field(38).map(|s| s.as_str()), Some("500"));
    assert_eq!(decoded.get_field(44).map(|s| s.as_str()), Some("2650.50"));
}

#[test]
fn test_empty_buffer_returns_none() {
    // WHY: an empty buffer is "wait for more bytes", never an error.
    let mut parser = FixParser::new();
    assert!(matches!(parser.next_message(), Ok(None)));
}

// ── Regression: incomplete vs malformed must NOT be conflated ───────

#[test]
fn test_incomplete_message_returns_none() {
    // WHY: a truncated TCP read is normal; the parser must report
    // `Ok(None)` and leave the buffer untouched so the rest of the
    // frame can be appended and parsed on a later call. Regressing
    // this back to "drain + None" (or, worse, `Err`) would either lose
    // the message or kill the session over a non-event.
    let raw =
        build_fix_message(&[(8, "FIX.4.4"), (35, "0"), (49, "A"), (56, "B"), (34, "1")]);

    let mut parser = FixParser::new();
    parser.push_bytes(&raw[..raw.len() / 2]);
    assert!(
        matches!(parser.next_message(), Ok(None)),
        "half a frame is incomplete, not malformed"
    );

    // Now complete the frame; the *same* parser must parse it.
    parser.push_bytes(&raw[raw.len() / 2..]);
    let msg = parser
        .next_message()
        .expect("completed frame must not error")
        .expect("completed frame is now whole");
    assert_eq!(msg.msg_type(), MsgType::Heartbeat);
}

#[test]
fn test_body_length_exceeds_buffer_is_incomplete_not_malformed() {
    // WHY: tag 9 saying "200 more bytes" when only 40 are buffered is
    // the textbook *incomplete* case — the body just hasn't arrived.
    // It MUST be `Ok(None)` (preserve the buffer), never `Err`. If we
    // returned `Err` here a peer that simply writes a large message in
    // two TCP segments would have its session torn down.
    let frame =
        build_fix_message(&[(8, "FIX.4.4"), (35, "0"), (49, "A"), (56, "B"), (34, "1")]);
    // Inflate BodyLength far past what's buffered.
    let lying = corrupt_body_length(&frame, "9999");

    let mut parser = FixParser::new();
    parser.push_bytes(&lying);
    assert!(
        matches!(parser.next_message(), Ok(None)),
        "BodyLength > buffered bytes is incomplete"
    );
}

#[test]
fn test_truncated_then_completed_roundtrips() {
    // WHY: same as the incomplete-message test but split at an
    // adversarial spot (one byte before the closing SOH) — proves the
    // buffer is genuinely preserved across calls, not just "close
    // enough".
    let frame =
        build_fix_message(&[(8, "FIX.4.4"), (35, "8"), (49, "EX"), (56, "AL"), (34, "7")]);
    let cut = frame.len() - 1;

    let mut parser = FixParser::new();
    parser.push_bytes(&frame[..cut]);
    assert!(matches!(parser.next_message(), Ok(None)));
    parser.push_bytes(&frame[cut..]);
    let msg = parser.next_message().unwrap().expect("now complete");
    assert_eq!(msg.msg_type(), MsgType::ExecutionReport);
}

// ── Malformed framing → Err + resync (recover-open) ────────────────

#[test]
fn test_body_length_too_short_errs_and_resyncs() {
    // WHY: this is the stream-desync hazard the PR exists to kill. A
    // garbled BodyLength on frame A used to make the parser drain the
    // whole buffer and return `None`, *silently eating* a perfectly
    // good frame B that arrived in the same TCP read. Now: frame A is
    // an `Err`, the parser resyncs to frame B's `8=`, and the very next
    // call returns frame B. No data loss.
    let mut bad =
        build_fix_message(&[(8, "FIX.4.4"), (35, "5"), (49, "A"), (56, "B"), (34, "1")]);
    bad = corrupt_body_length(&bad, "3"); // far too small → `10=` not at body_end
    let good = good_heartbeat();

    let mut parser = FixParser::new();
    parser.push_bytes(&bad);
    parser.push_bytes(&good);

    let err = parser.next_message().expect_err("frame A is malformed");
    assert!(matches!(err, FixError::BodyLengthFraming(_)));

    let recovered = parser
        .next_message()
        .expect("frame B is well-formed")
        .expect("frame B was recovered after resync");
    assert_eq!(recovered.msg_type(), MsgType::Heartbeat);
    assert_eq!(recovered.get_field(34).map(|s| s.as_str()), Some("99"));
}

#[test]
fn test_body_length_lands_but_no_checksum_there_errs_and_resyncs() {
    // WHY: BodyLength can also over-count and land *inside* a field
    // instead of on `10=`. Same failure class, same recovery contract.
    let mut bad =
        build_fix_message(&[(8, "FIX.4.4"), (35, "0"), (49, "AA"), (56, "BB"), (34, "2")]);
    // Push BodyLength out by a couple of bytes so body_end falls in the
    // middle of the trailing field rather than on `10=`.
    let real_len: usize = {
        let s = std::str::from_utf8(&bad).unwrap();
        let n = s.find("\x019=").map(|i| i + 3).unwrap();
        let soh = s[n..].find('\x01').unwrap() + n;
        s[n..soh].parse().unwrap()
    };
    bad = corrupt_body_length(&bad, &(real_len + 2).to_string());
    let good = good_heartbeat();

    let mut parser = FixParser::new();
    parser.push_bytes(&bad);
    parser.push_bytes(&good);

    let err = parser.next_message().expect_err("no `10=` at declared body_end");
    assert!(matches!(err, FixError::BodyLengthFraming(_)));

    let recovered = parser.next_message().unwrap().expect("resynced to frame B");
    assert_eq!(recovered.msg_type(), MsgType::Heartbeat);
}

// ── Checksum failures → Err + resync ───────────────────────────────

#[test]
fn test_invalid_checksum_value_errs_and_resyncs() {
    // WHY: a checksum mismatch means line corruption (or a buggy peer).
    // The frame is unusable, but the bytes *after* it might be a clean
    // message — so it's `Err(ChecksumMismatch)` + resync, not a buffer
    // wipe. Pre-fix this drained to msg_end and returned `None`, which
    // happened to keep the next frame, but the caller couldn't tell a
    // corruption event from "nothing to do yet".
    //
    // Construction: take a valid frame and mutate a single body byte by
    // +1 (length unchanged → framing still fine), leaving tag 10 stale.
    // The real sum is now off by exactly 1 (mod 256) → guaranteed
    // mismatch, no flakiness.
    let mut bad =
        build_fix_message(&[(8, "FIX.4.4"), (35, "8"), (49, "X"), (56, "Y"), (34, "3")]);
    let pos = {
        let s = std::str::from_utf8(&bad).unwrap();
        s.find("49=X").map(|i| i + 3).unwrap()
    };
    bad[pos] = b'Y'; // 'X' (0x58) -> 'Y' (0x59): sum shifts by 1
    let good = good_heartbeat();

    let mut parser = FixParser::new();
    parser.push_bytes(&bad);
    parser.push_bytes(&good);

    let err = parser.next_message().expect_err("checksum is wrong");
    assert!(matches!(err, FixError::ChecksumMismatch { .. }));

    let recovered = parser.next_message().unwrap().expect("resynced to frame B");
    assert_eq!(recovered.msg_type(), MsgType::Heartbeat);
}

#[test]
fn test_non_numeric_checksum_errs() {
    // WHY: `10=ABC\x01` is structurally broken — there's no integer to
    // compare against. Must surface as a structured error
    // (`MissingChecksumField`), never a panic on `.parse()`.
    let mut bad =
        build_fix_message(&[(8, "FIX.4.4"), (35, "0"), (49, "P"), (56, "Q"), (34, "4")]);
    let s = std::str::from_utf8(&bad).unwrap();
    let ten = s.rfind("\x0110=").map(|i| i + 4).unwrap();
    bad[ten] = b'A';
    bad[ten + 1] = b'B';
    bad[ten + 2] = b'C';

    let mut parser = FixParser::new();
    parser.push_bytes(&bad);
    let err = parser.next_message().expect_err("non-numeric checksum");
    assert!(matches!(err, FixError::MissingChecksumField(_)));
}

// ── from_tag_values: field-level parsing (runs AFTER framing+checksum,
//    so we exercise it directly) ─────────────────────────────────────

#[test]
fn test_from_tag_values_missing_equals() {
    // WHY: a field with no `=` (`FOO\x01`) is unparseable. Structured
    // error, no panic.
    let raw = b"35=0\x01FOO\x0149=A\x01";
    let err = FixMessage::from_tag_values(raw).expect_err("missing '=' in a field");
    assert!(matches!(err, FixError::Parse(_)));
}

#[test]
fn test_from_tag_values_non_numeric_tag() {
    // WHY: tags are integers; `abc=1` can't index anything. Structured
    // error, no panic.
    let raw = b"35=0\x01abc=1\x01";
    let err = FixMessage::from_tag_values(raw).expect_err("non-numeric tag");
    assert!(matches!(err, FixError::Parse(_)));
}

#[test]
fn test_from_tag_values_invalid_utf8() {
    // WHY: FIX is byte-oriented; a value with invalid UTF-8 must not
    // crash the parser. (Tightening this to byte-slice fields instead
    // of `str` is a possible future change, but today it must at least
    // be a graceful error.)
    let raw = b"35=0\x0158=\xFF\xFE\x01";
    let err = FixMessage::from_tag_values(raw).expect_err("invalid UTF-8 body");
    assert!(matches!(err, FixError::Parse(_)));
}

// ── Semantic vs wire validation ────────────────────────────────────

#[test]
fn test_missing_msgtype_field_parses_as_unknown() {
    // WHY: a frame with valid framing + checksum but no tag 35 is
    // *well-formed on the wire* — the parser should accept it and
    // report `MsgType::Unknown`. Rejecting it here would conflate two
    // layers: wire parsing (this crate) vs. session/business rules
    // ("this MsgType is required"), which belong upstream in
    // `session.rs` / the OMS. This test pins the current behavior so a
    // future change to it is deliberate.
    let frame = build_raw_frame("FIX.4.4", &[(49, "A"), (56, "B"), (34, "1")]);
    let mut parser = FixParser::new();
    parser.push_bytes(&frame);
    let msg = parser
        .next_message()
        .expect("frame is well-formed on the wire")
        .expect("frame is complete");
    assert_eq!(
        msg.msg_type(),
        MsgType::Unknown,
        "no tag 35 => Unknown; semantic 'MsgType required' is a separate layer"
    );
    assert!(
        msg.get_field(35).is_none(),
        "this frame genuinely carries no MsgType field"
    );
}

// ── Flagged limitations (documented, not fixed in this PR) ──────────

#[test]
fn test_soh_inside_length_delimited_data_field_is_lossy() {
    // LIMITATION: FIX length-delimited data fields — tag 95 RawDataLength
    // immediately followed by tag 96 RawData — may legally contain raw
    // `\x01` bytes inside the RawData value. This parser splits the body
    // *naively* on `\x01` and does not honor the length prefix, so an
    // embedded SOH is misread as a field separator and the data field is
    // truncated/garbled. This test documents the current (lossy) behavior;
    // honoring length-delimited fields (95→96, and the other
    // Length/Data pairs) is follow-up work, intentionally out of scope
    // for this PR.
    //
    // Frame: 95=4\x0196=A\x01BC\x01  — RawDataLength says 4 bytes
    // ("A\x01BC"), but the naive splitter sees `96=A`, then a stray
    // `BC` chunk with no `=`.
    let raw = b"35=0\x0149=S\x0156=T\x0134=1\x0195=4\x0196=A\x01BC\x01";
    let result = FixMessage::from_tag_values(raw);
    // Today: the `BC\x01` fragment has no `=` → parse error. We assert
    // it so a future fix that *correctly* handles length-delimited data
    // (and thus makes this `Ok`) trips this test on purpose.
    assert!(
        result.is_err(),
        "naive SOH-splitting currently mishandles length-delimited data fields"
    );
}

#[test]
fn test_checksum_collision_is_accepted() {
    // LIMITATION: FIX's CheckSum (tag 10) is the sum of all preceding
    // bytes mod 256 — a *transmission-integrity* check, not tamper
    // detection. Two different bodies can share the same mod-256 sum, so
    // a payload mutated in a sum-preserving way (e.g. swap one byte +1
    // and another -1) sails through. The parser accepts it; surfacing
    // (not "fixing") this is the point. Real tamper resistance would
    // need a MAC/signature layer above FIX, which is out of scope.
    let pristine =
        build_fix_message(&[(8, "FIX.4.4"), (35, "0"), (49, "AB"), (56, "CD"), (34, "1")]);
    // Find the two-byte sender comp id "AB" inside the body and turn it
    // into "BA" (same byte multiset → same sum → checksum still valid).
    let s = std::str::from_utf8(&pristine).unwrap();
    let pos = s.find("49=AB").map(|i| i + 3).unwrap();
    let mut mutated = pristine.clone();
    mutated[pos] = b'B';
    mutated[pos + 1] = b'A';
    assert_ne!(pristine, mutated, "we actually changed the bytes");

    let mut parser = FixParser::new();
    parser.push_bytes(&mutated);
    let msg = parser
        .next_message()
        .expect("mod-256 sum still matches, so the parser accepts it")
        .expect("frame is complete");
    // The mutation went through undetected — that's the documented gap.
    assert_eq!(msg.get_field(49).map(|s| s.as_str()), Some("BA"));
}
