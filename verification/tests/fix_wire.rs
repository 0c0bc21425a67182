use rustforge::fix::error::FixError;
use rustforge::fix::message::FixMessage;
use rustforge::fix::msg_type::MsgType;
use rustforge::fix::parser::FixParser;

const HEARTBEAT: &[u8] = b"8=FIX.4.4\x019=15\x0135=0\x0149=A\x0156=B\x0110=171\x01";

fn heartbeat_message() -> FixMessage {
    let mut m = FixMessage::new(MsgType::Heartbeat);
    m.set_field(8, "FIX.4.4");
    m.set_field(49, "A");
    m.set_field(56, "B");
    m
}

fn parse_one(bytes: &[u8]) -> (Result<Option<FixMessage>, FixError>, FixParser) {
    let mut p = FixParser::new();
    p.push_bytes(bytes);
    let r = p.next_message();
    (r, p)
}

fn error_of(bytes: &[u8]) -> FixError {
    match parse_one(bytes).0 {
        Err(e) => e,
        Ok(_) => panic!("expected an error"),
    }
}

#[test]
fn encode_gives_exact_frame() {
    assert_eq!(heartbeat_message().encode(), HEARTBEAT.to_vec());
}

#[test]
fn encode_without_begin_string_starts_with_body_length() {
    let m = FixMessage::new(MsgType::Logout);
    assert_eq!(m.encode(), b"9=5\x0135=5\x0110=135\x01".to_vec());
}

#[test]
fn encode_prefers_explicit_msg_type_and_drops_length_and_checksum_fields() {
    let mut m = FixMessage::new(MsgType::Heartbeat);
    m.set_field(35, "D");
    m.set_field(9, "999");
    m.set_field(10, "000");
    let bytes = m.encode();
    let text = String::from_utf8(bytes).unwrap();
    assert!(text.starts_with("9=5\x0135=D\x01"));
    assert!(!text.contains("999"));
    assert!(text.ends_with("\x01"));
}

#[test]
fn encode_orders_body_fields_by_tag() {
    let mut m = FixMessage::new(MsgType::NewOrderSingle);
    m.set_field(55, "AAPL");
    m.set_field(11, "ORD1");
    m.set_field(54, "1");
    m.set_field(38, "100");
    m.set_field(8, "FIX.4.4");
    assert_eq!(
        m.encode(),
        b"8=FIX.4.4\x019=33\x0135=D\x0111=ORD1\x0138=100\x0154=1\x0155=AAPL\x0110=118\x01".to_vec()
    );
}

#[test]
fn encoded_message_reads_back() {
    let m = heartbeat_message();
    let (r, mut p) = parse_one(&m.encode());
    let back = r.unwrap().unwrap();
    assert_eq!(back.msg_type(), MsgType::Heartbeat);
    assert_eq!(back.get_field(49).unwrap(), "A");
    assert_eq!(back.get_field(56).unwrap(), "B");
    assert_eq!(back.get_field(8).unwrap(), "FIX.4.4");
    assert_eq!(back.get_field(9).unwrap(), "15");
    assert_eq!(back.get_field(35).unwrap(), "0");
    assert_eq!(back.get_field(10).unwrap(), "171");
    assert_eq!(back.fields().len(), 6);
    assert!(p.next_message().unwrap().is_none());
}

#[test]
fn every_prefix_of_a_frame_waits() {
    for k in 0..HEARTBEAT.len() {
        let mut p = FixParser::new();
        p.push_bytes(&HEARTBEAT[..k]);
        assert!(p.next_message().unwrap().is_none(), "prefix of {k} bytes");
        p.push_bytes(&HEARTBEAT[k..]);
        let m = p.next_message().unwrap().unwrap();
        assert_eq!(m.get_field(56).unwrap(), "B");
    }
}

#[test]
fn short_buffer_waits() {
    let (r, _) = parse_one(b"8=FIX.4.4\x019=5\x01");
    assert!(r.unwrap().is_none());
}

#[test]
fn no_begin_string_waits() {
    let (r, _) = parse_one(b"garbage without a frame start\x01");
    assert!(r.unwrap().is_none());
}

#[test]
fn missing_body_length_is_malformed() {
    let e = error_of(b"8=FIX.4.4\x0135=0\x0149=AAAAAAA\x0110=000\x01");
    match &e {
        FixError::MalformedFrame { reason } => {
            assert_eq!(reason, "no BodyLength (tag 9) after BeginString")
        }
        other => panic!("unexpected {other:?}"),
    }
    assert_eq!(e.to_string(), "malformed FIX frame: no BodyLength (tag 9) after BeginString");
}

#[test]
fn non_numeric_body_length_is_a_framing_error() {
    let e = error_of(b"8=FIX.4.4\x019=ab\x0135=0\x0110=000\x01");
    assert_eq!(e.to_string(), "BodyLength framing error: BodyLength is not a number: \"ab\"");
}

#[test]
fn non_utf8_body_length_is_a_framing_error() {
    let e = error_of(b"8=FIX.4.4\x019=\xff\x0135=0\x0110=000\x01");
    assert_eq!(e.to_string(), "BodyLength framing error: BodyLength field is not valid UTF-8");
}

#[test]
fn body_length_off_by_one_is_a_framing_error() {
    let e = error_of(b"8=FIX.4.4\x019=14\x0135=0\x0149=A\x0156=B\x0110=170\x01");
    assert_eq!(
        e.to_string(),
        "BodyLength framing error: BodyLength=14 does not point at the CheckSum field (no `10=` there)"
    );
}

#[test]
fn non_numeric_checksum_is_missing_checksum() {
    let e = error_of(b"8=FIX.4.4\x019=15\x0135=0\x0149=A\x0156=B\x0110=abc\x01");
    assert_eq!(
        e.to_string(),
        "missing or malformed CheckSum field: CheckSum is not a number: \"abc\""
    );
}

#[test]
fn checksum_out_of_byte_range_is_missing_checksum() {
    let e = error_of(b"8=FIX.4.4\x019=15\x0135=0\x0149=A\x0156=B\x0110=256\x01");
    assert!(matches!(e, FixError::MissingChecksumField(_)));
}

#[test]
fn wrong_checksum_reports_both_values() {
    let e = error_of(b"8=FIX.4.4\x019=15\x0135=0\x0149=A\x0156=B\x0110=172\x01");
    match e {
        FixError::ChecksumMismatch { expected, actual } => {
            assert_eq!(expected, 172);
            assert_eq!(actual, 171);
        }
        other => panic!("unexpected {other:?}"),
    }
    let e = error_of(b"8=FIX.4.4\x019=15\x0135=0\x0149=A\x0156=B\x0110=172\x01");
    assert_eq!(e.to_string(), "Checksum mismatch: expected 172, got 171");
}

#[test]
fn field_without_equals_in_a_framed_message_is_a_parse_error() {
    let (r, mut p) = parse_one(b"8=FIX.4.4\x019=9\x0135=0\x01FOO\x0110=140\x01");
    let e = match r {
        Err(e) => e,
        Ok(_) => panic!("expected an error"),
    };
    assert_eq!(e.to_string(), "Parse error: Missing '=' in field: FOO");
    assert!(p.next_message().unwrap().is_none());
}

#[test]
fn tag_value_errors_carry_their_text() {
    let e = FixMessage::from_tag_values(b"35=0\x01FOO\x0149=A\x01").unwrap_err();
    assert_eq!(e.to_string(), "Parse error: Missing '=' in field: FOO");
    let e = FixMessage::from_tag_values(b"35=0\x01abc=1\x01").unwrap_err();
    assert_eq!(e.to_string(), "Parse error: Invalid tag: abc");
    let e = FixMessage::from_tag_values(b"35=0\x01+=1\x01").unwrap_err();
    assert_eq!(e.to_string(), "Parse error: Invalid tag: +");
    let e = FixMessage::from_tag_values(b"=1\x01").unwrap_err();
    assert_eq!(e.to_string(), "Parse error: Invalid tag: ");
    let e = FixMessage::from_tag_values(b"99999999999=1\x01").unwrap_err();
    assert_eq!(e.to_string(), "Parse error: Invalid tag: 99999999999");
    let e = FixMessage::from_tag_values(b"35=0\x0158=\xFF\xFE\x01").unwrap_err();
    assert_eq!(
        e.to_string(),
        "Parse error: Invalid UTF-8: invalid utf-8 sequence of 1 bytes from index 8"
    );
}

#[test]
fn tag_values_accept_a_plus_sign_and_empty_values() {
    let m = FixMessage::from_tag_values(b"+35=D\x01\x01\x0158=\x01").unwrap();
    assert_eq!(m.msg_type(), MsgType::NewOrderSingle);
    assert_eq!(m.get_field(58).unwrap(), "");
    assert_eq!(m.fields().len(), 2);
}

#[test]
fn later_duplicate_tag_wins() {
    let m = FixMessage::from_tag_values(b"35=0\x0149=A\x0149=B\x0135=A\x01").unwrap();
    assert_eq!(m.get_field(49).unwrap(), "B");
    assert_eq!(m.msg_type(), MsgType::Logon);
}

#[test]
fn io_error_converts_and_prints() {
    let io = std::io::Error::new(std::io::ErrorKind::Other, "socket closed");
    let e: FixError = FixError::from(io);
    assert!(matches!(e, FixError::Io(_)));
    assert_eq!(e.to_string(), "I/O error: socket closed");
}

#[test]
fn resync_skips_only_the_bad_frame() {
    let mut p = FixParser::new();
    p.push_bytes(b"8=FIX.4.4\x019=15\x0135=0\x0149=A\x0156=B\x0110=172\x01");
    p.push_bytes(HEARTBEAT);
    assert!(p.next_message().is_err());
    let m = p.next_message().unwrap().unwrap();
    assert_eq!(m.get_field(49).unwrap(), "A");
    assert!(p.next_message().unwrap().is_none());
}

#[test]
fn resync_without_a_next_frame_empties_the_buffer() {
    let mut p = FixParser::new();
    p.push_bytes(b"8=FIX.4.4\x019=ab\x0135=0\x0110=000\x01");
    assert!(p.next_message().is_err());
    p.push_bytes(HEARTBEAT);
    assert!(p.next_message().unwrap().is_some());
}

#[test]
fn leading_garbage_before_a_frame_is_dropped() {
    let mut p = FixParser::new();
    p.push_bytes(b"noise\x01");
    p.push_bytes(HEARTBEAT);
    let m = p.next_message().unwrap().unwrap();
    assert_eq!(m.msg_type(), MsgType::Heartbeat);
    assert!(p.next_message().unwrap().is_none());
}

#[test]
fn default_parser_is_empty() {
    let mut p = FixParser::default();
    assert!(p.next_message().unwrap().is_none());
}

#[test]
fn msg_type_values_round_trip() {
    let all = [
        MsgType::Logon,
        MsgType::Logout,
        MsgType::Heartbeat,
        MsgType::TestRequest,
        MsgType::ResendRequest,
        MsgType::SequenceReset,
        MsgType::ExecutionReport,
        MsgType::OrderCancelReject,
        MsgType::NewOrderSingle,
        MsgType::OrderCancelRequest,
    ];
    for t in all {
        assert_eq!(MsgType::from_fix_value(t.to_fix_value()), t);
    }
    assert_eq!(MsgType::Unknown.to_fix_value(), "?");
    assert_eq!(MsgType::from_fix_value("?"), MsgType::Unknown);
    assert_eq!(MsgType::from_fix_value("Z"), MsgType::Unknown);
    assert_eq!(MsgType::from_fix_value("DD"), MsgType::Unknown);
    assert_eq!(MsgType::from_fix_value("D"), MsgType::NewOrderSingle);
    assert_eq!(MsgType::ExecutionReport.to_fix_value(), "8");
}

#[test]
fn set_then_get_field() {
    let mut m = FixMessage::new(MsgType::TestRequest);
    assert!(m.get_field(112).is_none());
    m.set_field(112, "PING");
    assert_eq!(m.get_field(112).unwrap(), "PING");
    m.set_field(112, "PONG");
    assert_eq!(m.get_field(112).unwrap(), "PONG");
    assert_eq!(m.fields().len(), 1);
    assert_eq!(m.msg_type(), MsgType::TestRequest);
}
