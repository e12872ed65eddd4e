use sunray::codec::{find_newline, parse_line, NEWLINE};
use sunray::{AuthCodec, AuthMessage, AuthMessageType, AuthProto, CodecError, FieldKind, FieldName, Ipv4};

fn chars(text: &str) -> Vec<char> {
    text.chars().collect()
}

const ALL_FIELDS: [(FieldName, &str, FieldKind); 20] = [
    (FieldName::Mtu, "MTU", FieldKind::Number32),
    (FieldName::BarrierLevel, "barrierLevel", FieldKind::Number64),
    (FieldName::Cause, "cause", FieldKind::Text),
    (FieldName::ClientRand, "clientRand", FieldKind::Text),
    (FieldName::DdcConfig, "ddcconfig", FieldKind::Number32),
    (FieldName::Event, "event", FieldKind::Text),
    (FieldName::FirstServer, "firstServer", FieldKind::Address),
    (FieldName::Fw, "fw", FieldKind::Text),
    (FieldName::Hw, "hw", FieldKind::Text),
    (FieldName::Id, "id", FieldKind::Text),
    (FieldName::InitState, "initState", FieldKind::Number32),
    (FieldName::KeyTypes, "keyTypes", FieldKind::List),
    (FieldName::Namespace, "namespace", FieldKind::Text),
    (FieldName::Pn, "pn", FieldKind::Number32),
    (FieldName::RealIp, "realIP", FieldKind::Address),
    (FieldName::Sn, "sn", FieldKind::Text),
    (FieldName::State, "state", FieldKind::Text),
    (FieldName::TokenSeq, "tokenSeq", FieldKind::Number32),
    (FieldName::Type, "type", FieldKind::Text),
    (FieldName::Access, "access", FieldKind::Text),
];

#[test]
fn message_type_default_is_empty() {
    assert_eq!(AuthMessageType::default(), AuthMessageType::Empty);
}

#[test]
fn message_type_from_str_maps_the_seven_tags() {
    assert_eq!(AuthMessageType::from("infoReq"), AuthMessageType::InfoReq);
    assert_eq!(AuthMessageType::from("keepAliveReq"), AuthMessageType::KeepAliveReq);
    assert_eq!(AuthMessageType::from("keepAliveCnf"), AuthMessageType::KeepAliveCnf);
    assert_eq!(AuthMessageType::from("discInf"), AuthMessageType::DiscInf);
    assert_eq!(AuthMessageType::from("discRsp"), AuthMessageType::DiscRsp);
    assert_eq!(AuthMessageType::from("connInf"), AuthMessageType::ConnInf);
    assert_eq!(AuthMessageType::from("connRsp"), AuthMessageType::ConnRsp);
}

#[test]
fn message_type_from_str_falls_back_to_unknown() {
    assert_eq!(AuthMessageType::from("foo"), AuthMessageType::Unknown);
    assert_eq!(AuthMessageType::from(""), AuthMessageType::Unknown);
    assert_eq!(AuthMessageType::from("empty"), AuthMessageType::Unknown);
    assert_eq!(AuthMessageType::from("unknown"), AuthMessageType::Unknown);
    assert_eq!(AuthMessageType::from("INFOREQ"), AuthMessageType::Unknown);
    assert_eq!(AuthMessageType::from("infoReq "), AuthMessageType::Unknown);
}

#[test]
fn message_type_from_chars_agrees_with_from_str() {
    for tag in ["infoReq", "connRsp", "keepAliveCnf", "nope", ""] {
        assert_eq!(AuthMessageType::from_chars(&chars(tag)), AuthMessageType::from(tag));
    }
}

#[test]
fn message_type_displays_as_its_tag() {
    assert_eq!(AuthMessageType::InfoReq.to_string(), "infoReq");
    assert_eq!(AuthMessageType::KeepAliveReq.to_string(), "keepAliveReq");
    assert_eq!(AuthMessageType::KeepAliveCnf.to_string(), "keepAliveCnf");
    assert_eq!(AuthMessageType::DiscInf.to_string(), "discInf");
    assert_eq!(AuthMessageType::DiscRsp.to_string(), "discRsp");
    assert_eq!(AuthMessageType::ConnInf.to_string(), "connInf");
    assert_eq!(AuthMessageType::ConnRsp.to_string(), "connRsp");
    assert_eq!(AuthMessageType::Empty.to_string(), "empty");
    assert_eq!(AuthMessageType::Unknown.to_string(), "unknown");
    assert_eq!(AuthMessageType::DiscInf.name(), "discInf");
}

#[test]
fn default_message_is_empty_with_no_fields() {
    let msg = AuthMessage::default();
    assert_eq!(msg.message_type, AuthMessageType::Empty);
    assert_eq!(msg.mtu, None);
    assert_eq!(msg.access, None);
    assert_eq!(msg.key_types, None);
    assert_eq!(msg.real_ip, None);
    assert_eq!(msg.type_, None);
}

#[test]
fn new_message_has_its_type_and_no_fields() {
    let msg = AuthMessage::new(AuthMessageType::DiscInf);
    assert_eq!(msg.message_type, AuthMessageType::DiscInf);
    assert_eq!(msg.mtu, None);
    assert_eq!(msg.barrier_level, None);
    assert_eq!(msg.cause, None);
    assert_eq!(msg.token_seq, None);
    assert_eq!(msg.access, None);
}

#[test]
fn address_from_bits_is_big_endian() {
    assert_eq!(Ipv4::from_bits(0x0a000001), Ipv4(10, 0, 0, 1));
    assert_eq!(Ipv4::from_bits(0xc0a80102), Ipv4(192, 168, 1, 2));
    assert_eq!(Ipv4::from_bits(0), Ipv4(0, 0, 0, 0));
    assert_eq!(Ipv4::from_bits(u32::MAX), Ipv4(255, 255, 255, 255));
    assert_eq!(Ipv4::from_bits(0x01020304), Ipv4(1, 2, 3, 4));
}

#[test]
fn address_to_bits_inverts_from_bits() {
    assert_eq!(Ipv4(10, 0, 0, 1).to_bits(), 0x0a000001);
    assert_eq!(Ipv4(1, 2, 3, 4).to_bits(), 0x01020304);
    for bits in [0u32, 1, 0xff, 0x100, 0xdeadbeef, u32::MAX] {
        assert_eq!(Ipv4::from_bits(bits).to_bits(), bits);
    }
    assert_eq!(Ipv4(1, 2, 3, 4).octets(), [1, 2, 3, 4]);
}

#[test]
fn address_octets_are_the_big_endian_bytes() {
    for bits in [0x0a000001u32, 0x7f000001, 0xc0a80001, 0xffffffff] {
        assert_eq!(Ipv4::from_bits(bits).octets(), bits.to_be_bytes());
    }
}

#[test]
fn field_table_names_and_kinds() {
    for (field, name, kind) in ALL_FIELDS {
        assert_eq!(field.name(), name);
        assert_eq!(field.kind(), kind);
        assert_eq!(FieldName::lookup(&chars(name)), Some(field));
    }
}

#[test]
fn field_lookup_is_exact() {
    assert_eq!(FieldName::lookup(&chars("mtu")), None);
    assert_eq!(FieldName::lookup(&chars("Mtu")), None);
    assert_eq!(FieldName::lookup(&chars("MTU ")), None);
    assert_eq!(FieldName::lookup(&chars("")), None);
    assert_eq!(FieldName::lookup(&chars("realIp")), None);
    assert_eq!(FieldName::lookup(&chars("ddcConfig")), None);
    assert_eq!(FieldName::lookup(&chars("type_")), None);
}

#[test]
fn parse_field_sets_the_named_field() {
    let mut msg = AuthMessage::new(AuthMessageType::InfoReq);
    assert_eq!(msg.parse_field(&chars("MTU"), &chars("1500")), Ok(()));
    assert_eq!(msg.parse_field(&chars("hw"), &chars("SUNW.UltraAM")), Ok(()));
    assert_eq!(msg.parse_field(&chars("realIP"), &chars("0A000001")), Ok(()));
    assert_eq!(msg.parse_field(&chars("keyTypes"), &chars("rsa,dsa")), Ok(()));
    assert_eq!(msg.parse_field(&chars("barrierLevel"), &chars("9")), Ok(()));
    assert_eq!(msg.mtu, Some(1500));
    assert_eq!(msg.hw, Some("SUNW.UltraAM".to_string()));
    assert_eq!(msg.real_ip, Some(Ipv4(10, 0, 0, 1)));
    assert_eq!(msg.key_types, Some(vec!["rsa".to_string(), "dsa".to_string()]));
    assert_eq!(msg.barrier_level, Some(9));
    assert_eq!(msg.first_server, None);
    assert_eq!(msg.message_type, AuthMessageType::InfoReq);
}

#[test]
fn parse_field_failure_leaves_the_message() {
    let mut msg = AuthMessage::new(AuthMessageType::InfoReq);
    msg.mtu = Some(5);
    msg.real_ip = Some(Ipv4(1, 1, 1, 1));
    assert_eq!(msg.parse_field(&chars("MTU"), &chars("abc")), Err(CodecError::InvalidInteger));
    assert_eq!(msg.parse_field(&chars("realIP"), &chars("xyz")), Err(CodecError::InvalidHexInteger));
    assert_eq!(msg.parse_field(&chars("barrierLevel"), &chars("")), Err(CodecError::InvalidInteger));
    assert_eq!(msg.mtu, Some(5));
    assert_eq!(msg.real_ip, Some(Ipv4(1, 1, 1, 1)));
    assert_eq!(msg.barrier_level, None);
}

#[test]
fn parse_field_ignores_keys_outside_the_table() {
    let mut msg = AuthMessage::new(AuthMessageType::InfoReq);
    assert_eq!(msg.parse_field(&chars("colour"), &chars("blue")), Ok(()));
    assert_eq!(msg.parse_field(&chars(""), &chars("")), Ok(()));
    assert_eq!(msg.mtu, None);
    assert_eq!(msg.cause, None);
}

#[test]
fn store_takes_one_token() {
    let mut msg = AuthMessage::new(AuthMessageType::ConnInf);
    assert_eq!(msg.store(&chars("pn=12")), Ok(()));
    assert_eq!(msg.store(&chars("pn")), Err(CodecError::MalformedField));
    assert_eq!(msg.store(&chars("pn=1=2")), Err(CodecError::MalformedField));
    assert_eq!(msg.store(&chars("pn=x")), Err(CodecError::InvalidInteger));
    assert_eq!(msg.store(&chars("other=x")), Ok(()));
    assert_eq!(msg.pn, Some(12));
}

#[test]
fn parse_line_reads_a_line_without_its_newline() {
    let msg = parse_line(&chars("connRsp access=granted tokenSeq=7")).unwrap();
    assert_eq!(msg.message_type, AuthMessageType::ConnRsp);
    assert_eq!(msg.access, Some("granted".to_string()));
    assert_eq!(msg.token_seq, Some(7));
    assert_eq!(parse_line(&chars("")).unwrap_err(), CodecError::MissingMessageType);
    assert_eq!(parse_line(&chars("x y")).unwrap_err(), CodecError::MalformedField);
}

#[test]
fn parse_line_takes_the_first_token_as_type_even_with_equals() {
    let msg = parse_line(&chars("MTU=5 MTU=6")).unwrap();
    assert_eq!(msg.message_type, AuthMessageType::Unknown);
    assert_eq!(msg.mtu, Some(6));
}

#[test]
fn find_newline_gives_the_first_one() {
    assert_eq!(NEWLINE, b'\n');
    assert_eq!(find_newline(b"ab\ncd\n"), Some(2));
    assert_eq!(find_newline(b"\n"), Some(0));
    assert_eq!(find_newline(b"abc"), None);
    assert_eq!(find_newline(b""), None);
    assert_eq!(find_newline(b"a\rb"), None);
}

#[test]
fn error_messages() {
    assert_eq!(CodecError::InvalidEncoding.message(), "invalid string");
    assert_eq!(CodecError::MissingMessageType.message(), "no message type");
    assert_eq!(CodecError::MalformedField.message(), "bad key/value pair");
    assert_eq!(CodecError::InvalidInteger.message(), "not an integer");
    assert_eq!(CodecError::InvalidHexInteger.message(), "not a hex integer");
    assert_eq!(CodecError::LineTooLong.message(), "line too long");
}

#[test]
fn protocol_hands_out_its_codec() {
    let mut codec: AuthCodec = AuthProto.codec();
    let mut buf = bytes::BytesMut::from(&b"discInf cause=bye\n"[..]);
    let msg = codec.decode(&mut buf).unwrap().unwrap();
    assert_eq!(msg.message_type, AuthMessageType::DiscInf);
    assert_eq!(msg.cause, Some("bye".to_string()));
}
