use bytes::BytesMut;
use sunray::{AuthCodec, AuthMessage, AuthMessageType, CodecError, Ipv4};

fn buffer(text: &str) -> BytesMut {
    BytesMut::from(text.as_bytes())
}

fn decode_one(text: &str) -> (Result<Option<AuthMessage>, CodecError>, BytesMut) {
    let mut buf = buffer(text);
    let decoded = AuthCodec.decode(&mut buf);
    (decoded, buf)
}

fn decode_message(text: &str) -> AuthMessage {
    decode_one(text).0.unwrap().unwrap()
}

fn decode_error(text: &str) -> CodecError {
    decode_one(text).0.unwrap_err()
}

fn strings(items: &[&str]) -> Vec<String> {
    items.iter().map(|s| s.to_string()).collect()
}

fn assert_only_type(msg: &AuthMessage) {
    assert_eq!(msg.mtu, None);
    assert_eq!(msg.barrier_level, None);
    assert_eq!(msg.cause, None);
    assert_eq!(msg.client_rand, None);
    assert_eq!(msg.ddc_config, None);
    assert_eq!(msg.event, None);
    assert_eq!(msg.first_server, None);
    assert_eq!(msg.fw, None);
    assert_eq!(msg.hw, None);
    assert_eq!(msg.id, None);
    assert_eq!(msg.init_state, None);
    assert_eq!(msg.key_types, None);
    assert_eq!(msg.namespace, None);
    assert_eq!(msg.pn, None);
    assert_eq!(msg.real_ip, None);
    assert_eq!(msg.sn, None);
    assert_eq!(msg.state, None);
    assert_eq!(msg.token_seq, None);
    assert_eq!(msg.type_, None);
    assert_eq!(msg.access, None);
}

#[test]
fn decodes_info_request_with_mtu() {
    let (decoded, rest) = decode_one("infoReq MTU=1500\n");
    let mut msg = decoded.unwrap().unwrap();
    assert_eq!(msg.message_type, AuthMessageType::InfoReq);
    assert_eq!(msg.mtu, Some(1500));
    msg.mtu = None;
    assert_only_type(&msg);
    assert!(rest.is_empty());
}

#[test]
fn decodes_key_types_as_list() {
    let msg = decode_message("keepAliveReq keyTypes=rsa,dsa\n");
    assert_eq!(msg.message_type, AuthMessageType::KeepAliveReq);
    assert_eq!(msg.key_types, Some(strings(&["rsa", "dsa"])));
}

#[test]
fn decodes_first_server_as_address() {
    let msg = decode_message("connInf firstServer=0A000001\n");
    assert_eq!(msg.message_type, AuthMessageType::ConnInf);
    assert_eq!(msg.first_server, Some(Ipv4(10, 0, 0, 1)));
}

#[test]
fn decodes_unlisted_tag_as_unknown() {
    let msg = decode_message("foo\n");
    assert_eq!(msg.message_type, AuthMessageType::Unknown);
    assert_only_type(&msg);
}

#[test]
fn malformed_integer_is_an_error_and_takes_only_its_line() {
    let (decoded, rest) = decode_one("infoReq MTU=abc\n");
    assert_eq!(decoded.unwrap_err(), CodecError::InvalidInteger);
    assert!(rest.is_empty());

    let mut buf = buffer("infoReq MTU=abc\nconnInf\n");
    assert_eq!(AuthCodec.decode(&mut buf).unwrap_err(), CodecError::InvalidInteger);
    assert_eq!(&buf[..], b"connInf\n");
    let next = AuthCodec.decode(&mut buf).unwrap().unwrap();
    assert_eq!(next.message_type, AuthMessageType::ConnInf);
}

#[test]
fn decodes_two_buffered_lines_in_order() {
    let mut buf = buffer("keepAliveReq\nconnInf\n");
    let first = AuthCodec.decode(&mut buf).unwrap().unwrap();
    assert_eq!(first.message_type, AuthMessageType::KeepAliveReq);
    assert_only_type(&first);
    assert_eq!(&buf[..], b"connInf\n");
    let second = AuthCodec.decode(&mut buf).unwrap().unwrap();
    assert_eq!(second.message_type, AuthMessageType::ConnInf);
    assert_only_type(&second);
    assert!(buf.is_empty());
    assert!(AuthCodec.decode(&mut buf).unwrap().is_none());
}

#[test]
fn duplicate_keys_keep_the_last_value() {
    let msg = decode_message("infoReq MTU=1 MTU=2\n");
    assert_eq!(msg.mtu, Some(2));
}

#[test]
fn buffer_without_newline_is_incomplete_and_untouched() {
    let mut buf = buffer("infoReq MTU=1500");
    assert!(AuthCodec.decode(&mut buf).unwrap().is_none());
    assert_eq!(&buf[..], b"infoReq MTU=1500");
    assert!(AuthCodec.decode(&mut buf).unwrap().is_none());
    assert_eq!(&buf[..], b"infoReq MTU=1500");
}

#[test]
fn empty_buffer_is_incomplete() {
    let mut buf = BytesMut::new();
    assert!(AuthCodec.decode(&mut buf).unwrap().is_none());
    assert!(buf.is_empty());
}

#[test]
fn frame_completes_when_the_newline_arrives() {
    let mut buf = buffer("connInf pn=");
    assert!(AuthCodec.decode(&mut buf).unwrap().is_none());
    buf.extend_from_slice(b"42\nkeep");
    let msg = AuthCodec.decode(&mut buf).unwrap().unwrap();
    assert_eq!(msg.pn, Some(42));
    assert_eq!(&buf[..], b"keep");
}

#[test]
fn decodes_the_example_request_line() {
    let msg = decode_message("infoReq MTU=1500 barrierLevel=3 hw=SUNW.UltraAM\n");
    assert_eq!(msg.message_type, AuthMessageType::InfoReq);
    assert_eq!(msg.mtu, Some(1500));
    assert_eq!(msg.barrier_level, Some(3));
    assert_eq!(msg.hw, Some("SUNW.UltraAM".to_string()));
    assert_eq!(msg.fw, None);
}

#[test]
fn decodes_every_field_of_the_table() {
    let msg = decode_message(
        "connRsp MTU=1 barrierLevel=2 cause=c clientRand=r ddcconfig=3 event=e \
         firstServer=7F000001 fw=f hw=h id=i initState=4 keyTypes=k namespace=n pn=5 \
         realIP=C0A80102 sn=s state=t tokenSeq=6 type=y access=a\n",
    );
    assert_eq!(msg.message_type, AuthMessageType::ConnRsp);
    assert_eq!(msg.mtu, Some(1));
    assert_eq!(msg.barrier_level, Some(2));
    assert_eq!(msg.cause, Some("c".to_string()));
    assert_eq!(msg.client_rand, Some("r".to_string()));
    assert_eq!(msg.ddc_config, Some(3));
    assert_eq!(msg.event, Some("e".to_string()));
    assert_eq!(msg.first_server, Some(Ipv4(127, 0, 0, 1)));
    assert_eq!(msg.fw, Some("f".to_string()));
    assert_eq!(msg.hw, Some("h".to_string()));
    assert_eq!(msg.id, Some("i".to_string()));
    assert_eq!(msg.init_state, Some(4));
    assert_eq!(msg.key_types, Some(strings(&["k"])));
    assert_eq!(msg.namespace, Some("n".to_string()));
    assert_eq!(msg.pn, Some(5));
    assert_eq!(msg.real_ip, Some(Ipv4(192, 168, 1, 2)));
    assert_eq!(msg.sn, Some("s".to_string()));
    assert_eq!(msg.state, Some("t".to_string()));
    assert_eq!(msg.token_seq, Some(6));
    assert_eq!(msg.type_, Some("y".to_string()));
    assert_eq!(msg.access, Some("a".to_string()));
}

#[test]
fn decodes_every_message_type() {
    let cases = [
        ("infoReq", AuthMessageType::InfoReq),
        ("keepAliveReq", AuthMessageType::KeepAliveReq),
        ("keepAliveCnf", AuthMessageType::KeepAliveCnf),
        ("discInf", AuthMessageType::DiscInf),
        ("discRsp", AuthMessageType::DiscRsp),
        ("connInf", AuthMessageType::ConnInf),
        ("connRsp", AuthMessageType::ConnRsp),
        ("unknown", AuthMessageType::Unknown),
        ("empty", AuthMessageType::Unknown),
        ("InfoReq", AuthMessageType::Unknown),
    ];
    for (tag, expected) in cases {
        let msg = decode_message(&format!("{}\n", tag));
        assert_eq!(msg.message_type, expected, "tag {}", tag);
    }
}

#[test]
fn unknown_keys_are_ignored() {
    let msg = decode_message("infoReq colour=blue MTU=9 mtu=7 Mtu=8\n");
    assert_eq!(msg.mtu, Some(9));
    let mut rest = msg;
    rest.mtu = None;
    assert_only_type(&rest);
}

#[test]
fn unknown_key_with_any_value_is_no_error() {
    let msg = decode_message("infoReq size=abc\n");
    assert_eq!(msg.message_type, AuthMessageType::InfoReq);
    assert_only_type(&msg);
}

#[test]
fn line_without_tokens_has_no_message_type() {
    assert_eq!(decode_error("\n"), CodecError::MissingMessageType);
    assert_eq!(decode_error("   \t \n"), CodecError::MissingMessageType);
}

#[test]
fn field_without_equals_is_malformed() {
    assert_eq!(decode_error("infoReq MTU\n"), CodecError::MalformedField);
}

#[test]
fn field_with_two_equals_is_malformed() {
    assert_eq!(decode_error("infoReq cause=a=b\n"), CodecError::MalformedField);
    assert_eq!(decode_error("infoReq other=a=b\n"), CodecError::MalformedField);
    assert_eq!(decode_error("infoReq ==\n"), CodecError::MalformedField);
}

#[test]
fn first_failure_in_token_order_wins() {
    assert_eq!(decode_error("infoReq MTU=x cause\n"), CodecError::InvalidInteger);
    assert_eq!(decode_error("infoReq cause MTU=x\n"), CodecError::MalformedField);
    assert_eq!(decode_error("infoReq realIP=zz MTU=x\n"), CodecError::InvalidHexInteger);
}

#[test]
fn invalid_utf8_is_an_error_and_takes_only_its_line() {
    let mut buf = BytesMut::from(&b"infoReq hw=\xff\xfe\nconnInf\n"[..]);
    assert_eq!(AuthCodec.decode(&mut buf).unwrap_err(), CodecError::InvalidEncoding);
    assert_eq!(&buf[..], b"connInf\n");
}

#[test]
fn truncated_utf8_sequence_is_an_error() {
    let mut buf = BytesMut::from(&b"infoReq hw=\xe2\x82\n"[..]);
    assert_eq!(AuthCodec.decode(&mut buf).unwrap_err(), CodecError::InvalidEncoding);
}

#[test]
fn text_fields_keep_non_ascii_characters() {
    let msg = decode_message("infoReq id=z\u{fc}rich\u{20ac}\n");
    assert_eq!(msg.id, Some("z\u{fc}rich\u{20ac}".to_string()));
}

#[test]
fn tokens_are_split_on_runs_of_any_whitespace() {
    let msg = decode_message("  infoReq \t MTU=5\u{a0}\u{2003}pn=6\r\n");
    assert_eq!(msg.message_type, AuthMessageType::InfoReq);
    assert_eq!(msg.mtu, Some(5));
    assert_eq!(msg.pn, Some(6));
}

#[test]
fn decimal_fields_take_digits_only() {
    assert_eq!(decode_message("infoReq MTU=0\n").mtu, Some(0));
    assert_eq!(decode_message("infoReq MTU=007\n").mtu, Some(7));
    assert_eq!(decode_message("infoReq MTU=4294967295\n").mtu, Some(4294967295));
    assert_eq!(decode_error("infoReq MTU=4294967296\n"), CodecError::InvalidInteger);
    assert_eq!(decode_error("infoReq MTU=99999999999999999999999\n"), CodecError::InvalidInteger);
    assert_eq!(decode_error("infoReq MTU=\n"), CodecError::InvalidInteger);
    assert_eq!(decode_error("infoReq MTU=-1\n"), CodecError::InvalidInteger);
    assert_eq!(decode_error("infoReq MTU=+1\n"), CodecError::InvalidInteger);
    assert_eq!(decode_error("infoReq MTU=1_0\n"), CodecError::InvalidInteger);
    assert_eq!(decode_error("infoReq MTU=1a\n"), CodecError::InvalidInteger);
    assert_eq!(decode_error("infoReq MTU=\u{661}\n"), CodecError::InvalidInteger);
    assert_eq!(decode_error("infoReq ddcconfig=x\n"), CodecError::InvalidInteger);
    assert_eq!(decode_error("infoReq initState=x\n"), CodecError::InvalidInteger);
    assert_eq!(decode_error("infoReq pn=x\n"), CodecError::InvalidInteger);
    assert_eq!(decode_error("infoReq tokenSeq=x\n"), CodecError::InvalidInteger);
}

#[test]
fn barrier_level_has_64_bits() {
    assert_eq!(
        decode_message("infoReq barrierLevel=18446744073709551615\n").barrier_level,
        Some(18446744073709551615)
    );
    assert_eq!(
        decode_message("infoReq barrierLevel=4294967296\n").barrier_level,
        Some(4294967296)
    );
    assert_eq!(
        decode_error("infoReq barrierLevel=18446744073709551616\n"),
        CodecError::InvalidInteger
    );
    assert_eq!(decode_error("infoReq barrierLevel=1e3\n"), CodecError::InvalidInteger);
}

#[test]
fn address_fields_take_hexadecimal_of_32_bits() {
    assert_eq!(decode_message("connInf realIP=c0a80001\n").real_ip, Some(Ipv4(192, 168, 0, 1)));
    assert_eq!(decode_message("connInf realIP=C0A80001\n").real_ip, Some(Ipv4(192, 168, 0, 1)));
    assert_eq!(decode_message("connInf realIP=FFFFFFFF\n").real_ip, Some(Ipv4(255, 255, 255, 255)));
    assert_eq!(decode_message("connInf realIP=0\n").real_ip, Some(Ipv4(0, 0, 0, 0)));
    assert_eq!(decode_message("connInf realIP=1FF\n").real_ip, Some(Ipv4(0, 0, 1, 255)));
    assert_eq!(decode_message("connInf realIP=000000000A\n").real_ip, Some(Ipv4(0, 0, 0, 10)));
    assert_eq!(decode_error("connInf realIP=100000000\n"), CodecError::InvalidHexInteger);
    assert_eq!(decode_error("connInf realIP=10.0.0.1\n"), CodecError::InvalidHexInteger);
    assert_eq!(decode_error("connInf realIP=0x0A\n"), CodecError::InvalidHexInteger);
    assert_eq!(decode_error("connInf realIP=\n"), CodecError::InvalidHexInteger);
    assert_eq!(decode_error("connInf firstServer=G\n"), CodecError::InvalidHexInteger);
}

#[test]
fn key_types_keep_empty_segments() {
    assert_eq!(decode_message("x keyTypes=a,,b\n").key_types, Some(strings(&["a", "", "b"])));
    assert_eq!(decode_message("x keyTypes=\n").key_types, Some(strings(&[""])));
    assert_eq!(decode_message("x keyTypes=,\n").key_types, Some(strings(&["", ""])));
    assert_eq!(decode_message("x keyTypes=rsa\n").key_types, Some(strings(&["rsa"])));
    assert_eq!(decode_message("x keyTypes=a,a,\n").key_types, Some(strings(&["a", "a", ""])));
}

#[test]
fn empty_text_value_is_set_not_unset() {
    let msg = decode_message("infoReq cause=\n");
    assert_eq!(msg.cause, Some(String::new()));
}

#[test]
fn later_text_value_replaces_earlier() {
    let msg = decode_message("infoReq sn=one sn=two keyTypes=a keyTypes=b,c\n");
    assert_eq!(msg.sn, Some("two".to_string()));
    assert_eq!(msg.key_types, Some(strings(&["b", "c"])));
}

#[test]
fn bounded_decode_takes_lines_up_to_the_limit() {
    let mut buf = buffer("infoReq MTU=1\nrest");
    let msg = AuthCodec.decode_bounded(&mut buf, 13).unwrap().unwrap();
    assert_eq!(msg.message_type, AuthMessageType::InfoReq);
    assert_eq!(msg.mtu, Some(1));
    assert_eq!(&buf[..], b"rest");
}

#[test]
fn bounded_decode_rejects_a_line_past_the_limit() {
    let mut buf = buffer("infoReq MTU=1\nrest");
    assert_eq!(AuthCodec.decode_bounded(&mut buf, 12).unwrap_err(), CodecError::LineTooLong);
    assert_eq!(&buf[..], b"infoReq MTU=1\nrest");
    assert_eq!(AuthCodec.decode_bounded(&mut buf, 0).unwrap_err(), CodecError::LineTooLong);
    assert_eq!(&buf[..], b"infoReq MTU=1\nrest");
}

#[test]
fn bounded_decode_rejects_an_unfinished_line_past_the_limit() {
    let mut buf = buffer("infoReq MTU=1");
    assert_eq!(AuthCodec.decode_bounded(&mut buf, 12).unwrap_err(), CodecError::LineTooLong);
    assert_eq!(&buf[..], b"infoReq MTU=1");
}

#[test]
fn bounded_decode_waits_for_an_unfinished_line_within_the_limit() {
    let mut buf = buffer("infoReq MTU=1");
    assert!(AuthCodec.decode_bounded(&mut buf, 13).unwrap().is_none());
    assert_eq!(&buf[..], b"infoReq MTU=1");
    let mut empty = BytesMut::new();
    assert!(AuthCodec.decode_bounded(&mut empty, 0).unwrap().is_none());
}

#[test]
fn bounded_decode_counts_only_the_first_line() {
    let mut buf = buffer("a\nthis-line-is-long\n");
    let msg = AuthCodec.decode_bounded(&mut buf, 1).unwrap().unwrap();
    assert_eq!(msg.message_type, AuthMessageType::Unknown);
    assert_eq!(AuthCodec.decode_bounded(&mut buf, 1).unwrap_err(), CodecError::LineTooLong);
    let mut blank = buffer("\n");
    assert_eq!(
        AuthCodec.decode_bounded(&mut blank, 0).unwrap_err(),
        CodecError::MissingMessageType
    );
}

#[test]
fn bounded_decode_reports_malformed_lines_as_decode_does() {
    let mut buf = buffer("infoReq MTU=abc\nnext");
    assert_eq!(AuthCodec.decode_bounded(&mut buf, 100).unwrap_err(), CodecError::InvalidInteger);
    assert_eq!(&buf[..], b"next");
}
