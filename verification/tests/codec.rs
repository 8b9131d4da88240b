use ironwire::codec::{
    encode_auth_ok, encode_error, encode_offline_error, encode_text, parse_client_message,
};
use ironwire::messages::ClientMessage;

#[test]
fn parses_plain_auth_frame() {
    let r = parse_client_message("{\"type\":\"auth\",\"payload\":{\"token\":\"alice\"}}");
    match r {
        Some(ClientMessage::Auth { token }) => assert_eq!(token, "alice"),
        _ => panic!("expected an auth frame"),
    }
}

#[test]
fn parses_auth_frame_with_whitespace() {
    let r = parse_client_message(
        " { \"type\" : \"auth\" ,\n\t\"payload\" : { \"token\" : \"bob\" } } ",
    );
    match r {
        Some(ClientMessage::Auth { token }) => assert_eq!(token, "bob"),
        _ => panic!("expected an auth frame"),
    }
}

#[test]
fn parses_text_frame() {
    let r = parse_client_message("{\"type\":\"text\",\"payload\":{\"to\":\"bob\",\"text\":\"hi\"}}");
    match r {
        Some(ClientMessage::Text { to, text }) => {
            assert_eq!(to, "bob");
            assert_eq!(text, "hi");
        },
        _ => panic!("expected a text frame"),
    }
}

#[test]
fn parses_string_escapes() {
    let r = parse_client_message(
        "{\"type\":\"auth\",\"payload\":{\"token\":\"a\\\"b\\\\c\\n\\t\\u0041\\u00e9\"}}",
    );
    match r {
        Some(ClientMessage::Auth { token }) => assert_eq!(token, "a\"b\\c\n\tA\u{e9}"),
        _ => panic!("expected an auth frame"),
    }
}

#[test]
fn parses_escaped_key() {
    // An escaped character inside a key still names the same field.
    let r = parse_client_message("{\"\\u0074ype\":\"auth\",\"payload\":{\"token\":\"x\"}}");
    match r {
        Some(ClientMessage::Auth { token }) => assert_eq!(token, "x"),
        _ => panic!("expected an auth frame"),
    }
}

#[test]
fn accepts_empty_token_as_a_frame() {
    // An empty token is a well-formed frame; rejecting it is the session's
    // decision, not the parser's.
    let r = parse_client_message("{\"type\":\"auth\",\"payload\":{\"token\":\"\"}}");
    match r {
        Some(ClientMessage::Auth { token }) => assert_eq!(token, ""),
        _ => panic!("expected an auth frame"),
    }
}

#[test]
fn rejects_malformed_input() {
    assert!(parse_client_message("").is_none());
    assert!(parse_client_message("hello").is_none());
    assert!(parse_client_message("{}").is_none());
    assert!(parse_client_message("[1,2,3]").is_none());
    assert!(parse_client_message("{\"type\":\"auth\"}").is_none());
    assert!(parse_client_message("{\"type\":\"ping\",\"payload\":{}}").is_none());
    assert!(parse_client_message("{\"type\":\"auth\",\"payload\":{\"token\":42}}").is_none());
    assert!(parse_client_message("{\"type\":\"auth\",\"payload\":{\"token\":\"a\"}} x").is_none());
    assert!(parse_client_message("{\"type\":\"auth\",\"payload\":{\"token\":\"a\"}").is_none());
    assert!(parse_client_message("{\"type\":\"text\",\"payload\":{\"to\":\"b\"}}").is_none());
}

#[test]
fn rejects_bad_escapes_and_control_characters() {
    assert!(parse_client_message("{\"type\":\"auth\",\"payload\":{\"token\":\"\\q\"}}").is_none());
    assert!(parse_client_message("{\"type\":\"auth\",\"payload\":{\"token\":\"\\uZZZZ\"}}").is_none());
    // A lone surrogate is not a scalar value.
    assert!(parse_client_message("{\"type\":\"auth\",\"payload\":{\"token\":\"\\uD800\"}}").is_none());
    // An unescaped control character may not stand inside a string.
    assert!(parse_client_message("{\"type\":\"auth\",\"payload\":{\"token\":\"a\nb\"}}").is_none());
}

#[test]
fn encodes_auth_ok_exactly() {
    assert_eq!(encode_auth_ok(), "{\"type\":\"auth_ok\",\"payload\":{}}");
}

#[test]
fn encodes_error_exactly() {
    assert_eq!(
        encode_error("auth_required"),
        "{\"type\":\"error\",\"payload\":{\"msg\":\"auth_required\"}}",
    );
}

#[test]
fn encodes_offline_error_exactly() {
    assert_eq!(
        encode_offline_error("bob"),
        "{\"type\":\"error\",\"payload\":{\"msg\":\"user_offline\",\"user\":\"bob\"}}",
    );
}

#[test]
fn encodes_text_with_escaping() {
    assert_eq!(
        encode_text("alice", "hi"),
        "{\"type\":\"text\",\"payload\":{\"from\":\"alice\",\"text\":\"hi\"}}",
    );
    assert_eq!(
        encode_text("a\"b", "line1\nline2\\end\u{1}"),
        "{\"type\":\"text\",\"payload\":{\"from\":\"a\\\"b\",\"text\":\"line1\\nline2\\\\end\\u0001\"}}",
    );
}

#[test]
fn unescapes_what_the_encoder_escaped() {
    // The parser's unescaping inverts the encoder's escaping: a client
    // frame carrying the same escaped payload parses back to the raw text.
    let client_shaped = "{\"type\":\"text\",\"payload\":{\"to\":\"alice\",\"text\":\"a\\\"b\\\\c\\nd\"}}";
    match parse_client_message(client_shaped) {
        Some(ClientMessage::Text { to, text }) => {
            assert_eq!(to, "alice");
            assert_eq!(text, "a\"b\\c\nd");
        },
        _ => panic!("expected a text frame"),
    }
}
