//! Tests for the signaling codec: JSON schema, base64 framing, routing, and
//! payload intake.
use demo_webrtc::codec::{decode, encode, CodecError};
use demo_webrtc::json::{parse_description, serialize_description};
use demo_webrtc::session::{SdpKind, SessionDescription};
use demo_webrtc::signal::{
    accept_offer_body, encode_answer, respond_answer, respond_not_found, respond_page,
    respond_server_error, route, HttpMethod, Route, SignalError,
};

fn desc(kind: SdpKind, sdp: &str) -> SessionDescription {
    SessionDescription {
        kind,
        sdp: sdp.as_bytes().to_vec(),
    }
}

#[test]
fn serialize_offer_exact_bytes() {
    let d = desc(SdpKind::Offer, "v=0");
    let bytes = serialize_description(&d);
    assert_eq!(bytes, b"{\"type\":\"offer\",\"sdp\":\"v=0\"}".to_vec());
}

#[test]
fn serialize_escapes_control_bytes() {
    let d = desc(SdpKind::Answer, "a\r\nb\"c\\d\u{1}");
    let bytes = serialize_description(&d);
    assert_eq!(
        String::from_utf8(bytes).unwrap(),
        "{\"type\":\"answer\",\"sdp\":\"a\\r\\nb\\\"c\\\\d\\u0001\"}"
    );
}

#[test]
fn parse_inverts_serialize() {
    let d = desc(SdpKind::Offer, "v=0\r\no=- 123 2 IN IP4 127.0.0.1\r\n");
    let bytes = serialize_description(&d);
    let back = parse_description(&bytes).expect("round trip must parse");
    assert_eq!(back.kind, SdpKind::Offer);
    assert_eq!(back.sdp, d.sdp);
}

#[test]
fn parse_accepts_whitespace_and_reordered_members() {
    let body = b" { \"sdp\" : \"v=0\" , \"type\" : \"answer\" } ".to_vec();
    let d = parse_description(&body).expect("must parse");
    assert_eq!(d.kind, SdpKind::Answer);
    assert_eq!(d.sdp, b"v=0".to_vec());
}

#[test]
fn parse_ignores_unknown_members() {
    let body = b"{\"type\":\"offer\",\"extra\":\"x\",\"sdp\":\"s\"}".to_vec();
    let d = parse_description(&body).expect("must parse");
    assert_eq!(d.kind, SdpKind::Offer);
    assert_eq!(d.sdp, b"s".to_vec());
}

#[test]
fn parse_handles_escapes() {
    let body = b"{\"type\":\"offer\",\"sdp\":\"\\u0041\\n\\\"\\\\\\/\"}".to_vec();
    let d = parse_description(&body).expect("must parse");
    assert_eq!(d.sdp, b"A\n\"\\/".to_vec());
}

#[test]
fn parse_rejects_bad_schema() {
    // missing sdp
    assert!(parse_description(&b"{\"type\":\"offer\"}".to_vec()).is_none());
    // unknown type tag
    assert!(parse_description(&b"{\"type\":\"pranswer\",\"sdp\":\"s\"}".to_vec()).is_none());
    // duplicate type member
    assert!(parse_description(
        &b"{\"type\":\"offer\",\"type\":\"answer\",\"sdp\":\"s\"}".to_vec()
    )
    .is_none());
    // non-string value
    assert!(parse_description(&b"{\"type\":\"offer\",\"sdp\":3}".to_vec()).is_none());
    // trailing garbage
    assert!(parse_description(&b"{\"type\":\"offer\",\"sdp\":\"s\"}x".to_vec()).is_none());
    // not an object at all
    assert!(parse_description(&b"[]".to_vec()).is_none());
    assert!(parse_description(&b"".to_vec()).is_none());
    // unterminated string
    assert!(parse_description(&b"{\"type\":\"offer\",\"sdp\":\"s".to_vec()).is_none());
    // raw control byte inside a string
    assert!(parse_description(&b"{\"type\":\"offer\",\"sdp\":\"a\x01b\"}".to_vec()).is_none());
}

#[test]
fn encode_matches_reference_value() {
    assert_eq!(encode("hello"), "aGVsbG8=");
    assert_eq!(encode(""), "");
}

#[test]
fn decode_inverts_encode() {
    let text = "{\"type\":\"answer\",\"sdp\":\"v=0\"}";
    let framed = encode(text);
    assert_eq!(decode(&framed), Ok(text.to_string()));
}

#[test]
fn decode_rejects_bad_base64() {
    assert_eq!(decode("%%%"), Err(CodecError::Base64));
}

#[test]
fn decode_rejects_non_utf8_payload() {
    // "/w==" frames the single byte 0xff, which is not UTF-8 text
    assert_eq!(decode("/w=="), Err(CodecError::Utf8));
}

#[test]
fn routing_table() {
    assert_eq!(route(HttpMethod::Get, &b"/".to_vec()), Route::Page);
    assert_eq!(route(HttpMethod::Post, &b"/local".to_vec()), Route::Signal);
    assert_eq!(route(HttpMethod::Get, &b"/local".to_vec()), Route::NotFound);
    assert_eq!(route(HttpMethod::Post, &b"/".to_vec()), Route::NotFound);
    assert_eq!(route(HttpMethod::Get, &b"/other".to_vec()), Route::NotFound);
    assert_eq!(route(HttpMethod::Other, &b"/".to_vec()), Route::NotFound);
}

#[test]
fn page_response_is_200_nonempty() {
    let r = respond_page();
    assert_eq!(r.status, 200);
    assert!(!r.body.is_empty());
}

#[test]
fn error_responses() {
    assert_eq!(respond_not_found().status, 404);
    assert_eq!(respond_server_error().status, 500);
    let ok = respond_answer(b"abc".to_vec());
    assert_eq!(ok.status, 200);
    assert_eq!(ok.body, b"abc".to_vec());
}

#[test]
fn accept_wellformed_offer() {
    let body = base64::encode("{\"type\":\"offer\",\"sdp\":\"v=0\"}").into_bytes();
    let d = accept_offer_body(&body).expect("well-formed offer must be accepted");
    assert_eq!(d.kind, SdpKind::Offer);
    assert_eq!(d.sdp, b"v=0".to_vec());
}

#[test]
fn reject_malformed_base64() {
    let body = b"!!!not-base64!!!".to_vec();
    assert!(matches!(
        accept_offer_body(&body),
        Err(SignalError::DecodeError)
    ));
}

#[test]
fn reject_bad_json_schema() {
    let body = base64::encode("{\"nope\":1}").into_bytes();
    assert!(matches!(
        accept_offer_body(&body),
        Err(SignalError::ParseError)
    ));
    let body2 = base64::encode("not json at all").into_bytes();
    assert!(matches!(
        accept_offer_body(&body2),
        Err(SignalError::ParseError)
    ));
}

#[test]
fn answer_body_is_decodable_base64_json() {
    let ans = desc(SdpKind::Answer, "v=0");
    let body = encode_answer(&ans);
    let decoded = base64::decode(&body).expect("answer body must be base64");
    assert_eq!(decoded, b"{\"type\":\"answer\",\"sdp\":\"v=0\"}".to_vec());
    let back = parse_description(&decoded).expect("answer body must parse");
    assert_eq!(back.kind, SdpKind::Answer);
}

#[test]
fn delete_byte_passes_unescaped() {
    // 0x7f is not a control byte in JSON terms: it rides through raw
    let d = desc(SdpKind::Offer, "\u{7f}");
    let bytes = serialize_description(&d);
    assert_eq!(bytes, b"{\"type\":\"offer\",\"sdp\":\"\x7f\"}".to_vec());
    let back = parse_description(&bytes).expect("must parse");
    assert_eq!(back.sdp, vec![0x7f]);
}

#[test]
fn unicode_escape_beyond_ascii_is_rejected() {
    // the schema carries SDP text, which is ASCII; \u0080 and above are
    // outside what the parser accepts
    let body = b"{\"type\":\"offer\",\"sdp\":\"\\u0080\"}".to_vec();
    assert!(parse_description(&body).is_none());
    // a malformed escape is rejected too
    let body2 = b"{\"type\":\"offer\",\"sdp\":\"\\q\"}".to_vec();
    assert!(parse_description(&body2).is_none());
    let body3 = b"{\"type\":\"offer\",\"sdp\":\"\\u00g0\"}".to_vec();
    assert!(parse_description(&body3).is_none());
}

#[test]
fn boundary_control_escape_values() {
    let d = desc(SdpKind::Offer, "\u{1f}\u{0}");
    let bytes = serialize_description(&d);
    assert_eq!(
        String::from_utf8(bytes.clone()).unwrap(),
        "{\"type\":\"offer\",\"sdp\":\"\\u001f\\u0000\"}"
    );
    let back = parse_description(&bytes).expect("must parse");
    assert_eq!(back.sdp, vec![0x1f, 0x00]);
}
