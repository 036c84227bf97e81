use quad_net::http_request::{Method, RequestBuilder, RequestResponseType, ResponsePayload};

#[test]
fn builder_defaults_to_get_text() {
    let call = RequestBuilder::new("http://example.com/a").into_call();
    assert_eq!(call.method, Method::Get);
    assert_eq!(call.url, "http://example.com/a");
    assert!(call.headers.is_empty());
    assert!(call.body.is_none());
    assert_eq!(call.response_type, RequestResponseType::Text);
}

#[test]
fn builder_keeps_headers_in_order_and_body_for_post() {
    let call = RequestBuilder::new("u")
        .method(Method::Post)
        .header("a", "1")
        .header("b", "2")
        .body("payload")
        .response_type(RequestResponseType::Bytes)
        .into_call();
    assert_eq!(call.method, Method::Post);
    assert_eq!(
        call.headers,
        vec![("a".to_string(), "1".to_string()), ("b".to_string(), "2".to_string())]
    );
    assert_eq!(call.body.as_deref(), Some("payload"));
    assert_eq!(call.response_type, RequestResponseType::Bytes);
}

#[test]
fn get_and_delete_drop_the_body() {
    for m in [Method::Get, Method::Delete] {
        let call = RequestBuilder::new("u").body("x").method(m).into_call();
        assert!(call.body.is_none());
    }
    let call = RequestBuilder::new("u").method(Method::Put).into_call();
    assert!(call.body.is_none());
}

#[test]
fn payload_from_body() {
    match ResponsePayload::from_body("héllo".as_bytes().to_vec(), RequestResponseType::Text) {
        Some(ResponsePayload::Text(s)) => assert_eq!(s, "héllo"),
        _ => panic!("expected text"),
    }
    assert!(ResponsePayload::from_body(vec![0xFF, 0xFE], RequestResponseType::Text).is_none());
    match ResponsePayload::from_body(vec![0xFF, 0xFE], RequestResponseType::Bytes) {
        Some(ResponsePayload::Bytes(b)) => assert_eq!(b, vec![0xFF, 0xFE]),
        _ => panic!("expected bytes"),
    }
}
