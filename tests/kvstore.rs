use kvstore::{
    decode_request, decode_response, encode_response, handle_client, handle_request, CodecError,
    KeyValueStore, Request, Response,
};

fn s(x: &str) -> String {
    x.to_string()
}

fn exchange(store: &mut KeyValueStore, request: &str) -> Response {
    let reply = handle_client(store, request.as_bytes());
    decode_response(&reply).expect("the reply decodes")
}

#[test]
fn new_store_is_empty() {
    let store = KeyValueStore::new();
    assert_eq!(store.get("a"), None);
    assert_eq!(store.get(""), None);
}

#[test]
fn put_then_get() {
    let mut store = KeyValueStore::new();
    store.put(s("k"), s("v"));
    assert_eq!(store.get("k"), Some(&s("v")));
}

#[test]
fn get_miss_reports_key() {
    let mut store = KeyValueStore::new();
    store.put(s("a"), s("1"));
    let r = handle_request(&mut store, Request::Get(s("b")));
    assert_eq!(r, Response::Failure(s("Key not found: b")));
}

#[test]
fn overwrite_keeps_last_value() {
    let mut store = KeyValueStore::new();
    handle_request(&mut store, Request::Put(s("k"), s("v1")));
    handle_request(&mut store, Request::Put(s("k"), s("v2")));
    let r = handle_request(&mut store, Request::Get(s("k")));
    assert_eq!(r, Response::Success(s("v2")));
}

#[test]
fn put_confirms_key_and_value() {
    let mut store = KeyValueStore::new();
    let r = handle_request(&mut store, Request::Put(s("key"), s("value")));
    assert_eq!(r, Response::Success(s("Key-Value pair added: key - value")));
}

#[test]
fn distinct_keys_keep_their_values() {
    let mut store = KeyValueStore::new();
    for i in 0..50 {
        store.put(format!("key{}", i), format!("value{}", i));
    }
    for i in (0..50).rev() {
        let r = handle_request(&mut store, Request::Get(format!("key{}", i)));
        assert_eq!(r, Response::Success(format!("value{}", i)));
    }
}

#[test]
fn decode_get() {
    assert_eq!(decode_request(br#"{"Get":"a"}"#), Ok(Request::Get(s("a"))));
    assert_eq!(decode_request(br#" { "Get" : "x y" } "#), Ok(Request::Get(s("x y"))));
}

#[test]
fn decode_put() {
    assert_eq!(decode_request(br#"{"Put":["a","1"]}"#), Ok(Request::Put(s("a"), s("1"))));
}

#[test]
fn decode_empty_is_malformed() {
    assert_eq!(decode_request(b""), Err(CodecError::MalformedRequest));
}

#[test]
fn decode_put_with_one_element_is_malformed() {
    assert_eq!(decode_request(br#"{"Put":["a"]}"#), Err(CodecError::MalformedRequest));
}

#[test]
fn decode_other_shapes_are_malformed() {
    assert_eq!(decode_request(br#"{"Get":"a""#), Err(CodecError::MalformedRequest));
    assert_eq!(decode_request(br#"{"Delete":"a"}"#), Err(CodecError::MalformedRequest));
    assert_eq!(decode_request(br#"{"Get":["a","1"]}"#), Err(CodecError::MalformedRequest));
    assert_eq!(decode_request(br#"{"Put":"a"}"#), Err(CodecError::MalformedRequest));
    assert_eq!(decode_request(br#"{"Get":"a","Put":"b"}"#), Err(CodecError::MalformedRequest));
    assert_eq!(decode_request(br#""Get""#), Err(CodecError::MalformedRequest));
    assert_eq!(decode_request(b"not json"), Err(CodecError::MalformedRequest));
}

#[test]
fn encode_success_and_failure() {
    assert_eq!(encode_response(&Response::Success(s("1"))), br#"{"Ok":"1"}"#.to_vec());
    assert_eq!(encode_response(&Response::Failure(s("no"))), br#"{"Err":"no"}"#.to_vec());
}

#[test]
fn encode_is_deterministic() {
    let r = Response::Success(s("same"));
    assert_eq!(encode_response(&r), encode_response(&r.clone()));
}

#[test]
fn response_round_trip() {
    let cases = vec![
        Response::Success(s("")),
        Response::Success(s("plain")),
        Response::Failure(s("quote \" backslash \\ newline \n")),
        Response::Failure(s("snowman \u{2603} and tab \t")),
    ];
    for r in cases {
        assert_eq!(decode_response(&encode_response(&r)), Ok(r.clone()));
    }
}

#[test]
fn decode_response_rejects_other_tags() {
    assert_eq!(decode_response(br#"{"Get":"a"}"#), Err(CodecError::MalformedResponse));
    assert_eq!(decode_response(b""), Err(CodecError::MalformedResponse));
}

#[test]
fn end_to_end_exchange() {
    let mut store = KeyValueStore::new();
    assert_eq!(
        exchange(&mut store, r#"{"Put":["a","1"]}"#),
        Response::Success(s("Key-Value pair added: a - 1"))
    );
    assert_eq!(exchange(&mut store, r#"{"Get":"a"}"#), Response::Success(s("1")));
    assert_eq!(exchange(&mut store, r#"{"Get":"b"}"#), Response::Failure(s("Key not found: b")));
}

#[test]
fn malformed_request_leaves_store_alone() {
    let mut store = KeyValueStore::new();
    store.put(s("a"), s("1"));
    let reply = handle_client(&mut store, br#"{"Put":["a"]}"#);
    assert_eq!(reply, br#"{"Err":"malformed request"}"#.to_vec());
    assert_eq!(store.get("a"), Some(&s("1")));
    let reply = handle_client(&mut store, b"");
    assert_eq!(reply, br#"{"Err":"malformed request"}"#.to_vec());
}
