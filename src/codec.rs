use crate::protocol::{CodecError, Request, RequestView, Response, ResponseView};
use std::collections::BTreeMap;
use vstd::prelude::*;
use vstd::string::*;

verus! {

/// The entries of the JSON object, with string values, that `b` holds, if it holds one.
pub uninterp spec fn json_text_entries(b: Seq<u8>) -> Option<Seq<(Seq<char>, Seq<char>)>>;

/// The entries of the JSON object, with two-string-array values, that `b` holds, if it holds one.
pub uninterp spec fn json_pair_entries(b: Seq<u8>) -> Option<
    Seq<(Seq<char>, (Seq<char>, Seq<char>))>,
>;

/// The compact JSON text of the object with the single entry `tag: message`.
pub uninterp spec fn json_entry(tag: Seq<char>, message: Seq<char>) -> Seq<u8>;

/// Relies on `serde_json::from_slice` into a `BTreeMap<String, String>`: the result
/// depends on the bytes alone, and empty input is an error (end of input
/// while parsing a value).
#[verifier::external_body]
fn read_text_entries(b: &[u8]) -> (r: Option<Vec<(String, String)>>)
    ensures
        r.deep_view() == json_text_entries(b@),
        b@.len() == 0 ==> r is None,
{
    serde_json::from_slice::<BTreeMap<String, String>>(b).ok().map(|m| m.into_iter().collect())
}

/// Relies on `serde_json::from_slice` into a `BTreeMap<String, (String, String)>`: the
/// result depends on the bytes alone, and empty input is an error (end of
/// input while parsing a value).
#[verifier::external_body]
fn read_pair_entries(b: &[u8]) -> (r: Option<Vec<(String, (String, String))>>)
    ensures
        r.deep_view() == json_pair_entries(b@),
        b@.len() == 0 ==> r is None,
{
    serde_json::from_slice::<BTreeMap<String, (String, String)>>(b).ok().map(
        |m| m.into_iter().collect(),
    )
}

/// Relies on `serde_json::to_vec` of a one-entry `BTreeMap<&str, &str>`: the bytes depend
/// on the two strings alone. It fails only where a `Serialize` impl fails or a map key
/// is not a string, which a map of strings never does.
#[verifier::external_body]
fn write_entry(tag: &str, message: &str) -> (r: Vec<u8>)
    ensures
        r@ == json_entry(tag@, message@),
{
    serde_json::to_vec(&BTreeMap::from([(tag, message)])).unwrap_or_default()
}

/// The request that a single object entry stands for.
pub open spec fn request_of_wire(b: Seq<u8>) -> Option<RequestView> {
    let t = json_text_entries(b);
    let p = json_pair_entries(b);
    if t is Some && t->0.len() == 1 && t->0[0].0 == "Get"@ {
        Some(RequestView::Get(t->0[0].1))
    } else if p is Some && p->0.len() == 1 && p->0[0].0 == "Put"@ {
        Some(RequestView::Put(p->0[0].1.0, p->0[0].1.1))
    } else {
        None
    }
}

/// The tag and the message under which a response goes on the wire.
pub open spec fn response_entry(r: ResponseView) -> (Seq<char>, Seq<char>) {
    match r {
        ResponseView::Success(m) => ("Ok"@, m),
        ResponseView::Failure(m) => ("Err"@, m),
    }
}

/// The response that the object entry `e` stands for, if any.
pub open spec fn response_of_entry(e: (Seq<char>, Seq<char>)) -> Option<ResponseView> {
    if e.0 == "Ok"@ {
        Some(ResponseView::Success(e.1))
    } else if e.0 == "Err"@ {
        Some(ResponseView::Failure(e.1))
    } else {
        None
    }
}

/// The response that the bytes `b` stand for, if any.
pub open spec fn response_of_wire(b: Seq<u8>) -> Option<ResponseView> {
    let t = json_text_entries(b);
    if t is Some && t->0.len() == 1 {
        response_of_entry(t->0[0])
    } else {
        None
    }
}

/// The bytes that stand for the response `r`.
pub open spec fn wire_of_response(r: ResponseView) -> Seq<u8> {
    json_entry(response_entry(r).0, response_entry(r).1)
}

/// Reads one request: `{"Get": key}` or `{"Put": [key, value]}`.
pub fn decode_request(bytes: &[u8]) -> (r: Result<Request, CodecError>)
    ensures
        match request_of_wire(bytes@) {
            Some(q) => r is Ok && r->Ok_0@ == q,
            None => r == Err::<Request, CodecError>(CodecError::MalformedRequest),
        },
        bytes@.len() == 0 ==> r == Err::<Request, CodecError>(CodecError::MalformedRequest),
{
    let get_tag = String::from_str("Get");
    let put_tag = String::from_str("Put");
    if let Some(t) = read_text_entries(bytes) {
        if t.len() == 1 && t[0].0 == get_tag {
            return Ok(Request::Get(t[0].1.clone()));
        }
    }
    if let Some(p) = read_pair_entries(bytes) {
        if p.len() == 1 && p[0].0 == put_tag {
            let (k, v) = &p[0].1;
            return Ok(Request::Put(k.clone(), v.clone()));
        }
    }
    Err(CodecError::MalformedRequest)
}

/// Writes one response as `{"Ok": message}` or `{"Err": message}`.
pub fn encode_response(response: &Response) -> (r: Vec<u8>)
    ensures
        r@ == wire_of_response(response@),
{
    match response {
        Response::Success(m) => write_entry("Ok", m.as_str()),
        Response::Failure(m) => write_entry("Err", m.as_str()),
    }
}

/// Reads one response, as `encode_response` writes it.
pub fn decode_response(bytes: &[u8]) -> (r: Result<Response, CodecError>)
    ensures
        match response_of_wire(bytes@) {
            Some(q) => r is Ok && r->Ok_0@ == q,
            None => r == Err::<Response, CodecError>(CodecError::MalformedResponse),
        },
{
    let ok_tag = String::from_str("Ok");
    let err_tag = String::from_str("Err");
    if let Some(t) = read_text_entries(bytes) {
        if t.len() == 1 {
            if t[0].0 == ok_tag {
                return Ok(Response::Success(t[0].1.clone()));
            } else if t[0].0 == err_tag {
                return Ok(Response::Failure(t[0].1.clone()));
            }
        }
    }
    Err(CodecError::MalformedResponse)
}

/// A response's wire entry reads back as that same response.
pub proof fn lemma_response_entry_round_trip(r: ResponseView)
    ensures
        response_of_entry(response_entry(r)) == Some(r),
{
    reveal_strlit("Ok");
    reveal_strlit("Err");
    assert("Ok"@.len() != "Err"@.len());
}

} // verus!
