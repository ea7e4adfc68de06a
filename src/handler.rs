use crate::codec::{decode_request, encode_response, request_of_wire, wire_of_response};
use crate::protocol::{Request, RequestView, Response, ResponseView};
use crate::store::KeyValueStore;
use vstd::prelude::*;
use vstd::string::*;

verus! {

/// The response to `q` on a store that holds `m`.
pub open spec fn answer(m: Map<Seq<char>, Seq<char>>, q: RequestView) -> ResponseView {
    match q {
        RequestView::Get(k) => if m.contains_key(k) {
            ResponseView::Success(m[k])
        } else {
            ResponseView::Failure("Key not found: "@ + k)
        },
        RequestView::Put(k, v) => ResponseView::Success(
            "Key-Value pair added: "@ + k + " - "@ + v,
        ),
    }
}

/// What a store that holds `m` holds after it has served `q`.
pub open spec fn after(m: Map<Seq<char>, Seq<char>>, q: RequestView) -> Map<Seq<char>, Seq<char>> {
    match q {
        RequestView::Get(_) => m,
        RequestView::Put(k, v) => m.insert(k, v),
    }
}

/// What a store that holds `m` holds after it has served the requests `qs` in order.
pub open spec fn after_all(m: Map<Seq<char>, Seq<char>>, qs: Seq<RequestView>) -> Map<
    Seq<char>,
    Seq<char>,
>
    decreases qs.len(),
{
    if qs.len() == 0 {
        m
    } else {
        after(after_all(m, qs.drop_last()), qs.last())
    }
}

/// The response to bytes that hold no request.
pub open spec fn malformed_reply() -> ResponseView {
    ResponseView::Failure("malformed request"@)
}

/// Serves one request on the store.
pub fn handle_request(store: &mut KeyValueStore, request: Request) -> (r: Response)
    requires
        old(store).well_formed(),
    ensures
        final(store).well_formed(),
        final(store)@ == after(old(store)@, request@),
        r@ == answer(old(store)@, request@),
{
    match request {
        Request::Get(key) => match store.get(key.as_str()) {
            Some(value) => Response::Success(value.clone()),
            None => Response::Failure(String::from_str("Key not found: ").concat(key.as_str())),
        },
        Request::Put(key, value) => {
            let message = String::from_str("Key-Value pair added: ").concat(key.as_str()).concat(
                " - ",
            ).concat(value.as_str());
            store.put(key, value);
            Response::Success(message)
        },
    }
}

/// What a connection does with the bytes of its request: decode them, serve the
/// request, and encode the response to send back. Bytes that hold no request
/// leave the store alone and get a failure response.
pub fn handle_client(store: &mut KeyValueStore, bytes: &[u8]) -> (r: Vec<u8>)
    requires
        old(store).well_formed(),
    ensures
        final(store).well_formed(),
        match request_of_wire(bytes@) {
            Some(q) => {
                &&& final(store)@ == after(old(store)@, q)
                &&& r@ == wire_of_response(answer(old(store)@, q))
            },
            None => {
                &&& final(store)@ == old(store)@
                &&& r@ == wire_of_response(malformed_reply())
            },
        },
{
    let response = match decode_request(bytes) {
        Ok(request) => handle_request(store, request),
        Err(_) => Response::Failure(String::from_str("malformed request")),
    };
    encode_response(&response)
}

/// A `Get` of a key right after a `Put` of that key answers with the value put.
pub proof fn lemma_put_then_get(m: Map<Seq<char>, Seq<char>>, k: Seq<char>, v: Seq<char>)
    ensures
        answer(after(m, RequestView::Put(k, v)), RequestView::Get(k)) == ResponseView::Success(v),
{
}

/// On a store that started empty and has served no `Put` of `k`, a `Get` of `k`
/// answers that the key is not found.
pub proof fn lemma_get_miss(qs: Seq<RequestView>, k: Seq<char>)
    requires
        forall|i: int| 0 <= i < qs.len() ==> !(#[trigger] qs[i] matches RequestView::Put(pk, _) && pk == k),
    ensures
        answer(after_all(Map::empty(), qs), RequestView::Get(k)) == ResponseView::Failure(
            "Key not found: "@ + k,
        ),
{
    lemma_key_stays_absent(Map::empty(), qs, k);
}

/// Requests that put no value under `k` leave `k` absent where it was absent.
proof fn lemma_key_stays_absent(m: Map<Seq<char>, Seq<char>>, qs: Seq<RequestView>, k: Seq<char>)
    requires
        !m.contains_key(k),
        forall|i: int| 0 <= i < qs.len() ==> !(#[trigger] qs[i] matches RequestView::Put(pk, _) && pk == k),
    ensures
        !after_all(m, qs).contains_key(k),
    decreases qs.len(),
{
    if qs.len() > 0 {
        let rest = qs.drop_last();
        assert forall|i: int| 0 <= i < rest.len() implies !(#[trigger] rest[i] matches RequestView::Put(pk, _) && pk == k) by {
            assert(rest[i] == qs[i]);
        }
        lemma_key_stays_absent(m, rest, k);
        assert(qs.last() == qs[qs.len() - 1]);
    }
}

/// Of two `Put`s of one key, the later one wins: a `Get` then answers with its value.
pub proof fn lemma_overwrite(m: Map<Seq<char>, Seq<char>>, k: Seq<char>, v1: Seq<char>, v2: Seq<char>)
    ensures
        answer(
            after(after(m, RequestView::Put(k, v1)), RequestView::Put(k, v2)),
            RequestView::Get(k),
        ) == ResponseView::Success(v2),
{
}

/// The `Put`s of `vals[i]` under `keys[i]`, in index order.
pub open spec fn puts(keys: Seq<Seq<char>>, vals: Seq<Seq<char>>) -> Seq<RequestView> {
    Seq::new(keys.len(), |i: int| RequestView::Put(keys[i], vals[i]))
}

/// After `Put`s to distinct keys, a `Get` of each key answers with the value put
/// under that key, and `Get`s leave the store as it was, whatever their order.
pub proof fn lemma_distinct_puts(
    m: Map<Seq<char>, Seq<char>>,
    keys: Seq<Seq<char>>,
    vals: Seq<Seq<char>>,
    gets: Seq<RequestView>,
)
    requires
        keys.len() == vals.len(),
        forall|i: int, j: int| 0 <= i < j < keys.len() ==> keys[i] != keys[j],
        forall|i: int| 0 <= i < gets.len() ==> #[trigger] gets[i] is Get,
    ensures
        forall|i: int|
            0 <= i < keys.len() ==> answer(after_all(m, puts(keys, vals)), RequestView::Get(#[trigger] keys[i]))
                == ResponseView::Success(vals[i]),
        after_all(after_all(m, puts(keys, vals)), gets) == after_all(m, puts(keys, vals)),
{
    lemma_puts_hold(m, keys, vals);
    lemma_gets_keep(after_all(m, puts(keys, vals)), gets);
}

/// After `Put`s to distinct keys, each key holds the value put under it.
proof fn lemma_puts_hold(m: Map<Seq<char>, Seq<char>>, keys: Seq<Seq<char>>, vals: Seq<Seq<char>>)
    requires
        keys.len() == vals.len(),
        forall|i: int, j: int| 0 <= i < j < keys.len() ==> keys[i] != keys[j],
    ensures
        forall|i: int|
            0 <= i < keys.len() ==> #[trigger] after_all(m, puts(keys, vals)).contains_key(keys[i])
                && after_all(m, puts(keys, vals))[keys[i]] == vals[i],
    decreases keys.len(),
{
    if keys.len() > 0 {
        let n = keys.len() - 1;
        let ks = keys.drop_last();
        let vs = vals.drop_last();
        lemma_puts_hold(m, ks, vs);
        assert(puts(keys, vals).drop_last() =~= puts(ks, vs));
        assert(puts(keys, vals).last() == RequestView::Put(keys[n], vals[n]));
        assert forall|i: int| 0 <= i < keys.len() implies #[trigger] after_all(m, puts(keys, vals)).contains_key(keys[i])
            && after_all(m, puts(keys, vals))[keys[i]] == vals[i] by {
            if i < n {
                assert(ks[i] == keys[i] && vs[i] == vals[i]);
                assert(after_all(m, puts(ks, vs)).contains_key(ks[i]));
            }
        }
    }
}

/// `Get`s leave the store as it was.
proof fn lemma_gets_keep(m: Map<Seq<char>, Seq<char>>, gets: Seq<RequestView>)
    requires
        forall|i: int| 0 <= i < gets.len() ==> #[trigger] gets[i] is Get,
    ensures
        after_all(m, gets) == m,
    decreases gets.len(),
{
    if gets.len() > 0 {
        let rest = gets.drop_last();
        assert forall|i: int| 0 <= i < rest.len() implies #[trigger] rest[i] is Get by {
            assert(rest[i] == gets[i]);
        }
        lemma_gets_keep(m, rest);
        assert(gets.last() == gets[gets.len() - 1]);
    }
}

} // verus!
