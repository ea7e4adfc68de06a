//! An in-memory key-value store with a one-request, one-response protocol.
//!
//! `store` holds the mapping, `protocol` the request and response values,
//! `codec` their JSON wire form, and `handler` what a connection does with
//! the bytes that it has read, together with the laws that serving requests obeys.
pub mod codec;
pub mod handler;
pub mod protocol;
pub mod store;

pub use codec::{decode_request, decode_response, encode_response};
pub use handler::{handle_client, handle_request};
pub use protocol::{CodecError, Request, RequestView, Response, ResponseView};
pub use store::KeyValueStore;
