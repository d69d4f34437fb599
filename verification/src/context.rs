//! The per-request context: a fresh correlation identifier, the entry
//! timestamp, the client address, and the request's `Host` and URI, all as
//! plain byte strings.
use vstd::prelude::*;

verus! {

/// Relies on `uuid::Uuid::new_v4` and its hyphenated `Display` form, which is
/// always 36 characters; the value itself is random, so nothing more is
/// assumed of it.
#[verifier::external_body]
fn fresh_correlation_id() -> (r: Vec<u8>)
    ensures
        r@.len() == 36,
{
    uuid::Uuid::new_v4().to_string().into_bytes()
}

/// Relies on `chrono::DateTime<Utc>` and its `Debug` form, an RFC 3339
/// timestamp; the clock decides the value, so only nonemptiness is assumed.
#[verifier::external_body]
fn current_timestamp() -> (r: Vec<u8>)
    ensures
        r@.len() > 0,
{
    let now: chrono::DateTime<chrono::Utc> = std::time::SystemTime::now().into();
    format!("{:?}", now).into_bytes()
}

/// What one request carries from entry to its terminal log line.
pub struct RequestContext {
    /// The fresh per-request correlation identifier, in hyphenated text form.
    pub correlation_id: Vec<u8>,
    /// The wall-clock time at entry, as text.
    pub timestamp: Vec<u8>,
    /// The peer address of the accepted connection, as text.
    pub client_addr: Vec<u8>,
    /// The request's `Host` header value, verbatim.
    pub target_host: Vec<u8>,
    /// The request's URI, as text.
    pub target_uri: Vec<u8>,
}

impl RequestContext {
    /// Open a context for one request: draw a fresh correlation identifier
    /// and record the entry time.
    pub fn new(client_addr: Vec<u8>, target_host: Vec<u8>, target_uri: Vec<u8>) -> (c:
        RequestContext)
        ensures
            c.client_addr@ == client_addr@,
            c.target_host@ == target_host@,
            c.target_uri@ == target_uri@,
            c.correlation_id@.len() == 36,
            c.timestamp@.len() > 0,
    {
        RequestContext {
            correlation_id: fresh_correlation_id(),
            timestamp: current_timestamp(),
            client_addr,
            target_host,
            target_uri,
        }
    }
}

} // verus!
