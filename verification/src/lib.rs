//! Verified core of a filtering HTTP forward proxy.
//!
//! The crate decides, for each inbound request, whether it is denied by the
//! host policy, tunneled (`CONNECT`), or forwarded upstream with rewritten
//! headers; on the forward path it screens the upstream JSON body against a
//! banned-word policy. Network and file I/O live outside the crate and hand
//! plain values in and out.
pub mod connect;
pub mod context;
pub mod dispatch;
pub mod headers;
pub mod logging;
pub mod messages;
pub mod policy;
pub mod text;
