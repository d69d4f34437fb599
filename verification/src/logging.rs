//! The log lines the proxy emits: one entry line per request, one terminal
//! line per outcome, a separator, and the tunnel completion report.
use vstd::prelude::*;
use vstd::string::{StrSliceExecFns, StringSliceAdditionalSpecFns};
use crate::messages::{escaped, push_escaped, status_display, status_display_of};
use crate::text::{
    decimal_of, is_substring_of, lemma_substring_of_concat, push_all, u64_decimal,
};

verus! {

/// The entry log line of one request.
pub open spec fn entry_line_of(client: Seq<u8>, uri: Seq<u8>, ts: Seq<u8>, cid: Seq<u8>) -> Seq<
    u8,
> {
    "Client: ".spec_bytes() + client + " ; Request URL: ".spec_bytes() + seq![34u8] + escaped(uri)
        + seq![34u8] + "; timestamp: ".spec_bytes() + ts + "; correlationId: ".spec_bytes() + cid
}

/// The terminal log line of an error outcome, over the status line text.
pub open spec fn terminal_line_of(disp: Seq<u8>, cid: Seq<u8>) -> Seq<u8> {
    "Code: ".spec_bytes() + disp + " ; correlationId: ".spec_bytes() + cid
}

/// The terminal log line of a success outcome.
pub open spec fn success_line_of(cid: Seq<u8>) -> Seq<u8> {
    "Code: 200 Ok; correlationId: ".spec_bytes() + cid
}

/// The separator printed after each terminal line.
pub open spec fn separator_of() -> Seq<u8> {
    "-------------------------------".spec_bytes()
}

/// The tunnel completion report over both byte counts.
pub open spec fn tunnel_line_of(wrote: nat, received: nat) -> Seq<u8> {
    "client wrote ".spec_bytes() + decimal_of(wrote) + " bytes and received ".spec_bytes()
        + decimal_of(received) + " bytes".spec_bytes()
}

/// Build the entry log line.
pub fn entry_line(client: &Vec<u8>, uri: &Vec<u8>, ts: &Vec<u8>, cid: &Vec<u8>) -> (r: Vec<u8>)
    ensures
        r@ == entry_line_of(client@, uri@, ts@, cid@),
{
    let mut r = "Client: ".as_bytes_vec();
    push_all(&mut r, client);
    let part = " ; Request URL: ".as_bytes_vec();
    push_all(&mut r, &part);
    r.push(34);
    push_escaped(&mut r, uri);
    r.push(34);
    let part = "; timestamp: ".as_bytes_vec();
    push_all(&mut r, &part);
    push_all(&mut r, ts);
    let part = "; correlationId: ".as_bytes_vec();
    push_all(&mut r, &part);
    push_all(&mut r, cid);
    proof {
        assert(r@ =~= entry_line_of(client@, uri@, ts@, cid@));
    }
    r
}

/// Build the terminal log line for a status code.
pub fn terminal_line(code: u16, cid: &Vec<u8>) -> (r: Vec<u8>)
    requires
        100 <= code < 1000,
    ensures
        r@ == terminal_line_of(status_display_of(code), cid@),
{
    let mut r = "Code: ".as_bytes_vec();
    let disp = status_display(code);
    push_all(&mut r, &disp);
    let part = " ; correlationId: ".as_bytes_vec();
    push_all(&mut r, &part);
    push_all(&mut r, cid);
    proof {
        assert(r@ =~= terminal_line_of(status_display_of(code), cid@));
    }
    r
}

/// Build the terminal log line of a success outcome.
pub fn success_line(cid: &Vec<u8>) -> (r: Vec<u8>)
    ensures
        r@ == success_line_of(cid@),
{
    let mut r = "Code: 200 Ok; correlationId: ".as_bytes_vec();
    push_all(&mut r, cid);
    r
}

/// Build the separator line.
pub fn separator_line() -> (r: Vec<u8>)
    ensures
        r@ == separator_of(),
{
    "-------------------------------".as_bytes_vec()
}

/// Build the tunnel completion report. The counts reported are exactly the
/// two counts handed in, rendered in decimal.
pub fn tunnel_line(wrote: u64, received: u64) -> (r: Vec<u8>)
    ensures
        r@ == tunnel_line_of(wrote as nat, received as nat),
{
    let mut r = "client wrote ".as_bytes_vec();
    let w = u64_decimal(wrote);
    push_all(&mut r, &w);
    let part = " bytes and received ".as_bytes_vec();
    push_all(&mut r, &part);
    let v = u64_decimal(received);
    push_all(&mut r, &v);
    let part = " bytes".as_bytes_vec();
    push_all(&mut r, &part);
    proof {
        assert(r@ =~= tunnel_line_of(wrote as nat, received as nat));
    }
    r
}

/// Law: the entry log line and each form of terminal log line of one request
/// embed that request's correlation ID, so the two lines of a handled request
/// always share it.
pub proof fn lemma_log_lines_correlate(
    client: Seq<u8>,
    uri: Seq<u8>,
    ts: Seq<u8>,
    disp: Seq<u8>,
    cid: Seq<u8>,
)
    ensures
        is_substring_of(cid, entry_line_of(client, uri, ts, cid)),
        is_substring_of(cid, terminal_line_of(disp, cid)),
        is_substring_of(cid, success_line_of(cid)),
{
    let entry_prefix = "Client: ".spec_bytes() + client + " ; Request URL: ".spec_bytes() + seq![
        34u8,
    ] + escaped(uri) + seq![34u8] + "; timestamp: ".spec_bytes() + ts
        + "; correlationId: ".spec_bytes();
    assert(entry_line_of(client, uri, ts, cid) =~= entry_prefix + cid + Seq::<u8>::empty());
    lemma_substring_of_concat(entry_prefix, cid, Seq::<u8>::empty());

    let terminal_prefix = "Code: ".spec_bytes() + disp + " ; correlationId: ".spec_bytes();
    assert(terminal_line_of(disp, cid) =~= terminal_prefix + cid + Seq::<u8>::empty());
    lemma_substring_of_concat(terminal_prefix, cid, Seq::<u8>::empty());

    let success_prefix = "Code: 200 Ok; correlationId: ".spec_bytes();
    assert(success_line_of(cid) =~= success_prefix + cid + Seq::<u8>::empty());
    lemma_substring_of_concat(success_prefix, cid, Seq::<u8>::empty());
}

} // verus!
