//! Header rewriting for the forward path: the inbound `host` and `target`
//! entries are dropped, and `x-forwarded-for` and `x-forwarded-host` are set
//! from the client address and the inbound `Host` value. Header names are the
//! lowercase form in which an HTTP/1.1 header map hands them over.
use vstd::prelude::*;
use vstd::string::{StrSliceExecFns, StringSliceAdditionalSpecFns};
use crate::text::{bytes_eq, copy_range};

verus! {

/// The views of a sequence of header pairs.
pub open spec fn header_views(hs: Seq<(Vec<u8>, Vec<u8>)>) -> Seq<(Seq<u8>, Seq<u8>)> {
    hs.map_values(|h: (Vec<u8>, Vec<u8>)| (h.0@, h.1@))
}

/// An inbound header survives the rewrite when its name is none of the two
/// dropped names and none of the two names the rewrite sets itself.
pub open spec fn header_kept(name: Seq<u8>) -> bool {
    &&& name != "host".spec_bytes()
    &&& name != "target".spec_bytes()
    &&& name != "x-forwarded-for".spec_bytes()
    &&& name != "x-forwarded-host".spec_bytes()
}

/// The inbound headers that survive the rewrite, in order.
pub open spec fn kept_headers(hs: Seq<(Seq<u8>, Seq<u8>)>) -> Seq<(Seq<u8>, Seq<u8>)>
    decreases hs.len(),
{
    if hs.len() == 0 {
        Seq::empty()
    } else {
        let rest = kept_headers(hs.drop_last());
        if header_kept(hs.last().0) {
            rest.push(hs.last())
        } else {
            rest
        }
    }
}

/// Every kept header satisfies `header_kept`.
pub proof fn lemma_kept_headers(hs: Seq<(Seq<u8>, Seq<u8>)>)
    ensures
        forall|k: int|
            0 <= k < kept_headers(hs).len() ==> header_kept(#[trigger] kept_headers(hs)[k].0),
    decreases hs.len(),
{
    if hs.len() > 0 {
        lemma_kept_headers(hs.drop_last());
        let rest = kept_headers(hs.drop_last());
        assert forall|k: int|
            0 <= k < kept_headers(hs).len() implies header_kept(kept_headers(hs)[k].0) by {
            if header_kept(hs.last().0) && k == rest.len() {
                assert(kept_headers(hs)[k] == hs.last());
            }
        }
    }
}

/// The rewritten headers `r` for inbound `inbound`: the kept inbound entries
/// in order, then `x-forwarded-for` set to the client address, then
/// `x-forwarded-host` set to the inbound `Host` value; no entry is named
/// `host` or `target`.
pub open spec fn rewritten_headers_ok(
    inbound: Seq<(Seq<u8>, Seq<u8>)>,
    client_ip: Seq<u8>,
    host: Seq<u8>,
    r: Seq<(Seq<u8>, Seq<u8>)>,
) -> bool {
    &&& r.len() == kept_headers(inbound).len() + 2
    &&& (forall|k: int| 0 <= k < r.len() - 2 ==> r[k] == kept_headers(inbound)[k])
    &&& r[r.len() - 2].0 == "x-forwarded-for".spec_bytes()
    &&& r[r.len() - 2].1 == client_ip
    &&& r[r.len() - 1].0 == "x-forwarded-host".spec_bytes()
    &&& r[r.len() - 1].1 == host
    &&& (forall|k: int|
        0 <= k < r.len() ==> (#[trigger] r[k].0) != "host".spec_bytes() && r[k].0
            != "target".spec_bytes())
}

/// Copy one header pair.
fn copy_header(h: &(Vec<u8>, Vec<u8>)) -> (r: (Vec<u8>, Vec<u8>))
    ensures
        r.0@ == h.0@,
        r.1@ == h.1@,
{
    let name = copy_range(&h.0, 0, h.0.len());
    let value = copy_range(&h.1, 0, h.1.len());
    proof {
        assert(name@ =~= h.0@);
        assert(value@ =~= h.1@);
    }
    (name, value)
}

/// Rewrite the inbound headers for the upstream call.
pub fn rewrite_headers(headers: &Vec<(Vec<u8>, Vec<u8>)>, client_ip: &Vec<u8>, host: &Vec<u8>) -> (r:
    Vec<(Vec<u8>, Vec<u8>)>)
    ensures
        rewritten_headers_ok(header_views(headers@), client_ip@, host@, header_views(r@)),
{
    let forbidden_a = "host".as_bytes_vec();
    let forbidden_b = "target".as_bytes_vec();
    let fwd_for = "x-forwarded-for".as_bytes_vec();
    let fwd_host = "x-forwarded-host".as_bytes_vec();
    let ghost inbound = header_views(headers@);
    let mut out: Vec<(Vec<u8>, Vec<u8>)> = Vec::new();
    proof {
        assert(inbound.subrange(0, 0) =~= Seq::<(Seq<u8>, Seq<u8>)>::empty());
        assert(header_views(out@) =~= kept_headers(inbound.subrange(0, 0)));
    }
    let mut k: usize = 0;
    while k < headers.len()
        invariant
            k <= headers@.len(),
            inbound == header_views(headers@),
            forbidden_a@ == "host".spec_bytes(),
            forbidden_b@ == "target".spec_bytes(),
            fwd_for@ == "x-forwarded-for".spec_bytes(),
            fwd_host@ == "x-forwarded-host".spec_bytes(),
            header_views(out@) == kept_headers(inbound.subrange(0, k as int)),
        decreases headers@.len() - k,
    {
        let ghost out0 = out@;
        let h = &headers[k];
        let keep = !bytes_eq(&h.0, &forbidden_a) && !bytes_eq(&h.0, &forbidden_b) && !bytes_eq(
            &h.0,
            &fwd_for,
        ) && !bytes_eq(&h.0, &fwd_host);
        proof {
            assert(inbound[k as int] == (h.0@, h.1@));
            assert(keep == header_kept(inbound[k as int].0));
        }
        if keep {
            let pair = copy_header(h);
            let ghost pair_views = (pair.0@, pair.1@);
            out.push(pair);
            proof {
                assert(header_views(out@) =~= header_views(out0).push(pair_views));
                assert(pair_views == inbound[k as int]);
            }
        }
        proof {
            let p1 = inbound.subrange(0, k + 1);
            assert(p1.drop_last() =~= inbound.subrange(0, k as int));
            assert(p1.last() == inbound[k as int]);
            assert(header_views(out@) =~= kept_headers(p1));
        }
        k = k + 1;
    }
    proof {
        assert(inbound.subrange(0, headers@.len() as int) =~= inbound);
        lemma_kept_headers(inbound);
    }
    let ghost kept_len = header_views(out@).len();
    let ip = copy_range(client_ip, 0, client_ip.len());
    let hv = copy_range(host, 0, host.len());
    proof {
        assert(ip@ =~= client_ip@);
        assert(hv@ =~= host@);
    }
    let ghost out1 = out@;
    out.push((fwd_for, ip));
    proof {
        assert(header_views(out@) =~= header_views(out1).push(
            ("x-forwarded-for".spec_bytes(), client_ip@),
        ));
    }
    let ghost out2 = out@;
    out.push((fwd_host, hv));
    proof {
        assert(header_views(out@) =~= header_views(out2).push(
            ("x-forwarded-host".spec_bytes(), host@),
        ));
        reveal_strlit("host");
        reveal_strlit("target");
        reveal_strlit("x-forwarded-for");
        reveal_strlit("x-forwarded-host");
        assert(vstd::string::is_ascii("host"));
        assert(vstd::string::is_ascii("target"));
        assert(vstd::string::is_ascii("x-forwarded-for"));
        assert(vstd::string::is_ascii("x-forwarded-host"));
        assert("x-forwarded-for".spec_bytes().len() == 15);
        assert("x-forwarded-host".spec_bytes().len() == 16);
        assert("host".spec_bytes().len() == 4);
        assert("target".spec_bytes().len() == 6);
        assert(rewritten_headers_ok(inbound, client_ip@, host@, header_views(out@)));
    }
    out
}

} // verus!
