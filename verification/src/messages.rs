//! The diagnostic texts the proxy emits: quoted-and-escaped rendering of
//! header values, and the fixed bodies of the error responses.
use vstd::prelude::*;
use vstd::string::{StrSliceExecFns, StringSliceAdditionalSpecFns};
use crate::text::push_all;

verus! {

/// A lowercase hexadecimal digit.
pub open spec fn hex_digit(d: u8) -> u8 {
    if d < 10 {
        (48 + d) as u8
    } else {
        (87 + d) as u8
    }
}

/// One or two lowercase hexadecimal digits for `b`, without padding.
pub open spec fn hex_byte(b: u8) -> Seq<u8> {
    if b < 16 {
        seq![hex_digit(b)]
    } else {
        seq![hex_digit(b / 16), hex_digit(b % 16)]
    }
}

/// How one byte is shown inside a quoted value: a double quote is
/// backslash-escaped, a visible ASCII byte stands as itself, and any other
/// byte is shown as `\x` and its hexadecimal digits.
pub open spec fn esc_byte(b: u8) -> Seq<u8> {
    if b == 34 {
        seq![92u8, 34u8]
    } else if 32 <= b <= 126 {
        seq![b]
    } else {
        seq![92u8, 120u8] + hex_byte(b)
    }
}

/// The escaped form of a whole byte string.
pub open spec fn escaped(s: Seq<u8>) -> Seq<u8>
    decreases s.len(),
{
    if s.len() == 0 {
        Seq::empty()
    } else {
        escaped(s.drop_last()) + esc_byte(s.last())
    }
}

fn hex_digit_byte(d: u8) -> (r: u8)
    requires
        d < 16,
    ensures
        r == hex_digit(d),
{
    if d < 10 {
        48 + d
    } else {
        87 + d
    }
}

/// Append the escaped form of `s` to `dst`.
pub fn push_escaped(dst: &mut Vec<u8>, s: &Vec<u8>)
    ensures
        final(dst)@ == old(dst)@ + escaped(s@),
{
    let ghost orig = dst@;
    let mut i: usize = 0;
    proof {
        assert(s@.subrange(0, 0) =~= Seq::<u8>::empty());
        assert(dst@ =~= orig + escaped(s@.subrange(0, 0)));
    }
    while i < s.len()
        invariant
            i <= s@.len(),
            dst@ == orig + escaped(s@.subrange(0, i as int)),
        decreases s@.len() - i,
    {
        let b = s[i];
        if b == 34 {
            dst.push(92);
            dst.push(34);
        } else if 32 <= b && b <= 126 {
            dst.push(b);
        } else {
            dst.push(92);
            dst.push(120);
            if b < 16 {
                dst.push(hex_digit_byte(b));
            } else {
                dst.push(hex_digit_byte(b / 16));
                dst.push(hex_digit_byte(b % 16));
            }
        }
        proof {
            let p1 = s@.subrange(0, i + 1);
            assert(p1.drop_last() =~= s@.subrange(0, i as int));
            assert(p1.last() == s@[i as int]);
            assert(dst@ =~= orig + escaped(p1));
        }
        i = i + 1;
    }
    proof {
        assert(s@.subrange(0, s@.len() as int) =~= s@);
    }
}

/// The body sent for a request whose host the host rule denies: the header value
/// quoted and escaped.
pub open spec fn forbidden_host_msg(host: Seq<u8>) -> Seq<u8> {
    "Forbidden host ".spec_bytes() + seq![34u8] + escaped(host) + seq![34u8]
}

/// Build `forbidden_host_msg`.
pub fn forbidden_host_message(host: &Vec<u8>) -> (r: Vec<u8>)
    ensures
        r@ == forbidden_host_msg(host@),
{
    let mut r = "Forbidden host ".as_bytes_vec();
    r.push(34);
    push_escaped(&mut r, host);
    r.push(34);
    proof {
        assert(r@ =~= forbidden_host_msg(host@));
    }
    r
}

/// The body sent for a `CONNECT` whose target is not `host:port`.
pub open spec fn connect_bad_msg() -> Seq<u8> {
    "CONNECT must be to a socket address".spec_bytes()
}

/// Build `connect_bad_msg`.
pub fn connect_bad_message() -> (r: Vec<u8>)
    ensures
        r@ == connect_bad_msg(),
{
    "CONNECT must be to a socket address".as_bytes_vec()
}

/// The body sent when the screen rejects an upstream response.
pub open spec fn not_allowed_msg(uri: Seq<u8>) -> Seq<u8> {
    "Content from ".spec_bytes() + uri + " not allowed".spec_bytes()
}

/// Build `not_allowed_msg`.
pub fn not_allowed_message(uri: &Vec<u8>) -> (r: Vec<u8>)
    ensures
        r@ == not_allowed_msg(uri@),
{
    let mut r = "Content from ".as_bytes_vec();
    push_all(&mut r, uri);
    let tail = " not allowed".as_bytes_vec();
    push_all(&mut r, &tail);
    r
}

/// The status line text of a status code: the code and its canonical reason.
pub uninterp spec fn status_display_of(code: u16) -> Seq<u8>;

/// Relies on `hyper::StatusCode`: `from_u16` accepts every code in
/// `100..=999`, and `Display` writes the code and its canonical reason, a
/// function of the code alone.
#[verifier::external_body]
pub(crate) fn status_display(code: u16) -> (r: Vec<u8>)
    requires
        100 <= code < 1000,
    ensures
        r@ == status_display_of(code),
{
    let status = hyper::StatusCode::from_u16(code).unwrap();
    format!("{}", status).into_bytes()
}

/// The body sent when the upstream answered with a status other than 200.
pub open spec fn upstream_err_msg(disp: Seq<u8>, uri: Seq<u8>) -> Seq<u8> {
    "Error! Got response code ".spec_bytes() + disp + " from ".spec_bytes() + uri
}

/// Build `upstream_err_msg` for a concrete status code.
pub fn upstream_err_message(code: u16, uri: &Vec<u8>) -> (r: Vec<u8>)
    requires
        100 <= code < 1000,
    ensures
        r@ == upstream_err_msg(status_display_of(code), uri@),
{
    let mut r = "Error! Got response code ".as_bytes_vec();
    let disp = status_display(code);
    push_all(&mut r, &disp);
    let mid = " from ".as_bytes_vec();
    push_all(&mut r, &mid);
    push_all(&mut r, uri);
    proof {
        assert(r@ =~= upstream_err_msg(status_display_of(code), uri@));
    }
    r
}

} // verus!
