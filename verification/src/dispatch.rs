//! The request dispatcher's decisions. `classify_request` turns one inbound
//! request into the action to perform: answer at once (denied host, bad
//! `CONNECT` target, unparseable URI), open a tunnel, or forward upstream
//! with rewritten headers. `upstream_reply` turns the upstream outcome of a
//! forward into the response to send, screening a 200 JSON body against the
//! banned-word policy.
use vstd::prelude::*;
use vstd::string::{StrSliceExecFns, StringSliceAdditionalSpecFns};
use crate::connect::{connect_target_ok, is_connect_target};
use crate::headers::{header_views, rewrite_headers, rewritten_headers_ok};
use crate::messages::{
    connect_bad_message, connect_bad_msg, forbidden_host_message, forbidden_host_msg,
    not_allowed_msg, not_allowed_message, status_display_of, upstream_err_message,
    upstream_err_msg,
};
use crate::policy::{host_allowed_spec, screen_rejects, Policy};
use crate::text::views_of;

verus! {

/// A response for the client: status code, an optional `Content-Type`, and
/// the body bytes.
pub struct HttpResponse {
    pub status: u16,
    pub content_type: Option<Vec<u8>>,
    pub body: Vec<u8>,
}

/// A response with the given status and body and no `Content-Type`.
pub open spec fn plain_response(r: HttpResponse, status: u16, body: Seq<u8>) -> bool {
    &&& r.status == status
    &&& r.content_type is None
    &&& r.body@ == body
}

/// What one request becomes after classification.
pub enum RequestAction {
    /// Answer the client at once, before any upstream work.
    Respond { response: HttpResponse },
    /// Answer 200 with an empty body and splice bytes to `target`.
    OpenTunnel { target: Vec<u8> },
    /// Issue the upstream call with these rewritten headers.
    Forward { headers: Vec<(Vec<u8>, Vec<u8>)> },
}

/// Whether a string parses as an absolute URL.
pub uninterp spec fn url_parses(s: Seq<u8>) -> bool;

/// Relies on `reqwest::Url::parse`: whether a string parses as an absolute
/// URL depends on the string alone.
#[verifier::external_body]
fn url_is_absolute(target: &Vec<u8>) -> (r: bool)
    ensures
        r == url_parses(target@),
{
    match std::str::from_utf8(target.as_slice()) {
        Ok(s) => reqwest::Url::parse(s).is_ok(),
        Err(_) => false,
    }
}

/// Classify one inbound request against the policy. The host rule runs first, so
/// a denied host never reaches the tunnel or the forward path; a `CONNECT`
/// with a sound target becomes a tunnel; any other method is forwarded with
/// rewritten headers when its URI parses as an absolute URL.
pub fn classify_request(
    policy: &Policy,
    is_connect: bool,
    target_uri: &Vec<u8>,
    host: &Vec<u8>,
    host_decodes: bool,
    client_ip: &Vec<u8>,
    headers: &Vec<(Vec<u8>, Vec<u8>)>,
) -> (a: RequestAction)
    ensures
        ({
            let allowed = host_allowed_spec(views_of(policy.forbidden_hosts@), host@, host_decodes);
            &&& !allowed ==> (a matches RequestAction::Respond { response } && plain_response(
                response,
                403,
                forbidden_host_msg(host@),
            ))
            &&& allowed && is_connect && is_connect_target(target_uri@) ==> (
            a matches RequestAction::OpenTunnel { target } && target@ == target_uri@)
            &&& allowed && is_connect && !is_connect_target(target_uri@) ==> (
            a matches RequestAction::Respond { response } && plain_response(
                response,
                400,
                connect_bad_msg(),
            ))
            &&& allowed && !is_connect && url_parses(target_uri@) ==> (
            a matches RequestAction::Forward { headers: sent } && rewritten_headers_ok(
                header_views(headers@),
                client_ip@,
                host@,
                header_views(sent@),
            ))
            &&& allowed && !is_connect && !url_parses(target_uri@) ==> (
            a matches RequestAction::Respond { response } && plain_response(
                response,
                400,
                Seq::<u8>::empty(),
            ))
        }),
{
    if !policy.host_allowed(host, host_decodes) {
        let response = HttpResponse {
            status: 403,
            content_type: None,
            body: forbidden_host_message(host),
        };
        return RequestAction::Respond { response };
    }
    if is_connect {
        if connect_target_ok(target_uri) {
            let target = crate::text::copy_range(target_uri, 0, target_uri.len());
            proof {
                assert(target@ =~= target_uri@);
            }
            RequestAction::OpenTunnel { target }
        } else {
            let response = HttpResponse {
                status: 400,
                content_type: None,
                body: connect_bad_message(),
            };
            RequestAction::Respond { response }
        }
    } else {
        if url_is_absolute(target_uri) {
            let sent = rewrite_headers(headers, client_ip, host);
            RequestAction::Forward { headers: sent }
        } else {
            let response = HttpResponse { status: 400, content_type: None, body: Vec::new() };
            proof {
                assert(response.body@ =~= Seq::<u8>::empty());
            }
            RequestAction::Respond { response }
        }
    }
}

/// What reaches the dispatcher back from one attempted upstream call.
pub enum UpstreamEvent {
    /// The transport failed; `message` is the error's text.
    TransportError { message: Vec<u8> },
    /// The upstream answered with this status and body.
    Response { status: u16, body: Vec<u8> },
}

/// Whether bytes parse as a JSON document.
pub uninterp spec fn json_parses(s: Seq<u8>) -> bool;

/// The reserialization of the JSON document the bytes parse to; meaningful
/// only where `json_parses` holds.
pub uninterp spec fn json_canon(s: Seq<u8>) -> Seq<u8>;

/// The text of the parse error the bytes provoke; meaningful only where
/// `json_parses` does not hold.
pub uninterp spec fn json_err_text(s: Seq<u8>) -> Seq<u8>;

/// Relies on `serde_json::from_slice` for `serde_json::Value` and on
/// `serde_json::to_string`: both are functions of the bytes alone, so the
/// reserialized text is named `json_canon` and the parse error's text
/// `json_err_text`. The unwrap is safe: `to_string` fails only on maps with
/// non-string keys, and a `Value`'s maps carry `String` keys.
#[verifier::external_body]
fn reserialize_json(body: &Vec<u8>) -> (r: Result<Vec<u8>, Vec<u8>>)
    ensures
        r is Ok <==> json_parses(body@),
        r matches Ok(t) ==> t@ == json_canon(body@),
        r matches Err(e) ==> e@ == json_err_text(body@),
{
    match serde_json::from_slice::<serde_json::Value>(body.as_slice()) {
        Ok(v) => Ok(serde_json::to_string(&v).unwrap().into_bytes()),
        Err(e) => Err(e.to_string().into_bytes()),
    }
}

/// The response for a reserialized 200 JSON body `text`: rejected with the
/// fixed message when a banned word occurs in `text`, and otherwise passed
/// through verbatim as `application/json`.
pub open spec fn screened_ok(
    bws: Seq<Seq<u8>>,
    uri: Seq<u8>,
    text: Seq<u8>,
    r: HttpResponse,
) -> bool {
    &&& screen_rejects(bws, text) ==> plain_response(r, 400, not_allowed_msg(uri))
    &&& !screen_rejects(bws, text) ==> r.status == 200 && r.body@ == text && r.content_type
        is Some && r.content_type.unwrap()@ == "application/json".spec_bytes()
}

/// Screen the reserialized text of an upstream 200 JSON body and build the
/// response: the banned-word rule looks at the text alone, never at the
/// upstream `Content-Type`.
pub fn screen_ok_body(policy: &Policy, target_uri: &Vec<u8>, text: Vec<u8>) -> (r: HttpResponse)
    ensures
        screened_ok(views_of(policy.banned_words@), target_uri@, text@, r),
{
    if policy.response_allowed(&text) {
        HttpResponse {
            status: 200,
            content_type: Some("application/json".as_bytes_vec()),
            body: text,
        }
    } else {
        HttpResponse {
            status: 400,
            content_type: None,
            body: not_allowed_message(target_uri),
        }
    }
}

/// Build the client's response from the upstream outcome of a forward: a
/// transport failure becomes a 500 carrying the error text; a status other
/// than 200 is passed through with the diagnostic naming the upstream URI; a
/// 200 body is parsed as JSON (a parse failure becomes a 400 carrying the
/// parser's text) and its reserialized text is screened.
pub fn upstream_reply(policy: &Policy, target_uri: &Vec<u8>, event: UpstreamEvent) -> (r:
    HttpResponse)
    requires
        event matches UpstreamEvent::Response { status, .. } ==> 100 <= status < 1000,
    ensures
        match event {
            UpstreamEvent::TransportError { message } => plain_response(r, 500, message@),
            UpstreamEvent::Response { status, body } => {
                &&& status != 200 ==> plain_response(
                    r,
                    status,
                    upstream_err_msg(status_display_of(status), target_uri@),
                )
                &&& status == 200 && !json_parses(body@) ==> plain_response(
                    r,
                    400,
                    json_err_text(body@),
                )
                &&& status == 200 && json_parses(body@) ==> screened_ok(
                    views_of(policy.banned_words@),
                    target_uri@,
                    json_canon(body@),
                    r,
                )
            },
        },
        r.status == 200 ==> r.content_type is Some && r.content_type.unwrap()@
            == "application/json".spec_bytes(),
{
    match event {
        UpstreamEvent::TransportError { message } => HttpResponse {
            status: 500,
            content_type: None,
            body: message,
        },
        UpstreamEvent::Response { status, body } => {
            if status != 200 {
                let msg = upstream_err_message(status, target_uri);
                HttpResponse { status, content_type: None, body: msg }
            } else {
                match reserialize_json(&body) {
                    Result::Err(e) => HttpResponse { status: 400, content_type: None, body: e },
                    Result::Ok(text) => screen_ok_body(policy, target_uri, text),
                }
            }
        },
    }
}

} // verus!
