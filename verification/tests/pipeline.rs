//! End-to-end scenarios for the request pipeline: classification, the host
//! rule, the forward path with screening, and the tunnel decisions.
use filterproxy::dispatch::{
    classify_request, screen_ok_body, upstream_reply, HttpResponse, RequestAction, UpstreamEvent,
};
use filterproxy::policy::Policy;

fn empty_policy() -> Policy {
    Policy::from_texts(&Vec::new(), &Vec::new())
}

fn no_headers() -> Vec<(Vec<u8>, Vec<u8>)> {
    Vec::new()
}

#[test]
fn allowed_forward_returns_upstream_json() {
    let policy = empty_policy();
    let uri = b"http://upstream/json".to_vec();
    let action = classify_request(
        &policy,
        false,
        &uri,
        &b"upstream".to_vec(),
        true,
        &b"127.0.0.1".to_vec(),
        &no_headers(),
    );
    let sent = match action {
        RequestAction::Forward { headers } => headers,
        _ => panic!("expected a forward"),
    };
    assert_eq!(
        sent,
        vec![
            (b"x-forwarded-for".to_vec(), b"127.0.0.1".to_vec()),
            (b"x-forwarded-host".to_vec(), b"upstream".to_vec()),
        ]
    );
    let reply = upstream_reply(
        &policy,
        &uri,
        UpstreamEvent::Response { status: 200, body: b"{\"ok\":true}".to_vec() },
    );
    assert_eq!(reply.status, 200);
    assert_eq!(reply.content_type, Some(b"application/json".to_vec()));
    assert_eq!(reply.body, b"{\"ok\":true}".to_vec());
}

#[test]
fn denied_host_is_answered_403_before_any_forward() {
    let policy = Policy::from_texts(&b"blocked.example".to_vec(), &Vec::new());
    let action = classify_request(
        &policy,
        false,
        &b"http://blocked.example/".to_vec(),
        &b"blocked.example".to_vec(),
        true,
        &b"127.0.0.1".to_vec(),
        &no_headers(),
    );
    match action {
        RequestAction::Respond { response } => {
            assert_eq!(response.status, 403);
            assert_eq!(response.body, b"Forbidden host \"blocked.example\"".to_vec());
            assert_eq!(response.content_type, None);
        }
        _ => panic!("a denied host must not reach the tunnel or the forward path"),
    }
}

#[test]
fn denied_host_with_port_and_substring_entry() {
    // The entry matches when it equals the host part or contains it.
    let policy = Policy::from_texts(&b"evil.example.com".to_vec(), &Vec::new());
    let action = classify_request(
        &policy,
        false,
        &b"http://example/".to_vec(),
        &b"example:8080".to_vec(),
        true,
        &b"127.0.0.1".to_vec(),
        &no_headers(),
    );
    match action {
        RequestAction::Respond { response } => assert_eq!(response.status, 403),
        _ => panic!("expected a denial: the entry contains the host part"),
    }
}

#[test]
fn undecodable_host_header_is_allowed() {
    let policy = Policy::from_texts(&b"blocked.example".to_vec(), &Vec::new());
    assert!(policy.host_allowed(&b"blocked.example".to_vec(), false));
}

#[test]
fn banned_content_is_rejected_400() {
    let policy = Policy::from_texts(&Vec::new(), &b"secret".to_vec());
    let reply = upstream_reply(
        &policy,
        &b"http://upstream/".to_vec(),
        UpstreamEvent::Response {
            status: 200,
            body: b"{\"data\":\"has secret inside\"}".to_vec(),
        },
    );
    assert_eq!(reply.status, 400);
    assert_eq!(reply.body, b"Content from http://upstream/ not allowed".to_vec());
    assert_eq!(reply.content_type, None);
}

#[test]
fn upstream_error_status_is_passed_through() {
    let policy = empty_policy();
    let reply = upstream_reply(
        &policy,
        &b"http://upstream/".to_vec(),
        UpstreamEvent::Response { status: 503, body: Vec::new() },
    );
    assert_eq!(reply.status, 503);
    assert_eq!(
        reply.body,
        b"Error! Got response code 503 Service Unavailable from http://upstream/".to_vec()
    );
}

#[test]
fn transport_failure_becomes_500_with_error_text() {
    let policy = empty_policy();
    let reply = upstream_reply(
        &policy,
        &b"http://upstream/".to_vec(),
        UpstreamEvent::TransportError { message: b"connection refused".to_vec() },
    );
    assert_eq!(reply.status, 500);
    assert_eq!(reply.body, b"connection refused".to_vec());
}

#[test]
fn unparseable_json_body_becomes_400_with_the_parser_text() {
    let policy = empty_policy();
    let reply = upstream_reply(
        &policy,
        &b"http://upstream/".to_vec(),
        UpstreamEvent::Response { status: 200, body: b"not json".to_vec() },
    );
    assert_eq!(reply.status, 400);
    assert_eq!(reply.content_type, None);
    let expected = serde_json::from_slice::<serde_json::Value>(b"not json")
        .unwrap_err()
        .to_string()
        .into_bytes();
    assert_eq!(reply.body, expected);
}

#[test]
fn forward_body_is_the_reserialization_not_the_raw_upstream_bytes() {
    let policy = empty_policy();
    let reply = upstream_reply(
        &policy,
        &b"http://upstream/".to_vec(),
        UpstreamEvent::Response { status: 200, body: b"{ \"ok\" :  true }".to_vec() },
    );
    assert_eq!(reply.status, 200);
    assert_eq!(reply.body, b"{\"ok\":true}".to_vec());
}

#[test]
fn json_round_trip_preserves_value_equality() {
    let policy = empty_policy();
    let original = b"{\"b\":[1,2,{\"c\":null}],\"a\":\"x\\\"y\"}".to_vec();
    let reply = upstream_reply(
        &policy,
        &b"http://upstream/deep".to_vec(),
        UpstreamEvent::Response { status: 200, body: original.clone() },
    );
    assert_eq!(reply.status, 200);
    let before: serde_json::Value = serde_json::from_slice(&original).unwrap();
    let after: serde_json::Value = serde_json::from_slice(&reply.body).unwrap();
    assert_eq!(before, after);
}

#[test]
fn connect_with_socket_address_opens_tunnel() {
    let policy = empty_policy();
    let action = classify_request(
        &policy,
        true,
        &b"example.com:443".to_vec(),
        &b"example.com:443".to_vec(),
        true,
        &b"127.0.0.1".to_vec(),
        &no_headers(),
    );
    match action {
        RequestAction::OpenTunnel { target } => assert_eq!(target, b"example.com:443".to_vec()),
        _ => panic!("expected a tunnel"),
    }
}

#[test]
fn connect_without_socket_address_is_400() {
    let policy = empty_policy();
    let action = classify_request(
        &policy,
        true,
        &b"/path".to_vec(),
        &b"example.com".to_vec(),
        true,
        &b"127.0.0.1".to_vec(),
        &no_headers(),
    );
    match action {
        RequestAction::Respond { response } => {
            assert_eq!(response.status, 400);
            assert_eq!(response.body, b"CONNECT must be to a socket address".to_vec());
        }
        _ => panic!("expected a 400"),
    }
}

#[test]
fn forward_with_unparseable_uri_is_400_with_empty_body() {
    let policy = empty_policy();
    let action = classify_request(
        &policy,
        false,
        &b"/origin-form".to_vec(),
        &b"example.com".to_vec(),
        true,
        &b"127.0.0.1".to_vec(),
        &no_headers(),
    );
    match action {
        RequestAction::Respond { response } => {
            assert_eq!(response.status, 400);
            assert!(response.body.is_empty());
            assert_eq!(response.content_type, None);
        }
        _ => panic!("expected a 400"),
    }
}

#[test]
fn banned_word_rejection_ignores_content_type() {
    // The screen sees only the reserialized text; there is no content type to
    // consult at all.
    let policy = Policy::from_texts(&Vec::new(), &b"secret".to_vec());
    let r: HttpResponse =
        screen_ok_body(&policy, &b"http://u/".to_vec(), b"{\"x\":\"secret\"}".to_vec());
    assert_eq!(r.status, 400);
    assert_eq!(r.body, b"Content from http://u/ not allowed".to_vec());
}
