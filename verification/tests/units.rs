//! Unit tests of the byte utilities, the policy store, the header rewrite,
//! and the log line builders.
use filterproxy::connect::connect_target_ok;
use filterproxy::context::RequestContext;
use filterproxy::headers::rewrite_headers;
use filterproxy::logging::{entry_line, separator_line, success_line, terminal_line, tunnel_line};
use filterproxy::messages::forbidden_host_message;
use filterproxy::policy::Policy;
use filterproxy::text::{contains_bytes, u64_decimal};

#[test]
fn policy_entries_are_the_nonempty_lines() {
    let p = Policy::from_texts(&b"a\r\nb\n\nc\n".to_vec(), &b"\n\nsecret".to_vec());
    assert_eq!(p.forbidden_hosts, vec![b"a".to_vec(), b"b".to_vec(), b"c".to_vec()]);
    assert_eq!(p.banned_words, vec![b"secret".to_vec()]);
}

#[test]
fn host_rule_matches_on_equality_and_containment() {
    let p = Policy::from_texts(&b"blocked.example".to_vec(), &Vec::new());
    assert!(!p.host_allowed(&b"blocked.example".to_vec(), true));
    assert!(!p.host_allowed(&b"blocked.example:8080".to_vec(), true));
    // The entry contains this host part.
    assert!(!p.host_allowed(&b"example".to_vec(), true));
    // The host contains the entry, which does not match.
    assert!(p.host_allowed(&b"sub.blocked.example.org".to_vec(), true));
    assert!(p.host_allowed(&b"other.example".to_vec(), true));
}

#[test]
fn screen_allows_only_texts_without_banned_words() {
    let p = Policy::from_texts(&Vec::new(), &b"secret\ntoken".to_vec());
    assert!(p.response_allowed(&b"{\"ok\":true}".to_vec()));
    assert!(!p.response_allowed(&b"{\"a\":\"token\"}".to_vec()));
}

#[test]
fn substring_search_finds_inner_and_edge_matches() {
    assert!(contains_bytes(&b"abcd".to_vec(), &b"bc".to_vec()));
    assert!(contains_bytes(&b"abcd".to_vec(), &b"abcd".to_vec()));
    assert!(contains_bytes(&b"abcd".to_vec(), &b"".to_vec()));
    assert!(!contains_bytes(&b"abcd".to_vec(), &b"ac".to_vec()));
    assert!(!contains_bytes(&b"ab".to_vec(), &b"abc".to_vec()));
}

#[test]
fn decimal_rendering_is_exact() {
    assert_eq!(u64_decimal(0), b"0".to_vec());
    assert_eq!(u64_decimal(7), b"7".to_vec());
    assert_eq!(u64_decimal(1234), b"1234".to_vec());
    assert_eq!(u64_decimal(u64::MAX), b"18446744073709551615".to_vec());
}

#[test]
fn connect_target_grammar() {
    assert!(connect_target_ok(&b"example.com:443".to_vec()));
    assert!(connect_target_ok(&b"10.0.0.1:80".to_vec()));
    assert!(!connect_target_ok(&b"example.com".to_vec()));
    assert!(!connect_target_ok(&b":443".to_vec()));
    assert!(!connect_target_ok(&b"example.com:".to_vec()));
    assert!(!connect_target_ok(&b"example.com:4a3".to_vec()));
    assert!(!connect_target_ok(&b"example.com/x:443".to_vec()));
    assert!(!connect_target_ok(&b"/path".to_vec()));
}

#[test]
fn header_rewrite_drops_and_sets_the_right_names() {
    let inbound = vec![
        (b"host".to_vec(), b"upstream".to_vec()),
        (b"accept".to_vec(), b"*/*".to_vec()),
        (b"target".to_vec(), b"x".to_vec()),
        (b"x-forwarded-for".to_vec(), b"1.1.1.1".to_vec()),
    ];
    let out = rewrite_headers(&inbound, &b"127.0.0.1".to_vec(), &b"upstream".to_vec());
    assert_eq!(
        out,
        vec![
            (b"accept".to_vec(), b"*/*".to_vec()),
            (b"x-forwarded-for".to_vec(), b"127.0.0.1".to_vec()),
            (b"x-forwarded-host".to_vec(), b"upstream".to_vec()),
        ]
    );
}

#[test]
fn forbidden_host_body_quotes_and_escapes() {
    assert_eq!(
        forbidden_host_message(&b"blocked.example".to_vec()),
        b"Forbidden host \"blocked.example\"".to_vec()
    );
    assert_eq!(forbidden_host_message(&b"a\"b".to_vec()), b"Forbidden host \"a\\\"b\"".to_vec());
    assert_eq!(forbidden_host_message(&vec![10u8]), b"Forbidden host \"\\xa\"".to_vec());
}

#[test]
fn log_lines_are_exact_and_share_the_correlation_id() {
    let cid = b"CID".to_vec();
    let entry = entry_line(&b"1.2.3.4:5".to_vec(), &b"http://u/".to_vec(), &b"TS".to_vec(), &cid);
    assert_eq!(
        entry,
        b"Client: 1.2.3.4:5 ; Request URL: \"http://u/\"; timestamp: TS; correlationId: CID"
            .to_vec()
    );
    let terminal = terminal_line(403, &cid);
    assert_eq!(terminal, b"Code: 403 Forbidden ; correlationId: CID".to_vec());
    assert_eq!(success_line(&cid), b"Code: 200 Ok; correlationId: CID".to_vec());
    assert_eq!(separator_line(), b"-------------------------------".to_vec());
    assert!(contains_bytes(&entry, &cid));
    assert!(contains_bytes(&terminal, &cid));
}

#[test]
fn tunnel_report_carries_both_exact_counts() {
    assert_eq!(
        tunnel_line(5, 70),
        b"client wrote 5 bytes and received 70 bytes".to_vec()
    );
}

#[test]
fn fresh_contexts_draw_distinct_correlation_ids() {
    let a = RequestContext::new(b"c".to_vec(), b"h".to_vec(), b"u".to_vec());
    let b = RequestContext::new(b"c".to_vec(), b"h".to_vec(), b"u".to_vec());
    assert_eq!(a.correlation_id.len(), 36);
    assert_eq!(b.correlation_id.len(), 36);
    assert_ne!(a.correlation_id, b.correlation_id);
    assert!(!a.timestamp.is_empty());
}

#[test]
fn a_trailing_carriage_return_without_a_line_feed_is_kept() {
    let p = Policy::from_texts(&b"a\r".to_vec(), &Vec::new());
    assert_eq!(p.forbidden_hosts, vec![b"a\r".to_vec()]);
}

#[test]
fn a_carriage_return_inside_a_line_is_kept() {
    let p = Policy::from_texts(&b"a\rb\nc".to_vec(), &Vec::new());
    assert_eq!(p.forbidden_hosts, vec![b"a\rb".to_vec(), b"c".to_vec()]);
}
