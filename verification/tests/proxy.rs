use hub_proxy::headers::{
    is_hop_by_hop_str, is_sensitive, outbound_headers, response_headers, strip_sensitive,
    HeaderEntry,
};
use hub_proxy::proxy::{
    hex_val, index_reply, normalize_url, percent_decode, proxy_target, Reply, ReplyBody,
};
use hub_proxy::redirect::{
    after_response, joined_or_kept, send_or_refuse, start_hop, Hop, HopStart, Outcome,
};

fn h(name: &str, value: &str) -> HeaderEntry {
    HeaderEntry::new(name, value.as_bytes())
}

fn names(hs: &[HeaderEntry]) -> Vec<String> {
    hs.iter().map(|e| e.name.clone()).collect()
}

fn text_of(r: &Reply) -> Option<String> {
    match &r.body {
        ReplyBody::Text(t) => Some(t.clone()),
        _ => None,
    }
}

// --- Landing page ------------------------------------------------------------

#[test]
fn homepage_renders() {
    let r = index_reply(None);
    assert_eq!(r.status, 200);
    assert!(r.location.is_none());
    assert!(matches!(r.body, ReplyBody::Homepage));
    assert!(hub_proxy::homepage::HOMEPAGE.contains("Hub-Proxy-Go"));
}

#[test]
fn homepage_q_redirects() {
    let r = index_reply(Some("q=https://github.com/foo/bar"));
    assert_eq!(r.status, 302);
    assert_eq!(r.location.as_deref(), Some("/https://github.com/foo/bar"));
    assert!(matches!(r.body, ReplyBody::Empty));
}

#[test]
fn homepage_q_is_decoded_and_first_nonempty_wins() {
    let r = index_reply(Some("a=1&q=&q=https%3A%2F%2Fgithub.com%2Fx&q=later"));
    assert_eq!(r.status, 302);
    assert_eq!(r.location.as_deref(), Some("/https://github.com/x"));
    let r = index_reply(Some("qq=1&q"));
    assert_eq!(r.status, 200);
    let r = index_reply(Some(""));
    assert_eq!(r.status, 200);
}

// --- Request target ----------------------------------------------------------

#[test]
fn non_matchable_url_forbidden() {
    let r = proxy_target("/https://example.com/foo", None).unwrap_err();
    assert_eq!(r.status, 403);
    assert_eq!(text_of(&r).as_deref(), Some("无效的输入 URL"));
}

#[test]
fn blob_rewritten_to_raw() {
    let target = "https://github.com/user/repo/blob/main/README.md".to_string();
    assert!(hub_proxy::matcher::is_blob(&target));
    let rewritten = proxy_target("/https://github.com/user/repo/blob/main/README.md", None).unwrap();
    assert_eq!(
        rewritten,
        "https://github.com/user/repo/raw/main/README.md"
    );
}

#[test]
fn target_keeps_query_and_fixes_scheme() {
    assert_eq!(
        proxy_target("//https:/github.com/u/r/releases/download/v1/f", Some("x=1")).unwrap(),
        "https://github.com/u/r/releases/download/v1/f?x=1"
    );
    assert_eq!(
        proxy_target("/huggingface.co/gpt2/blob/main/config.json", None).unwrap(),
        "https://huggingface.co/gpt2/raw/main/config.json"
    );
}

#[test]
fn normalize_url_cases() {
    assert_eq!(normalize_url("https:/github.com/a"), "https://github.com/a");
    assert_eq!(normalize_url("http:/github.com/a"), "http://github.com/a");
    assert_eq!(normalize_url("github.com/a"), "https://github.com/a");
    assert_eq!(normalize_url("https://github.com/a"), "https://github.com/a");
    assert_eq!(normalize_url("httpx"), "https://httpx");
    assert_eq!(normalize_url("http"), "https://http");
    assert_eq!(normalize_url("httpbin.org/get"), "https://httpbin.org/get");
    assert_eq!(normalize_url("http:x"), "http:x");
    assert_eq!(normalize_url(""), "https://");
    let once = normalize_url("http:/x");
    assert_eq!(normalize_url(&once), once);
}

#[test]
fn percent_decode_cases() {
    assert_eq!(percent_decode("a%20b+c"), "a b+c");
    assert_eq!(percent_decode("%41%4a%4A"), "AJJ");
    assert_eq!(percent_decode("%4"), "%4");
    assert_eq!(percent_decode("%zz%"), "%zz%");
    assert_eq!(percent_decode("%E4%BD%A0"), "你");
    // Invalid UTF-8 after decoding: the input comes back unchanged.
    assert_eq!(percent_decode("%FF"), "%FF");
    assert_eq!(percent_decode("plain text"), "plain text");
}

#[test]
fn hex_val_cases() {
    assert_eq!(hex_val(b'0'), Some(0));
    assert_eq!(hex_val(b'9'), Some(9));
    assert_eq!(hex_val(b'a'), Some(10));
    assert_eq!(hex_val(b'F'), Some(15));
    assert_eq!(hex_val(b'g'), None);
    assert_eq!(hex_val(b'/'), None);
}

// --- Headers -----------------------------------------------------------------

#[test]
fn hop_by_hop_ignores_case() {
    assert!(is_hop_by_hop_str("Connection"));
    assert!(is_hop_by_hop_str("TRANSFER-ENCODING"));
    assert!(is_hop_by_hop_str("te"));
    assert!(!is_hop_by_hop_str("content-length"));
    assert!(is_sensitive("Set-Cookie"));
    assert!(!is_sensitive("x-trace"));
}

#[test]
fn outbound_headers_drop_host_and_add_agent() {
    let hs = vec![h("host", "me"), h("connection", "close"), h("x-trace", "1")];
    let out = outbound_headers(&hs);
    assert_eq!(names(&out), vec!["x-trace", "User-Agent"]);
    assert_eq!(out[1].value, b"Hub-Proxy-Go/1.0".to_vec());

    let hs = vec![h("user-agent", "curl"), h("accept", "*/*")];
    assert_eq!(names(&outbound_headers(&hs)), vec!["user-agent", "accept"]);

    // The last User-Agent decides; an empty one does not count.
    let hs = vec![h("user-agent", "curl"), h("user-agent", "")];
    assert_eq!(names(&outbound_headers(&hs)), vec!["user-agent", "user-agent", "User-Agent"]);
}

#[test]
fn response_headers_drop_hop_by_hop() {
    let hs = vec![h("content-type", "x"), h("transfer-encoding", "chunked"), h("keep-alive", "1")];
    assert_eq!(names(&response_headers(&hs)), vec!["content-type"]);
}

#[test]
fn strip_sensitive_is_idempotent() {
    let hs = vec![h("authorization", "s"), h("cookie", "c"), h("x-trace", "k"), h("Set-Cookie", "z")];
    let once = strip_sensitive(&hs);
    assert_eq!(names(&once), vec!["x-trace"]);
    assert_eq!(names(&strip_sensitive(&once)), names(&once));
}

// --- Upstream loop -----------------------------------------------------------

fn first_hop(target: &str, headers: Vec<HeaderEntry>) -> Hop {
    Hop::first(target.to_string(), "GET".to_string(), headers)
}

#[test]
fn first_hop_is_sent() {
    let hop = first_hop("https://github.com/u/r/releases/download/v1/f", vec![h("host", "me")]);
    match start_hop(&hop) {
        HopStart::Send { url, headers } => {
            assert_eq!(url, "https://github.com/u/r/releases/download/v1/f");
            assert_eq!(names(&headers), vec!["User-Agent"]);
        }
        HopStart::Refuse(_) => panic!("expected a send"),
    }
}

#[test]
fn sent_url_is_the_parsed_serialization() {
    let hop = first_hop("https://GITHUB.com/u/r/a b", vec![]);
    match start_hop(&hop) {
        HopStart::Send { url, .. } => assert_eq!(url, "https://github.com/u/r/a%20b"),
        HopStart::Refuse(_) => panic!("expected a send"),
    }
}

#[test]
fn bad_target_is_400() {
    let hop = first_hop("https://", vec![]);
    match start_hop(&hop) {
        HopStart::Refuse(r) => {
            assert_eq!(r.status, 400);
            assert!(text_of(&r).unwrap().starts_with("无效的 URL: "));
        }
        HopStart::Send { .. } => panic!("expected a refusal"),
    }
    match send_or_refuse(Err("empty host".to_string()), Some("bad".to_string()), &vec![]) {
        HopStart::Refuse(r) => assert_eq!(text_of(&r).as_deref(), Some("无效的 URL: empty host")),
        HopStart::Send { .. } => panic!("expected a refusal"),
    }
}

#[test]
fn redirect_loop_returns_502() {
    let mut hop = first_hop("http://127.0.0.1:1/loop", vec![]);
    let mut sent = 0;
    loop {
        match start_hop(&hop) {
            HopStart::Refuse(r) => {
                assert_eq!(r.status, 502);
                assert_eq!(text_of(&r).as_deref(), Some("重定向次数过多"));
                break;
            }
            HopStart::Send { .. } => sent += 1,
        }
        match after_response(&hop, 302, &None, &Some(b"/loop".to_vec()), 1_000_000_000) {
            Outcome::Follow(next) => {
                assert_eq!(next.target, "http://127.0.0.1:1/loop");
                hop = next;
            }
            _ => panic!("expected a follow"),
        }
    }
    assert_eq!(sent, 6);
}

#[test]
fn size_limit_triggers_302() {
    let hop = first_hop("http://127.0.0.1:1/big", vec![]);
    match after_response(&hop, 200, &Some(b"1024".to_vec()), &None, 10) {
        Outcome::Reply(r) => {
            assert_eq!(r.status, 302);
            assert_eq!(r.location.as_deref(), Some("http://127.0.0.1:1/big"));
        }
        _ => panic!("expected a reply"),
    }
    assert!(matches!(
        after_response(&hop, 200, &Some(b"10".to_vec()), &None, 10),
        Outcome::Forward
    ));
    assert!(matches!(
        after_response(&hop, 200, &Some(b"1e9".to_vec()), &None, 10),
        Outcome::Forward
    ));
}

#[test]
fn sensitive_headers_stripped_on_cross_redirect() {
    let hop = first_hop(
        "http://127.0.0.1:1/start",
        vec![h("Authorization", "secret"), h("Cookie", "sessid=abc"), h("X-Trace", "keep-me")],
    );
    match after_response(&hop, 302, &None, &Some(b"http://127.0.0.1:1/final".to_vec()), 1 << 30) {
        Outcome::Follow(next) => {
            assert_eq!(next.target, "http://127.0.0.1:1/final");
            assert_eq!(next.method, "GET");
            assert!(!next.client_body);
            assert_eq!(next.depth, 1);
            assert_eq!(names(&next.headers), vec!["X-Trace"]);
            assert_eq!(next.headers[0].value, b"keep-me".to_vec());
        }
        _ => panic!("expected a follow"),
    }
}

#[test]
fn proxiable_redirect_bounces_to_client() {
    let hop = first_hop("https://github.com/u/r/releases/download/v1/f", vec![]);
    let loc = b"https://github.com/u/r/releases/download/v2/f".to_vec();
    match after_response(&hop, 301, &None, &Some(loc), 1 << 30) {
        Outcome::Reply(r) => {
            assert_eq!(r.status, 301);
            assert_eq!(
                r.location.as_deref(),
                Some("/https://github.com/u/r/releases/download/v2/f")
            );
            // The client comes back with that path and is accepted.
            assert!(proxy_target(r.location.as_deref().unwrap(), None).is_ok());
        }
        _ => panic!("expected a reply"),
    }
    // A relative Location is joined to the current target first.
    match after_response(&hop, 302, &None, &Some(b"../v3/f".to_vec()), 1 << 30) {
        Outcome::Reply(r) => assert_eq!(
            r.location.as_deref(),
            Some("/https://github.com/u/r/releases/download/v3/f")
        ),
        _ => panic!("expected a reply"),
    }
}

#[test]
fn non_redirect_or_unreadable_location_is_forwarded() {
    let hop = first_hop("https://github.com/u/r", vec![]);
    assert!(matches!(after_response(&hop, 200, &None, &Some(b"/x".to_vec()), 10), Outcome::Forward));
    assert!(matches!(after_response(&hop, 302, &None, &None, 10), Outcome::Forward));
    assert!(matches!(
        after_response(&hop, 302, &None, &Some(vec![0xff]), 10),
        Outcome::Forward
    ));
}

#[test]
fn joined_or_kept_cases() {
    let loc: Vec<char> = "/a".chars().collect();
    assert_eq!(joined_or_kept(Some("https://h/a".to_string()), &loc), "https://h/a");
    assert_eq!(joined_or_kept(None, &loc), "/a");
}

#[test]
fn bad_method_is_400() {
    let hop = Hop::first("https://github.com/u/r".to_string(), "GE T".to_string(), vec![]);
    match start_hop(&hop) {
        HopStart::Refuse(r) => {
            assert_eq!(r.status, 400);
            assert_eq!(text_of(&r).as_deref(), Some("无效的方法: invalid HTTP method"));
        }
        HopStart::Send { .. } => panic!("expected a refusal"),
    }
    match send_or_refuse(Ok("https://x/".to_string()), Some("m".to_string()), &vec![]) {
        HopStart::Refuse(r) => assert_eq!(text_of(&r).as_deref(), Some("无效的方法: m")),
        HopStart::Send { .. } => panic!("expected a refusal"),
    }
    assert!(matches!(
        send_or_refuse(Ok("https://x/".to_string()), None, &vec![]),
        HopStart::Send { .. }
    ));
}

#[test]
fn github_raw_url_is_not_rewritten() {
    assert_eq!(
        proxy_target("/https://github.com/u/r/raw/main/blob/x", None).unwrap(),
        "https://github.com/u/r/raw/main/blob/x"
    );
}

#[test]
fn percent_round_trip_and_length() {
    for s in ["a b", "你好/x?y=1", "%", ""] {
        let upper: String = s.bytes().map(|b| format!("%{:02X}", b)).collect();
        let lower: String = s.bytes().map(|b| format!("%{:02x}", b)).collect();
        assert_eq!(percent_decode(&upper), s);
        assert_eq!(percent_decode(&lower), s);
        assert!(percent_decode(s).len() <= s.len());
    }
}

#[test]
fn location_starting_with_http_is_kept_as_it_is() {
    let hop = first_hop("https://github.com/u/r/releases/download/v1/f", vec![]);
    match after_response(&hop, 302, &None, &Some(b"httpfile".to_vec()), 1 << 30) {
        Outcome::Follow(next) => {
            assert_eq!(next.target, "httpfile");
            // The next pass then refuses the target as no URL.
            match start_hop(&next) {
                HopStart::Refuse(r) => assert_eq!(r.status, 400),
                HopStart::Send { .. } => panic!("expected a refusal"),
            }
        }
        _ => panic!("expected a follow"),
    }
}
