//! The upstream loop of the proxy as a state machine: before each upstream
//! request `start_hop` decides whether to send and what; after each upstream
//! reply `after_response` decides whether to answer the client, follow a
//! redirect here, or stream the reply back.

use vstd::prelude::*;
use crate::headers::{
    headers_view, outbound_headers, outbound_spec, strip_sensitive, strip_sensitive_spec,
    HeaderEntry,
};
use crate::matcher::{match_url, match_url_spec};
use crate::proxy::{BodyView, Reply, ReplyBody, ReplyView, proxy_target_spec};
use crate::text::{chars_of, concat, parse_u64, parse_u64_spec, starts_with, starts_with_seq, string_of};

verus! {

/// Upstream redirects followed here before giving up.
pub const MAX_REDIRECT_DEPTH: u32 = 5;

/// Reply body when the redirect chain is too long.
pub const TOO_MANY_REDIRECTS_TEXT: &'static str = "重定向次数过多";

/// Reply body prefix when the upstream URL does not parse.
pub const BAD_URL_PREFIX: &'static str = "无效的 URL: ";

/// What `url::Url::parse` yields for `text`: the URL's serialization, or the
/// error's message.
pub uninterp spec fn url_parse(text: Seq<char>) -> Result<Seq<char>, Seq<char>>;

/// Calls `url::Url::parse`; `Ok` carries the parsed URL's serialization and
/// `Err` the error's `Display` text. The result is named `url_parse` of the
/// text and nothing more is claimed.
#[verifier::external_body]
fn parse_url(text: &str) -> (r: Result<String, String>)
    ensures
        match r {
            Ok(u) => url_parse(text@) == Ok::<Seq<char>, Seq<char>>(u@),
            Err(e) => url_parse(text@) == Err::<Seq<char>, Seq<char>>(e@),
        },
{
    match url::Url::parse(text) {
        Ok(u) => Ok(u.to_string()),
        Err(e) => Err(e.to_string()),
    }
}

/// Reply body prefix when the request method is not a valid HTTP method.
pub const BAD_METHOD_PREFIX: &'static str = "无效的方法: ";

/// What `reqwest::Method::from_bytes` makes of a method name: `None` when it
/// accepts it, else the error's message.
pub uninterp spec fn method_error(method: Seq<char>) -> Option<Seq<char>>;

/// Calls `reqwest::Method::from_bytes` on the method name's bytes: `None` when
/// it is accepted, else the error's `Display` text. The result is named
/// `method_error` of the name and nothing more is claimed.
#[verifier::external_body]
fn check_method(method: &str) -> (r: Option<String>)
    ensures
        r.deep_view() == method_error(method@),
{
    match reqwest::Method::from_bytes(method.as_bytes()) {
        Ok(_) => None,
        Err(e) => Some(e.to_string()),
    }
}

/// What `url::Url::parse(base)` followed by `Url::join(reference)` yields: the
/// joined URL's serialization, or `None` when either step fails.
pub uninterp spec fn url_join(base: Seq<char>, reference: Seq<char>) -> Option<Seq<char>>;

/// Resolves `reference` against `base` with `url::Url::join` (after parsing
/// `base` with `url::Url::parse`). The result is named `url_join` of the two
/// strings and nothing more is claimed.
#[verifier::external_body]
fn join_url(base: &str, reference: &str) -> (r: Option<String>)
    ensures
        r.deep_view() == url_join(base@, reference@),
{
    let b = match url::Url::parse(base) {
        Ok(b) => b,
        Err(_) => return None,
    };
    match b.join(reference) {
        Ok(u) => Some(u.to_string()),
        Err(_) => None,
    }
}

/// One pass of the upstream loop: where to go, with which method and header
/// lines, how many redirects were followed to get here, and whether the
/// client's request body is still to be sent.
#[derive(Debug)]
pub struct Hop {
    pub target: String,
    pub method: String,
    pub headers: Vec<HeaderEntry>,
    pub depth: u32,
    pub client_body: bool,
}

impl Hop {
    /// The first pass for a client request.
    pub fn first(target: String, method: String, headers: Vec<HeaderEntry>) -> (r: Hop)
        ensures
            r.target@ == target@,
            r.method@ == method@,
            headers_view(r.headers@) == headers_view(headers@),
            r.depth == 0,
            r.client_body,
    {
        Hop { target, method, headers, depth: 0, client_body: true }
    }
}

/// What to do before contacting upstream.
#[derive(Debug)]
pub enum HopStart {
    /// Answer the client without contacting upstream.
    Refuse(Reply),
    /// Send the request to `url` with these header lines.
    Send { url: String, headers: Vec<HeaderEntry> },
}

/// Whether a pass at this depth is refused for following too many redirects.
pub open spec fn too_deep(depth: u32) -> bool {
    depth > MAX_REDIRECT_DEPTH
}

/// What a pass that is not too deep starts with, given what the target and
/// method parse to: `400` with the URL error, else `400` with the method
/// error, else the request to `url` with the outbound header lines.
pub open spec fn start_spec(
    parsed: Result<Seq<char>, Seq<char>>,
    method_problem: Option<Seq<char>>,
    headers: Seq<HeaderEntry>,
    r: HopStart,
) -> bool {
    match parsed {
        Ok(u) => match method_problem {
            None => r matches HopStart::Send { url, headers: sent } && url@ == u
                && headers_view(sent@) == outbound_spec(headers_view(headers)),
            Some(e) => r matches HopStart::Refuse(rep) && rep@ == (ReplyView {
                status: 400,
                location: None,
                body: BodyView::Text(BAD_METHOD_PREFIX@ + e),
            }),
        },
        Err(e) => r matches HopStart::Refuse(rep) && rep@ == (ReplyView {
            status: 400,
            location: None,
            body: BodyView::Text(BAD_URL_PREFIX@ + e),
        }),
    }
}

/// Decides a pass before contacting upstream: `502` once more than
/// `MAX_REDIRECT_DEPTH` redirects were followed, `400` when the target is not
/// a URL or the method is not an HTTP method, else the request to send, with
/// the client's header lines less `Host` and hop-by-hop ones and with a
/// default `User-Agent` when it has none.
pub fn start_hop(hop: &Hop) -> (r: HopStart)
    ensures
        too_deep(hop.depth) ==> (r matches HopStart::Refuse(rep) && rep@ == (ReplyView {
            status: 502,
            location: None,
            body: BodyView::Text(TOO_MANY_REDIRECTS_TEXT@),
        })),
        !too_deep(hop.depth) ==> start_spec(
            url_parse(hop.target@),
            method_error(hop.method@),
            hop.headers@,
            r,
        ),
{
    if hop.depth > MAX_REDIRECT_DEPTH {
        return HopStart::Refuse(
            Reply {
                status: 502,
                location: None,
                body: ReplyBody::Text(TOO_MANY_REDIRECTS_TEXT.to_owned()),
            },
        );
    }
    let parsed = parse_url(hop.target.as_str());
    let method_problem = check_method(hop.method.as_str());
    send_or_refuse(parsed, method_problem, &hop.headers)
}

/// The request to send once the target parsed as `Ok(url)` and the method was
/// accepted (`method_problem` is `None`), or the `400` reply with the URL's,
/// then the method's, error message.
pub fn send_or_refuse(
    parsed: Result<String, String>,
    method_problem: Option<String>,
    headers: &Vec<HeaderEntry>,
) -> (r: HopStart)
    ensures
        start_spec(
            match parsed {
                Ok(u) => Ok::<Seq<char>, Seq<char>>(u@),
                Err(e) => Err::<Seq<char>, Seq<char>>(e@),
            },
            method_problem.deep_view(),
            headers@,
            r,
        ),
{
    match parsed {
        Ok(url) => match method_problem {
            None => HopStart::Send { url, headers: outbound_headers(headers) },
            Some(e) => {
                let text = concat(&chars_of(BAD_METHOD_PREFIX), &chars_of(e.as_str()));
                HopStart::Refuse(
                    Reply { status: 400, location: None, body: ReplyBody::Text(string_of(&text)) },
                )
            },
        },
        Err(e) => {
            let text = concat(&chars_of(BAD_URL_PREFIX), &chars_of(e.as_str()));
            HopStart::Refuse(
                Reply { status: 400, location: None, body: ReplyBody::Text(string_of(&text)) },
            )
        },
    }
}

/// What to do with an upstream reply.
#[derive(Debug)]
pub enum Outcome {
    /// Answer the client with this reply and drop the upstream one.
    Reply(Reply),
    /// Drop the upstream reply and make this next pass.
    Follow(Hop),
    /// Stream the upstream reply back to the client.
    Forward,
}

/// A header value byte that `HeaderValue::to_str` accepts: visible ASCII or tab.
pub open spec fn is_visible_ascii(b: u8) -> bool {
    (32 <= b && b < 127) || b == 9
}

/// A header value as text, as `HeaderValue::to_str` gives it: `None` unless
/// every byte is visible ASCII or tab.
pub open spec fn header_text(v: Seq<u8>) -> Option<Seq<char>> {
    if forall|i: int| 0 <= i < v.len() ==> is_visible_ascii(#[trigger] v[i]) {
        Some(v.map_values(|b: u8| b as char))
    } else {
        None
    }
}

/// An optional header value as bytes.
pub open spec fn bytes_of(v: Option<Vec<u8>>) -> Option<Seq<u8>> {
    match v {
        Some(b) => Some(b@),
        None => None,
    }
}

/// The upstream reply advertises a `Content-Length` above the size limit.
pub open spec fn exceeds_limit(content_length: Option<Seq<u8>>, limit: u64) -> bool {
    match content_length {
        Some(v) => match header_text(v) {
            Some(t) => match parse_u64_spec(t) {
                Some(n) => n > limit,
                None => false,
            },
            None => false,
        },
        None => false,
    }
}

/// The `Location` of a `3xx` upstream reply, when it is readable text.
pub open spec fn redirect_location(status: u16, location: Option<Seq<u8>>) -> Option<Seq<char>> {
    if 300 <= status && status < 400 {
        match location {
            Some(v) => header_text(v),
            None => None,
        }
    } else {
        None
    }
}

/// A `Location` resolved against the current target: kept as it is when it
/// starts with `http`, else joined to the target, else kept when joining
/// fails.
pub open spec fn resolve_location(target: Seq<char>, location: Seq<char>) -> Seq<char> {
    if starts_with_seq(location, "http"@) {
        location
    } else {
        match url_join(target, location) {
            Some(u) => u,
            None => location,
        }
    }
}

/// A relative `Location` once joined to the target: the joined URL, or the
/// `Location` as it was when joining failed.
pub fn joined_or_kept(joined: Option<String>, location: &Vec<char>) -> (r: String)
    ensures
        r@ == match joined {
            Some(u) => u@,
            None => location@,
        },
{
    match joined {
        Some(u) => u,
        None => string_of(location),
    }
}

/// A header value as text, as `HeaderValue::to_str` gives it.
fn header_text_exec(v: &Vec<u8>) -> (r: Option<Vec<char>>)
    ensures
        match r {
            Some(t) => header_text(v@) == Some(t@),
            None => header_text(v@) is None,
        },
{
    let mut out: Vec<char> = Vec::new();
    let mut i: usize = 0;
    while i < v.len()
        invariant
            i <= v.len(),
            forall|j: int| 0 <= j < i ==> is_visible_ascii(#[trigger] v@[j]),
            out@ == v@.take(i as int).map_values(|b: u8| b as char),
        decreases v.len() - i,
    {
        let b = v[i];
        if !((32 <= b && b < 127) || b == 9) {
            assert(!is_visible_ascii(v@[i as int]));
            return None;
        }
        out.push(b as char);
        assert(out@ =~= v@.take(i + 1).map_values(|b: u8| b as char));
        i = i + 1;
    }
    assert(v@.take(i as int) =~= v@);
    Some(out)
}

/// Whether the advertised `Content-Length` is above the limit.
fn exceeds_limit_exec(content_length: &Option<Vec<u8>>, limit: u64) -> (r: bool)
    ensures
        r == exceeds_limit(bytes_of(*content_length), limit),
{
    match content_length {
        Some(v) => match header_text_exec(v) {
            Some(t) => match parse_u64(&t) {
                Some(n) => n > limit,
                None => false,
            },
            None => false,
        },
        None => false,
    }
}

/// Decides what an upstream reply leads to. A `Content-Length` above
/// `size_limit` sends the client to the upstream URL itself (`302`). A `3xx`
/// with a readable `Location` is resolved against the target; a resolved URL
/// the proxy serves is bounced to the client as `/<url>` with the upstream
/// status, any other is followed here with `GET`, no body, and the sensitive
/// header lines removed. Everything else is streamed back.
pub fn after_response(
    hop: &Hop,
    status: u16,
    content_length: &Option<Vec<u8>>,
    location: &Option<Vec<u8>>,
    size_limit: u64,
) -> (r: Outcome)
    requires
        !too_deep(hop.depth),
    ensures
        exceeds_limit(bytes_of(*content_length), size_limit) ==> (r matches Outcome::Reply(rep)
            && rep@ == (ReplyView { status: 302, location: Some(hop.target@), body: BodyView::Empty })),
        !exceeds_limit(bytes_of(*content_length), size_limit) ==> match redirect_location(
            status,
            bytes_of(*location),
        ) {
            Some(l) => {
                let resolved = resolve_location(hop.target@, l);
                if match_url_spec(resolved) is Some {
                    r matches Outcome::Reply(rep) && rep@ == (ReplyView {
                        status,
                        location: Some("/"@ + resolved),
                        body: BodyView::Empty,
                    })
                } else {
                    r matches Outcome::Follow(next) && next.target@ == resolved && next.method@
                        == "GET"@ && headers_view(next.headers@) == strip_sensitive_spec(
                        headers_view(hop.headers@),
                    ) && next.depth == hop.depth + 1 && !next.client_body
                }
            },
            None => r is Forward,
        },
{
    if exceeds_limit_exec(content_length, size_limit) {
        return Outcome::Reply(
            Reply { status: 302, location: Some(hop.target.clone()), body: ReplyBody::Empty },
        );
    }
    if 300 <= status && status < 400 {
        match location {
            Some(v) => match header_text_exec(v) {
                Some(loc) => {
                    let resolved: String = if starts_with(&loc, &chars_of("http")) {
                        string_of(&loc)
                    } else {
                        joined_or_kept(join_url(hop.target.as_str(), string_of(&loc).as_str()), &loc)
                    };
                    if match_url(resolved.as_str()).is_some() {
                        let bounced = concat(&chars_of("/"), &chars_of(resolved.as_str()));
                        return Outcome::Reply(
                            Reply {
                                status,
                                location: Some(string_of(&bounced)),
                                body: ReplyBody::Empty,
                            },
                        );
                    }
                    return Outcome::Follow(
                        Hop {
                            target: resolved,
                            method: "GET".to_owned(),
                            headers: strip_sensitive(&hop.headers),
                            depth: hop.depth + 1,
                            client_body: false,
                        },
                    );
                },
                None => {},
            },
            None => {},
        }
    }
    Outcome::Forward
}

/// Every `3xx` status with a readable `Location` (all bytes visible ASCII or
/// tab) is a redirect the proxy acts on, whatever the code (`301`, `302`,
/// `303`, `307`, `308`, ...), and its `Location` is read byte for byte; any
/// other status, or no `Location`, is not.
pub proof fn law_every_3xx_with_readable_location_redirects(status: u16, v: Seq<u8>)
    ensures
        (300 <= status && status < 400 && (forall|i: int|
            0 <= i < v.len() ==> (32 <= #[trigger] v[i] && v[i] < 127) || v[i] == 9))
            ==> redirect_location(status, Some(v)) == Some(v.map_values(|b: u8| b as char)),
        !(300 <= status && status < 400) ==> redirect_location(status, Some(v)) is None,
        redirect_location(status, None) is None,
{
}

/// When the client follows a redirect that the proxy bounced to it as
/// `/<resolved>` (with any `?query` split off by the client as usual), the
/// proxy accepts the request and fetches `resolved` itself (or its raw form,
/// for a blob URL): a bounced redirect is never refused with `403`.
pub proof fn law_bounced_redirect_is_accepted(
    resolved: Seq<char>,
    path_rest: Seq<char>,
    query: Option<Seq<char>>,
)
    requires
        match_url_spec(resolved) is Some,
        starts_with_seq(resolved, "http://"@) || starts_with_seq(resolved, "https://"@),
        match query {
            Some(q) => path_rest + "?"@ + q == resolved,
            None => path_rest == resolved,
        },
    ensures
        proxy_target_spec("/"@ + path_rest, query) is Ok,
{
    reveal_strlit("http://");
    reveal_strlit("https://");
    reveal_strlit("?");
    reveal_strlit("/");
    let path = "/"@ + path_rest;
    assert(resolved[0] == 'h') by {
        if starts_with_seq(resolved, "http://"@) {
            assert(resolved.take(7)[0] == resolved[0]);
        } else {
            assert(resolved.take(8)[0] == resolved[0]);
        }
    }
    assert(path_rest.len() > 0 && path_rest[0] == 'h') by {
        match query {
            Some(q) => {
                assert((path_rest + "?"@ + q)[0] == resolved[0]);
                if path_rest.len() == 0 {
                    assert((path_rest + "?"@ + q)[0] == '?');
                }
            },
            None => {},
        }
    }
    assert(path.drop_first() =~= path_rest);
    assert(path[0] == '/');
    assert(crate::text::trim_leading(path_rest, '/') == path_rest);
    assert(crate::text::trim_leading(path, '/') == path_rest);
    crate::proxy::law_normalize_keeps_full_urls(resolved);
}

/// Each followed redirect adds one to the depth and a pass deeper than
/// `MAX_REDIRECT_DEPTH` is refused, so a client request makes at most
/// `MAX_REDIRECT_DEPTH + 1` upstream requests: a chain of passes that all
/// reach upstream, each one the follow-up of the one before, is at most that
/// long.
pub proof fn law_upstream_requests_bounded(depths: Seq<u32>)
    requires
        depths.len() > 0,
        depths[0] == 0,
        forall|i: int| 0 <= i < depths.len() - 1 ==> #[trigger] depths[i + 1] == depths[i] + 1,
        forall|i: int| 0 <= i < depths.len() ==> !too_deep(#[trigger] depths[i]),
    ensures
        depths.len() <= MAX_REDIRECT_DEPTH + 1,
{
    assert forall|i: int| 0 <= i < depths.len() implies #[trigger] depths[i] == i by {
        lemma_depth_counts(depths, i);
    }
    assert(!too_deep(depths[depths.len() - 1]));
}

proof fn lemma_depth_counts(depths: Seq<u32>, i: int)
    requires
        0 <= i < depths.len(),
        depths[0] == 0,
        forall|k: int| 0 <= k < depths.len() - 1 ==> #[trigger] depths[k + 1] == depths[k] + 1,
    ensures
        depths[i] == i,
    decreases i,
{
    if i > 0 {
        lemma_depth_counts(depths, i - 1);
        assert(depths[(i - 1) + 1] == depths[i - 1] + 1);
    }
}

} // verus!
