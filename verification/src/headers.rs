//! HTTP header rules: which headers are hop-by-hop, which are sensitive, and
//! what is forwarded upstream and back downstream.

use vstd::prelude::*;
use crate::text::{chars_of, lower, lower_eq};
use vstd::utf8::encode_utf8;

verus! {

/// User-Agent sent upstream when the client request carries none.
pub const DEFAULT_USER_AGENT: &'static str = "Hub-Proxy-Go/1.0";

/// One header line: its name and its raw value bytes.
#[derive(Debug)]
pub struct HeaderEntry {
    pub name: String,
    pub value: Vec<u8>,
}

impl View for HeaderEntry {
    type V = (Seq<char>, Seq<u8>);

    open spec fn view(&self) -> (Seq<char>, Seq<u8>) {
        (self.name@, self.value@)
    }
}

/// The header lines as (name, value) pairs.
pub open spec fn headers_view(hs: Seq<HeaderEntry>) -> Seq<(Seq<char>, Seq<u8>)> {
    hs.map_values(|h: HeaderEntry| h@)
}

impl HeaderEntry {
    /// A header line with the given name and value.
    pub fn new(name: &str, value: &[u8]) -> (r: HeaderEntry)
        ensures
            r@ == (name@, value@),
    {
        HeaderEntry { name: name.to_owned(), value: vstd::slice::slice_to_vec(value) }
    }

    /// An equal copy of this header line.
    pub fn duplicate(&self) -> (r: HeaderEntry)
        ensures
            r@ == self@,
    {
        HeaderEntry { name: self.name.clone(), value: vstd::slice::slice_to_vec(self.value.as_slice()) }
    }
}

/// A hop-by-hop header name, compared without regard to ASCII case.
pub open spec fn is_hop_by_hop_spec(name: Seq<char>) -> bool {
    let l = lower(name);
    ||| l == "connection"@
    ||| l == "proxy-connection"@
    ||| l == "keep-alive"@
    ||| l == "te"@
    ||| l == "trailer"@
    ||| l == "transfer-encoding"@
    ||| l == "upgrade"@
    ||| l == "proxy-authenticate"@
    ||| l == "proxy-authorization"@
}

/// A header that must not follow a redirect to another host.
pub open spec fn is_sensitive_spec(name: Seq<char>) -> bool {
    let l = lower(name);
    ||| l == "authorization"@
    ||| l == "cookie"@
    ||| l == "set-cookie"@
}

/// The `Host` header.
pub open spec fn is_host_spec(name: Seq<char>) -> bool {
    lower(name) == "host"@
}

/// The `User-Agent` header.
pub open spec fn is_user_agent_spec(name: Seq<char>) -> bool {
    lower(name) == "user-agent"@
}

/// Reports whether a header name is hop-by-hop.
pub fn is_hop_by_hop_str(name: &str) -> (r: bool)
    ensures
        r == is_hop_by_hop_spec(name@),
{
    let n = chars_of(name);
    lower_eq(&n, &chars_of("connection")) || lower_eq(&n, &chars_of("proxy-connection"))
        || lower_eq(&n, &chars_of("keep-alive")) || lower_eq(&n, &chars_of("te"))
        || lower_eq(&n, &chars_of("trailer")) || lower_eq(&n, &chars_of("transfer-encoding"))
        || lower_eq(&n, &chars_of("upgrade")) || lower_eq(&n, &chars_of("proxy-authenticate"))
        || lower_eq(&n, &chars_of("proxy-authorization"))
}

/// Reports whether a header name is sensitive.
pub fn is_sensitive(name: &str) -> (r: bool)
    ensures
        r == is_sensitive_spec(name@),
{
    let n = chars_of(name);
    lower_eq(&n, &chars_of("authorization")) || lower_eq(&n, &chars_of("cookie"))
        || lower_eq(&n, &chars_of("set-cookie"))
}

/// Reports whether a header name is `Host`.
pub fn is_host_header(name: &str) -> (r: bool)
    ensures
        r == is_host_spec(name@),
{
    lower_eq(&chars_of(name), &chars_of("host"))
}

/// Reports whether a header name is `User-Agent`.
pub fn is_user_agent(name: &str) -> (r: bool)
    ensures
        r == is_user_agent_spec(name@),
{
    lower_eq(&chars_of(name), &chars_of("user-agent"))
}

/// The header lines that are not sensitive, in order.
pub open spec fn strip_sensitive_spec(hs: Seq<(Seq<char>, Seq<u8>)>) -> Seq<(Seq<char>, Seq<u8>)> {
    hs.filter(|h: (Seq<char>, Seq<u8>)| !is_sensitive_spec(h.0))
}

/// The header lines that are not hop-by-hop, in order.
pub open spec fn end_to_end_spec(hs: Seq<(Seq<char>, Seq<u8>)>) -> Seq<(Seq<char>, Seq<u8>)> {
    hs.filter(|h: (Seq<char>, Seq<u8>)| !is_hop_by_hop_spec(h.0))
}

/// A header line the proxy passes upstream: neither `Host` nor hop-by-hop.
pub open spec fn is_forwarded_spec(name: Seq<char>) -> bool {
    !is_host_spec(name) && !is_hop_by_hop_spec(name)
}

/// Whether the last `User-Agent` line among `hs` has a non-empty value.
pub open spec fn has_user_agent(hs: Seq<(Seq<char>, Seq<u8>)>) -> bool
    decreases hs.len(),
{
    if hs.len() == 0 {
        false
    } else if is_user_agent_spec(hs.last().0) {
        hs.last().1.len() > 0
    } else {
        has_user_agent(hs.drop_last())
    }
}

/// The header lines sent upstream: those that are neither `Host` nor
/// hop-by-hop, in order, then the default `User-Agent` unless a non-empty one
/// was among them.
pub open spec fn outbound_spec(hs: Seq<(Seq<char>, Seq<u8>)>) -> Seq<(Seq<char>, Seq<u8>)> {
    let kept = hs.filter(|h: (Seq<char>, Seq<u8>)| is_forwarded_spec(h.0));
    if has_user_agent(hs) {
        kept
    } else {
        kept.push(("User-Agent"@, encode_utf8(DEFAULT_USER_AGENT@)))
    }
}

/// Which header lines a filter removes.
enum Removal {
    Sensitive,
    HopByHop,
}

/// Copies the header lines that `which` does not remove, in order.
fn keep_headers(headers: &Vec<HeaderEntry>, which: Removal) -> (r: Vec<HeaderEntry>)
    ensures
        headers_view(r@) == headers_view(headers@).filter(|h: (Seq<char>, Seq<u8>)| !drops(which, h.0)),
{
    let ghost pred = |h: (Seq<char>, Seq<u8>)| !drops(which, h.0);
    let mut out: Vec<HeaderEntry> = Vec::new();
    let mut i: usize = 0;
    while i < headers.len()
        invariant
            i <= headers.len(),
            pred == (|h: (Seq<char>, Seq<u8>)| !drops(which, h.0)),
            headers_view(out@) == headers_view(headers@).take(i as int).filter(pred),
        decreases headers.len() - i,
    {
        let h = &headers[i];
        let dropped = match which {
            Removal::Sensitive => is_sensitive(h.name.as_str()),
            Removal::HopByHop => is_hop_by_hop_str(h.name.as_str()),
        };
        let ghost before = out@;
        if !dropped {
            out.push(h.duplicate());
        }
        proof {
            let hv = headers_view(headers@);
            assert(hv.take(i + 1) =~= hv.take(i as int).push(hv[i as int]));
            hv.take(i as int).lemma_filter_push(hv[i as int], pred);
            assert(hv[i as int] == h@);
            if !dropped {
                assert(headers_view(out@) =~= headers_view(before).push(h@));
            } else {
                assert(headers_view(out@) =~= headers_view(before));
            }
        }
        i = i + 1;
    }
    proof {
        assert(headers_view(headers@).take(i as int) =~= headers_view(headers@));
    }
    out
}

/// Whether `which` removes a header line with this name.
spec fn drops(which: Removal, name: Seq<char>) -> bool {
    match which {
        Removal::Sensitive => is_sensitive_spec(name),
        Removal::HopByHop => is_hop_by_hop_spec(name),
    }
}

/// The header lines without the sensitive ones, in order.
pub fn strip_sensitive(headers: &Vec<HeaderEntry>) -> (r: Vec<HeaderEntry>)
    ensures
        headers_view(r@) == strip_sensitive_spec(headers_view(headers@)),
{
    let r = keep_headers(headers, Removal::Sensitive);
    proof {
        assert((|h: (Seq<char>, Seq<u8>)| !drops(Removal::Sensitive, h.0)) =~= (|h: (Seq<char>, Seq<u8>)| !is_sensitive_spec(h.0)));
    }
    r
}

/// The header lines passed back downstream: all but the hop-by-hop ones.
pub fn response_headers(headers: &Vec<HeaderEntry>) -> (r: Vec<HeaderEntry>)
    ensures
        headers_view(r@) == end_to_end_spec(headers_view(headers@)),
{
    let r = keep_headers(headers, Removal::HopByHop);
    proof {
        assert((|h: (Seq<char>, Seq<u8>)| !drops(Removal::HopByHop, h.0)) =~= (|h: (Seq<char>, Seq<u8>)| !is_hop_by_hop_spec(h.0)));
    }
    r
}

/// The header lines sent upstream for a client request's header lines: those
/// that are neither `Host` nor hop-by-hop, in order, then the default
/// `User-Agent` unless the last `User-Agent` line has a non-empty value.
pub fn outbound_headers(headers: &Vec<HeaderEntry>) -> (r: Vec<HeaderEntry>)
    ensures
        headers_view(r@) == outbound_spec(headers_view(headers@)),
{
    let ghost hv = headers_view(headers@);
    let ghost pred = |h: (Seq<char>, Seq<u8>)| is_forwarded_spec(h.0);
    let mut out: Vec<HeaderEntry> = Vec::new();
    let mut have_user_agent = false;
    let mut i: usize = 0;
    while i < headers.len()
        invariant
            i <= headers.len(),
            hv == headers_view(headers@),
            pred == (|h: (Seq<char>, Seq<u8>)| is_forwarded_spec(h.0)),
            headers_view(out@) == hv.take(i as int).filter(pred),
            have_user_agent == has_user_agent(hv.take(i as int)),
        decreases headers.len() - i,
    {
        let h = &headers[i];
        let ghost before = out@;
        proof {
            assert(hv[i as int] == h@);
            assert(hv.take(i + 1) =~= hv.take(i as int).push(hv[i as int]));
            assert(hv.take(i + 1).drop_last() =~= hv.take(i as int));
            hv.take(i as int).lemma_filter_push(hv[i as int], pred);
        }
        if !is_host_header(h.name.as_str()) && !is_hop_by_hop_str(h.name.as_str()) {
            if is_user_agent(h.name.as_str()) {
                have_user_agent = h.value.len() > 0;
            }
            out.push(h.duplicate());
            proof {
                assert(headers_view(out@) =~= headers_view(before).push(h@));
            }
        } else {
            proof {
                if is_user_agent_spec(h.name@) {
                    reveal_strlit("user-agent");
                    reveal_strlit("host");
                    assert(lower(h.name@).len() == 10);
                    assert(lower(h.name@)[0] == 'u');
                    assert(!is_host_spec(h.name@));
                    assert(lower(h.name@)[1] == 's');
                    assert(!is_hop_by_hop_spec(h.name@)) by {
                        reveal_strlit("connection");
                        reveal_strlit("proxy-connection");
                        reveal_strlit("keep-alive");
                        reveal_strlit("te");
                        reveal_strlit("trailer");
                        reveal_strlit("transfer-encoding");
                        reveal_strlit("upgrade");
                        reveal_strlit("proxy-authenticate");
                        reveal_strlit("proxy-authorization");
                    }
                }
                assert(headers_view(out@) =~= headers_view(before));
            }
        }
        i = i + 1;
    }
    proof {
        assert(hv.take(i as int) =~= hv);
    }
    if !have_user_agent {
        out.push(HeaderEntry::new("User-Agent", DEFAULT_USER_AGENT.as_bytes()));
        proof {
            assert(headers_view(out@) =~= hv.filter(pred).push(("User-Agent"@, encode_utf8(DEFAULT_USER_AGENT@))));
        }
    }
    out
}

/// No header line that `outbound_headers` sends is `Host` or hop-by-hop, save
/// the default `User-Agent` it may add.
pub proof fn law_outbound_headers_are_end_to_end(hs: Seq<(Seq<char>, Seq<u8>)>, i: int)
    requires
        0 <= i < outbound_spec(hs).len(),
    ensures
        is_forwarded_spec(outbound_spec(hs)[i].0) || outbound_spec(hs)[i].0 == "User-Agent"@,
{
    let pred = |h: (Seq<char>, Seq<u8>)| is_forwarded_spec(h.0);
    let kept = hs.filter(pred);
    hs.lemma_filter_len(pred);
    if i < kept.len() {
        hs.lemma_filter_pred(pred, i);
    }
}

/// No header line that `strip_sensitive` keeps is sensitive.
pub proof fn law_stripped_headers_hold_nothing_sensitive(hs: Seq<(Seq<char>, Seq<u8>)>, i: int)
    requires
        0 <= i < strip_sensitive_spec(hs).len(),
    ensures
        !is_sensitive_spec(strip_sensitive_spec(hs)[i].0),
{
    hs.lemma_filter_pred(|h: (Seq<char>, Seq<u8>)| !is_sensitive_spec(h.0), i);
}

/// Stripping the sensitive header lines twice is stripping them once.
pub proof fn law_strip_sensitive_idempotent(hs: Seq<(Seq<char>, Seq<u8>)>)
    ensures
        strip_sensitive_spec(strip_sensitive_spec(hs)) == strip_sensitive_spec(hs),
    decreases hs.len(),
{
    let pred = |h: (Seq<char>, Seq<u8>)| !is_sensitive_spec(h.0);
    reveal(Seq::filter);
    if hs.len() > 0 {
        law_strip_sensitive_idempotent(hs.drop_last());
        let inner = hs.drop_last().filter(pred);
        if pred(hs.last()) {
            inner.lemma_filter_push(hs.last(), pred);
        }
    }
}

/// The header lines with exactly this name, in order (what a header map's
/// `get_all` yields for it).
pub open spec fn lines_named(hs: Seq<(Seq<char>, Seq<u8>)>, n: Seq<char>) -> Seq<(Seq<char>, Seq<u8>)> {
    hs.filter(name_is(n))
}

/// The test "this header line has name `n`".
pub open spec fn name_is(n: Seq<char>) -> spec_fn((Seq<char>, Seq<u8>)) -> bool {
    |h: (Seq<char>, Seq<u8>)| h.0 == n
}

/// The test "this header line's name passes `keep`".
pub open spec fn name_passes(keep: spec_fn(Seq<char>) -> bool) -> spec_fn((Seq<char>, Seq<u8>)) -> bool {
    |h: (Seq<char>, Seq<u8>)| keep(h.0)
}

proof fn lemma_filter_by_name(
    hs: Seq<(Seq<char>, Seq<u8>)>,
    keep: spec_fn(Seq<char>) -> bool,
    n: Seq<char>,
)
    ensures
        lines_named(hs.filter(name_passes(keep)), n) == if keep(n) {
            lines_named(hs, n)
        } else {
            Seq::<(Seq<char>, Seq<u8>)>::empty()
        },
    decreases hs.len(),
{
    let kept = name_passes(keep);
    let same = name_is(n);
    if hs.len() == 0 {
        reveal(Seq::filter);
        assert(hs.filter(kept) =~= hs);
        assert(hs.filter(same) =~= hs);
        assert(hs =~= Seq::<(Seq<char>, Seq<u8>)>::empty());
    } else {
        let d = hs.drop_last();
        let l = hs.last();
        lemma_filter_by_name(d, keep, n);
        assert(hs =~= d.push(l));
        d.lemma_filter_push(l, kept);
        d.lemma_filter_push(l, same);
        let dk = d.filter(kept);
        if kept(l) {
            dk.lemma_filter_push(l, same);
            assert(hs.filter(kept) == dk.push(l));
            if keep(n) {
                assert(lines_named(hs.filter(kept), n) == lines_named(hs, n));
            } else {
                assert(l.0 != n);
                assert(lines_named(hs.filter(kept), n) == Seq::<(Seq<char>, Seq<u8>)>::empty());
            }
        } else {
            assert(hs.filter(kept) == dk);
            if keep(n) {
                assert(l.0 != n);
                assert(lines_named(hs.filter(kept), n) == lines_named(hs, n));
            }
        }
    }
}

/// For every header name, `strip_sensitive` keeps all of its lines, values
/// and order unchanged, when the name is not sensitive, and none when it is.
pub proof fn law_strip_sensitive_per_name(hs: Seq<(Seq<char>, Seq<u8>)>, n: Seq<char>)
    ensures
        lines_named(strip_sensitive_spec(hs), n) == if is_sensitive_spec(n) {
            Seq::<(Seq<char>, Seq<u8>)>::empty()
        } else {
            lines_named(hs, n)
        },
{
    let keep = |m: Seq<char>| !is_sensitive_spec(m);
    lemma_filter_by_name(hs, keep, n);
    assert(name_passes(keep) =~= (|h: (Seq<char>, Seq<u8>)| !is_sensitive_spec(h.0)));
}

/// For every header name, the headers passed downstream hold all of its lines,
/// values and order unchanged, when the name is not hop-by-hop, and none when
/// it is.
pub proof fn law_response_headers_per_name(hs: Seq<(Seq<char>, Seq<u8>)>, n: Seq<char>)
    ensures
        lines_named(end_to_end_spec(hs), n) == if is_hop_by_hop_spec(n) {
            Seq::<(Seq<char>, Seq<u8>)>::empty()
        } else {
            lines_named(hs, n)
        },
{
    let keep = |m: Seq<char>| !is_hop_by_hop_spec(m);
    lemma_filter_by_name(hs, keep, n);
    assert(name_passes(keep) =~= (|h: (Seq<char>, Seq<u8>)| !is_hop_by_hop_spec(h.0)));
}

/// The header names (in ASCII lower case) that never go upstream: `host` and
/// the nine hop-by-hop names.
pub open spec fn never_forwarded_names() -> Seq<Seq<char>> {
    seq![
        "host"@,
        "connection"@,
        "proxy-connection"@,
        "keep-alive"@,
        "te"@,
        "trailer"@,
        "transfer-encoding"@,
        "upgrade"@,
        "proxy-authenticate"@,
        "proxy-authorization"@,
    ]
}

/// Exactly the header lines whose lower-cased name is not `host` nor a
/// hop-by-hop name go upstream, all of them and in order (credentials such as
/// `Authorization` and `Cookie` included), followed by the default
/// `User-Agent` unless the last `User-Agent` line has a non-empty value.
pub proof fn law_outbound_forwards_every_end_to_end_line(hs: Seq<(Seq<char>, Seq<u8>)>)
    ensures
        outbound_spec(hs) == ({
            let kept = hs.filter(
                |h: (Seq<char>, Seq<u8>)| !never_forwarded_names().contains(lower(h.0)),
            );
            if has_user_agent(hs) {
                kept
            } else {
                kept.push(("User-Agent"@, encode_utf8(DEFAULT_USER_AGENT@)))
            }
        }),
{
    assert forall|n: Seq<char>| #![auto]
        is_forwarded_spec(n) == !never_forwarded_names().contains(lower(n)) by {
        let l = lower(n);
        let names = never_forwarded_names();
        if names.contains(l) {
            let k = choose|k: int| 0 <= k < names.len() && names[k] == l;
            assert(0 <= k < 10);
            if k == 0 { assert(l == "host"@); }
            else if k == 1 { assert(l == "connection"@); }
            else if k == 2 { assert(l == "proxy-connection"@); }
            else if k == 3 { assert(l == "keep-alive"@); }
            else if k == 4 { assert(l == "te"@); }
            else if k == 5 { assert(l == "trailer"@); }
            else if k == 6 { assert(l == "transfer-encoding"@); }
            else if k == 7 { assert(l == "upgrade"@); }
            else if k == 8 { assert(l == "proxy-authenticate"@); }
            else { assert(l == "proxy-authorization"@); }
        }
        if !is_forwarded_spec(n) {
            if l == "host"@ { assert(names[0] == l); }
            else if l == "connection"@ { assert(names[1] == l); }
            else if l == "proxy-connection"@ { assert(names[2] == l); }
            else if l == "keep-alive"@ { assert(names[3] == l); }
            else if l == "te"@ { assert(names[4] == l); }
            else if l == "trailer"@ { assert(names[5] == l); }
            else if l == "transfer-encoding"@ { assert(names[6] == l); }
            else if l == "upgrade"@ { assert(names[7] == l); }
            else if l == "proxy-authenticate"@ { assert(names[8] == l); }
            else { assert(names[9] == l); }
        }
    }
    assert((|h: (Seq<char>, Seq<u8>)| is_forwarded_spec(h.0)) =~= (|h: (Seq<char>, Seq<u8>)|
        !never_forwarded_names().contains(lower(h.0))));
}

/// Every header line whose lower-cased name is not `host` nor hop-by-hop is
/// among the lines sent upstream.
pub proof fn law_outbound_keeps_each_end_to_end_line(hs: Seq<(Seq<char>, Seq<u8>)>, i: int)
    requires
        0 <= i < hs.len(),
        !never_forwarded_names().contains(lower(hs[i].0)),
    ensures
        outbound_spec(hs).contains(hs[i]),
{
    law_outbound_forwards_every_end_to_end_line(hs);
    let pred = |h: (Seq<char>, Seq<u8>)| !never_forwarded_names().contains(lower(h.0));
    hs.lemma_filter_contains(pred, i);
    let kept = hs.filter(pred);
    if !has_user_agent(hs) {
        let j = choose|j: int| 0 <= j < kept.len() && kept[j] == hs[i];
        assert(outbound_spec(hs)[j] == hs[i]);
    }
}

/// Only `authorization`, `cookie` and `set-cookie` (in any ASCII case) are
/// sensitive.
pub proof fn law_only_credentials_are_sensitive(n: Seq<char>)
    ensures
        is_sensitive_spec(n) == (lower(n) == "authorization"@ || lower(n) == "cookie"@ || lower(n)
            == "set-cookie"@),
{
}

/// Following a redirect keeps every header line whose lower-cased name is not
/// `authorization`, `cookie` or `set-cookie` (a `Range` line, for one).
pub proof fn law_strip_keeps_every_other_line(hs: Seq<(Seq<char>, Seq<u8>)>, i: int)
    requires
        0 <= i < hs.len(),
        lower(hs[i].0) != "authorization"@,
        lower(hs[i].0) != "cookie"@,
        lower(hs[i].0) != "set-cookie"@,
    ensures
        strip_sensitive_spec(hs).contains(hs[i]),
{
    law_only_credentials_are_sensitive(hs[i].0);
    hs.lemma_filter_contains(|h: (Seq<char>, Seq<u8>)| !is_sensitive_spec(h.0), i);
}

/// Header names are compared without regard to ASCII case.
pub proof fn law_hop_by_hop_ignores_case(name: Seq<char>)
    ensures
        is_hop_by_hop_spec(name) == is_hop_by_hop_spec(lower(name)),
        is_sensitive_spec(name) == is_sensitive_spec(lower(name)),
{
    assert(lower(lower(name)) =~= lower(name));
}

} // verus!
