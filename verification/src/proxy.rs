//! The proxy's decisions: how a request path becomes an upstream URL, what
//! the landing page answers, and what each upstream reply leads to.

use vstd::prelude::*;
use vstd::utf8::{decode_utf8, encode_utf8, valid_utf8};
use crate::text::{
    append_from, chars_of, concat, first_occurrence, find, occurs_at, replace_first, replace_first_exec,
    seq_eq, split_char, split_on, starts_with, starts_with_seq, string_of, trim_leading, trim_start,
};
use crate::matcher::{is_blob, is_blob_spec, match_url, match_url_spec};

verus! {

/// The text begins with an `http:` or `https:` scheme.
pub open spec fn has_http_scheme(u: Seq<char>) -> bool {
    starts_with_seq(u, "http:"@) || starts_with_seq(u, "https:"@)
}

/// What `normalize_url` returns: single-slash schemes are promoted to the
/// double-slash form and text without an `http:` or `https:` scheme gets
/// `https://` in front.
pub open spec fn normalize_spec(u: Seq<char>) -> Seq<char> {
    if starts_with_seq(u, "https:/"@) && !starts_with_seq(u, "https://"@) {
        "https://"@ + u.skip("https:/"@.len() as int)
    } else if starts_with_seq(u, "http:/"@) && !starts_with_seq(u, "http://"@) {
        "http://"@ + u.skip("http:/"@.len() as int)
    } else if !has_http_scheme(u) {
        "https://"@ + u
    } else {
        u
    }
}

/// Promotes single-slash schemes to the canonical double-slash form and
/// defaults a missing scheme to https. Text that merely begins with `http`
/// (such as `httpbin.org/get`) has no scheme and gets `https://` too.
pub fn normalize_url(u: &str) -> (r: String)
    ensures
        r@ == normalize_spec(u@),
{
    let s = chars_of(u);
    let https_one = chars_of("https:/");
    let https_two = chars_of("https://");
    let http_one = chars_of("http:/");
    let http_two = chars_of("http://");
    if starts_with(&s, &https_one) && !starts_with(&s, &https_two) {
        let mut out = chars_of("https://");
        append_from(&mut out, &s, https_one.len());
        return string_of(&out);
    }
    if starts_with(&s, &http_one) && !starts_with(&s, &http_two) {
        let mut out = chars_of("http://");
        append_from(&mut out, &s, http_one.len());
        return string_of(&out);
    }
    if !starts_with(&s, &chars_of("http:")) && !starts_with(&s, &chars_of("https:")) {
        let mut out = chars_of("https://");
        append_from(&mut out, &s, 0);
        proof {
            assert(s@.skip(0) =~= s@);
        }
        return string_of(&out);
    }
    string_of(&s)
}

proof fn lemma_starts_with_concat(a: Seq<char>, b: Seq<char>)
    ensures
        starts_with_seq(a + b, a),
{
    assert((a + b).take(a.len() as int) =~= a);
}

proof fn lemma_starts_with_trans(u: Seq<char>, p: Seq<char>, q: Seq<char>)
    requires
        starts_with_seq(u, p),
        starts_with_seq(p, q),
    ensures
        starts_with_seq(u, q),
{
    assert(u.take(q.len() as int) =~= p.take(q.len() as int));
}

proof fn lemma_starts_with_char(u: Seq<char>, p: Seq<char>, i: int)
    requires
        starts_with_seq(u, p),
        0 <= i < p.len(),
    ensures
        u[i] == p[i],
{
    assert(u.take(p.len() as int)[i] == u[i]);
}

/// Facts about the scheme literals that normalization compares against.
proof fn lemma_scheme_literals()
    ensures
        starts_with_seq("https://"@, "https:/"@),
        starts_with_seq("https://"@, "https:"@),
        starts_with_seq("http://"@, "http:/"@),
        starts_with_seq("http://"@, "http:"@),
        "https://"@[4] == 's' && "http:/"@[4] == ':' && "http://"@[4] == ':' && "https:/"@[4] == 's',
        "https://"@.len() == 8 && "https:/"@.len() == 7 && "http://"@.len() == 7 && "http:/"@.len() == 6,
{
    reveal_strlit("https:/");
    reveal_strlit("https://");
    reveal_strlit("http:/");
    reveal_strlit("http://");
    reveal_strlit("http:");
    reveal_strlit("https:");
    assert("https://"@.take(7) =~= "https:/"@);
    assert("https://"@.take(6) =~= "https:"@);
    assert("http://"@.take(6) =~= "http:/"@);
    assert("http://"@.take(5) =~= "http:"@);
}

/// A URL that already begins with `http://` or `https://` is kept as it is.
pub proof fn law_normalize_keeps_full_urls(u: Seq<char>)
    requires
        starts_with_seq(u, "http://"@) || starts_with_seq(u, "https://"@),
    ensures
        normalize_spec(u) == u,
{
    lemma_scheme_literals();
    if starts_with_seq(u, "http://"@) {
        lemma_starts_with_trans(u, "http://"@, "http:/"@);
        lemma_starts_with_trans(u, "http://"@, "http:"@);
        lemma_starts_with_char(u, "http://"@, 4);
        if starts_with_seq(u, "https:/"@) {
            lemma_starts_with_char(u, "https:/"@, 4);
        }
    } else {
        lemma_starts_with_trans(u, "https://"@, "https:/"@);
        lemma_starts_with_trans(u, "https://"@, "https:"@);
    }
}

/// A normalized URL begins with an `http:` or `https:` scheme, and
/// normalizing it again changes nothing.
pub proof fn law_normalize_idempotent(u: Seq<char>)
    ensures
        has_http_scheme(normalize_spec(u)),
        normalize_spec(normalize_spec(u)) == normalize_spec(u),
{
    lemma_scheme_literals();
    let n = normalize_spec(u);
    if starts_with_seq(u, "https:/"@) && !starts_with_seq(u, "https://"@) {
        lemma_starts_with_concat("https://"@, u.skip(7));
        lemma_starts_with_trans(n, "https://"@, "https:"@);
        law_normalize_keeps_full_urls(n);
    } else if starts_with_seq(u, "http:/"@) && !starts_with_seq(u, "http://"@) {
        lemma_starts_with_concat("http://"@, u.skip(6));
        lemma_starts_with_trans(n, "http://"@, "http:"@);
        law_normalize_keeps_full_urls(n);
    } else if !has_http_scheme(u) {
        lemma_starts_with_concat("https://"@, u);
        lemma_starts_with_trans(n, "https://"@, "https:"@);
        law_normalize_keeps_full_urls(n);
    }
}

/// The value of an ASCII hexadecimal digit.
pub open spec fn hex_val_spec(b: u8) -> Option<u8> {
    if 48 <= b && b <= 57 {
        Some((b - 48) as u8)
    } else if 97 <= b && b <= 102 {
        Some((b - 97 + 10) as u8)
    } else if 65 <= b && b <= 70 {
        Some((b - 65 + 10) as u8)
    } else {
        None
    }
}

/// The value of an ASCII hexadecimal digit.
pub fn hex_val(b: u8) -> (r: Option<u8>)
    ensures
        r == hex_val_spec(b),
        r matches Some(v) ==> v < 16,
{
    if 48 <= b && b <= 57 {
        Some(b - 48)
    } else if 97 <= b && b <= 102 {
        Some(b - 97 + 10)
    } else if 65 <= b && b <= 70 {
        Some(b - 65 + 10)
    } else {
        None
    }
}

/// The bytes with every `%XX` escape (two hex digits) replaced by the byte it
/// names; everything else, `+` included, is kept.
pub open spec fn unescape(b: Seq<u8>) -> Seq<u8>
    decreases b.len(),
{
    if b.len() == 0 {
        Seq::<u8>::empty()
    } else if b[0] == 37 && 2 < b.len() && hex_val_spec(b[1]) is Some && hex_val_spec(b[2]) is Some {
        seq![(hex_val_spec(b[1])->0 * 16 + hex_val_spec(b[2])->0) as u8] + unescape(b.skip(3))
    } else {
        seq![b[0]] + unescape(b.skip(1))
    }
}

/// What `percent_decode` returns: the unescaped text when it is valid UTF-8,
/// else the input unchanged.
pub open spec fn percent_decode_spec(s: Seq<char>) -> Seq<char> {
    let d = unescape(encode_utf8(s));
    if valid_utf8(d) {
        decode_utf8(d)
    } else {
        s
    }
}

/// A string from bytes (`String::from_utf8`): `None` exactly when the bytes are
/// not valid UTF-8, else the characters they encode.
#[verifier::external_body]
fn string_from_utf8(bytes: Vec<u8>) -> (r: Option<String>)
    ensures
        r is Some <==> valid_utf8(bytes@),
        r matches Some(s) ==> s@ == decode_utf8(bytes@),
{
    String::from_utf8(bytes).ok()
}

/// Decodes `%XX` escapes; `+` is left as `+`. When the result is not valid
/// UTF-8 the input is returned unchanged.
pub fn percent_decode(s: &str) -> (r: String)
    ensures
        r@ == percent_decode_spec(s@),
{
    let bytes = s.as_bytes();
    let ghost b = bytes@;
    let mut out: Vec<u8> = Vec::new();
    let mut i: usize = 0;
    assert(b.skip(0) =~= b);
    while i < bytes.len()
        invariant
            b == bytes@,
            i <= bytes.len(),
            unescape(b) == out@ + unescape(b.skip(i as int)),
        decreases bytes.len() - i,
    {
        let ghost rest = b.skip(i as int);
        if bytes[i] == 37 && 2 < bytes.len() - i {
            let h = hex_val(bytes[i + 1]);
            let l = hex_val(bytes[i + 2]);
            if let (Some(h), Some(l)) = (h, l) {
                let v: u8 = (h << 4) | l;
                assert(v == h * 16 + l) by (bit_vector)
                    requires
                        h < 16,
                        l < 16,
                        v == (h << 4) | l,
                ;
                out.push(v);
                proof {
                    assert(rest[0] == 37 && rest[1] == bytes@[i + 1] && rest[2] == bytes@[i + 2]);
                    assert(rest.skip(3) =~= b.skip(i + 3));
                    assert(unescape(rest) == seq![v] + unescape(b.skip(i + 3)));
                    assert(out@ + unescape(b.skip(i + 3)) =~= out@.drop_last() + (seq![v] + unescape(b.skip(i + 3))));
                }
                i = i + 3;
                continue;
            }
        }
        proof {
            assert(rest[0] == bytes@[i as int]);
            assert(rest.skip(1) =~= b.skip(i + 1));
            if rest[0] == 37 && 2 < rest.len() {
                assert(rest[1] == bytes@[i + 1] && rest[2] == bytes@[i + 2]);
            }
            assert(unescape(rest) == seq![bytes@[i as int]] + unescape(b.skip(i + 1)));
        }
        out.push(bytes[i]);
        proof {
            assert(out@ + unescape(b.skip(i + 1)) =~= out@.drop_last() + (seq![bytes@[i as int]] + unescape(b.skip(i + 1))));
        }
        i = i + 1;
    }
    proof {
        assert(b.skip(i as int) =~= Seq::<u8>::empty());
        assert(out@ =~= unescape(b));
    }
    match string_from_utf8(out) {
        Some(text) => text,
        None => s.to_owned(),
    }
}

/// Text without '%' comes back from `percent_decode` unchanged.
pub proof fn law_percent_decode_keeps_plain_text(s: Seq<char>)
    requires
        forall|i: int| 0 <= i < encode_utf8(s).len() ==> encode_utf8(s)[i] != 37,
    ensures
        percent_decode_spec(s) == s,
{
    lemma_unescape_plain(encode_utf8(s));
    vstd::utf8::encode_utf8_valid_utf8(s);
    vstd::utf8::encode_utf8_decode_utf8(s);
}

/// The ASCII hexadecimal digit for a value below 16, upper or lower case.
pub open spec fn hex_digit(v: u8, upper: bool) -> u8 {
    if v < 10 {
        (48 + v) as u8
    } else if upper {
        (55 + v) as u8
    } else {
        (87 + v) as u8
    }
}

/// Every byte written as a `%XX` escape.
pub open spec fn escape_all(b: Seq<u8>, upper: bool) -> Seq<u8>
    decreases b.len(),
{
    if b.len() == 0 {
        Seq::<u8>::empty()
    } else {
        seq![37u8, hex_digit(b[0] / 16, upper), hex_digit(b[0] % 16, upper)] + escape_all(b.skip(1), upper)
    }
}

/// A text with every byte of its UTF-8 encoding written as a `%XX` escape.
pub open spec fn percent_encoded(s: Seq<char>, upper: bool) -> Seq<char> {
    escape_all(encode_utf8(s), upper).map_values(|x: u8| x as char)
}

proof fn lemma_unescape_escape_all(b: Seq<u8>, upper: bool)
    ensures
        unescape(escape_all(b, upper)) == b,
        forall|i: int| 0 <= i < escape_all(b, upper).len() ==> #[trigger] escape_all(b, upper)[i] < 128,
    decreases b.len(),
{
    if b.len() > 0 {
        lemma_unescape_escape_all(b.skip(1), upper);
        let e = escape_all(b, upper);
        let hi = b[0] / 16;
        let lo = b[0] % 16;
        assert(hex_val_spec(hex_digit(hi, upper)) == Some(hi));
        assert(hex_val_spec(hex_digit(lo, upper)) == Some(lo));
        assert(e.skip(3) =~= escape_all(b.skip(1), upper));
        assert((hi * 16 + lo) as u8 == b[0]);
        assert(seq![b[0]] + b.skip(1) =~= b);
        assert forall|i: int| 0 <= i < e.len() implies #[trigger] e[i] < 128 by {
            if i >= 3 {
                assert(e[i] == escape_all(b.skip(1), upper)[i - 3]);
            }
        }
    }
}

/// Writing every byte of a text as a `%XX` escape (upper or lower case hex)
/// and decoding gives the text back.
pub proof fn law_percent_decode_round_trip(s: Seq<char>, upper: bool)
    ensures
        percent_decode_spec(percent_encoded(s, upper)) == s,
{
    let b = encode_utf8(s);
    let e = escape_all(b, upper);
    let c = percent_encoded(s, upper);
    lemma_unescape_escape_all(b, upper);
    assert(vstd::utf8::is_ascii_chars(c)) by {
        assert forall|i: int| 0 <= i < c.len() implies '\0' <= #[trigger] c[i] <= '\u{7f}' by {
            assert(e[i] < 128);
        }
    }
    vstd::utf8::is_ascii_chars_encode_utf8(c);
    assert(encode_utf8(c) =~= e) by {
        assert forall|i: int| 0 <= i < e.len() implies #[trigger] encode_utf8(c)[i] == e[i] by {
            assert(c[i] as u8 == encode_utf8(c)[i]);
            assert(e[i] < 128);
        }
    }
    vstd::utf8::encode_utf8_valid_utf8(s);
    vstd::utf8::encode_utf8_decode_utf8(s);
}

proof fn lemma_unescape_len(b: Seq<u8>)
    ensures
        unescape(b).len() <= b.len(),
    decreases b.len(),
{
    if b.len() > 0 {
        lemma_unescape_len(b.skip(1));
        if b[0] == 37 && 2 < b.len() && hex_val_spec(b[1]) is Some && hex_val_spec(b[2]) is Some {
            lemma_unescape_len(b.skip(3));
        }
    }
}

/// Decoding never lengthens a text's UTF-8 encoding.
pub proof fn law_percent_decode_never_lengthens(s: Seq<char>)
    ensures
        encode_utf8(percent_decode_spec(s)).len() <= encode_utf8(s).len(),
{
    let d = unescape(encode_utf8(s));
    lemma_unescape_len(encode_utf8(s));
    if valid_utf8(d) {
        vstd::utf8::decode_utf8_encode_utf8(d);
    }
}

proof fn lemma_unescape_plain(b: Seq<u8>)
    requires
        forall|i: int| 0 <= i < b.len() ==> b[i] != 37,
    ensures
        unescape(b) == b,
    decreases b.len(),
{
    if b.len() > 0 {
        lemma_unescape_plain(b.skip(1));
        assert(seq![b[0]] + b.skip(1) =~= b);
    }
}


/// The body of a reply the proxy makes itself.
#[derive(Debug)]
pub enum ReplyBody {
    /// No body.
    Empty,
    /// A plain-text message.
    Text(String),
    /// The landing page (`homepage::HOMEPAGE`), served as HTML.
    Homepage,
}

/// A reply the proxy makes itself: a status, an optional `Location`, a body.
#[derive(Debug)]
pub struct Reply {
    pub status: u16,
    pub location: Option<String>,
    pub body: ReplyBody,
}

/// The body of a reply, as text.
pub enum BodyView {
    Empty,
    Text(Seq<char>),
    Homepage,
}

/// A reply, with its strings as character sequences.
pub struct ReplyView {
    pub status: u16,
    pub location: Option<Seq<char>>,
    pub body: BodyView,
}

impl View for Reply {
    type V = ReplyView;

    open spec fn view(&self) -> ReplyView {
        ReplyView {
            status: self.status,
            location: match self.location {
                Some(l) => Some(l@),
                None => None,
            },
            body: match self.body {
                ReplyBody::Empty => BodyView::Empty,
                ReplyBody::Text(t) => BodyView::Text(t@),
                ReplyBody::Homepage => BodyView::Homepage,
            },
        }
    }
}

/// A plain-text reply.
fn text_reply(status: u16, text: &str) -> (r: Reply)
    ensures
        r@ == (ReplyView { status, location: None, body: BodyView::Text(text@) }),
{
    Reply { status, location: None, body: ReplyBody::Text(text.to_owned()) }
}

/// A reply with a `Location` and no body.
fn redirect_reply(status: u16, location: String) -> (r: Reply)
    ensures
        r@ == (ReplyView { status, location: Some(location@), body: BodyView::Empty }),
{
    Reply { status, location: Some(location), body: ReplyBody::Empty }
}

/// The landing page reply.
pub open spec fn homepage_view() -> ReplyView {
    ReplyView { status: 200, location: None, body: BodyView::Homepage }
}

/// The key of a `key=value` query pair: the text before the first `=`, or the
/// whole pair when it has none.
pub open spec fn pair_key(pair: Seq<char>) -> Seq<char> {
    match first_occurrence(pair, seq!['=']) {
        Some(i) => pair.take(i),
        None => pair,
    }
}

/// The value of a `key=value` query pair: the text after the first `=`, or
/// nothing when it has none.
pub open spec fn pair_value(pair: Seq<char>) -> Seq<char> {
    match first_occurrence(pair, seq!['=']) {
        Some(i) => pair.skip(i + 1),
        None => Seq::<char>::empty(),
    }
}

/// A `q` pair with a non-empty value.
#[verifier::opaque]
pub open spec fn is_q_pair(pair: Seq<char>) -> bool {
    pair_key(pair) == "q"@ && pair_value(pair).len() > 0
}

/// The value of the first `q` pair with a non-empty value.
pub open spec fn q_value(pairs: Seq<Seq<char>>) -> Option<Seq<char>>
    decreases pairs.len(),
{
    if pairs.len() == 0 {
        None
    } else if is_q_pair(pairs[0]) {
        Some(pair_value(pairs[0]))
    } else {
        q_value(pairs.drop_first())
    }
}

/// What the landing page answers for a request's query string: a `302` to
/// `/` followed by the decoded `q` value when the query has a non-empty `q`,
/// else the page itself.
pub open spec fn index_spec(query: Option<Seq<char>>) -> ReplyView {
    match query {
        Some(q) => match q_value(split_on(q, '&')) {
            Some(v) => ReplyView {
                status: 302,
                location: Some("/"@ + percent_decode_spec(v)),
                body: BodyView::Empty,
            },
            None => homepage_view(),
        },
        None => homepage_view(),
    }
}

proof fn lemma_q_value_skip(pairs: Seq<Seq<char>>, i: int)
    requires
        0 <= i <= pairs.len(),
        forall|j: int| 0 <= j < i ==> !is_q_pair(#[trigger] pairs[j]),
    ensures
        q_value(pairs) == q_value(pairs.skip(i)),
    decreases i,
{
    if i > 0 {
        lemma_q_value_skip(pairs.drop_first(), i - 1);
        assert(pairs.drop_first().skip(i - 1) =~= pairs.skip(i));
        assert(!is_q_pair(pairs[0]));
    } else {
        assert(pairs.skip(0) =~= pairs);
    }
}

/// Splits a `key=value` pair at its first `=` (`str::split_once`); a pair
/// without `=` is all key.
fn split_pair(pair: &Vec<char>) -> (r: (Vec<char>, Vec<char>))
    ensures
        r.0@ == pair_key(pair@),
        r.1@ == pair_value(pair@),
{
    let equals = vec!['='];
    assert(equals@ =~= seq!['=']);
    match find(pair, &equals) {
        Some(k) => {
            assert(occurs_at(pair@, equals@, k as int));
            assert(equals@.len() == 1);
            assert(k + 1 <= pair.len());
            let mut key: Vec<char> = Vec::new();
            let mut value: Vec<char> = Vec::new();
            append_from(&mut value, pair, k + 1);
            let mut m: usize = 0;
            while m < k
                invariant
                    m <= k,
                    k < pair.len(),
                    key@ == pair@.take(m as int),
                decreases k - m,
            {
                key.push(pair[m]);
                assert(pair@.take(m + 1) =~= pair@.take(m as int).push(pair@[m as int]));
                m = m + 1;
            }
            (key, value)
        },
        None => {
            let mut key: Vec<char> = Vec::new();
            append_from(&mut key, pair, 0);
            assert(pair@.skip(0) =~= pair@);
            (key, Vec::new())
        },
    }
}

/// The value of the first `q` pair with a non-empty value.
fn find_q_value(pairs: &Vec<Vec<char>>) -> (r: Option<Vec<char>>)
    ensures
        match r {
            Some(v) => q_value(pairs.deep_view()) == Some(v@),
            None => q_value(pairs.deep_view()) is None,
        },
{
    let ghost pv = pairs.deep_view();
    let key_q = chars_of("q");
    let mut i: usize = 0;
    while i < pairs.len()
        invariant
            i <= pairs.len(),
            pv == pairs.deep_view(),
            key_q@ == "q"@,
            forall|j: int| 0 <= j < i ==> !is_q_pair(#[trigger] pv[j]),
        decreases pairs.len() - i,
    {
        let pair = &pairs[i];
        assert(pv[i as int] == pair@);
        let (key, value) = split_pair(pair);
        let hit = seq_eq(&key, &key_q) && value.len() > 0;
        assert(hit == is_q_pair(pv[i as int])) by {
            reveal(is_q_pair);
        }
        if hit {
            proof {
                lemma_q_value_skip(pv, i as int);
            }
            return Some(value);
        }
        i = i + 1;
    }
    proof {
        lemma_q_value_skip(pv, i as int);
    }
    None
}

/// The landing page: a request whose query carries a non-empty `q` is sent on
/// to `/<decoded q>`, any other gets the page.
pub fn index_reply(query: Option<&str>) -> (r: Reply)
    ensures
        r@ == index_spec(match query {
            Some(q) => Some(q@),
            None => None,
        }),
{
    let q = match query {
        Some(q) => q,
        None => return Reply { status: 200, location: None, body: ReplyBody::Homepage },
    };
    let pairs = split_char(&chars_of(q), '&');
    match find_q_value(&pairs) {
        Some(value) => {
            let decoded = percent_decode(string_of(&value).as_str());
            let location = concat(&chars_of("/"), &chars_of(decoded.as_str()));
            redirect_reply(302, string_of(&location))
        },
        None => Reply { status: 200, location: None, body: ReplyBody::Homepage },
    }
}

/// Reply body when the requested URL is not a GitHub or Hugging Face resource.
pub const FORBIDDEN_TEXT: &'static str = "无效的输入 URL";

/// The upstream URL a proxied request path names: the path without its
/// leading slashes, with `?query` appended when there is one, normalized.
pub open spec fn requested_url(path: Seq<char>, query: Option<Seq<char>>) -> Seq<char> {
    let t = trim_leading(path, '/');
    normalize_spec(
        match query {
            Some(q) => t + "?"@ + q,
            None => t,
        },
    )
}

/// What `proxy_target` returns: `403` when `match_url` rejects the URL, else
/// the URL with its first `/blob/` turned into `/raw/` when it is a blob URL.
pub open spec fn proxy_target_spec(path: Seq<char>, query: Option<Seq<char>>) -> Result<Seq<char>, ReplyView> {
    let n = requested_url(path, query);
    if match_url_spec(n) is None {
        Err(ReplyView { status: 403, location: None, body: BodyView::Text(FORBIDDEN_TEXT@) })
    } else if is_blob_spec(n) {
        Ok(replace_first(n, "/blob/"@, "/raw/"@))
    } else {
        Ok(n)
    }
}

/// Every request the proxy fetches passed the matcher: a target is handed out
/// only for a URL that `match_url` accepts, and it is that URL or, for a blob
/// URL, that URL with its first `/blob/` turned into `/raw/`.
pub proof fn law_fetched_targets_pass_the_matcher(path: Seq<char>, query: Option<Seq<char>>)
    requires
        proxy_target_spec(path, query) is Ok,
    ensures
        match_url_spec(requested_url(path, query)) is Some,
        proxy_target_spec(path, query) == Ok::<Seq<char>, ReplyView>(requested_url(path, query))
            || proxy_target_spec(path, query) == Ok::<Seq<char>, ReplyView>(
            replace_first(requested_url(path, query), "/blob/"@, "/raw/"@),
        ),
{
}

/// The upstream URL for a proxied request (its path and query), or the `403`
/// reply when it names no GitHub or Hugging Face resource. Blob (preview) URLs
/// are turned into raw downloads.
pub fn proxy_target(path: &str, query: Option<&str>) -> (r: Result<String, Reply>)
    ensures
        match r {
            Ok(t) => proxy_target_spec(path@, match query {
                Some(q) => Some(q@),
                None => None,
            }) == Ok::<Seq<char>, ReplyView>(t@),
            Err(e) => proxy_target_spec(path@, match query {
                Some(q) => Some(q@),
                None => None,
            }) == Err::<Seq<char>, ReplyView>(e@),
        },
{
    let mut target = trim_start(&chars_of(path), '/');
    match query {
        Some(q) => {
            target = concat(&concat(&target, &chars_of("?")), &chars_of(q));
        },
        None => {},
    }
    let normalized = normalize_url(string_of(&target).as_str());
    if match_url(normalized.as_str()).is_none() {
        return Err(text_reply(403, FORBIDDEN_TEXT));
    }
    if is_blob(normalized.as_str()) {
        let raw = replace_first_exec(&chars_of(normalized.as_str()), &chars_of("/blob/"), &chars_of("/raw/"));
        return Ok(string_of(&raw));
    }
    Ok(normalized)
}

} // verus!
