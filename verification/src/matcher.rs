//! URL pattern matching for GitHub and Hugging Face resources.
//!
//! The patterns are RE2-style regular expressions evaluated by the `regex`
//! crate; which pattern wins, and how its groups become the result, is decided
//! here.

use vstd::prelude::*;
use crate::text::{chars_of, contains, contains_seq};

verus! {

// GitHub patterns.
pub const EXP_RELEASE: &'static str = r"^(?:https?://)?(?:www\.)?github\.com/([^/]+?)/([^/]+?)/(?:releases|archive)/.*$";
pub const EXP_BLOB: &'static str = r"^(?:https?://)?(?:www\.)?github\.com/([^/]+?)/([^/]+?)/(?:blob|raw)/.*$";
/// GitHub blob (browser preview) pages only; `EXP_BLOB` above also admits
/// `/raw/` downloads.
pub const EXP_GITHUB_BLOB_PAGE: &'static str = r"^(?:https?://)?(?:www\.)?github\.com/([^/]+?)/([^/]+?)/blob/.*$";
pub const EXP_GIT: &'static str = r"^(?:https?://)?(?:www\.)?github\.com/([^/]+?)/([^/]+?)/(?:info|git-).*$";
pub const EXP_TREE: &'static str = r"^(?:https?://)?(?:www\.)?github\.com/([^/]+?)/([^/]+?)/(?:tree|tag)/.*$";
pub const EXP_REPO: &'static str = r"^(?:https?://)?(?:www\.)?github\.com/([^/]+?)/([^/]+?)/?$";
pub const EXP_RAW: &'static str = r"^(?:https?://)?raw\.(?:githubusercontent|github)\.com/([^/]+?)/([^/]+?)/.+?/.+$";
pub const EXP_GIST: &'static str = r"^(?:https?://)?gist\.(?:githubusercontent|github)\.com/([^/]+?)/.+?/.+$";

// Hugging Face patterns. Order matters: dataset_git and spaces_git come before
// the generic git pattern; the *_ROOT variants follow their non-root siblings;
// the repository pattern is last.
pub const EXP_HF_DATASET_GIT: &'static str = r"^(?:https?://)?(?:www\.)?huggingface\.co/(datasets/[^/]+?)/([^/]+?)/(?:info|git-|resolve|raw|blob).*$";
pub const EXP_HF_DATASET_GIT_ROOT: &'static str = r"^(?:https?://)?(?:www\.)?huggingface\.co/(datasets/[^/]+?)/(?:info|git-|resolve|raw|blob).*$";
pub const EXP_HF_SPACES_GIT: &'static str = r"^(?:https?://)?(?:www\.)?huggingface\.co/(spaces/[^/]+?)/([^/]+?)/(?:info|git-|resolve|raw|blob).*$";
pub const EXP_HF_GIT: &'static str = r"^(?:https?://)?(?:www\.)?huggingface\.co/([^/]+?)/([^/]+?)/(?:info|git-|resolve|raw|blob).*$";
pub const EXP_HF_GIT_ROOT: &'static str = r"^(?:https?://)?(?:www\.)?huggingface\.co/([^/]+?)/(?:info|git-|resolve|raw|blob).*$";
pub const EXP_HF_REPO: &'static str = r"^(?:https?://)?(?:www\.)?huggingface\.co/([^/]+?)(?:/([^/]+?))?/?$";

/// What `regex::Regex::new(pattern)` followed by `captures(text)` yields: `None`
/// when the pattern does not compile or does not match, else the capture
/// groups after the whole match, each `None` when it did not participate.
pub uninterp spec fn regex_captures(pattern: Seq<char>, text: Seq<char>) -> Option<Seq<Option<Seq<char>>>>;

/// Compiles `pattern` with `regex::Regex::new` and runs `Regex::captures` on
/// `text`, handing back the groups after the whole match (group 0). Nothing is
/// claimed of the result beyond that it is a function of the two strings,
/// named `regex_captures`.
#[verifier::external_body]
fn captures(pattern: &str, text: &str) -> (r: Option<Vec<Option<String>>>)
    ensures
        r.deep_view() == regex_captures(pattern@, text@),
{
    let re = match regex::Regex::new(pattern) {
        Ok(re) => re,
        Err(_) => return None,
    };
    let caps = re.captures(text)?;
    let mut groups = Vec::new();
    for i in 1..caps.len() {
        groups.push(caps.get(i).map(|m| m.as_str().to_string()));
    }
    Some(groups)
}

/// Groups with the ones that did not participate read as empty strings.
pub open spec fn filled_groups(caps: Seq<Option<Seq<char>>>) -> Seq<Seq<char>> {
    caps.map_values(|g: Option<Seq<char>>| match g {
        Some(s) => s,
        None => Seq::<char>::empty(),
    })
}

/// The groups of the first pattern in `pats` that matches `u`.
pub open spec fn first_match(pats: Seq<Seq<char>>, u: Seq<char>) -> Option<Seq<Seq<char>>>
    decreases pats.len(),
{
    if pats.len() == 0 {
        None
    } else {
        match regex_captures(pats[0], u) {
            Some(caps) => Some(filled_groups(caps)),
            None => first_match(pats.drop_first(), u),
        }
    }
}

/// The GitHub patterns, in the order they are tried.
pub open spec fn github_patterns() -> Seq<Seq<char>> {
    seq![EXP_RELEASE@, EXP_BLOB@, EXP_GIT@, EXP_TREE@, EXP_REPO@, EXP_RAW@, EXP_GIST@]
}

/// The Hugging Face patterns, in the order they are tried.
pub open spec fn hf_patterns() -> Seq<Seq<char>> {
    seq![
        EXP_HF_DATASET_GIT@,
        EXP_HF_DATASET_GIT_ROOT@,
        EXP_HF_SPACES_GIT@,
        EXP_HF_GIT@,
        EXP_HF_GIT_ROOT@,
        EXP_HF_REPO@,
    ]
}

/// The URL mentions a GitHub host.
pub open spec fn mentions_github(u: Seq<char>) -> bool {
    contains_seq(u, "github"@)
}

/// The URL mentions the Hugging Face host.
pub open spec fn mentions_hf(u: Seq<char>) -> bool {
    contains_seq(u, "huggingface.co"@)
}

/// What `match_url` returns for `u`.
pub open spec fn match_url_spec(u: Seq<char>) -> Option<Seq<Seq<char>>> {
    let gh = if mentions_github(u) {
        first_match(github_patterns(), u)
    } else {
        None
    };
    if gh is Some {
        gh
    } else if mentions_hf(u) {
        first_match(hf_patterns(), u)
    } else {
        None
    }
}

/// Whether `is_blob` holds of `u`: a GitHub blob page, or a Hugging Face URL
/// with a `/blob/` segment. Raw downloads are not blob pages.
pub open spec fn is_blob_spec(u: Seq<char>) -> bool {
    regex_captures(EXP_GITHUB_BLOB_PAGE@, u) is Some || (contains_seq(u, "/blob/"@) && mentions_hf(u))
}

proof fn lemma_first_match_skip(pats: Seq<Seq<char>>, u: Seq<char>, i: int)
    requires
        0 <= i <= pats.len(),
        forall|j: int| 0 <= j < i ==> regex_captures(#[trigger] pats[j], u) is None,
    ensures
        first_match(pats, u) == first_match(pats.skip(i), u),
    decreases i,
{
    if i > 0 {
        lemma_first_match_skip(pats.drop_first(), u, i - 1);
        assert(pats.drop_first().skip(i - 1) =~= pats.skip(i));
        assert(regex_captures(pats[0], u) is None);
    } else {
        assert(pats.skip(0) =~= pats);
    }
}

/// The capture groups of a match as strings, a group that did not
/// participate as the empty string.
pub fn groups_from_captures(caps: Vec<Option<String>>) -> (r: Vec<String>)
    ensures
        r.deep_view() == filled_groups(caps.deep_view()),
{
    let mut out: Vec<String> = Vec::new();
    let mut i: usize = 0;
    while i < caps.len()
        invariant
            i <= caps.len(),
            out.deep_view() == filled_groups(caps.deep_view()).take(i as int),
        decreases caps.len() - i,
    {
        let s = match &caps[i] {
            Some(s) => s.clone(),
            None => String::new(),
        };
        proof {
            assert(caps.deep_view()[i as int] == caps@[i as int].deep_view());
            assert(s@ == filled_groups(caps.deep_view())[i as int]);
        }
        let ghost before = out.deep_view();
        out.push(s);
        proof {
            assert(out.deep_view() =~= before.push(s@));
            assert(out.deep_view() =~= filled_groups(caps.deep_view()).take(i + 1));
        }
        i = i + 1;
    }
    proof {
        assert(filled_groups(caps.deep_view()).take(i as int) =~= filled_groups(caps.deep_view()));
    }
    out
}

/// Runs `u` against an ordered list of patterns and returns the first match's
/// capture groups (the whole match excluded); a group that did not participate
/// reads as an empty string.
pub fn match_first(exps: &[&str], u: &str) -> (r: Option<Vec<String>>)
    ensures
        r.deep_view() == first_match(exps@.map_values(|p: &str| p@), u@),
{
    let ghost pats = exps@.map_values(|p: &str| p@);
    let mut i: usize = 0;
    while i < exps.len()
        invariant
            i <= exps.len(),
            pats == exps@.map_values(|p: &str| p@),
            forall|j: int| 0 <= j < i ==> regex_captures(#[trigger] pats[j], u@) is None,
        decreases exps.len() - i,
    {
        let caps = captures(exps[i], u);
        match caps {
            Some(c) => {
                proof {
                    lemma_first_match_skip(pats, u@, i as int);
                    assert(pats.skip(i as int)[0] == exps@[i as int]@);
                }
                return Some(groups_from_captures(c));
            },
            None => {},
        }
        i = i + 1;
    }
    proof {
        lemma_first_match_skip(pats, u@, i as int);
    }
    None
}

/// Matches the URL against the GitHub, then the Hugging Face pattern lists and
/// returns the capture groups (typically `[user]` or `[user, repo]`). `None`
/// when no pattern matches or the URL names neither host family.
pub fn match_url(u: &str) -> (r: Option<Vec<String>>)
    ensures
        r.deep_view() == match_url_spec(u@),
{
    let chars = chars_of(u);
    if contains(&chars, &chars_of("github")) {
        let gh_exps: [&str; 7] = [EXP_RELEASE, EXP_BLOB, EXP_GIT, EXP_TREE, EXP_REPO, EXP_RAW, EXP_GIST];
        let found = match_first(&gh_exps, u);
        proof {
            assert(gh_exps@.map_values(|p: &str| p@) =~= github_patterns());
        }
        if found.is_some() {
            return found;
        }
    }
    if contains(&chars, &chars_of("huggingface.co")) {
        let hf_exps: [&str; 6] = [
            EXP_HF_DATASET_GIT,
            EXP_HF_DATASET_GIT_ROOT,
            EXP_HF_SPACES_GIT,
            EXP_HF_GIT,
            EXP_HF_GIT_ROOT,
            EXP_HF_REPO,
        ];
        let found = match_first(&hf_exps, u);
        proof {
            assert(hf_exps@.map_values(|p: &str| p@) =~= hf_patterns());
        }
        return found;
    }
    None
}

/// Reports whether the URL is a Hugging Face URL.
pub fn is_hf(u: &str) -> (r: bool)
    ensures
        r == mentions_hf(u@),
{
    contains(&chars_of(u), &chars_of("huggingface.co"))
}

/// Reports whether the URL is a GitHub or Hugging Face blob (browser preview) URL.
pub fn is_blob(u: &str) -> (r: bool)
    ensures
        r == is_blob_spec(u@),
{
    captures(EXP_GITHUB_BLOB_PAGE, u).is_some() || (contains(&chars_of(u), &chars_of("/blob/")) && is_hf(u))
}

/// The first pattern that matches decides: when pattern `i` matches `u` and
/// none before it does, the result is its groups, a group that did not take
/// part read as empty; when none matches, there is no result.
pub proof fn law_first_matching_pattern_decides(pats: Seq<Seq<char>>, u: Seq<char>, i: int)
    requires
        0 <= i <= pats.len(),
        forall|j: int| 0 <= j < i ==> regex_captures(#[trigger] pats[j], u) is None,
    ensures
        i < pats.len() && regex_captures(pats[i], u) is Some ==> first_match(pats, u) == Some(
            regex_captures(pats[i], u)->0.map_values(|g: Option<Seq<char>>| match g {
                Some(s) => s,
                None => Seq::<char>::empty(),
            }),
        ),
        i == pats.len() ==> first_match(pats, u) is None,
    decreases i,
{
    lemma_first_match_skip(pats, u, i);
    if i < pats.len() {
        assert(pats.skip(i)[0] == pats[i]);
    } else {
        assert(pats.skip(i).len() == 0);
    }
}

/// A URL naming the Hugging Face host, and either not `github` or matching no
/// GitHub pattern, gets exactly the groups of the first Hugging Face pattern
/// that matches it, in their documented order, whatever else the URL holds (a
/// query such as `?download=true` included).
pub proof fn law_hf_urls_get_first_hf_match(u: Seq<char>)
    requires
        contains_seq(u, "huggingface.co"@),
        !contains_seq(u, "github"@) || first_match(
            seq![EXP_RELEASE@, EXP_BLOB@, EXP_GIT@, EXP_TREE@, EXP_REPO@, EXP_RAW@, EXP_GIST@],
            u,
        ) is None,
    ensures
        match_url_spec(u) == first_match(
            seq![
                EXP_HF_DATASET_GIT@,
                EXP_HF_DATASET_GIT_ROOT@,
                EXP_HF_SPACES_GIT@,
                EXP_HF_GIT@,
                EXP_HF_GIT_ROOT@,
                EXP_HF_REPO@,
            ],
            u,
        ),
{
}

/// A URL naming `github` that a GitHub pattern matches gets the groups of the
/// first such pattern, whatever else the URL holds.
pub proof fn law_github_urls_get_first_github_match(u: Seq<char>)
    requires
        contains_seq(u, "github"@),
        first_match(
            seq![EXP_RELEASE@, EXP_BLOB@, EXP_GIT@, EXP_TREE@, EXP_REPO@, EXP_RAW@, EXP_GIST@],
            u,
        ) is Some,
    ensures
        match_url_spec(u) == first_match(
            seq![EXP_RELEASE@, EXP_BLOB@, EXP_GIT@, EXP_TREE@, EXP_REPO@, EXP_RAW@, EXP_GIST@],
            u,
        ),
{
}

/// A URL that `match_url` accepts names a GitHub or a Hugging Face host.
pub proof fn law_matched_urls_name_a_known_host(u: Seq<char>)
    requires
        match_url_spec(u) is Some,
    ensures
        mentions_github(u) || mentions_hf(u),
{
}

/// A Hugging Face URL with a `/blob/` segment is a blob URL.
pub proof fn law_hf_blob_segment_is_blob(u: Seq<char>)
    requires
        mentions_hf(u),
        contains_seq(u, "/blob/"@),
    ensures
        is_blob_spec(u),
{
}

} // verus!
