use hub_proxy::matcher::{
    groups_from_captures, is_blob, is_hf, match_first, match_url, EXP_GIST, EXP_REPO, EXP_TREE,
};

fn s(v: &str) -> String {
    v.to_string()
}

#[test]
fn test_match_url() {
    let cases: &[(&str, &str, Option<Vec<String>>)] = &[
        (
            "release",
            "https://github.com/user/repo/releases/download/v1/file.zip",
            Some(vec![s("user"), s("repo")]),
        ),
        (
            "archive",
            "https://github.com/user/repo/archive/main.zip",
            Some(vec![s("user"), s("repo")]),
        ),
        (
            "blob",
            "https://github.com/user/repo/blob/main/README.md",
            Some(vec![s("user"), s("repo")]),
        ),
        (
            "raw on github.com",
            "https://github.com/user/repo/raw/main/file.txt",
            Some(vec![s("user"), s("repo")]),
        ),
        (
            "git info",
            "https://github.com/user/repo/info/refs",
            Some(vec![s("user"), s("repo")]),
        ),
        (
            "git-upload-pack",
            "https://github.com/user/repo/git-upload-pack",
            Some(vec![s("user"), s("repo")]),
        ),
        (
            "raw subdomain",
            "https://raw.githubusercontent.com/user/repo/main/file.txt",
            Some(vec![s("user"), s("repo")]),
        ),
        (
            "raw github short",
            "https://raw.github.com/user/repo/main/file.txt",
            Some(vec![s("user"), s("repo")]),
        ),
        (
            "gist",
            "https://gist.githubusercontent.com/user/abcdef/raw/file.txt",
            Some(vec![s("user")]),
        ),
        (
            "no scheme",
            "github.com/user/repo/releases/v1/x",
            Some(vec![s("user"), s("repo")]),
        ),
        (
            "http scheme",
            "http://github.com/user/repo/blob/main/x",
            Some(vec![s("user"), s("repo")]),
        ),
        (
            "github root",
            "https://github.com/user/repo",
            Some(vec![s("user"), s("repo")]),
        ),
        (
            "github tree",
            "https://github.com/user/repo/tree/main",
            Some(vec![s("user"), s("repo")]),
        ),
        (
            "github tag",
            "https://github.com/user/repo/tag/v1.0",
            Some(vec![s("user"), s("repo")]),
        ),
        (
            "www github",
            "https://www.github.com/user/repo",
            Some(vec![s("user"), s("repo")]),
        ),
        (
            "hf repo",
            "https://huggingface.co/user/repo",
            Some(vec![s("user"), s("repo")]),
        ),
        (
            "hf model",
            "https://huggingface.co/gpt2",
            Some(vec![s("gpt2"), s("")]),
        ),
        (
            "non-github",
            "https://example.com/user/repo/blob/main/x",
            None,
        ),
    ];
    for (name, url, want) in cases {
        let got = match_url(url);
        assert_eq!(&got, want, "case {name}: match_url({url:?})");
    }
}

#[test]
fn test_match_hf_url() {
    let cases: &[(&str, &str, Option<Vec<String>>)] = &[
        (
            "hf model git info",
            "https://huggingface.co/gpt2/info/refs",
            Some(vec![s("gpt2")]),
        ),
        (
            "hf user model git info",
            "https://huggingface.co/user/repo/info/refs",
            Some(vec![s("user"), s("repo")]),
        ),
        (
            "hf dataset git info",
            "https://huggingface.co/datasets/user/repo/info/refs",
            Some(vec![s("datasets/user"), s("repo")]),
        ),
        (
            "hf dataset root git info",
            "https://huggingface.co/datasets/glue/info/refs",
            Some(vec![s("datasets/glue")]),
        ),
        (
            "hf model root git upload pack",
            "https://huggingface.co/gpt2/git-upload-pack",
            Some(vec![s("gpt2")]),
        ),
        (
            "hf space git info",
            "https://huggingface.co/spaces/user/repo/info/refs",
            Some(vec![s("spaces/user"), s("repo")]),
        ),
        (
            "hf model git upload pack",
            "https://huggingface.co/user/repo/git-upload-pack",
            Some(vec![s("user"), s("repo")]),
        ),
        (
            "hf model resolve",
            "https://huggingface.co/user/repo/resolve/main/config.json",
            Some(vec![s("user"), s("repo")]),
        ),
        (
            "hf model blob",
            "https://huggingface.co/user/repo/blob/main/README.md",
            Some(vec![s("user"), s("repo")]),
        ),
    ];
    for (name, url, want) in cases {
        let got = match_url(url);
        assert_eq!(&got, want, "case {name}: match_url({url:?})");
    }
}

#[test]
fn test_is_blob() {
    assert!(is_blob("https://github.com/user/repo/blob/main/README.md"));
    assert!(is_blob("https://huggingface.co/user/repo/blob/main/x"));
    assert!(!is_blob(
        "https://github.com/user/repo/releases/download/v1/file.zip"
    ));
}

#[test]
fn test_is_hf() {
    assert!(is_hf("https://huggingface.co/gpt2"));
    assert!(!is_hf("https://github.com/user/repo"));
}

#[test]
fn groups_fill_missing_with_empty() {
    let groups = groups_from_captures(vec![Some(s("gpt2")), None, Some(s("x"))]);
    assert_eq!(groups, vec![s("gpt2"), s(""), s("x")]);
    assert_eq!(groups_from_captures(vec![]), Vec::<String>::new());
}

#[test]
fn github_word_alone_is_not_enough() {
    // Mentions "github" but matches no pattern, and names no Hugging Face host.
    assert_eq!(match_url("https://example.com/github"), None);
    // A Hugging Face URL is only tried against the Hugging Face patterns.
    assert_eq!(
        match_url("huggingface.co/user/repo"),
        Some(vec![s("user"), s("repo")])
    );
}

#[test]
fn gist_on_github_host() {
    assert_eq!(
        match_url("https://gist.github.com/user/abc/raw/f.txt"),
        Some(vec![s("user")])
    );
}

#[test]
fn raw_downloads_are_not_blob_pages() {
    assert!(!is_blob("https://github.com/user/repo/raw/main/file.txt"));
    assert!(is_blob("github.com/user/repo/blob/main/x"));
    assert!(!is_blob("https://huggingface.co/user/repo/resolve/main/x"));
}

#[test]
fn match_first_picks_the_first_matching_pattern() {
    let exps = [EXP_TREE, EXP_REPO, EXP_GIST];
    assert_eq!(
        match_first(&exps, "https://github.com/u/r"),
        Some(vec![s("u"), s("r")])
    );
    assert_eq!(
        match_first(&exps, "https://gist.github.com/u/x/y"),
        Some(vec![s("u")])
    );
    assert_eq!(match_first(&exps, "https://example.com/"), None);
    assert_eq!(match_first(&[], "https://github.com/u/r"), None);
}
