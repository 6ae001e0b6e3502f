//! Turning a working tree's remote into a revision-pinned retrieval URL.

use vstd::prelude::*;
use vstd::string::*;
use crate::text::{ends_with, find_char, first_index_of, has_suffix, lemma_first_index_of, same_text};

verus! {

/// The parts of a parsed URL that the providers need.
#[derive(Debug)]
pub struct RemoteUrl {
    /// The URL as its parser writes it back out.
    pub serialized: String,
    /// The host, where it is a domain name.
    pub domain: Option<String>,
    /// The path split at `/`, where the URL has a hierarchical path.
    pub segments: Option<Vec<String>>,
}

/// What a URL parser makes of a text: its serialization, its domain and its
/// path segments, or nothing where the text is no valid URL.
pub uninterp spec fn parsed_url(s: Seq<char>) -> Option<
    (Seq<char>, Option<Seq<char>>, Option<Seq<Seq<char>>>),
>;

pub open spec fn strings_view(v: Seq<String>) -> Seq<Seq<char>> {
    v.map_values(|x: String| x@)
}

pub open spec fn opt_view(o: Option<String>) -> Option<Seq<char>> {
    match o {
        Some(x) => Some(x@),
        None => None,
    }
}

pub open spec fn url_parts(u: RemoteUrl) -> (
    Seq<char>,
    Option<Seq<char>>,
    Option<Seq<Seq<char>>>,
) {
    (
        u.serialized@,
        opt_view(u.domain),
        match u.segments {
            Some(v) => Some(strings_view(v@)),
            None => None,
        },
    )
}

/// Relies on url::Url::parse, read back through Url::as_str, Url::domain and
/// Url::path_segments: the parse depends on the text alone.
#[verifier::external_body]
fn parse_url(s: &str) -> (r: Option<RemoteUrl>)
    ensures
        match r {
            Some(u) => parsed_url(s@) == Some(url_parts(u)),
            None => parsed_url(s@) is None,
        },
{
    match url::Url::parse(s) {
        Ok(u) => Some(RemoteUrl {
            serialized: u.as_str().to_string(),
            domain: u.domain().map(|d| d.to_string()),
            segments: u.path_segments().map(|p| p.map(|x| x.to_string()).collect()),
        }),
        Err(_) => None,
    }
}

/// The GitHub contents URL of repository `user/repo` at `rev`.
pub open spec fn github_spec(segs: Seq<Seq<char>>, rev: Seq<char>) -> Option<Seq<char>> {
    if segs.len() >= 2 {
        Some(
            "https://api.github.com/repos/"@ + segs[0] + "/"@ + segs[1] + "/contents/*?ref="@
                + rev,
        )
    } else {
        None
    }
}

/// The Azure DevOps items URL: the organization is the domain's first label,
/// the project the second path segment and the repository the fourth.
pub open spec fn azure_spec(domain: Seq<char>, segs: Seq<Seq<char>>, rev: Seq<char>) -> Option<
    Seq<char>,
> {
    if segs.len() >= 4 {
        Some(
            "https://dev.azure.com/"@ + domain.subrange(0, first_index_of(domain, '.')) + "/"@
                + segs[1] + "/_apis/git/repositories/"@ + segs[3]
                + "/items?versionDescriptor.versionType=commit&versionDescriptor.version="@ + rev
                + "&api-version=5.1&path=/*"@,
        )
    } else {
        None
    }
}

/// The retrieval URL template for a remote with this domain and path, at
/// revision `rev`; nothing for other providers or too short a path.
pub open spec fn template_spec(
    domain: Option<Seq<char>>,
    segs: Option<Seq<Seq<char>>>,
    rev: Seq<char>,
) -> Option<Seq<char>> {
    match (domain, segs) {
        (Some(d), Some(sg)) => if d == "github.com"@ {
            github_spec(sg, rev)
        } else if has_suffix(d, "visualstudio.com"@) {
            azure_spec(d, sg, rev)
        } else {
            None
        },
        _ => None,
    }
}

/// The retrieval URL for the remote written `remote` at revision `rev`: the
/// provider's template, as the URL parser writes it back out.
pub open spec fn generated_url(remote: Seq<char>, rev: Seq<char>) -> Option<Seq<char>> {
    match parsed_url(remote) {
        Some(p) => match template_spec(p.1, p.2, rev) {
            Some(t) => match parsed_url(t) {
                Some(q) => Some(q.0),
                None => None,
            },
            None => None,
        },
        None => None,
    }
}

fn github_url(segs: &Vec<String>, revision: &str) -> (r: Option<String>)
    ensures
        opt_view(r) == github_spec(strings_view(segs@), revision@),
{
    if segs.len() < 2 {
        return None;
    }
    let mut s = String::new();
    s.append("https://api.github.com/repos/");
    s.append(segs[0].as_str());
    s.append("/");
    s.append(segs[1].as_str());
    s.append("/contents/*?ref=");
    s.append(revision);
    Some(s)
}

fn azure_devops_url(domain: &str, segs: &Vec<String>, revision: &str) -> (r: Option<String>)
    ensures
        opt_view(r) == azure_spec(domain@, strings_view(segs@), revision@),
{
    if segs.len() < 4 {
        return None;
    }
    let dot = find_char(domain, '.');
    proof {
        lemma_first_index_of(domain@, '.');
    }
    let mut s = String::new();
    s.append("https://dev.azure.com/");
    s.append(domain.substring_char(0, dot));
    s.append("/");
    s.append(segs[1].as_str());
    s.append("/_apis/git/repositories/");
    s.append(segs[3].as_str());
    s.append("/items?versionDescriptor.versionType=commit&versionDescriptor.version=");
    s.append(revision);
    s.append("&api-version=5.1&path=/*");
    Some(s)
}

/// The retrieval URL template of a parsed remote at `revision`: GitHub for
/// the domain `github.com`, Azure DevOps for domains ending in
/// `visualstudio.com`. Other domains, hosts that are no domain, and paths
/// with too few segments give nothing.
pub fn url_template(remote: &RemoteUrl, revision: &str) -> (r: Option<String>)
    ensures
        opt_view(r) == template_spec(
            url_parts(*remote).1,
            url_parts(*remote).2,
            revision@,
        ),
{
    match (&remote.domain, &remote.segments) {
        (Some(d), Some(segs)) => {
            if same_text(d.as_str(), "github.com") {
                github_url(segs, revision)
            } else if ends_with(d.as_str(), "visualstudio.com") {
                azure_devops_url(d.as_str(), segs, revision)
            } else {
                None
            }
        },
        _ => None,
    }
}

/// The retrieval URL for the remote written `remote_url` at `revision`, or
/// nothing where the remote does not parse, its provider is not supported,
/// or the URL built for it does not parse.
pub fn generate_url(remote_url: &str, revision: &str) -> (r: Option<String>)
    ensures
        opt_view(r) == generated_url(remote_url@, revision@),
{
    let remote = match parse_url(remote_url) {
        Some(u) => u,
        None => return None,
    };
    let template = match url_template(&remote, revision) {
        Some(t) => t,
        None => return None,
    };
    match parse_url(template.as_str()) {
        Some(u) => Some(u.serialized),
        None => None,
    }
}

/// What was read from one resolved working tree: its root, the URL of its
/// remote `origin` where it has one, and the revision checked out at head.
#[derive(Debug)]
pub struct RepoRemote {
    pub root: String,
    pub origin_url: Option<String>,
    pub revision: String,
}

/// One entry of a source mapping: a wildcard path key and its retrieval URL.
#[derive(Debug)]
pub struct SourceMapping {
    pub key: String,
    pub url: String,
}

/// The wildcard key of a working-tree root: the root joined with `*`.
pub open spec fn key_spec(root: Seq<char>) -> Seq<char> {
    if root.len() == 0 {
        "*"@
    } else if root.last() == '/' {
        root + "*"@
    } else {
        root + "/*"@
    }
}

/// `s` with the value of key `k` set to `v`: in place where `k` is already
/// there, else added at the end.
pub open spec fn upsert(s: Seq<(Seq<char>, Seq<char>)>, k: Seq<char>, v: Seq<char>) -> Seq<
    (Seq<char>, Seq<char>),
>
    decreases s.len(),
{
    if s.len() == 0 {
        seq![(k, v)]
    } else if s[0].0 == k {
        seq![(k, v)] + s.skip(1)
    } else {
        seq![s[0]] + upsert(s.skip(1), k, v)
    }
}

/// The retrieval URL of one working tree, where it has an origin whose URL
/// can be generated.
pub open spec fn repo_url(repo: RepoRemote) -> Option<Seq<char>> {
    match repo.origin_url {
        Some(u) => generated_url(u@, repo.revision@),
        None => None,
    }
}

/// The mapping made from `repos` in order: each repository with an origin
/// whose URL can be generated sets its key, later ones replacing earlier.
pub open spec fn mapping_spec(repos: Seq<RepoRemote>) -> Seq<(Seq<char>, Seq<char>)>
    decreases repos.len(),
{
    if repos.len() == 0 {
        seq![]
    } else {
        let prev = mapping_spec(repos.drop_last());
        let last = repos.last();
        match repo_url(last) {
            Some(url) => upsert(prev, key_spec(last.root@), url),
            None => prev,
        }
    }
}

pub open spec fn entries_view(v: Seq<SourceMapping>) -> Seq<(Seq<char>, Seq<char>)> {
    v.map_values(|e: SourceMapping| (e.key@, e.url@))
}

/// Whether no key occurs twice.
pub open spec fn keys_unique(s: Seq<(Seq<char>, Seq<char>)>) -> bool {
    forall|i: int, j: int| 0 <= i < j < s.len() ==> s[i].0 != s[j].0
}

/// The wildcard key under which the sources of a working tree are mapped.
pub fn mapping_key(root: &str) -> (r: String)
    ensures
        r@ == key_spec(root@),
{
    let n = root.unicode_len();
    if n == 0 {
        return String::from_str("*");
    }
    let mut s = String::from_str(root);
    if root.get_char(n - 1) == '/' {
        s.append("*");
    } else {
        s.append("/*");
    }
    s
}

/// A remote whose domain is neither `github.com` nor ends in
/// `visualstudio.com` gets no URL template.
pub proof fn lemma_unsupported_domain(
    domain: Seq<char>,
    segs: Option<Seq<Seq<char>>>,
    rev: Seq<char>,
)
    requires
        domain != "github.com"@,
        !has_suffix(domain, "visualstudio.com"@),
    ensures
        template_spec(Some(domain), segs, rev) is None,
{
}

/// A working tree that yields no URL (no origin, an origin that does not
/// parse, an unsupported provider) adds no entry and leaves the entries of
/// all the other trees of the batch as they would be without it.
pub proof fn lemma_unmapped_repo_skipped(a: Seq<RepoRemote>, x: RepoRemote, b: Seq<RepoRemote>)
    requires
        repo_url(x) is None,
    ensures
        mapping_spec(a.push(x) + b) == mapping_spec(a + b),
    decreases b.len(),
{
    if b.len() == 0 {
        assert(a.push(x) + b =~= a.push(x));
        assert(a + b =~= a);
        assert(a.push(x).drop_last() =~= a);
    } else {
        lemma_unmapped_repo_skipped(a, x, b.drop_last());
        assert((a.push(x) + b).drop_last() =~= a.push(x) + b.drop_last());
        assert((a + b).drop_last() =~= a + b.drop_last());
    }
}

/// Setting a key keeps the keys unique, and the key is then present with
/// the value set.
pub proof fn lemma_upsert_unique(s: Seq<(Seq<char>, Seq<char>)>, k: Seq<char>, v: Seq<char>)
    requires
        keys_unique(s),
    ensures
        keys_unique(upsert(s, k, v)),
        exists|i: int| 0 <= i < upsert(s, k, v).len() && upsert(s, k, v)[i] == (k, v),
        forall|i: int| 0 <= i < upsert(s, k, v).len() ==> upsert(s, k, v)[i].0 == k || exists|
            j: int,
        | 0 <= j < s.len() && s[j].0 == upsert(s, k, v)[i].0,
    decreases s.len(),
{
    let u = upsert(s, k, v);
    if s.len() == 0 {
        assert(u[0] == (k, v));
    } else if s[0].0 == k {
        assert(u[0] == (k, v));
        assert forall|i: int| 0 <= i < u.len() implies u[i].0 == k || exists|j: int|
            0 <= j < s.len() && s[j].0 == u[i].0 by {
            if i > 0 {
                assert(u[i] == s[i]);
            }
        }
    } else {
        let t = s.skip(1);
        assert forall|i: int, j: int| 0 <= i < j < t.len() implies t[i].0 != t[j].0 by {
            assert(t[i] == s[i + 1] && t[j] == s[j + 1]);
        }
        lemma_upsert_unique(t, k, v);
        let w = upsert(t, k, v);
        assert(u == seq![s[0]] + w);
        let i0 = choose|i: int| 0 <= i < w.len() && w[i] == (k, v);
        assert(u[i0 + 1] == (k, v));
        assert forall|i: int| 0 <= i < u.len() implies u[i].0 == k || exists|j: int|
            0 <= j < s.len() && s[j].0 == u[i].0 by {
            if i == 0 {
                assert(s[0].0 == u[0].0);
            } else {
                assert(u[i] == w[i - 1]);
                if w[i - 1].0 != k {
                    let j = choose|j: int| 0 <= j < t.len() && t[j].0 == w[i - 1].0;
                    assert(s[j + 1] == t[j]);
                }
            }
        }
        assert forall|i: int, j: int| 0 <= i < j < u.len() implies u[i].0 != u[j].0 by {
            if i == 0 {
                assert(u[j] == w[j - 1]);
                if w[j - 1].0 != k {
                    let m = choose|m: int| 0 <= m < t.len() && t[m].0 == w[j - 1].0;
                    assert(s[m + 1] == t[m]);
                }
            } else {
                assert(u[i] == w[i - 1] && u[j] == w[j - 1]);
            }
        }
    }
}

/// No two entries of a mapping share a key.
pub proof fn lemma_mapping_keys_unique(repos: Seq<RepoRemote>)
    ensures
        keys_unique(mapping_spec(repos)),
    decreases repos.len(),
{
    if repos.len() > 0 {
        lemma_mapping_keys_unique(repos.drop_last());
        let last = repos.last();
        if let Some(url) = repo_url(last) {
            lemma_upsert_unique(mapping_spec(repos.drop_last()), key_spec(last.root@), url);
        }
    }
}

proof fn lemma_upsert_step(s: Seq<(Seq<char>, Seq<char>)>, i: int, k: Seq<char>, v: Seq<char>)
    requires
        0 <= i < s.len(),
        s[i].0 != k,
    ensures
        upsert(s.skip(i), k, v) == seq![s[i]] + upsert(s.skip(i + 1), k, v),
{
    assert(s.skip(i).skip(1) =~= s.skip(i + 1));
}

fn upsert_entry(entries: &mut Vec<SourceMapping>, key: String, url: String)
    ensures
        entries_view(final(entries)@) == upsert(entries_view(old(entries)@), key@, url@),
{
    let ghost s = entries_view(old(entries)@);
    assert(s.take(0) + s.skip(0) =~= s.skip(0));
    assert(s.skip(0) =~= s);
    let mut i: usize = 0;
    while i < entries.len()
        invariant
            i <= entries@.len(),
            entries@ == old(entries)@,
            entries_view(entries@) == s,
            upsert(s, key@, url@) == s.take(i as int) + upsert(s.skip(i as int), key@, url@),
        decreases entries@.len() - i,
    {
        if same_text(entries[i].key.as_str(), key.as_str()) {
            proof {
                assert(s.skip(i as int).skip(1) =~= s.skip(i + 1));
                assert(s[i as int].0 == key@);
                assert(s.skip(i as int)[0] == s[i as int]);
                assert(s.skip(i as int).len() > 0);
                assert(upsert(s.skip(i as int), key@, url@) == seq![(key@, url@)] + s.skip(i + 1));
            }
            let ghost kv = (key@, url@);
            entries.set(i, SourceMapping { key, url });
            assert(entries_view(entries@) =~= s.take(i as int) + (seq![kv] + s.skip(i + 1)));
            assert(entries_view(entries@) == upsert(s, kv.0, kv.1));
            return;
        }
        proof {
            lemma_upsert_step(s, i as int, key@, url@);
            assert(s.take(i as int) + (seq![s[i as int]] + upsert(s.skip(i + 1), key@, url@))
                =~= s.take(i + 1) + upsert(s.skip(i + 1), key@, url@));
        }
        i = i + 1;
    }
    proof {
        assert(s.skip(i as int) =~= Seq::<(Seq<char>, Seq<char>)>::empty());
        assert(s.take(i as int) =~= s);
    }
    let ghost kv = (key@, url@);
    entries.push(SourceMapping { key, url });
    assert(entries_view(entries@) =~= s + seq![kv]);
}

/// Builds the source mapping of a list of resolved working trees. A tree
/// without an origin, with an origin that does not parse or whose provider
/// is not supported gets no entry; the others are still mapped.
pub fn generate_mapping(repos: &Vec<RepoRemote>) -> (r: Vec<SourceMapping>)
    ensures
        entries_view(r@) == mapping_spec(repos@),
        keys_unique(entries_view(r@)),
{
    proof {
        lemma_mapping_keys_unique(repos@);
    }
    let mut entries: Vec<SourceMapping> = Vec::new();
    let mut i: usize = 0;
    while i < repos.len()
        invariant
            i <= repos@.len(),
            entries_view(entries@) == mapping_spec(repos@.take(i as int)),
        decreases repos@.len() - i,
    {
        let repo = &repos[i];
        proof {
            assert(repos@.take(i + 1).drop_last() =~= repos@.take(i as int));
            assert(repos@.take(i + 1).last() == repos@[i as int]);
        }
        match &repo.origin_url {
            Some(u) => match generate_url(u.as_str(), repo.revision.as_str()) {
                Some(url) => {
                    let key = mapping_key(repo.root.as_str());
                    upsert_entry(&mut entries, key, url);
                },
                None => {},
            },
            None => {},
        }
        i = i + 1;
    }
    assert(repos@.take(i as int) =~= repos@);
    entries
}

} // verus!
