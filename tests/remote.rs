use sourcelynk::document::source_link_document;
use sourcelynk::remote::{generate_mapping, generate_url, mapping_key, url_template, RemoteUrl, RepoRemote, SourceMapping};

fn remote(domain: Option<&str>, segs: &[&str]) -> RemoteUrl {
    RemoteUrl {
        serialized: String::new(),
        domain: domain.map(|d| d.to_string()),
        segments: Some(segs.iter().map(|s| s.to_string()).collect()),
    }
}

fn repo(root: &str, origin: Option<&str>, rev: &str) -> RepoRemote {
    RepoRemote { root: root.to_string(), origin_url: origin.map(|o| o.to_string()), revision: rev.to_string() }
}

#[test]
fn github_template() {
    let r = remote(Some("github.com"), &["acme", "widgets"]);
    assert_eq!(
        url_template(&r, "abc123"),
        Some("https://api.github.com/repos/acme/widgets/contents/*?ref=abc123".to_string())
    );
    assert_eq!(url_template(&remote(Some("github.com"), &["acme"]), "abc123"), None);
}

#[test]
fn github_url_from_origin() {
    assert_eq!(
        generate_url("https://github.com/acme/widgets", "abc123"),
        Some("https://api.github.com/repos/acme/widgets/contents/*?ref=abc123".to_string())
    );
    assert_eq!(
        generate_url("https://github.com/acme/widgets.git", "abc123"),
        Some("https://api.github.com/repos/acme/widgets.git/contents/*?ref=abc123".to_string())
    );
}

#[test]
fn azure_devops_template() {
    let r = remote(Some("contoso.visualstudio.com"), &["DefaultCollection", "proj", "_git", "widgets"]);
    assert_eq!(
        url_template(&r, "def456"),
        Some("https://dev.azure.com/contoso/proj/_apis/git/repositories/widgets/items?versionDescriptor.versionType=commit&versionDescriptor.version=def456&api-version=5.1&path=/*".to_string())
    );
}

#[test]
fn azure_devops_url_from_origin() {
    let url = generate_url("https://contoso.visualstudio.com/DefaultCollection/proj/_git/widgets", "def456").unwrap();
    assert!(url.starts_with("https://dev.azure.com/contoso/proj/_apis/git/repositories/widgets/items?"));
    assert!(url.contains("versionDescriptor.version=def456"));
}

#[test]
fn azure_devops_with_too_few_segments_is_unsupported() {
    assert_eq!(generate_url("https://contoso.visualstudio.com/proj/_git/widgets", "def456"), None);
}

#[test]
fn unsupported_domain_gives_nothing() {
    assert_eq!(url_template(&remote(Some("gitlab.example.com"), &["a", "b", "c", "d"]), "abc"), None);
    assert_eq!(generate_url("https://gitlab.example.com/acme/widgets.git", "abc"), None);
    assert_eq!(url_template(&remote(None, &["a", "b"]), "abc"), None);
}

#[test]
fn unparseable_remote_gives_nothing() {
    assert_eq!(generate_url("not a url", "abc"), None);
    assert_eq!(generate_url("git@github.com:acme/widgets.git", "abc"), None);
}

#[test]
fn mapping_keys() {
    assert_eq!(mapping_key("/src/app/"), "/src/app/*");
    assert_eq!(mapping_key("/src/app"), "/src/app/*");
    assert_eq!(mapping_key(""), "*");
}

#[test]
fn unsupported_repository_does_not_stop_the_batch() {
    let repos = vec![
        repo("/a/", Some("https://gitlab.example.com/acme/x.git"), "111"),
        repo("/b/", None, "222"),
        repo("/c/", Some("https://github.com/acme/widgets"), "333"),
    ];
    let m = generate_mapping(&repos);
    assert_eq!(m.len(), 1);
    assert_eq!(m[0].key, "/c/*");
    assert_eq!(m[0].url, "https://api.github.com/repos/acme/widgets/contents/*?ref=333");
}

#[test]
fn later_repository_replaces_same_key() {
    let repos = vec![
        repo("/a/", Some("https://github.com/acme/one"), "111"),
        repo("/b/", Some("https://github.com/acme/two"), "222"),
        repo("/a", Some("https://github.com/acme/three"), "333"),
    ];
    let m = generate_mapping(&repos);
    assert_eq!(m.len(), 2);
    assert_eq!(m[0].key, "/a/*");
    assert_eq!(m[0].url, "https://api.github.com/repos/acme/three/contents/*?ref=333");
    assert_eq!(m[1].key, "/b/*");
}

#[test]
fn document_of_empty_mapping_is_none() {
    assert_eq!(source_link_document(&Vec::new()), None);
}

#[test]
fn document_text() {
    let entries = vec![SourceMapping { key: "/src/app/*".to_string(), url: "https://x/y".to_string() }];
    assert_eq!(
        source_link_document(&entries),
        Some(r#"{"documents":{"/src/app/*":"https://x/y"}}"#.to_string())
    );
}
