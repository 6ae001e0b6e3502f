use sourcelynk::document::source_link_document;
use sourcelynk::magic::{classify, is_possible_symbol_type};
use sourcelynk::remote::{generate_mapping, RepoRemote};
use sourcelynk::resolve::{select_repositories, SourceLookup};

fn elf(kind: u8) -> Vec<u8> {
    let mut h = vec![0u8; 64];
    h[..4].copy_from_slice(b"\x7FELF");
    h[5] = 1;
    h[16] = kind;
    h
}

/// Runs the pipeline on one file with a stand-in parser; returns the
/// document and whether the parser was asked.
fn run(bytes: &[u8], parser: &mut dyn FnMut() -> Vec<String>) -> (Option<String>, bool) {
    let t = classify(&bytes[..32], bytes.len() as u64);
    if !is_possible_symbol_type(t) {
        return (None, false);
    }
    let sources = parser();
    let lookups: Vec<SourceLookup> = sources
        .iter()
        .map(|s| SourceLookup {
            root: if s.starts_with("/work/widgets/") { Some("/work/widgets/".to_string()) } else { None },
            committed: s.ends_with(".c"),
        })
        .collect();
    let repos: Vec<RepoRemote> = select_repositories(&lookups)
        .into_iter()
        .map(|i| RepoRemote {
            root: lookups[i].root.clone().unwrap(),
            origin_url: Some("https://github.com/acme/widgets".to_string()),
            revision: "abc123".to_string(),
        })
        .collect();
    let mapping = generate_mapping(&repos);
    (source_link_document(&mapping), true)
}

#[test]
fn executable_in_github_repository_gets_one_entry() {
    let mut parser = || vec!["/work/widgets/main.c".to_string()];
    let (doc, asked) = run(&elf(2), &mut parser);
    assert!(asked);
    assert_eq!(
        doc,
        Some(r#"{"documents":{"/work/widgets/*":"https://api.github.com/repos/acme/widgets/contents/*?ref=abc123"}}"#.to_string())
    );
}

#[test]
fn relocatable_object_is_never_parsed() {
    let mut parser = || -> Vec<String> { panic!("parser called") };
    let (doc, asked) = run(&elf(1), &mut parser);
    assert!(!asked);
    assert_eq!(doc, None);
}
