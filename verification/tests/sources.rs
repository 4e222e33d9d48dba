use yara_x_binja::diagnostics::DiagnosticKind;
use yara_x_binja::sources::{collect, DirectoryListing, EntryRead};

fn text(path: &str, text: &str) -> EntryRead {
    EntryRead::Text { path: path.to_string(), text: text.to_string() }
}

fn unreadable(path: &str) -> EntryRead {
    EntryRead::Unreadable { path: path.to_string() }
}

#[test]
fn inline_text_comes_first() {
    let listing = DirectoryListing::Entries { entries: vec![text("/r/a.yar", "rule a {condition: true}")] };
    let collected = collect(Some("rule i {condition: true}"), "/r/", &listing);
    assert_eq!(collected.sources.len(), 2);
    assert_eq!(collected.sources[0].origin, "inline");
    assert_eq!(collected.sources[0].text, "rule i {condition: true}");
    assert_eq!(collected.sources[1].origin, "/r/a.yar");
    assert_eq!(collected.sources[1].text, "rule a {condition: true}");
    assert!(collected.diagnostics.is_empty());
}

#[test]
fn empty_inline_text_gives_no_source() {
    let listing = DirectoryListing::Entries { entries: vec![] };
    assert!(collect(Some(""), "/r/", &listing).sources.is_empty());
    assert!(collect(None, "/r/", &listing).sources.is_empty());
    assert!(collect(None, "/r/", &listing).diagnostics.is_empty());
}

#[test]
fn nonexistent_directory_yields_only_the_inline_source() {
    let collected = collect(Some("rule i {condition: true}"), "/no/such/", &DirectoryListing::Unresolved);
    assert_eq!(collected.sources.len(), 1);
    assert_eq!(collected.sources[0].origin, "inline");
    assert_eq!(collected.diagnostics.len(), 1);
    assert_eq!(collected.diagnostics[0].kind, DiagnosticKind::PathUnresolved);
    assert_eq!(collected.diagnostics[0].subject, "/no/such/");
    assert!(!collected.diagnostics[0].is_error());
}

#[test]
fn nonexistent_directory_without_inline_text_yields_nothing() {
    let collected = collect(None, "/no/such/", &DirectoryListing::Unresolved);
    assert!(collected.sources.is_empty());
    assert_eq!(collected.diagnostics.len(), 1);
}

#[test]
fn path_that_is_no_directory_is_reported_by_its_resolved_path() {
    let listing = DirectoryListing::NotADirectory { resolved: "/etc/passwd".to_string() };
    let collected = collect(None, "/etc/passwd/", &listing);
    assert!(collected.sources.is_empty());
    assert_eq!(collected.diagnostics.len(), 1);
    assert_eq!(collected.diagnostics[0].kind, DiagnosticKind::NotADirectory);
    assert_eq!(collected.diagnostics[0].subject, "/etc/passwd");
}

#[test]
fn unlistable_directory_is_reported() {
    let collected = collect(Some("x"), "/secret/", &DirectoryListing::Unlistable);
    assert_eq!(collected.sources.len(), 1);
    assert_eq!(collected.diagnostics.len(), 1);
    assert_eq!(collected.diagnostics[0].kind, DiagnosticKind::DirectoryUnreadable);
    assert_eq!(collected.diagnostics[0].subject, "/secret/");
}

#[test]
fn unreadable_entries_are_skipped_and_reported() {
    let listing = DirectoryListing::Entries {
        entries: vec![
            unreadable("/r/bin.dat"),
            text("/r/a.yar", "A"),
            unreadable("/r/locked.yar"),
            text("/r/b.yar", "B"),
        ],
    };
    let collected = collect(None, "/r/", &listing);
    let origins: Vec<&str> = collected.sources.iter().map(|s| s.origin.as_str()).collect();
    assert_eq!(origins, vec!["/r/a.yar", "/r/b.yar"]);
    let texts: Vec<&str> = collected.sources.iter().map(|s| s.text.as_str()).collect();
    assert_eq!(texts, vec!["A", "B"]);
    let reported: Vec<&str> = collected.diagnostics.iter().map(|d| d.subject.as_str()).collect();
    assert_eq!(reported, vec!["/r/bin.dat", "/r/locked.yar"]);
    assert!(collected.diagnostics.iter().all(|d| d.kind == DiagnosticKind::EntryUnreadable));
}

#[test]
fn entry_with_empty_text_is_still_a_source() {
    let listing = DirectoryListing::Entries { entries: vec![text("/r/empty.yar", "")] };
    let collected = collect(None, "/r/", &listing);
    assert_eq!(collected.sources.len(), 1);
    assert_eq!(collected.sources[0].text, "");
}
