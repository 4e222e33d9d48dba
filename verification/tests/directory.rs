use yara_x_binja::directory::{expand, normalize_directory, resolve_directory};

#[test]
fn expand_replaces_every_marker() {
    assert_eq!(expand("~/rules", "/home/ana"), "/home/ana/rules");
    assert_eq!(expand("~/a/~/b", "/h"), "/h/a//h/b");
    assert_eq!(expand("a~b", "X"), "aXb");
}

#[test]
fn expand_keeps_a_path_without_marker() {
    assert_eq!(expand("/opt/rules", "/home/ana"), "/opt/rules");
    assert_eq!(expand("", "/home/ana"), "");
}

#[test]
fn expand_with_empty_home_drops_the_marker() {
    assert_eq!(expand("~/rules~", ""), "/rules");
}

#[test]
fn normalize_expands_home_and_appends_separator() {
    assert_eq!(normalize_directory("~/rules", Some("/home/ana"), '/'), "/home/ana/rules/");
}

#[test]
fn normalize_keeps_trailing_separator() {
    assert_eq!(normalize_directory("/opt/rules/", Some("/home/ana"), '/'), "/opt/rules/");
    assert_eq!(normalize_directory("/", None, '/'), "/");
}

#[test]
fn normalize_leaves_marker_without_home() {
    assert_eq!(normalize_directory("~/rules", None, '/'), "~/rules/");
}

#[test]
fn normalize_of_empty_path_is_the_separator() {
    assert_eq!(normalize_directory("", None, '/'), "/");
    assert_eq!(normalize_directory("", Some("/home/ana"), '\\'), "\\");
}

#[test]
fn normalize_with_backslash_separator() {
    assert_eq!(normalize_directory(".\\rules", None, '\\'), ".\\rules\\");
    assert_eq!(normalize_directory("~\\rules\\", Some("C:\\Users\\ana"), '\\'), "C:\\Users\\ana\\rules\\");
    assert_eq!(normalize_directory("./rules/", None, '\\'), "./rules/\\");
}

#[test]
fn normalize_handles_characters_beyond_ascii() {
    assert_eq!(normalize_directory("~/règles/規則", Some("/home/zoë"), '/'), "/home/zoë/règles/規則/");
}

#[test]
fn normalize_is_idempotent_on_examples() {
    let cases = [
        ("~/rules", Some("/home/ana")),
        ("./rules", None),
        ("~", Some("/root")),
        ("", Some("/root")),
        ("/a/b/", None),
        ("~/x/~", None),
        ("~/x", Some("~")),
    ];
    for (dir, home) in cases {
        let once = normalize_directory(dir, home, '/');
        let twice = normalize_directory(&once, home, '/');
        assert_eq!(twice, once);
    }
}

#[test]
fn normalize_is_not_idempotent_when_home_holds_a_marker() {
    let once = normalize_directory("~/x", Some("/home/~ana"), '/');
    assert_eq!(once, "/home/~ana/x/");
    let twice = normalize_directory(&once, Some("/home/~ana"), '/');
    assert_eq!(twice, "/home//home/~anaana/x/");
    assert_ne!(twice, once);
}

#[test]
fn resolve_ends_with_one_character_after_the_path() {
    let resolved = resolve_directory("rules");
    assert!(resolved.starts_with("rules"));
    assert_eq!(resolved.chars().count(), 6);
    let again = resolve_directory("rules");
    assert_eq!(again, resolved);
}

#[test]
fn resolve_keeps_a_path_without_marker() {
    let separator = resolve_directory("").chars().next().unwrap();
    let mut expected = String::from("/srv/rules");
    if !expected.ends_with(separator) {
        expected.push(separator);
    }
    assert_eq!(resolve_directory("/srv/rules"), expected);
}
