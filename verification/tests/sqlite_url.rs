use shortcodes::sqlite_url::{sqlite_file_path_from_url, sqlite_file_to_create};

#[test]
fn memory_url_has_no_file_path() {
    assert_eq!(sqlite_file_path_from_url("sqlite::memory:"), None);
}

#[test]
fn path_follows_the_scheme_and_slashes() {
    assert_eq!(sqlite_file_path_from_url("sqlite://./shortcodes.db"), Some("./shortcodes.db"));
    assert_eq!(sqlite_file_path_from_url("sqlite:///abs/path.sqlite"), Some("/abs/path.sqlite"));
    assert_eq!(sqlite_file_path_from_url("sqlite://data/db.sqlite?mode=rwc"), Some("data/db.sqlite?mode=rwc"));
    assert_eq!(sqlite_file_path_from_url("sqlite://"), Some(""));
}

#[test]
fn path_follows_the_bare_scheme() {
    assert_eq!(sqlite_file_path_from_url("sqlite:./db.sqlite"), Some("./db.sqlite"));
    assert_eq!(sqlite_file_path_from_url("sqlite:db.sqlite"), Some("db.sqlite"));
    assert_eq!(sqlite_file_path_from_url("sqlite:/abs.db"), Some("/abs.db"));
    assert_eq!(sqlite_file_path_from_url("sqlite:"), Some(""));
    assert_eq!(sqlite_file_path_from_url("sqlite::memory:?cache=shared"), Some(":memory:?cache=shared"));
}

#[test]
fn other_schemes_have_no_file_path() {
    assert_eq!(sqlite_file_path_from_url(""), None);
    assert_eq!(sqlite_file_path_from_url("postgres://localhost/db"), None);
    assert_eq!(sqlite_file_path_from_url("sqlite"), None);
    assert_eq!(sqlite_file_path_from_url("SQLITE://x.db"), None);
    assert_eq!(sqlite_file_path_from_url(" sqlite://x.db"), None);
    assert_eq!(sqlite_file_path_from_url("./shortcodes.db"), None);
}

#[test]
fn paths_keep_letters_outside_ascii() {
    assert_eq!(sqlite_file_path_from_url("sqlite://d\u{e9}p\u{f4}t/\u{6570}.db"), Some("d\u{e9}p\u{f4}t/\u{6570}.db"));
    assert_eq!(sqlite_file_to_create("sqlite:\u{6570}\u{636e}.db?mode=rwc"), Some("\u{6570}\u{636e}.db"));
}

#[test]
fn file_to_create_drops_the_query() {
    assert_eq!(sqlite_file_to_create("sqlite://./shortcodes.db"), Some("./shortcodes.db"));
    assert_eq!(sqlite_file_to_create("sqlite://data/db.sqlite?mode=rwc"), Some("data/db.sqlite"));
    assert_eq!(sqlite_file_to_create("sqlite:db.sqlite?a=1?b=2"), Some("db.sqlite"));
    assert_eq!(sqlite_file_to_create("sqlite:///abs/path.sqlite"), Some("/abs/path.sqlite"));
}

#[test]
fn nothing_to_create_for_memory_databases() {
    assert_eq!(sqlite_file_to_create("sqlite::memory:"), None);
    assert_eq!(sqlite_file_to_create("sqlite://:memory:"), None);
    assert_eq!(sqlite_file_to_create("sqlite::memory:?cache=shared"), None);
    assert_eq!(sqlite_file_to_create("sqlite://file::memory:"), None);
    assert_eq!(sqlite_file_to_create("sqlite:file::memory:?cache=shared"), None);
}

#[test]
fn nothing_to_create_for_empty_paths_and_other_schemes() {
    assert_eq!(sqlite_file_to_create("sqlite://"), None);
    assert_eq!(sqlite_file_to_create("sqlite:"), None);
    assert_eq!(sqlite_file_to_create("sqlite://?mode=rwc"), None);
    assert_eq!(sqlite_file_to_create("mysql://host/db"), None);
    assert_eq!(sqlite_file_to_create(""), None);
}
