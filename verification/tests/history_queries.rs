use terax::history::{escape_like_text, is_empty_count, list_query, to_lowercase, trim_keep, FullEntry};

#[test]
fn escaping_of_wildcards() {
    assert_eq!(escape_like_text("plain"), "plain");
    assert_eq!(escape_like_text("50%_off"), "50\\%\\_off");
    assert_eq!(escape_like_text("a\\b"), "a\\\\b");
    assert_eq!(escape_like_text(""), "");
}

#[test]
fn lowercasing() {
    assert_eq!(to_lowercase("GiT StAtUs"), "git status");
    assert_eq!(to_lowercase("ÄÖÜ"), "äöü");
}

#[test]
fn search_values() {
    let q = list_query("Git%_\\", 3, 6);
    assert_eq!(q.pattern, "%git\\%\\_\\\\%");
    assert_eq!(q.limit, 3);
    assert_eq!(q.offset, 6);
    let q = list_query("", 10, 0);
    assert_eq!(q.pattern, "%%");
    assert_eq!(q.offset, 0);
}

#[test]
fn trim_bounds() {
    assert_eq!(trim_keep(0), None);
    assert_eq!(trim_keep(100), Some(100));
}

#[test]
fn emptiness() {
    assert!(is_empty_count(0));
    assert!(!is_empty_count(3));
}

#[test]
fn entries_carry_their_fields() {
    let e = FullEntry {
        id: 7,
        command: "ls".to_string(),
        timestamp: 1000,
        exit_code: Some(0),
        session_id: "s1".to_string(),
    };
    let c = e.clone();
    assert_eq!(c.id, 7);
    assert_eq!(c.command, "ls");
    assert_eq!(c.exit_code, Some(0));
}
