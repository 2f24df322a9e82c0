use terax::cli::{parse_cli, should_detach};

fn args(list: &[&str]) -> Vec<String> {
    list.iter().map(|s| s.to_string()).collect()
}

#[test]
fn no_flags_given() {
    let (no_block, serve) = parse_cli(&args(&["terax"]));
    assert!(!no_block);
    assert_eq!(serve, None);
}

#[test]
fn no_block_flag_found_anywhere() {
    let (no_block, serve) = parse_cli(&args(&["terax", "--verbose", "--no-block"]));
    assert!(no_block);
    assert_eq!(serve, None);
}

#[test]
fn no_block_must_match_exactly() {
    let (no_block, _) = parse_cli(&args(&["terax", "--no-block=1", "--no-blocks"]));
    assert!(!no_block);
}

#[test]
fn serve_value_is_stripped() {
    let (no_block, serve) = parse_cli(&args(&["terax", "--serve=/srv/ui", "--no-block"]));
    assert!(no_block);
    assert_eq!(serve, Some("/srv/ui".to_string()));
}

#[test]
fn first_serve_argument_wins() {
    let (_, serve) = parse_cli(&args(&["terax", "--serve=", "--serve=/b"]));
    assert_eq!(serve, Some(String::new()));
}

#[test]
fn detach_only_with_flag_and_without_marker() {
    assert!(!should_detach(false, ""));
    assert!(!should_detach(false, "1"));
    assert!(should_detach(true, ""));
    assert!(should_detach(true, "0"));
    assert!(!should_detach(true, "1"));
}
