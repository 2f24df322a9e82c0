use terax::paths::{within_root_of, PathStyle};
use terax::request::{
    content_type_of, response_head_of, serve_begin, serve_expects, serve_step, served_path_of, target_of_line,
    ServeAction, ServeEvent, ServePhase, ServeState,
};

#[test]
fn targets_of_request_lines() {
    assert_eq!(target_of_line("GET /index.html HTTP/1.1\r\n"), Some("/index.html".to_string()));
    assert_eq!(target_of_line("  GET\t/a/b   HTTP/1.1"), Some("/a/b".to_string()));
    assert_eq!(target_of_line("GET\u{3000}/wide"), Some("/wide".to_string()));
    assert_eq!(target_of_line("GET"), None);
    assert_eq!(target_of_line(""), None);
    assert_eq!(target_of_line("   \r\n"), None);
}

#[test]
fn served_paths() {
    assert_eq!(served_path_of("/"), "index.html");
    assert_eq!(served_path_of("/app.js"), "app.js");
    assert_eq!(served_path_of("/assets/x.css?v=3"), "assets/x.css");
    assert_eq!(served_path_of("///a"), "a");
    assert_eq!(served_path_of("/../../etc/passwd"), "//etc/passwd");
    assert_eq!(served_path_of("/a/..../b"), "a//b");
    assert_eq!(served_path_of("/a/.../b"), "a/./b");
    assert_eq!(served_path_of("?x"), "");
    assert_eq!(served_path_of("/?x"), "");
}

#[test]
fn no_parent_reference_survives() {
    for t in ["/..", "/....", "/.../..", "/a/../../b", "/.a.", "/.%2e/", "/.. ../.."] {
        assert!(!served_path_of(t).contains(".."), "{t}");
    }
}

#[test]
fn content_types() {
    let ct = |e: Option<&str>| content_type_of(&e.map(String::from));
    assert_eq!(ct(Some("html")), "text/html; charset=utf-8");
    assert_eq!(ct(Some("js")), "application/javascript");
    assert_eq!(ct(Some("css")), "text/css");
    assert_eq!(ct(Some("json")), "application/json");
    assert_eq!(ct(Some("png")), "image/png");
    assert_eq!(ct(Some("svg")), "image/svg+xml");
    assert_eq!(ct(Some("ico")), "image/x-icon");
    assert_eq!(ct(Some("woff2")), "font/woff2");
    assert_eq!(ct(Some("HTML")), "application/octet-stream");
    assert_eq!(ct(None), "application/octet-stream");
}

#[test]
fn response_heads() {
    assert_eq!(
        response_head_of("HTTP/1.1 200 OK", "text/css", 1234),
        "HTTP/1.1 200 OK\r\nContent-Type: text/css\r\nContent-Length: 1234\r\nConnection: close\r\n\r\n"
    );
}

fn run(state: ServeState, event: ServeEvent) -> (ServeState, ServeAction) {
    assert!(serve_expects(&state, &event));
    serve_step(state, event)
}

fn respond_parts(action: ServeAction) -> (String, Vec<u8>) {
    match action {
        ServeAction::Respond { head, body } => (head, body),
        other => panic!("expected an answer, got {:?}", other),
    }
}

#[test]
fn unreadable_or_short_line_is_dropped() {
    let (s, a) = run(serve_begin("/srv/dist", PathStyle::Unix), ServeEvent::Line(None));
    assert_eq!(s.phase, ServePhase::Done);
    assert!(matches!(a, ServeAction::Close));
    let (_, a) = run(serve_begin("/srv/dist", PathStyle::Unix), ServeEvent::Line(Some("GET\r\n".to_string())));
    assert!(matches!(a, ServeAction::Close));
}

#[test]
fn existing_file_is_sent() {
    let (s, a) = run(serve_begin("/srv/dist", PathStyle::Unix), ServeEvent::Line(Some("GET /app.js HTTP/1.1\r\n".to_string())));
    match a {
        ServeAction::Locate(p) => assert_eq!(p, "app.js"),
        other => panic!("unexpected {:?}", other),
    }
    let (s, a) = run(s, ServeEvent::Located { is_file: true, extension: Some("js".to_string()) });
    match a {
        ServeAction::ReadFile(p) => assert_eq!(p, "app.js"),
        other => panic!("unexpected {:?}", other),
    }
    let (s, a) = run(s, ServeEvent::FileRead(Some(b"let x;".to_vec())));
    assert_eq!(s.phase, ServePhase::Done);
    let (head, body) = respond_parts(a);
    assert_eq!(
        head,
        "HTTP/1.1 200 OK\r\nContent-Type: application/javascript\r\nContent-Length: 6\r\nConnection: close\r\n\r\n"
    );
    assert_eq!(body, b"let x;".to_vec());
}

#[test]
fn unreadable_file_is_an_error() {
    let (s, _) = run(serve_begin("/srv/dist", PathStyle::Unix), ServeEvent::Line(Some("GET /a.png HTTP/1.1".to_string())));
    let (s, _) = run(s, ServeEvent::Located { is_file: true, extension: Some("png".to_string()) });
    let (_, a) = run(s, ServeEvent::FileRead(None));
    let (head, body) = respond_parts(a);
    assert_eq!(
        head,
        "HTTP/1.1 500 Internal Server Error\r\nContent-Type: text/plain\r\nContent-Length: 10\r\nConnection: close\r\n\r\n"
    );
    assert_eq!(body, b"Read error".to_vec());
}

#[test]
fn path_outside_root_is_forbidden() {
    let (s, a) = run(serve_begin("/srv/dist", PathStyle::Unix), ServeEvent::Line(Some("GET /../../etc/passwd HTTP/1.1".to_string())));
    assert_eq!(s.phase, ServePhase::Done);
    match a {
        ServeAction::Reject(t) => assert_eq!(t, "HTTP/1.1 403 Forbidden\r\n\r\n"),
        other => panic!("unexpected {:?}", other),
    }
    let (_, a) = run(serve_begin("./dist", PathStyle::Unix), ServeEvent::Line(Some("GET /..//srv/x HTTP/1.1".to_string())));
    assert!(matches!(a, ServeAction::Reject(_)));
}

#[test]
fn absolute_path_inside_root_is_kept() {
    let (s, a) = run(serve_begin("/srv/dist", PathStyle::Unix), ServeEvent::Line(Some("GET /..//srv/dist/a.css HTTP/1.1".to_string())));
    assert_eq!(s.phase, ServePhase::Locate);
    match a {
        ServeAction::Locate(p) => assert_eq!(p, "//srv/dist/a.css"),
        other => panic!("unexpected {:?}", other),
    }
}

#[test]
fn containment_of_joined_paths() {
    assert!(within_root_of("/srv/dist", "a/b.js", PathStyle::Unix));
    assert!(within_root_of("./dist", "", PathStyle::Unix));
    assert!(within_root_of("/srv/dist", "/srv/dist", PathStyle::Unix));
    assert!(within_root_of("/srv/dist/", "//srv/./dist/x", PathStyle::Unix));
    assert!(within_root_of("", "/etc/passwd", PathStyle::Unix));
    assert!(within_root_of("/", "/etc/passwd", PathStyle::Unix));
    assert!(!within_root_of("/srv/dist", "/etc/passwd", PathStyle::Unix));
    assert!(!within_root_of("/srv/dist", "/srv/distx/a", PathStyle::Unix));
    assert!(!within_root_of("/srv/dist", "/srv", PathStyle::Unix));
    assert!(!within_root_of("./dist", "/dist/a", PathStyle::Unix));
    assert!(!within_root_of("dist", "/dist", PathStyle::Unix));
}

#[test]
fn unknown_route_falls_back_to_index() {
    let (s, _) = run(serve_begin("/srv/dist", PathStyle::Unix), ServeEvent::Line(Some("GET /settings HTTP/1.1".to_string())));
    let (s, a) = run(s, ServeEvent::Located { is_file: false, extension: None });
    assert!(matches!(a, ServeAction::CheckIndex));
    let (s, a) = run(s, ServeEvent::IndexExists(true));
    assert!(matches!(a, ServeAction::ReadIndex));
    let (_, a) = run(s, ServeEvent::IndexRead(Some(b"<html></html>".to_vec())));
    let (head, body) = respond_parts(a);
    assert_eq!(
        head,
        "HTTP/1.1 200 OK\r\nContent-Type: text/html; charset=utf-8\r\nContent-Length: 13\r\nConnection: close\r\n\r\n"
    );
    assert_eq!(body, b"<html></html>".to_vec());
}

#[test]
fn missing_index_is_not_found() {
    let not_found =
        "HTTP/1.1 404 Not Found\r\nContent-Type: text/plain\r\nContent-Length: 9\r\nConnection: close\r\n\r\n";
    let (s, _) = run(serve_begin("/srv/dist", PathStyle::Unix), ServeEvent::Line(Some("GET /x HTTP/1.1".to_string())));
    let (s, _) = run(s, ServeEvent::Located { is_file: false, extension: None });
    let (_, a) = run(s, ServeEvent::IndexExists(false));
    let (head, body) = respond_parts(a);
    assert_eq!(head, not_found);
    assert_eq!(body, b"Not found".to_vec());

    let (s, _) = run(serve_begin("/srv/dist", PathStyle::Unix), ServeEvent::Line(Some("GET /x HTTP/1.1".to_string())));
    let (s, _) = run(s, ServeEvent::Located { is_file: false, extension: None });
    let (s, _) = run(s, ServeEvent::IndexExists(true));
    let (_, a) = run(s, ServeEvent::IndexRead(None));
    let (head, body) = respond_parts(a);
    assert_eq!(head, not_found);
    assert_eq!(body, b"Not found".to_vec());
}

#[test]
fn mismatched_reports_are_recognised() {
    let s = serve_begin("/srv/dist", PathStyle::Unix);
    assert!(!serve_expects(&s, &ServeEvent::IndexExists(true)));
}

#[test]
fn ordinary_targets_are_kept() {
    assert_eq!(served_path_of("/assets/app.js"), "assets/app.js");
    assert_eq!(served_path_of("/.well-known/x"), ".well-known/x");
    assert_eq!(served_path_of("//a/b.c"), "a/b.c");
}

#[test]
fn containment_agrees_with_std_paths() {
    let roots = ["/srv/dist", "/srv/dist/", "./dist", "../dist", "dist", "", "/", "/srv/./dist", "//srv//dist"];
    let paths = [
        "", "a", "a/b.js", "/", "/srv", "/srv/dist", "/srv/dist/a", "//srv/dist/a", "/srv/./dist/a", "/srv/distx",
        "/dist/a", "/./srv/dist", "/etc/passwd", ".", "./a", "a//b/", "/srv/dist/.", "//",
    ];
    for r in roots {
        for p in paths {
            let expected = std::path::Path::new(r).join(p).starts_with(r);
            assert_eq!(within_root_of(r, p, PathStyle::Unix), expected, "root {r:?}, path {p:?}");
        }
    }
}

#[test]
fn windows_containment() {
    let w = PathStyle::Windows;
    assert!(!within_root_of("C:\\app\\dist", "C:/Windows/win.ini", w));
    assert!(!within_root_of("C:\\app\\dist", "D:/app/dist/x", w));
    assert!(!within_root_of("C:\\app\\dist", "C:x", w));
    assert!(!within_root_of("C:\\app\\dist", "\\\\host\\share\\f", w));
    assert!(!within_root_of("C:\\app\\dist", "//host/share/f", w));
    assert!(!within_root_of("C:\\app\\dist", "\\Windows", w));
    assert!(!within_root_of("./dist", "C:/dist/a", w));
    assert!(within_root_of("C:\\app\\dist", "C:/app/dist/a.js", w));
    assert!(within_root_of("C:\\app\\dist", "\\app\\dist\\a.js", w));
    assert!(within_root_of("C:\\app\\dist", "assets\\a.js", w));
    assert!(within_root_of("./dist", "a/b", w));
    assert!(within_root_of("\\\\srv\\share", "\\x", w));
    assert!(!within_root_of("\\\\srv\\share\\dist", "\\x", w));
    assert!(within_root_of("C:", "\\x", w));
    assert!(within_root_of("/srv/dist", "C:/x", PathStyle::Unix));
}

#[test]
fn windows_drive_request_is_forbidden() {
    let (_, a) = run(
        serve_begin("C:\\app\\dist", PathStyle::Windows),
        ServeEvent::Line(Some("GET /C:/Windows/win.ini HTTP/1.1".to_string())),
    );
    match a {
        ServeAction::Reject(t) => assert_eq!(t, "HTTP/1.1 403 Forbidden\r\n\r\n"),
        other => panic!("unexpected {:?}", other),
    }
    let (_, a) = run(
        serve_begin("C:\\app\\dist", PathStyle::Windows),
        ServeEvent::Line(Some("GET /assets/app.js HTTP/1.1".to_string())),
    );
    assert!(matches!(a, ServeAction::Locate(_)));
}
