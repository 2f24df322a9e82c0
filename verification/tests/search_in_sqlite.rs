use rusqlite::Connection;
use terax::history::list_query;

fn table(commands: &[&str]) -> Connection {
    let conn = Connection::open_in_memory().unwrap();
    conn.execute_batch(
        "CREATE TABLE history (id INTEGER PRIMARY KEY AUTOINCREMENT, command TEXT NOT NULL, timestamp INTEGER NOT NULL);",
    )
    .unwrap();
    for (i, c) in commands.iter().enumerate() {
        conn.execute("INSERT INTO history (command, timestamp) VALUES (?1, ?2)", (c, i as i64)).unwrap();
    }
    conn
}

fn search(conn: &Connection, query: &str, limit: usize, offset: usize) -> Vec<String> {
    let q = list_query(query, limit, offset);
    let mut stmt = conn
        .prepare(
            "SELECT command FROM history WHERE lower(command) LIKE ?1 ESCAPE '\\'
             ORDER BY timestamp DESC LIMIT ?2 OFFSET ?3",
        )
        .unwrap();
    let rows = stmt
        .query_map((q.pattern.as_str(), q.limit, q.offset), |row| row.get::<_, String>(0))
        .unwrap();
    rows.map(|r| r.unwrap()).collect()
}

#[test]
fn wildcards_in_the_query_are_literal() {
    let conn = table(&["a%b", "axb", "a_b", "ayb", "a\\b", "A%B"]);
    assert_eq!(search(&conn, "%", 10, 0), vec!["A%B".to_string(), "a%b".to_string()]);
    assert_eq!(search(&conn, "_", 10, 0), vec!["a_b".to_string()]);
    assert_eq!(search(&conn, "\\", 10, 0), vec!["a\\b".to_string()]);
    assert_eq!(search(&conn, "A", 10, 0).len(), 6);
}

#[test]
fn search_is_by_substring_and_case_blind() {
    let conn = table(&["git status", "cargo build", "GIT log", "echo digit"]);
    assert_eq!(
        search(&conn, "Git", 10, 0),
        vec!["echo digit".to_string(), "GIT log".to_string(), "git status".to_string()]
    );
    assert_eq!(search(&conn, "", 10, 0).len(), 4);
    assert_eq!(search(&conn, "nothing", 10, 0).len(), 0);
}

#[test]
fn pages_do_not_overlap() {
    let commands: Vec<String> = (0..10).map(|i| format!("cmd{i}")).collect();
    let refs: Vec<&str> = commands.iter().map(|s| s.as_str()).collect();
    let conn = table(&refs);
    let a = search(&conn, "", 3, 0);
    let b = search(&conn, "", 3, 3);
    assert_eq!(a, vec!["cmd9".to_string(), "cmd8".to_string(), "cmd7".to_string()]);
    assert_eq!(b, vec!["cmd6".to_string(), "cmd5".to_string(), "cmd4".to_string()]);
}
