use rusqlite::Connection;
use ropias::db::{newest_first, ClipboardItem, CREATE_TABLE_SQL, INSERT_SQL, SELECT_SQL};

fn read_all(conn: &Connection) -> Vec<ClipboardItem> {
    let mut stmt = conn.prepare(SELECT_SQL).unwrap();
    let rows = stmt
        .query_map((), |row| Ok(ClipboardItem::from_row(row.get(0)?, row.get(1)?, row.get(2)?)))
        .unwrap();
    let items: Vec<ClipboardItem> = rows.map(|r| r.unwrap()).collect();
    newest_first(items)
}

fn table_schema(conn: &Connection) -> String {
    conn.query_row("SELECT sql FROM sqlite_master WHERE name = 'clipboard'", (), |row| row.get(0))
        .unwrap()
}

#[test]
fn init_twice_is_harmless() {
    let conn = Connection::open_in_memory().unwrap();
    conn.execute(CREATE_TABLE_SQL, ()).unwrap();
    let schema = table_schema(&conn);
    conn.execute(CREATE_TABLE_SQL, ()).unwrap();
    assert_eq!(table_schema(&conn), schema);
}

#[test]
fn append_then_read_gives_entry_first() {
    let conn = Connection::open_in_memory().unwrap();
    conn.execute(CREATE_TABLE_SQL, ()).unwrap();
    for c in ["c1", "c2", "c3"] {
        conn.execute(INSERT_SQL, (c,)).unwrap();
    }
    let listed: Vec<String> = read_all(&conn).into_iter().map(|i| i.content).collect();
    assert_eq!(listed, vec!["c3", "c2", "c1"]);
    conn.execute(INSERT_SQL, ("latest",)).unwrap();
    let items = read_all(&conn);
    assert_eq!(items[0].content, "latest");
    assert_eq!(items.len(), 4);
    assert!(items.iter().all(|i| !i.favorite));
}

#[test]
fn content_can_never_be_null() {
    let conn = Connection::open_in_memory().unwrap();
    conn.execute(CREATE_TABLE_SQL, ()).unwrap();
    let res = conn.execute(
        "INSERT INTO clipboard (content, created_at) VALUES (NULL, datetime('now'))",
        (),
    );
    assert!(res.is_err());
    assert!(read_all(&conn).is_empty());
}
