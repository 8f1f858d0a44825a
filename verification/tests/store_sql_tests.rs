use rusqlite::Connection;
use sticky::db::{empty_trash_commands, migrations, new_note, restore_command, schema, Command, Note, Query};

fn open() -> Connection {
    let conn = Connection::open_in_memory().unwrap();
    let tables = schema();
    conn.execute(tables[0], []).unwrap();
    for stmt in migrations() {
        let _ = conn.execute(stmt, []);
    }
    conn.execute(tables[1], []).unwrap();
    conn.execute(tables[2], []).unwrap();
    conn
}

fn add_note(conn: &Connection) -> i64 {
    match new_note(10, 20, "#FFE66D") {
        Command::InsertNote { x, y, width, height, color, always_on_top } => {
            let cmd = new_note(10, 20, "#FFE66D");
            conn.execute(cmd.sql(), (x, y, width, height, color, always_on_top)).unwrap();
            conn.last_insert_rowid()
        }
        _ => unreachable!(),
    }
}

fn run_id(conn: &Connection, cmd: &Command, id: i64) {
    conn.execute(cmd.sql(), (id,)).unwrap();
}

fn latest_trashed(conn: &Connection) -> Option<Note> {
    let mut stmt = conn.prepare(Query::LatestTrashed.sql()).unwrap();
    let mut rows = stmt.query([]).unwrap();
    rows.next().unwrap().map(|row| Note {
        id: row.get(0).unwrap(),
        x: row.get(1).unwrap(),
        y: row.get(2).unwrap(),
        width: row.get(3).unwrap(),
        height: row.get(4).unwrap(),
        color: row.get(5).unwrap(),
        always_on_top: row.get(6).unwrap(),
    })
}

fn visible_ids(conn: &Connection) -> Vec<i64> {
    let mut stmt = conn.prepare(Query::VisibleNotes.sql()).unwrap();
    let ids = stmt.query_map([], |row| row.get::<_, i64>(0)).unwrap();
    ids.map(|r| r.unwrap()).collect()
}

#[test]
fn restore_brings_back_the_note_deleted_last() {
    let conn = open();
    let b = add_note(&conn);
    let a = add_note(&conn);
    assert!(a > b);
    run_id(&conn, &Command::TrashNote { id: a }, a);
    run_id(&conn, &Command::TrashNote { id: b }, b);
    let latest = latest_trashed(&conn).unwrap();
    assert_eq!(latest.id, b);
    let cmd = restore_command(Some(&latest)).unwrap();
    run_id(&conn, &cmd, b);
    assert_eq!(visible_ids(&conn), vec![b]);
    assert_eq!(latest_trashed(&conn).unwrap().id, a);
}

#[test]
fn emptying_the_bin_keeps_visible_notes() {
    let conn = open();
    let keep = add_note(&conn);
    let gone = add_note(&conn);
    conn.execute(
        Command::InsertBlock { note_id: gone, content: String::new() }.sql(),
        (gone, 0.0, 0.0, 1.0, 1.0, "x"),
    )
    .unwrap();
    run_id(&conn, &Command::TrashNote { id: gone }, gone);
    for cmd in empty_trash_commands(&vec![gone]) {
        match cmd {
            Command::DeleteBlocksOfNote { note_id } => run_id(&conn, &cmd, note_id),
            Command::DeleteNote { id } => run_id(&conn, &cmd, id),
            _ => unreachable!(),
        }
    }
    assert_eq!(visible_ids(&conn), vec![keep]);
    assert!(latest_trashed(&conn).is_none());
    let blocks: i64 = conn.query_row("SELECT COUNT(*) FROM blocks", [], |r| r.get(0)).unwrap();
    assert_eq!(blocks, 0);
}
