use sticky::db::{
    block_write, migrations, empty_trash_commands, new_note, restore_command, saved_block_id,
    schema, search_pattern, Command, Note, Query, NEW_NOTE_SIZE,
};

fn note(id: i64) -> Note {
    Note { id, x: 1, y: 2, width: 3, height: 4, color: "#000000".to_string(), always_on_top: false }
}

#[test]
fn new_notes_use_defaults() {
    assert_eq!(
        new_note(10, 20, "#FFE66D"),
        Command::InsertNote {
            x: 10,
            y: 20,
            width: NEW_NOTE_SIZE,
            height: NEW_NOTE_SIZE,
            color: "#FFE66D".to_string(),
            always_on_top: true,
        }
    );
    assert_eq!(NEW_NOTE_SIZE, 300);
}

#[test]
fn restoring_takes_the_found_note_out_of_the_bin() {
    assert_eq!(restore_command(Some(&note(7))), Some(Command::RestoreNote { id: 7 }));
    assert_eq!(restore_command(None), None);
}

#[test]
fn emptying_the_bin_removes_blocks_then_note() {
    assert_eq!(
        empty_trash_commands(&vec![3, 9]),
        vec![
            Command::DeleteBlocksOfNote { note_id: 3 },
            Command::DeleteNote { id: 3 },
            Command::DeleteBlocksOfNote { note_id: 9 },
            Command::DeleteNote { id: 9 },
        ]
    );
    assert!(empty_trash_commands(&vec![]).is_empty());
}

#[test]
fn saving_blocks() {
    assert_eq!(
        block_write(0, 4, "hi"),
        Command::InsertBlock { note_id: 4, content: "hi".to_string() }
    );
    assert_eq!(
        block_write(12, 4, "hi"),
        Command::UpdateBlock { id: 12, content: "hi".to_string() }
    );
    assert_eq!(saved_block_id(0, 42), 42);
    assert_eq!(saved_block_id(12, 42), 12);
}

#[test]
fn statements() {
    assert_eq!(
        Command::TrashNote { id: 1 }.sql(),
        "UPDATE notes SET deleted = 1, deletion_order = (SELECT COALESCE(MAX(deletion_order), 0) + 1 FROM notes) WHERE id = ?"
    );
    assert_eq!(
        Command::RestoreNote { id: 1 }.sql(),
        "UPDATE notes SET deleted = 0, deletion_order = 0 WHERE id = ?"
    );
    assert_eq!(
        Command::LinkBlocks { source: 1, target: 2 }.sql(),
        "INSERT OR IGNORE INTO block_links (source_id, target_id) VALUES (?, ?)"
    );
    assert_eq!(
        Query::LatestTrashed.sql(),
        "SELECT id, x, y, width, height, color, always_on_top FROM notes WHERE deleted = 1 ORDER BY deletion_order DESC, id DESC LIMIT 1"
    );
    assert_eq!(
        Query::VisibleNotes.sql(),
        "SELECT id, x, y, width, height, color, always_on_top FROM notes WHERE deleted = 0"
    );
    assert_eq!(schema().len(), 3);
    assert!(schema()[0].starts_with("CREATE TABLE IF NOT EXISTS notes"));
    assert_eq!(
        migrations(),
        vec![
            "ALTER TABLE notes ADD COLUMN deleted BOOLEAN DEFAULT 0",
            "ALTER TABLE notes ADD COLUMN deletion_order INTEGER DEFAULT 0",
        ]
    );
    assert!(schema()[0].ends_with("deleted BOOLEAN DEFAULT 0, deletion_order INTEGER DEFAULT 0)"));
}

#[test]
fn search_patterns() {
    assert_eq!(search_pattern("ab"), "%ab%");
    assert_eq!(search_pattern(""), "%%");
}
