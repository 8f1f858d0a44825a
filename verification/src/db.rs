//! The note store. Notes, their canvas blocks and the links between blocks
//! live in three tables. Every write the application makes is a `Command`
//! and every read a `Query`; `StoreView` is the tables' content and `apply`
//! says what each command does to it. Deleting a note only moves it to the
//! recycle bin, stamped with the order of deletion; restoring brings back
//! the note deleted last;
//! emptying the bin removes the binned notes and their blocks for good.

use vstd::prelude::*;
use crate::text::push_str;

verus! {

/// A sticky note: its window's position and size, its colour and whether it
/// stays above other windows.
#[derive(Clone, Debug)]
pub struct Note {
    pub id: i64,
    pub x: i32,
    pub y: i32,
    pub width: i32,
    pub height: i32,
    pub color: String,
    pub always_on_top: bool,
}

/// A row of the notes table.
pub struct NoteRecord {
    pub x: i32,
    pub y: i32,
    pub width: i32,
    pub height: i32,
    pub color: Seq<char>,
    pub always_on_top: bool,
    /// The note is in the recycle bin.
    pub deleted: bool,
    /// When the note is binned, the stamp of its deletion: later deletions
    /// have larger stamps. 0 outside the bin.
    pub deletion_order: i64,
}

/// A row of the blocks table, without the block's geometry.
pub struct BlockRecord {
    pub note_id: i64,
    pub content: Seq<char>,
}

/// The content of the store's tables, keyed by row id.
pub struct StoreView {
    pub notes: Map<i64, NoteRecord>,
    pub blocks: Map<i64, BlockRecord>,
    /// Directed mind-map links `(source block, target block)`.
    pub links: Set<(i64, i64)>,
}

/// Size of a new note's window.
pub const NEW_NOTE_SIZE: i32 = 300;

/// A write to the store.
#[derive(PartialEq, Eq, Clone, Debug)]
pub enum Command {
    /// Adds a note, which is not in the recycle bin.
    InsertNote { x: i32, y: i32, width: i32, height: i32, color: String, always_on_top: bool },
    MoveNote { id: i64, x: i32, y: i32 },
    RecolorNote { id: i64, color: String },
    ResizeNote { id: i64, width: i32, height: i32 },
    PinNote { id: i64, always_on_top: bool },
    /// Moves a note to the recycle bin, stamped after every earlier deletion.
    TrashNote { id: i64 },
    /// Takes a note out of the recycle bin and clears its stamp.
    RestoreNote { id: i64 },
    /// Removes every block of a note.
    DeleteBlocksOfNote { note_id: i64 },
    /// Removes a note for good.
    DeleteNote { id: i64 },
    /// Adds a block (its geometry is bound alongside).
    InsertBlock { note_id: i64, content: String },
    /// Rewrites a block's content (and geometry).
    UpdateBlock { id: i64, content: String },
    DeleteBlock { id: i64 },
    /// Adds a link unless it is there already.
    LinkBlocks { source: i64, target: i64 },
}

/// The store with note `id`'s row replaced by `r`, when the note exists (an
/// update of a missing row changes nothing).
pub open spec fn update_note(s: StoreView, id: i64, r: NoteRecord) -> StoreView {
    if s.notes.contains_key(id) {
        StoreView { notes: s.notes.insert(id, r), ..s }
    } else {
        s
    }
}

/// The blocks that do not belong to note `note_id`.
pub open spec fn blocks_not_of(blocks: Map<i64, BlockRecord>, note_id: i64) -> Map<i64, BlockRecord> {
    Map::new(|k: i64| blocks.contains_key(k) && blocks[k].note_id != note_id, |k: i64| blocks[k])
}

/// The store after `cmd`. `fresh` is the value the store computes for the
/// command: for an insert, the id it gives the new row (a fresh one); for a
/// deletion, the stamp it gives the note (one more than the largest stamp in
/// the table).
pub open spec fn apply(cmd: Command, s: StoreView, fresh: i64) -> StoreView {
    match cmd {
        Command::InsertNote { x, y, width, height, color, always_on_top } => StoreView {
            notes: s.notes.insert(fresh, NoteRecord {
                x, y, width, height, color: color@, always_on_top, deleted: false,
                deletion_order: 0,
            }),
            ..s
        },
        Command::MoveNote { id, x, y } => update_note(s, id, NoteRecord { x, y, ..s.notes[id] }),
        Command::RecolorNote { id, color } =>
            update_note(s, id, NoteRecord { color: color@, ..s.notes[id] }),
        Command::ResizeNote { id, width, height } =>
            update_note(s, id, NoteRecord { width, height, ..s.notes[id] }),
        Command::PinNote { id, always_on_top } =>
            update_note(s, id, NoteRecord { always_on_top, ..s.notes[id] }),
        Command::TrashNote { id } =>
            update_note(s, id, NoteRecord { deleted: true, deletion_order: fresh, ..s.notes[id] }),
        Command::RestoreNote { id } =>
            update_note(s, id, NoteRecord { deleted: false, deletion_order: 0, ..s.notes[id] }),
        Command::DeleteBlocksOfNote { note_id } =>
            StoreView { blocks: blocks_not_of(s.blocks, note_id), ..s },
        Command::DeleteNote { id } => StoreView { notes: s.notes.remove(id), ..s },
        Command::InsertBlock { note_id, content } => StoreView {
            blocks: s.blocks.insert(fresh, BlockRecord { note_id, content: content@ }),
            ..s
        },
        Command::UpdateBlock { id, content } => if s.blocks.contains_key(id) {
            StoreView {
                blocks: s.blocks.insert(id, BlockRecord { content: content@, ..s.blocks[id] }),
                ..s
            }
        } else {
            s
        },
        Command::DeleteBlock { id } => StoreView { blocks: s.blocks.remove(id), ..s },
        Command::LinkBlocks { source, target } => StoreView {
            links: s.links.insert((source, target)),
            ..s
        },
    }
}

/// The store after the commands, in order, none of which inserts.
pub open spec fn apply_all(cmds: Seq<Command>, s: StoreView) -> StoreView
    decreases cmds.len(),
{
    if cmds.len() == 0 {
        s
    } else {
        apply(cmds.last(), apply_all(cmds.drop_last(), s), 0)
    }
}

/// The SQL text of a command.
pub open spec fn command_sql(c: Command) -> Seq<char> {
    match c {
        Command::InsertNote { .. } =>
            "INSERT INTO notes (x, y, width, height, color, always_on_top) VALUES (?, ?, ?, ?, ?, ?)"@,
        Command::MoveNote { .. } => "UPDATE notes SET x = ?, y = ? WHERE id = ?"@,
        Command::RecolorNote { .. } => "UPDATE notes SET color = ? WHERE id = ?"@,
        Command::ResizeNote { .. } => "UPDATE notes SET width = ?, height = ? WHERE id = ?"@,
        Command::PinNote { .. } => "UPDATE notes SET always_on_top = ? WHERE id = ?"@,
        Command::TrashNote { .. } =>
            "UPDATE notes SET deleted = 1, deletion_order = (SELECT COALESCE(MAX(deletion_order), 0) + 1 FROM notes) WHERE id = ?"@,
        Command::RestoreNote { .. } => "UPDATE notes SET deleted = 0, deletion_order = 0 WHERE id = ?"@,
        Command::DeleteBlocksOfNote { .. } => "DELETE FROM blocks WHERE note_id = ?"@,
        Command::DeleteNote { .. } => "DELETE FROM notes WHERE id = ?"@,
        Command::InsertBlock { .. } =>
            "INSERT INTO blocks (note_id, x, y, width, height, content) VALUES (?, ?, ?, ?, ?, ?)"@,
        Command::UpdateBlock { .. } =>
            "UPDATE blocks SET x = ?, y = ?, width = ?, height = ?, content = ? WHERE id = ?"@,
        Command::DeleteBlock { .. } => "DELETE FROM blocks WHERE id = ?"@,
        Command::LinkBlocks { .. } =>
            "INSERT OR IGNORE INTO block_links (source_id, target_id) VALUES (?, ?)"@,
    }
}

impl Command {
    /// The SQL statement that carries the command out; its parameters are
    /// the command's fields in order (for blocks, the geometry
    /// `x, y, width, height` comes before the content).
    pub fn sql(&self) -> (res: &'static str)
        ensures
            res@ == command_sql(*self),
    {
        match self {
            Command::InsertNote { .. } =>
                "INSERT INTO notes (x, y, width, height, color, always_on_top) VALUES (?, ?, ?, ?, ?, ?)",
            Command::MoveNote { .. } => "UPDATE notes SET x = ?, y = ? WHERE id = ?",
            Command::RecolorNote { .. } => "UPDATE notes SET color = ? WHERE id = ?",
            Command::ResizeNote { .. } => "UPDATE notes SET width = ?, height = ? WHERE id = ?",
            Command::PinNote { .. } => "UPDATE notes SET always_on_top = ? WHERE id = ?",
            Command::TrashNote { .. } =>
                "UPDATE notes SET deleted = 1, deletion_order = (SELECT COALESCE(MAX(deletion_order), 0) + 1 FROM notes) WHERE id = ?",
            Command::RestoreNote { .. } => "UPDATE notes SET deleted = 0, deletion_order = 0 WHERE id = ?",
            Command::DeleteBlocksOfNote { .. } => "DELETE FROM blocks WHERE note_id = ?",
            Command::DeleteNote { .. } => "DELETE FROM notes WHERE id = ?",
            Command::InsertBlock { .. } =>
                "INSERT INTO blocks (note_id, x, y, width, height, content) VALUES (?, ?, ?, ?, ?, ?)",
            Command::UpdateBlock { .. } =>
                "UPDATE blocks SET x = ?, y = ?, width = ?, height = ?, content = ? WHERE id = ?",
            Command::DeleteBlock { .. } => "DELETE FROM blocks WHERE id = ?",
            Command::LinkBlocks { .. } =>
                "INSERT OR IGNORE INTO block_links (source_id, target_id) VALUES (?, ?)",
        }
    }
}

/// A read of the store.
#[derive(PartialEq, Eq, Clone, Copy, Debug)]
pub enum Query {
    /// The notes outside the recycle bin.
    VisibleNotes,
    /// The blocks of a note.
    BlocksOfNote { note_id: i64 },
    /// The blocks whose content is like a pattern (see `search_pattern`).
    SearchBlocks,
    /// The binned note deleted last, if any (by stamp, then by id).
    LatestTrashed,
    /// The ids of the binned notes.
    TrashedIds,
    /// The links whose source block belongs to a note.
    LinksOfNote { note_id: i64 },
}

/// The SQL text of a query.
pub open spec fn query_sql(q: Query) -> Seq<char> {
    match q {
        Query::VisibleNotes =>
            "SELECT id, x, y, width, height, color, always_on_top FROM notes WHERE deleted = 0"@,
        Query::BlocksOfNote { .. } =>
            "SELECT id, note_id, x, y, width, height, content FROM blocks WHERE note_id = ?"@,
        Query::SearchBlocks =>
            "SELECT id, note_id, x, y, width, height, content FROM blocks WHERE content LIKE ?"@,
        Query::LatestTrashed =>
            "SELECT id, x, y, width, height, color, always_on_top FROM notes WHERE deleted = 1 ORDER BY deletion_order DESC, id DESC LIMIT 1"@,
        Query::TrashedIds => "SELECT id FROM notes WHERE deleted = 1"@,
        Query::LinksOfNote { .. } =>
            "SELECT l.source_id, l.target_id FROM block_links l JOIN blocks b ON l.source_id = b.id WHERE b.note_id = ?"@,
    }
}

impl Query {
    /// The SQL statement that answers the query.
    pub fn sql(&self) -> (res: &'static str)
        ensures
            res@ == query_sql(*self),
    {
        match self {
            Query::VisibleNotes =>
                "SELECT id, x, y, width, height, color, always_on_top FROM notes WHERE deleted = 0",
            Query::BlocksOfNote { .. } =>
                "SELECT id, note_id, x, y, width, height, content FROM blocks WHERE note_id = ?",
            Query::SearchBlocks =>
                "SELECT id, note_id, x, y, width, height, content FROM blocks WHERE content LIKE ?",
            Query::LatestTrashed =>
                "SELECT id, x, y, width, height, color, always_on_top FROM notes WHERE deleted = 1 ORDER BY deletion_order DESC, id DESC LIMIT 1",
            Query::TrashedIds => "SELECT id FROM notes WHERE deleted = 1",
            Query::LinksOfNote { .. } =>
                "SELECT l.source_id, l.target_id FROM block_links l JOIN blocks b ON l.source_id = b.id WHERE b.note_id = ?",
        }
    }
}

/// The statements that create the tables when they are missing, in order.
pub fn schema() -> (res: Vec<&'static str>)
    ensures
        res.len() == 3,
        res@[0]@ == "CREATE TABLE IF NOT EXISTS notes (id INTEGER PRIMARY KEY AUTOINCREMENT, x INTEGER, y INTEGER, width INTEGER, height INTEGER, color TEXT, always_on_top BOOLEAN, deleted BOOLEAN DEFAULT 0, deletion_order INTEGER DEFAULT 0)"@,
        res@[1]@ == "CREATE TABLE IF NOT EXISTS blocks (id INTEGER PRIMARY KEY AUTOINCREMENT, note_id INTEGER, x REAL, y REAL, width REAL, height REAL, content TEXT, FOREIGN KEY(note_id) REFERENCES notes(id) ON DELETE CASCADE)"@,
        res@[2]@ == "CREATE TABLE IF NOT EXISTS block_links (source_id INTEGER, target_id INTEGER, PRIMARY KEY (source_id, target_id), FOREIGN KEY(source_id) REFERENCES blocks(id) ON DELETE CASCADE, FOREIGN KEY(target_id) REFERENCES blocks(id) ON DELETE CASCADE)"@,
{
    let mut res: Vec<&'static str> = Vec::new();
    res.push("CREATE TABLE IF NOT EXISTS notes (id INTEGER PRIMARY KEY AUTOINCREMENT, x INTEGER, y INTEGER, width INTEGER, height INTEGER, color TEXT, always_on_top BOOLEAN, deleted BOOLEAN DEFAULT 0, deletion_order INTEGER DEFAULT 0)");
    res.push("CREATE TABLE IF NOT EXISTS blocks (id INTEGER PRIMARY KEY AUTOINCREMENT, note_id INTEGER, x REAL, y REAL, width REAL, height REAL, content TEXT, FOREIGN KEY(note_id) REFERENCES notes(id) ON DELETE CASCADE)");
    res.push("CREATE TABLE IF NOT EXISTS block_links (source_id INTEGER, target_id INTEGER, PRIMARY KEY (source_id, target_id), FOREIGN KEY(source_id) REFERENCES blocks(id) ON DELETE CASCADE, FOREIGN KEY(target_id) REFERENCES blocks(id) ON DELETE CASCADE)");
    res
}

/// The statements that add the recycle-bin columns to a notes table made
/// before there were such columns; each fails harmlessly when its column
/// exists.
pub fn migrations() -> (res: Vec<&'static str>)
    ensures
        res.len() == 2,
        res@[0]@ == "ALTER TABLE notes ADD COLUMN deleted BOOLEAN DEFAULT 0"@,
        res@[1]@ == "ALTER TABLE notes ADD COLUMN deletion_order INTEGER DEFAULT 0"@,
{
    let mut res: Vec<&'static str> = Vec::new();
    res.push("ALTER TABLE notes ADD COLUMN deleted BOOLEAN DEFAULT 0");
    res.push("ALTER TABLE notes ADD COLUMN deletion_order INTEGER DEFAULT 0");
    res
}

/// Note `id` exists and is not in the recycle bin (the visible-notes query
/// returns it).
pub open spec fn is_visible(s: StoreView, id: i64) -> bool {
    s.notes.contains_key(id) && !s.notes[id].deleted
}

/// Note `id` is in the recycle bin.
pub open spec fn is_trashed(s: StoreView, id: i64) -> bool {
    s.notes.contains_key(id) && s.notes[id].deleted
}

/// Note `id` is the binned note that the latest-trashed query returns: the
/// one with the largest deletion stamp, and among equal stamps the one with
/// the highest id.
pub open spec fn is_latest_trashed(s: StoreView, id: i64) -> bool {
    &&& is_trashed(s, id)
    &&& forall|o: i64| #[trigger] is_trashed(s, o) && o != id ==> (s.notes[o].deletion_order
        < s.notes[id].deletion_order || (s.notes[o].deletion_order == s.notes[id].deletion_order
        && o < id))
}

/// The store's rows are consistent: a note outside the bin has no deletion
/// stamp.
pub open spec fn well_formed(s: StoreView) -> bool {
    forall|id: i64| #[trigger] is_visible(s, id) ==> s.notes[id].deletion_order == 0
}

/// `fresh` is larger than every deletion stamp in the store, as the stamp the
/// store computes for a deletion is.
pub open spec fn is_next_stamp(s: StoreView, fresh: i64) -> bool {
    forall|o: i64| #[trigger] s.notes.contains_key(o) ==> s.notes[o].deletion_order < fresh
}

/// The links the links-of-note query returns: those whose source block
/// belongs to the note.
pub open spec fn links_of_note(s: StoreView, note_id: i64) -> Set<(i64, i64)> {
    s.links.filter(|l: (i64, i64)| s.blocks.contains_key(l.0) && s.blocks[l.0].note_id == note_id)
}

/// `cmd` adds a new note at `(x, y)` with colour `color`, of the new-note
/// size and kept above other windows.
pub open spec fn is_new_note_command(cmd: Command, x: i32, y: i32, color: Seq<char>) -> bool {
    cmd matches Command::InsertNote { x: cx, y: cy, width, height, color: c, always_on_top }
        && cx == x && cy == y && width == NEW_NOTE_SIZE && height == NEW_NOTE_SIZE
        && c@ == color && always_on_top
}

/// The command that creates a note at `(x, y)` with colour `color`.
pub fn new_note(x: i32, y: i32, color: &str) -> (res: Command)
    ensures
        is_new_note_command(res, x, y, color@),
{
    let mut c = String::new();
    push_str(&mut c, color);
    Command::InsertNote {
        x,
        y,
        width: NEW_NOTE_SIZE,
        height: NEW_NOTE_SIZE,
        color: c,
        always_on_top: true,
    }
}

/// What restoring does with the answer of the latest-trashed query: the
/// note found is taken out of the recycle bin; with none, nothing happens.
pub fn restore_command(latest: Option<&Note>) -> (res: Option<Command>)
    ensures
        match latest {
            Some(n) => res == Some(Command::RestoreNote { id: n.id }),
            None => res is None,
        },
{
    match latest {
        Some(n) => Some(Command::RestoreNote { id: n.id }),
        None => None,
    }
}

/// The commands that empty the recycle bin, given the binned notes' ids: for
/// each note, in order, its blocks are removed and then the note.
pub open spec fn purge_commands(ids: Seq<i64>) -> Seq<Command>
    decreases ids.len(),
{
    if ids.len() == 0 {
        Seq::empty()
    } else {
        purge_commands(ids.drop_last()) + seq![
            Command::DeleteBlocksOfNote { note_id: ids.last() },
            Command::DeleteNote { id: ids.last() },
        ]
    }
}

/// The commands that empty the recycle bin whose notes have the given ids.
pub fn empty_trash_commands(ids: &Vec<i64>) -> (res: Vec<Command>)
    ensures
        res@ == purge_commands(ids@),
{
    let mut res: Vec<Command> = Vec::new();
    let mut i: usize = 0;
    while i < ids.len()
        invariant
            i <= ids.len(),
            res@ == purge_commands(ids@.take(i as int)),
        decreases ids.len() - i,
    {
        assert(ids@.take(i + 1).drop_last() =~= ids@.take(i as int));
        res.push(Command::DeleteBlocksOfNote { note_id: ids[i] });
        res.push(Command::DeleteNote { id: ids[i] });
        assert(res@ =~= purge_commands(ids@.take(i + 1)));
        i = i + 1;
    }
    assert(ids@.take(ids.len() as int) =~= ids@);
    res
}

/// `cmd` saves a block whose id is `id` (0 for a block not stored yet), of
/// note `note_id`, with content `content`: a new block is inserted, a
/// stored one rewritten.
pub open spec fn is_block_write(cmd: Command, id: i64, note_id: i64, content: Seq<char>) -> bool {
    if id == 0 {
        cmd matches Command::InsertBlock { note_id: n, content: c } && n == note_id && c@ == content
    } else {
        cmd matches Command::UpdateBlock { id: i, content: c } && i == id && c@ == content
    }
}

/// The command that saves a block (inserted when its id is 0, else updated).
pub fn block_write(id: i64, note_id: i64, content: &str) -> (res: Command)
    ensures
        is_block_write(res, id, note_id, content@),
{
    let mut c = String::new();
    push_str(&mut c, content);
    if id == 0 {
        Command::InsertBlock { note_id, content: c }
    } else {
        Command::UpdateBlock { id, content: c }
    }
}

/// The id of a block after it was saved: the id the store gave it when it
/// was inserted, else its own.
pub fn saved_block_id(id: i64, rowid: i64) -> (res: i64)
    ensures
        res == if id == 0 { rowid } else { id },
{
    if id == 0 {
        rowid
    } else {
        id
    }
}

/// The LIKE pattern that finds `query` anywhere in a block's content.
pub fn search_pattern(query: &str) -> (res: String)
    ensures
        res@ == "%"@ + query@ + "%"@,
{
    let mut res = String::new();
    push_str(&mut res, "%");
    push_str(&mut res, query);
    push_str(&mut res, "%");
    res
}

/// A new note is visible, with the position, colour, size and pin that the
/// new-note command gives it, and nothing else changes.
pub proof fn law_new_note_visible(s: StoreView, cmd: Command, x: i32, y: i32, color: Seq<char>,
    rowid: i64)
    requires
        is_new_note_command(cmd, x, y, color),
        !s.notes.contains_key(rowid),
    ensures
        ({
            let t = apply(cmd, s, rowid);
            &&& is_visible(t, rowid)
            &&& t.notes[rowid] == (NoteRecord {
                x, y, width: NEW_NOTE_SIZE, height: NEW_NOTE_SIZE, color, always_on_top: true,
                deleted: false, deletion_order: 0,
            })
            &&& forall|o: i64| o != rowid ==> (t.notes.contains_key(o) == s.notes.contains_key(o))
            &&& t.blocks == s.blocks
            &&& t.links == s.links
        }),
{
}

/// Deleting a visible note moves it to the recycle bin: it is no longer
/// visible, its row and blocks are kept, and the other notes are untouched.
/// It becomes the note that restoring brings back, whatever the ids and
/// whatever else is in the bin; restoring it gives back the store exactly as
/// it was before the delete.
pub proof fn law_trash_then_restore(s: StoreView, id: i64, fresh: i64)
    requires
        well_formed(s),
        is_visible(s, id),
        is_next_stamp(s, fresh),
    ensures
        ({
            let t = apply(Command::TrashNote { id }, s, fresh);
            &&& !is_visible(t, id)
            &&& is_trashed(t, id)
            &&& t.notes[id] == (NoteRecord { deleted: true, deletion_order: fresh, ..s.notes[id] })
            &&& t.blocks == s.blocks
            &&& t.links == s.links
            &&& forall|o: i64| o != id ==> (#[trigger] t.notes.contains_key(o)
                == s.notes.contains_key(o) && t.notes[o] == s.notes[o])
            &&& is_latest_trashed(t, id)
            &&& well_formed(t)
            &&& apply(Command::RestoreNote { id }, t, fresh) == s
        }),
{
    let t = apply(Command::TrashNote { id }, s, fresh);
    let u = apply(Command::RestoreNote { id }, t, fresh);
    assert(s.notes[id].deletion_order == 0);
    assert(u.notes =~= s.notes);
    assert forall|o: i64| #[trigger] is_trashed(t, o) && o != id implies t.notes[o].deletion_order
        < t.notes[id].deletion_order by {
        assert(s.notes.contains_key(o));
    }
    assert forall|o: i64| #[trigger] is_visible(t, o) implies t.notes[o].deletion_order == 0 by {
        assert(is_visible(s, o));
    }
}

/// Every command keeps the store well formed: a note outside the bin never
/// carries a deletion stamp.
pub proof fn law_commands_keep_well_formed(cmd: Command, s: StoreView, fresh: i64)
    requires
        well_formed(s),
    ensures
        well_formed(apply(cmd, s, fresh)),
{
    let t = apply(cmd, s, fresh);
    assert forall|o: i64| #[trigger] is_visible(t, o) implies t.notes[o].deletion_order == 0 by {
        if s.notes.contains_key(o) && t.notes[o].deleted == s.notes[o].deleted
            && t.notes[o].deletion_order == s.notes[o].deletion_order {
            assert(is_visible(s, o));
        }
        match cmd {
            Command::InsertNote { .. } => {},
            Command::MoveNote { id, .. } => {},
            Command::RecolorNote { id, .. } => {},
            Command::ResizeNote { id, .. } => {},
            Command::PinNote { id, .. } => {},
            Command::TrashNote { id } => {},
            Command::RestoreNote { id } => {},
            Command::DeleteBlocksOfNote { .. } => {},
            Command::DeleteNote { id } => {},
            Command::InsertBlock { .. } => {},
            Command::UpdateBlock { .. } => {},
            Command::DeleteBlock { .. } => {},
            Command::LinkBlocks { .. } => {},
        }
    }
}

/// Deleting note `a` and then note `b` makes `b` the note that restoring
/// brings back, whichever has the higher id; restoring it leaves `a` in the
/// bin, as the next note to restore.
pub proof fn law_restore_most_recent(s: StoreView, a: i64, b: i64, first: i64, second: i64)
    requires
        well_formed(s),
        a != b,
        is_visible(s, a),
        is_visible(s, b),
        is_next_stamp(s, first),
        first < second,
    ensures
        ({
            let t1 = apply(Command::TrashNote { id: a }, s, first);
            let t2 = apply(Command::TrashNote { id: b }, t1, second);
            let t3 = apply(Command::RestoreNote { id: b }, t2, second);
            &&& is_latest_trashed(t2, b)
            &&& is_visible(t3, b)
            &&& is_trashed(t3, a)
            &&& is_latest_trashed(t3, a)
        }),
{
    law_trash_then_restore(s, a, first);
    let t1 = apply(Command::TrashNote { id: a }, s, first);
    assert(is_next_stamp(t1, second)) by {
        assert forall|o: i64| #[trigger] t1.notes.contains_key(o) implies t1.notes[o].deletion_order
            < second by {
            if o != a {
                assert(s.notes.contains_key(o));
            }
        }
    }
    assert(is_visible(t1, b));
    law_trash_then_restore(t1, b, second);
    let t2 = apply(Command::TrashNote { id: b }, t1, second);
    let t3 = apply(Command::RestoreNote { id: b }, t2, second);
    assert(t3 == t1);
    assert(is_trashed(t3, a));
}

/// The store once the notes whose ids are in `gone` and their blocks have
/// been removed.
pub open spec fn without_notes(s: StoreView, gone: Seq<i64>) -> StoreView {
    StoreView {
        notes: Map::new(|k: i64| s.notes.contains_key(k) && !gone.contains(k), |k: i64| s.notes[k]),
        blocks: Map::new(
            |k: i64| s.blocks.contains_key(k) && !gone.contains(s.blocks[k].note_id),
            |k: i64| s.blocks[k],
        ),
        links: s.links,
    }
}

proof fn lemma_purge_prefix(s: StoreView, ids: Seq<i64>)
    ensures
        apply_all(purge_commands(ids), s) == without_notes(s, ids),
    decreases ids.len(),
{
    if ids.len() == 0 {
        let w = without_notes(s, ids);
        assert(w.notes =~= s.notes);
        assert(w.blocks =~= s.blocks);
        assert(w == s);
    } else {
        let last = ids.last();
        let prev = ids.drop_last();
        lemma_purge_prefix(s, prev);
        let before = purge_commands(prev);
        let cmds = purge_commands(ids);
        let c1 = Command::DeleteBlocksOfNote { note_id: last };
        let c2 = Command::DeleteNote { id: last };
        assert(cmds.drop_last() =~= before.push(c1));
        assert(cmds.drop_last().drop_last() =~= before);
        let w0 = without_notes(s, prev);
        let w1 = apply(c1, w0, 0);
        let w2 = apply(c2, w1, 0);
        let goal = without_notes(s, ids);
        assert forall|k: i64| #[trigger] ids.contains(k) <==> prev.contains(k) || k == last by {
            if prev.contains(k) {
                let i = choose|i: int| 0 <= i < prev.len() && prev[i] == k;
                assert(ids[i] == k);
            }
            if k == last {
                assert(ids[ids.len() - 1] == k);
            }
            if ids.contains(k) {
                let i = choose|i: int| 0 <= i < ids.len() && ids[i] == k;
                if i < ids.len() - 1 {
                    assert(prev[i] == k);
                }
            }
        }
        assert(w2.notes =~= goal.notes);
        assert(w2.blocks =~= goal.blocks);
        assert(w2 == goal);
        assert(apply_all(cmds.drop_last(), s) == apply(c1, apply_all(before, s), 0));
        assert(apply_all(cmds, s) == apply(c2, apply_all(cmds.drop_last(), s), 0));
    }
}

/// Emptying the recycle bin, given exactly the ids of the binned notes,
/// removes those notes and every block that belongs to one of them; the
/// visible notes, the other blocks and the links stay as they were.
pub proof fn law_empty_trash(s: StoreView, ids: Seq<i64>)
    requires
        forall|id: i64| ids.contains(id) <==> #[trigger] is_trashed(s, id),
    ensures
        ({
            let t = apply_all(purge_commands(ids), s);
            &&& t.notes == Map::new(|k: i64| is_visible(s, k), |k: i64| s.notes[k])
            &&& t.blocks == Map::new(
                |k: i64| s.blocks.contains_key(k) && !is_trashed(s, s.blocks[k].note_id),
                |k: i64| s.blocks[k],
            )
            &&& t.links == s.links
            &&& forall|id: i64| #[trigger] is_visible(t, id) <==> is_visible(s, id)
            &&& forall|id: i64| !#[trigger] is_trashed(t, id)
        }),
{
    lemma_purge_prefix(s, ids);
    let t = apply_all(purge_commands(ids), s);
    assert forall|k: i64| ids.contains(k) <==> #[trigger] is_trashed(s, k) by {}
    assert forall|k: i64| #[trigger] t.notes.contains_key(k) <==> is_visible(s, k) by {
        if is_trashed(s, k) {
            assert(ids.contains(k));
        }
        if ids.contains(k) {
            assert(is_trashed(s, k));
        }
    }
    assert(t.notes =~= Map::new(|k: i64| is_visible(s, k), |k: i64| s.notes[k]));
    assert forall|k: i64| #[trigger] t.blocks.contains_key(k) <==> (s.blocks.contains_key(k)
        && !is_trashed(s, s.blocks[k].note_id)) by {
        if s.blocks.contains_key(k) {
            let n = s.blocks[k].note_id;
            if is_trashed(s, n) {
                assert(ids.contains(n));
            }
            if ids.contains(n) {
                assert(is_trashed(s, n));
            }
        }
    }
    assert(t.blocks =~= Map::new(
        |k: i64| s.blocks.contains_key(k) && !is_trashed(s, s.blocks[k].note_id),
        |k: i64| s.blocks[k],
    ));
}

/// Linking two blocks a second time changes nothing.
pub proof fn law_link_idempotent(s: StoreView, source: i64, target: i64, rowid: i64)
    ensures
        ({
            let c = Command::LinkBlocks { source, target };
            &&& apply(c, apply(c, s, rowid), rowid) == apply(c, s, rowid)
            &&& apply(c, s, rowid).links.contains((source, target))
        }),
{
    let c = Command::LinkBlocks { source, target };
    assert(apply(c, apply(c, s, rowid), rowid).links =~= apply(c, s, rowid).links);
}

/// Saving a block that has no id yet stores it under the id the store gives
/// it, with its note and content; saving a stored block rewrites its
/// content and keeps its note. Either way the notes and links stay as they
/// were.
pub proof fn law_block_write(s: StoreView, cmd: Command, id: i64, note_id: i64,
    content: Seq<char>, rowid: i64)
    requires
        is_block_write(cmd, id, note_id, content),
        id != 0 ==> s.blocks.contains_key(id),
    ensures
        ({
            let t = apply(cmd, s, rowid);
            let key = if id == 0 { rowid } else { id };
            &&& t.blocks.contains_key(key)
            &&& t.blocks[key].content == content
            &&& t.blocks[key].note_id == if id == 0 { note_id } else { s.blocks[id].note_id }
            &&& t.notes == s.notes
            &&& t.links == s.links
        }),
{
}

} // verus!
