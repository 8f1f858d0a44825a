//! The SQL that the store runs, as statements with a meaning. Each
//! statement the application sends is written out from a small syntax tree;
//! running the tree on the tables' content, with the command's fields bound
//! to its `?` parameters in order, is what the command does to the store,
//! and selecting with it picks the rows that the query is meant to return.

use vstd::prelude::*;
use crate::db::{
    apply, command_sql, is_latest_trashed, is_trashed, is_visible, links_of_note, query_sql, BlockRecord,
    Command, NoteRecord, Query, StoreView,
};

verus! {

/// The store's tables.
pub enum Table {
    Notes,
    Blocks,
    Links,
}

/// The columns of the store's tables.
pub enum Column {
    Id,
    NoteId,
    X,
    Y,
    Width,
    Height,
    Color,
    AlwaysOnTop,
    Deleted,
    DeletionOrder,
    Content,
    SourceId,
    TargetId,
}

/// A value bound to a parameter or held in a cell. Booleans are bound as
/// the integers 1 and 0.
pub enum Value {
    Int(int),
    Text(Seq<char>),
    /// A value the store's view does not hold, such as a block's geometry.
    Other,
}

/// The right-hand side of an assignment.
pub enum Expr {
    /// The next `?` parameter.
    Param,
    /// An integer literal.
    Lit(nat),
    /// The next deletion stamp: one more than the largest stamp in the notes
    /// table, computed by a subquery.
    NextStamp,
}

/// A row filter.
pub enum Cond {
    /// The column equals the next `?` parameter.
    EqParam(Column),
    /// The column equals an integer literal.
    EqLit(Column, nat),
}

/// A statement.
pub enum Stmt {
    /// Adds a row whose listed columns take the parameters in order.
    Insert { or_ignore: bool, table: Table, cols: Seq<Column> },
    /// Assigns the listed columns of the rows that pass the filter.
    Update { table: Table, sets: Seq<(Column, Expr)>, cond: Cond },
    /// Removes the rows that pass the filter.
    Delete { table: Table, cond: Cond },
    /// Reads the listed columns of the rows that pass the filter; with
    /// `latest`, only the row with the largest deletion stamp, ties broken
    /// by the largest id.
    Select { cols: Seq<Column>, table: Table, cond: Cond, latest: bool },
    /// Reads the links whose block at the end `via` passes the filter,
    /// joining the links table (as `l`) with the blocks table (as `b`).
    SelectLinks { via: Column, cond: Cond },
}

pub open spec fn table_name(t: Table) -> Seq<char> {
    match t {
        Table::Notes => "notes"@,
        Table::Blocks => "blocks"@,
        Table::Links => "block_links"@,
    }
}

pub open spec fn column_name(c: Column) -> Seq<char> {
    match c {
        Column::Id => "id"@,
        Column::NoteId => "note_id"@,
        Column::X => "x"@,
        Column::Y => "y"@,
        Column::Width => "width"@,
        Column::Height => "height"@,
        Column::Color => "color"@,
        Column::AlwaysOnTop => "always_on_top"@,
        Column::Deleted => "deleted"@,
        Column::DeletionOrder => "deletion_order"@,
        Column::Content => "content"@,
        Column::SourceId => "source_id"@,
        Column::TargetId => "target_id"@,
    }
}

/// `parts` separated by `", "`.
pub open spec fn comma_list(parts: Seq<Seq<char>>) -> Seq<char>
    decreases parts.len(),
{
    if parts.len() == 0 {
        Seq::empty()
    } else if parts.len() == 1 {
        parts[0]
    } else {
        comma_list(parts.drop_last()) + ", "@ + parts.last()
    }
}

/// The decimal digits of `n`.
pub open spec fn decimal(n: nat) -> Seq<char>
    decreases n,
{
    if n < 10 {
        seq![(n + 48) as char]
    } else {
        decimal(n / 10) + seq![((n % 10) + 48) as char]
    }
}

pub open spec fn render_expr(e: Expr) -> Seq<char> {
    match e {
        Expr::Param => "?"@,
        Expr::Lit(n) => decimal(n),
        Expr::NextStamp => "(SELECT COALESCE(MAX(deletion_order), 0) + 1 FROM notes)"@,
    }
}

pub open spec fn render_cond(c: Cond) -> Seq<char> {
    match c {
        Cond::EqParam(col) => column_name(col) + " = ?"@,
        Cond::EqLit(col, n) => column_name(col) + " = "@ + decimal(n),
    }
}

pub open spec fn render_set(s: (Column, Expr)) -> Seq<char> {
    column_name(s.0) + " = "@ + render_expr(s.1)
}

/// The text of a statement.
pub open spec fn render(s: Stmt) -> Seq<char> {
    match s {
        Stmt::Insert { or_ignore, table, cols } =>
            "INSERT "@ + (if or_ignore { "OR IGNORE "@ } else { Seq::empty() }) + "INTO "@
                + table_name(table) + " ("@ + comma_list(cols.map_values(|c: Column| column_name(c)))
                + ") VALUES ("@ + comma_list(Seq::new(cols.len(), |k: int| "?"@)) + ")"@,
        Stmt::Update { table, sets, cond } =>
            "UPDATE "@ + table_name(table) + " SET "@
                + comma_list(sets.map_values(|s: (Column, Expr)| render_set(s))) + " WHERE "@
                + render_cond(cond),
        Stmt::Delete { table, cond } =>
            "DELETE FROM "@ + table_name(table) + " WHERE "@ + render_cond(cond),
        Stmt::Select { cols, table, cond, latest } =>
            "SELECT "@ + comma_list(cols.map_values(|c: Column| column_name(c))) + " FROM "@
                + table_name(table) + " WHERE "@ + render_cond(cond) + (if latest {
                " ORDER BY deletion_order DESC, id DESC LIMIT 1"@
            } else {
                Seq::empty()
            }),
        Stmt::SelectLinks { via, cond } =>
            "SELECT l.source_id, l.target_id FROM block_links l JOIN blocks b ON l."@
                + column_name(via) + " = b.id WHERE b."@ + render_cond(cond),
    }
}

/// The integer a value holds; 0 for a value that holds none.
pub open spec fn int_of(v: Value) -> int {
    match v {
        Value::Int(n) => n,
        _ => 0,
    }
}

/// The text a value holds; empty for a value that holds none.
pub open spec fn text_of(v: Value) -> Seq<char> {
    match v {
        Value::Text(t) => t,
        _ => Seq::empty(),
    }
}

/// A boolean as the store binds and keeps it.
pub open spec fn flag(b: bool) -> Value {
    Value::Int(if b { 1 } else { 0 })
}

/// The cell of column `c` in the notes row with id `id`.
pub open spec fn note_cell(id: i64, r: NoteRecord, c: Column) -> Value {
    match c {
        Column::Id => Value::Int(id as int),
        Column::X => Value::Int(r.x as int),
        Column::Y => Value::Int(r.y as int),
        Column::Width => Value::Int(r.width as int),
        Column::Height => Value::Int(r.height as int),
        Column::Color => Value::Text(r.color),
        Column::AlwaysOnTop => flag(r.always_on_top),
        Column::Deleted => flag(r.deleted),
        Column::DeletionOrder => Value::Int(r.deletion_order as int),
        _ => Value::Other,
    }
}

/// The cell of column `c` in the blocks row with id `id`; the geometry is
/// not held by the store's view.
pub open spec fn block_cell(id: i64, r: BlockRecord, c: Column) -> Value {
    match c {
        Column::Id => Value::Int(id as int),
        Column::NoteId => Value::Int(r.note_id as int),
        Column::Content => Value::Text(r.content),
        _ => Value::Other,
    }
}

/// The cell of column `c` in the links row `l`.
pub open spec fn link_cell(l: (i64, i64), c: Column) -> Value {
    match c {
        Column::SourceId => Value::Int(l.0 as int),
        Column::TargetId => Value::Int(l.1 as int),
        _ => Value::Other,
    }
}

/// A row whose cell of the filtered column is `cell` passes `cond`, the
/// filter's `?` taking the parameter at position `k`.
pub open spec fn passes(cond: Cond, cell: Value, params: Seq<Value>, k: int) -> bool {
    match cond {
        Cond::EqParam(_) => cell == params[k],
        Cond::EqLit(_, n) => cell == Value::Int(n as int),
    }
}

pub open spec fn cond_column(cond: Cond) -> Column {
    match cond {
        Cond::EqParam(c) => c,
        Cond::EqLit(c, _) => c,
    }
}

pub open spec fn note_passes(cond: Cond, id: i64, r: NoteRecord, params: Seq<Value>, k: int) -> bool {
    passes(cond, note_cell(id, r, cond_column(cond)), params, k)
}

pub open spec fn block_passes(cond: Cond, id: i64, r: BlockRecord, params: Seq<Value>, k: int) -> bool {
    passes(cond, block_cell(id, r, cond_column(cond)), params, k)
}

/// A notes row with column `c` set to `v`.
pub open spec fn set_note(r: NoteRecord, c: Column, v: Value) -> NoteRecord {
    match c {
        Column::X => NoteRecord { x: int_of(v) as i32, ..r },
        Column::Y => NoteRecord { y: int_of(v) as i32, ..r },
        Column::Width => NoteRecord { width: int_of(v) as i32, ..r },
        Column::Height => NoteRecord { height: int_of(v) as i32, ..r },
        Column::Color => NoteRecord { color: text_of(v), ..r },
        Column::AlwaysOnTop => NoteRecord { always_on_top: int_of(v) != 0, ..r },
        Column::Deleted => NoteRecord { deleted: int_of(v) != 0, ..r },
        Column::DeletionOrder => NoteRecord { deletion_order: int_of(v) as i64, ..r },
        _ => r,
    }
}

/// A blocks row with column `c` set to `v` (the geometry is not held).
pub open spec fn set_block(r: BlockRecord, c: Column, v: Value) -> BlockRecord {
    match c {
        Column::NoteId => BlockRecord { note_id: int_of(v) as i64, ..r },
        Column::Content => BlockRecord { content: text_of(v), ..r },
        _ => r,
    }
}

/// A links row with column `c` set to `v`.
pub open spec fn set_link(l: (i64, i64), c: Column, v: Value) -> (i64, i64) {
    match c {
        Column::SourceId => (int_of(v) as i64, l.1),
        Column::TargetId => (l.0, int_of(v) as i64),
        _ => l,
    }
}

/// How many `?` parameters the assignments take.
pub open spec fn n_params(sets: Seq<(Column, Expr)>) -> nat
    decreases sets.len(),
{
    if sets.len() == 0 {
        0
    } else {
        n_params(sets.drop_last()) + if sets.last().1 is Param { 1nat } else { 0nat }
    }
}

/// The value of an assigned expression whose `?`, if it has one, takes the
/// parameter at position `k`; the next stamp is `fresh`, the stamp that the
/// subquery computes.
pub open spec fn eval(e: Expr, params: Seq<Value>, k: int, fresh: i64) -> Value {
    match e {
        Expr::Param => params[k],
        Expr::Lit(n) => Value::Int(n as int),
        Expr::NextStamp => Value::Int(fresh as int),
    }
}

/// A notes row after the assignments, in order.
pub open spec fn assign_note(r: NoteRecord, sets: Seq<(Column, Expr)>, params: Seq<Value>,
    fresh: i64) -> NoteRecord
    decreases sets.len(),
{
    if sets.len() == 0 {
        r
    } else {
        let before = sets.drop_last();
        set_note(assign_note(r, before, params, fresh), sets.last().0,
            eval(sets.last().1, params, n_params(before) as int, fresh))
    }
}

/// A blocks row after the assignments, in order.
pub open spec fn assign_block(r: BlockRecord, sets: Seq<(Column, Expr)>, params: Seq<Value>,
    fresh: i64) -> BlockRecord
    decreases sets.len(),
{
    if sets.len() == 0 {
        r
    } else {
        let before = sets.drop_last();
        set_block(assign_block(r, before, params, fresh), sets.last().0,
            eval(sets.last().1, params, n_params(before) as int, fresh))
    }
}

/// A new notes row whose listed columns take the parameters in order; the
/// other columns keep the schema's defaults (not in the bin, stamp 0).
pub open spec fn fill_note(cols: Seq<Column>, params: Seq<Value>) -> NoteRecord
    decreases cols.len(),
{
    if cols.len() == 0 {
        NoteRecord {
            x: 0,
            y: 0,
            width: 0,
            height: 0,
            color: Seq::empty(),
            always_on_top: false,
            deleted: false,
            deletion_order: 0,
        }
    } else {
        set_note(fill_note(cols.drop_last(), params), cols.last(), params[cols.len() - 1])
    }
}

/// A new blocks row whose listed columns take the parameters in order.
pub open spec fn fill_block(cols: Seq<Column>, params: Seq<Value>) -> BlockRecord
    decreases cols.len(),
{
    if cols.len() == 0 {
        BlockRecord { note_id: 0, content: Seq::empty() }
    } else {
        set_block(fill_block(cols.drop_last(), params), cols.last(), params[cols.len() - 1])
    }
}

/// A new links row whose listed columns take the parameters in order.
pub open spec fn fill_link(cols: Seq<Column>, params: Seq<Value>) -> (i64, i64)
    decreases cols.len(),
{
    if cols.len() == 0 {
        (0, 0)
    } else {
        set_link(fill_link(cols.drop_last(), params), cols.last(), params[cols.len() - 1])
    }
}

/// The store after a write statement runs with `params` bound to its `?`s
/// in order; `fresh` is the id a new row gets and the stamp the subquery
/// computes. A read leaves the store as it is; `None` for an update of the
/// links table, which no statement makes.
pub open spec fn run(st: Stmt, params: Seq<Value>, s: StoreView, fresh: i64) -> Option<StoreView> {
    match st {
        Stmt::Insert { table, cols, .. } => match table {
            Table::Notes => Some(StoreView { notes: s.notes.insert(fresh, fill_note(cols, params)), ..s }),
            Table::Blocks => Some(StoreView {
                blocks: s.blocks.insert(fresh, fill_block(cols, params)),
                ..s
            }),
            Table::Links => Some(StoreView { links: s.links.insert(fill_link(cols, params)), ..s }),
        },
        Stmt::Update { table, sets, cond } => {
            let k = n_params(sets) as int;
            match table {
                Table::Notes => Some(StoreView {
                    notes: Map::new(
                        |id: i64| s.notes.contains_key(id),
                        |id: i64| if note_passes(cond, id, s.notes[id], params, k) {
                            assign_note(s.notes[id], sets, params, fresh)
                        } else {
                            s.notes[id]
                        },
                    ),
                    ..s
                }),
                Table::Blocks => Some(StoreView {
                    blocks: Map::new(
                        |id: i64| s.blocks.contains_key(id),
                        |id: i64| if block_passes(cond, id, s.blocks[id], params, k) {
                            assign_block(s.blocks[id], sets, params, fresh)
                        } else {
                            s.blocks[id]
                        },
                    ),
                    ..s
                }),
                Table::Links => None,
            }
        },
        Stmt::Delete { table, cond } => match table {
            Table::Notes => Some(StoreView {
                notes: Map::new(
                    |id: i64| s.notes.contains_key(id) && !note_passes(cond, id, s.notes[id], params, 0),
                    |id: i64| s.notes[id],
                ),
                ..s
            }),
            Table::Blocks => Some(StoreView {
                blocks: Map::new(
                    |id: i64| s.blocks.contains_key(id) && !block_passes(cond, id, s.blocks[id], params, 0),
                    |id: i64| s.blocks[id],
                ),
                ..s
            }),
            Table::Links => Some(StoreView {
                links: s.links.filter(|l: (i64, i64)| !passes(cond, link_cell(l, cond_column(cond)), params, 0)),
                ..s
            }),
        },
        Stmt::Select { .. } => Some(s),
        Stmt::SelectLinks { .. } => Some(s),
    }
}

/// Note `o` comes before note `id` in the order of the latest-first select:
/// a smaller deletion stamp, or the same stamp and a smaller id.
pub open spec fn ranks_below(s: StoreView, o: i64, id: i64) -> bool {
    s.notes[o].deletion_order < s.notes[id].deletion_order || (s.notes[o].deletion_order
        == s.notes[id].deletion_order && o < id)
}

/// The notes row `id` passes the select's filter.
pub open spec fn note_selected(cond: Cond, params: Seq<Value>, s: StoreView, id: i64) -> bool {
    s.notes.contains_key(id) && note_passes(cond, id, s.notes[id], params, 0)
}

/// The ids of the rows that a select statement returns.
pub open spec fn selected(st: Stmt, params: Seq<Value>, s: StoreView) -> Set<i64> {
    match st {
        Stmt::Select { table, cond, latest, .. } => match table {
            Table::Notes => if latest {
                Set::new(|id: i64| note_selected(cond, params, s, id) && forall|o: i64|
                    #[trigger] note_selected(cond, params, s, o) && o != id ==> ranks_below(s, o, id))
            } else {
                Set::new(|id: i64| note_selected(cond, params, s, id))
            },
            Table::Blocks => Set::new(|id: i64| s.blocks.contains_key(id)
                && block_passes(cond, id, s.blocks[id], params, 0)),
            Table::Links => Set::empty(),
        },
        _ => Set::empty(),
    }
}

/// The links that a links select returns: those whose block at the end
/// `via` exists and passes the filter.
pub open spec fn selected_links(st: Stmt, params: Seq<Value>, s: StoreView) -> Set<(i64, i64)> {
    match st {
        Stmt::SelectLinks { via, cond } => s.links.filter(|l: (i64, i64)| {
            let b = int_of(link_cell(l, via)) as i64;
            s.blocks.contains_key(b) && block_passes(cond, b, s.blocks[b], params, 0)
        }),
        _ => Set::empty(),
    }
}

/// The cells that a select statement returns for the row with id `id`, in
/// the order of its columns.
pub open spec fn selected_row(st: Stmt, s: StoreView, id: i64) -> Seq<Value> {
    match st {
        Stmt::Select { cols, table, .. } => match table {
            Table::Notes => cols.map_values(|c: Column| note_cell(id, s.notes[id], c)),
            Table::Blocks => cols.map_values(|c: Column| block_cell(id, s.blocks[id], c)),
            Table::Links => Seq::empty(),
        },
        _ => Seq::empty(),
    }
}

/// The parameters that the store binds for a command: its fields in the
/// order of the statement's `?`s; a block's geometry, which the view does
/// not hold, comes before its content.
pub open spec fn command_params(c: Command) -> Seq<Value> {
    match c {
        Command::InsertNote { x, y, width, height, color, always_on_top } => seq![
            Value::Int(x as int), Value::Int(y as int), Value::Int(width as int),
            Value::Int(height as int), Value::Text(color@), flag(always_on_top),
        ],
        Command::MoveNote { id, x, y } => seq![Value::Int(x as int), Value::Int(y as int), Value::Int(id as int)],
        Command::RecolorNote { id, color } => seq![Value::Text(color@), Value::Int(id as int)],
        Command::ResizeNote { id, width, height } =>
            seq![Value::Int(width as int), Value::Int(height as int), Value::Int(id as int)],
        Command::PinNote { id, always_on_top } => seq![flag(always_on_top), Value::Int(id as int)],
        Command::TrashNote { id } => seq![Value::Int(id as int)],
        Command::RestoreNote { id } => seq![Value::Int(id as int)],
        Command::DeleteBlocksOfNote { note_id } => seq![Value::Int(note_id as int)],
        Command::DeleteNote { id } => seq![Value::Int(id as int)],
        Command::InsertBlock { note_id, content } => seq![
            Value::Int(note_id as int), Value::Other, Value::Other, Value::Other, Value::Other,
            Value::Text(content@),
        ],
        Command::UpdateBlock { id, content } => seq![
            Value::Other, Value::Other, Value::Other, Value::Other, Value::Text(content@),
            Value::Int(id as int),
        ],
        Command::DeleteBlock { id } => seq![Value::Int(id as int)],
        Command::LinkBlocks { source, target } => seq![Value::Int(source as int), Value::Int(target as int)],
    }
}

/// The statement that carries a command out.
pub open spec fn command_stmt(c: Command) -> Stmt {
    match c {
        Command::InsertNote { .. } => Stmt::Insert {
            or_ignore: false,
            table: Table::Notes,
            cols: seq![Column::X, Column::Y, Column::Width, Column::Height, Column::Color, Column::AlwaysOnTop],
        },
        Command::MoveNote { .. } => Stmt::Update {
            table: Table::Notes,
            sets: seq![(Column::X, Expr::Param), (Column::Y, Expr::Param)],
            cond: Cond::EqParam(Column::Id),
        },
        Command::RecolorNote { .. } => Stmt::Update {
            table: Table::Notes,
            sets: seq![(Column::Color, Expr::Param)],
            cond: Cond::EqParam(Column::Id),
        },
        Command::ResizeNote { .. } => Stmt::Update {
            table: Table::Notes,
            sets: seq![(Column::Width, Expr::Param), (Column::Height, Expr::Param)],
            cond: Cond::EqParam(Column::Id),
        },
        Command::PinNote { .. } => Stmt::Update {
            table: Table::Notes,
            sets: seq![(Column::AlwaysOnTop, Expr::Param)],
            cond: Cond::EqParam(Column::Id),
        },
        Command::TrashNote { .. } => Stmt::Update {
            table: Table::Notes,
            sets: seq![(Column::Deleted, Expr::Lit(1)), (Column::DeletionOrder, Expr::NextStamp)],
            cond: Cond::EqParam(Column::Id),
        },
        Command::RestoreNote { .. } => Stmt::Update {
            table: Table::Notes,
            sets: seq![(Column::Deleted, Expr::Lit(0)), (Column::DeletionOrder, Expr::Lit(0))],
            cond: Cond::EqParam(Column::Id),
        },
        Command::DeleteBlocksOfNote { .. } =>
            Stmt::Delete { table: Table::Blocks, cond: Cond::EqParam(Column::NoteId) },
        Command::DeleteNote { .. } => Stmt::Delete { table: Table::Notes, cond: Cond::EqParam(Column::Id) },
        Command::InsertBlock { .. } => Stmt::Insert {
            or_ignore: false,
            table: Table::Blocks,
            cols: seq![Column::NoteId, Column::X, Column::Y, Column::Width, Column::Height, Column::Content],
        },
        Command::UpdateBlock { .. } => Stmt::Update {
            table: Table::Blocks,
            sets: seq![
                (Column::X, Expr::Param), (Column::Y, Expr::Param), (Column::Width, Expr::Param),
                (Column::Height, Expr::Param), (Column::Content, Expr::Param),
            ],
            cond: Cond::EqParam(Column::Id),
        },
        Command::DeleteBlock { .. } => Stmt::Delete { table: Table::Blocks, cond: Cond::EqParam(Column::Id) },
        Command::LinkBlocks { .. } => Stmt::Insert {
            or_ignore: true,
            table: Table::Links,
            cols: seq![Column::SourceId, Column::TargetId],
        },
    }
}

proof fn lemma_command_text(c: Command)
    ensures
        render(command_stmt(c)) == command_sql(c),
{
    reveal_with_fuel(comma_list, 8);
    reveal_strlit("INSERT ");
    reveal_strlit("OR IGNORE ");
    reveal_strlit("INTO ");
    reveal_strlit(" (");
    reveal_strlit(") VALUES (");
    reveal_strlit(")");
    reveal_strlit("UPDATE ");
    reveal_strlit(" SET ");
    reveal_strlit(" WHERE ");
    reveal_strlit("DELETE FROM ");
    reveal_strlit(" = ");
    reveal_strlit(" = ?");
    reveal_strlit("?");
    reveal_strlit(", ");
    reveal_strlit("notes");
    reveal_strlit("blocks");
    reveal_strlit("block_links");
    reveal_strlit("id");
    reveal_strlit("note_id");
    reveal_strlit("x");
    reveal_strlit("y");
    reveal_strlit("width");
    reveal_strlit("height");
    reveal_strlit("color");
    reveal_strlit("always_on_top");
    reveal_strlit("deleted");
    reveal_strlit("deletion_order");
    reveal_strlit("content");
    reveal_strlit("source_id");
    reveal_strlit("target_id");
    let st = command_stmt(c);
    match c {
        Command::InsertNote { .. } => {
            reveal_strlit("INSERT INTO notes (x, y, width, height, color, always_on_top) VALUES (?, ?, ?, ?, ?, ?)");
            assert(render(st) =~= command_sql(c));
        },
        Command::MoveNote { .. } => {
            reveal_strlit("UPDATE notes SET x = ?, y = ? WHERE id = ?");
            assert(render(st) =~= command_sql(c));
        },
        Command::RecolorNote { .. } => {
            reveal_strlit("UPDATE notes SET color = ? WHERE id = ?");
            assert(render(st) =~= command_sql(c));
        },
        Command::ResizeNote { .. } => {
            reveal_strlit("UPDATE notes SET width = ?, height = ? WHERE id = ?");
            assert(render(st) =~= command_sql(c));
        },
        Command::PinNote { .. } => {
            reveal_strlit("UPDATE notes SET always_on_top = ? WHERE id = ?");
            assert(render(st) =~= command_sql(c));
        },
        Command::TrashNote { .. } => {
            reveal_strlit("(SELECT COALESCE(MAX(deletion_order), 0) + 1 FROM notes)");
            reveal_strlit("UPDATE notes SET deleted = 1, deletion_order = (SELECT COALESCE(MAX(deletion_order), 0) + 1 FROM notes) WHERE id = ?");
            assert(decimal(1) =~= seq!['1']);
            assert(render(st) =~= command_sql(c));
        },
        Command::RestoreNote { .. } => {
            reveal_strlit("UPDATE notes SET deleted = 0, deletion_order = 0 WHERE id = ?");
            assert(decimal(0) =~= seq!['0']);
            assert(render(st) =~= command_sql(c));
        },
        Command::DeleteBlocksOfNote { .. } => {
            reveal_strlit("DELETE FROM blocks WHERE note_id = ?");
            assert(render(st) =~= command_sql(c));
        },
        Command::DeleteNote { .. } => {
            reveal_strlit("DELETE FROM notes WHERE id = ?");
            assert(render(st) =~= command_sql(c));
        },
        Command::InsertBlock { .. } => {
            reveal_strlit("INSERT INTO blocks (note_id, x, y, width, height, content) VALUES (?, ?, ?, ?, ?, ?)");
            assert(render(st) =~= command_sql(c));
        },
        Command::UpdateBlock { .. } => {
            reveal_strlit("UPDATE blocks SET x = ?, y = ?, width = ?, height = ?, content = ? WHERE id = ?");
            assert(render(st) =~= command_sql(c));
        },
        Command::DeleteBlock { .. } => {
            reveal_strlit("DELETE FROM blocks WHERE id = ?");
            assert(render(st) =~= command_sql(c));
        },
        Command::LinkBlocks { .. } => {
            reveal_strlit("INSERT OR IGNORE INTO block_links (source_id, target_id) VALUES (?, ?)");
            assert(render(st) =~= command_sql(c));
        },
    }
}

proof fn lemma_command_effect(c: Command, s: StoreView, fresh: i64)
    ensures
        run(command_stmt(c), command_params(c), s, fresh) == Some(apply(c, s, fresh)),
{
    reveal_with_fuel(n_params, 6);
    reveal_with_fuel(assign_note, 3);
    reveal_with_fuel(assign_block, 6);
    reveal_with_fuel(fill_note, 7);
    reveal_with_fuel(fill_block, 7);
    reveal_with_fuel(fill_link, 3);
    let st = command_stmt(c);
    let p = command_params(c);
    let r = run(st, p, s, fresh).unwrap();
    let a = apply(c, s, fresh);
    match c {
        Command::InsertNote { .. } => {
            assert(r.notes =~= a.notes);
        },
        Command::MoveNote { id, .. } => {
            assert(r.notes =~= a.notes);
        },
        Command::RecolorNote { id, .. } => {
            assert(r.notes =~= a.notes);
        },
        Command::ResizeNote { id, .. } => {
            assert(r.notes =~= a.notes);
        },
        Command::PinNote { id, .. } => {
            assert(r.notes =~= a.notes);
        },
        Command::TrashNote { id } => {
            assert(r.notes =~= a.notes);
        },
        Command::RestoreNote { id } => {
            assert(r.notes =~= a.notes);
        },
        Command::DeleteBlocksOfNote { note_id } => {
            assert(r.blocks =~= a.blocks);
        },
        Command::DeleteNote { id } => {
            assert(r.notes =~= a.notes);
        },
        Command::InsertBlock { .. } => {
            assert(r.blocks =~= a.blocks);
        },
        Command::UpdateBlock { id, .. } => {
            assert(r.blocks =~= a.blocks);
        },
        Command::DeleteBlock { id } => {
            assert(r.blocks =~= a.blocks);
        },
        Command::LinkBlocks { .. } => {
            assert(r.links =~= a.links);
        },
    }
}

/// The columns that a note's row is read from, in the order of the fields of
/// `Note`.
pub open spec fn note_columns() -> Seq<Column> {
    seq![Column::Id, Column::X, Column::Y, Column::Width, Column::Height, Column::Color, Column::AlwaysOnTop]
}

/// The columns that a block's row is read from: id, note, geometry, content.
pub open spec fn block_columns() -> Seq<Column> {
    seq![Column::Id, Column::NoteId, Column::X, Column::Y, Column::Width, Column::Height, Column::Content]
}

/// The select statement that answers a query; `None` for the search, whose
/// pattern matching it does not describe.
pub open spec fn query_stmt(q: Query) -> Option<Stmt> {
    match q {
        Query::VisibleNotes => Some(Stmt::Select {
            cols: note_columns(),
            table: Table::Notes,
            cond: Cond::EqLit(Column::Deleted, 0),
            latest: false,
        }),
        Query::BlocksOfNote { .. } => Some(Stmt::Select {
            cols: block_columns(),
            table: Table::Blocks,
            cond: Cond::EqParam(Column::NoteId),
            latest: false,
        }),
        Query::LatestTrashed => Some(Stmt::Select {
            cols: note_columns(),
            table: Table::Notes,
            cond: Cond::EqLit(Column::Deleted, 1),
            latest: true,
        }),
        Query::TrashedIds => Some(Stmt::Select {
            cols: seq![Column::Id],
            table: Table::Notes,
            cond: Cond::EqLit(Column::Deleted, 1),
            latest: false,
        }),
        Query::LinksOfNote { .. } => Some(Stmt::SelectLinks {
            via: Column::SourceId,
            cond: Cond::EqParam(Column::NoteId),
        }),
        Query::SearchBlocks => None,
    }
}

/// The parameters that the store binds for a query.
pub open spec fn query_params(q: Query) -> Seq<Value> {
    match q {
        Query::BlocksOfNote { note_id } => seq![Value::Int(note_id as int)],
        Query::LinksOfNote { note_id } => seq![Value::Int(note_id as int)],
        _ => Seq::empty(),
    }
}

proof fn lemma_query_text(q: Query)
    requires
        query_stmt(q) is Some,
    ensures
        render(query_stmt(q).unwrap()) == query_sql(q),
{
    reveal_with_fuel(comma_list, 8);
    reveal_strlit("SELECT ");
    reveal_strlit(" FROM ");
    reveal_strlit(" WHERE ");
    reveal_strlit(" = ");
    reveal_strlit(" = ?");
    reveal_strlit(", ");
    reveal_strlit(" ORDER BY deletion_order DESC, id DESC LIMIT 1");
    reveal_strlit("notes");
    reveal_strlit("blocks");
    reveal_strlit("id");
    reveal_strlit("note_id");
    reveal_strlit("x");
    reveal_strlit("y");
    reveal_strlit("width");
    reveal_strlit("height");
    reveal_strlit("color");
    reveal_strlit("always_on_top");
    reveal_strlit("deleted");
    reveal_strlit("content");
    let st = query_stmt(q).unwrap();
    match q {
        Query::VisibleNotes => {
            reveal_strlit("SELECT id, x, y, width, height, color, always_on_top FROM notes WHERE deleted = 0");
            assert(decimal(0) =~= seq!['0']);
            assert(render(st) =~= query_sql(q));
        },
        Query::BlocksOfNote { .. } => {
            reveal_strlit("SELECT id, note_id, x, y, width, height, content FROM blocks WHERE note_id = ?");
            assert(render(st) =~= query_sql(q));
        },
        Query::LatestTrashed => {
            reveal_strlit("SELECT id, x, y, width, height, color, always_on_top FROM notes WHERE deleted = 1 ORDER BY deletion_order DESC, id DESC LIMIT 1");
            assert(decimal(1) =~= seq!['1']);
            assert(render(st) =~= query_sql(q));
        },
        Query::TrashedIds => {
            reveal_strlit("SELECT id FROM notes WHERE deleted = 1");
            assert(decimal(1) =~= seq!['1']);
            assert(render(st) =~= query_sql(q));
        },
        Query::LinksOfNote { .. } => {
            reveal_strlit("SELECT l.source_id, l.target_id FROM block_links l JOIN blocks b ON l.");
            reveal_strlit(" = b.id WHERE b.");
            reveal_strlit("source_id");
            reveal_strlit("SELECT l.source_id, l.target_id FROM block_links l JOIN blocks b ON l.source_id = b.id WHERE b.note_id = ?");
            assert(render(st) =~= query_sql(q));
        },
        _ => {},
    }
}

/// What each command's SQL does. Its text is the statement
/// `command_stmt(c)` written out, and running that statement on the store
/// `s`, with the command's fields bound to its `?`s in the order the store
/// binds them, gives `apply(c, s, fresh)`: moving a note stores `x` in
/// column `x` and `y` in column `y` of that note's row, and so on for each
/// command.
pub proof fn law_command_sql(c: Command, s: StoreView, fresh: i64)
    ensures
        render(command_stmt(c)) == command_sql(c),
        run(command_stmt(c), command_params(c), s, fresh) == Some(apply(c, s, fresh)),
{
    lemma_command_text(c);
    lemma_command_effect(c, s, fresh);
}

/// A note's fields in the order of `Note`'s declaration, as a row.
pub open spec fn note_row(id: i64, r: NoteRecord) -> Seq<Value> {
    seq![
        Value::Int(id as int), Value::Int(r.x as int), Value::Int(r.y as int),
        Value::Int(r.width as int), Value::Int(r.height as int), Value::Text(r.color),
        flag(r.always_on_top),
    ]
}

/// What each query's SQL reads. Its text is the statement `query_stmt(q)`
/// written out (the search is not described), and the statement selects
/// the visible notes, the blocks of the note, the binned note deleted last,
/// the binned notes, or the links from the note's blocks, reading a note's
/// row as its fields in order.
pub proof fn law_query_sql(q: Query, s: StoreView)
    ensures
        match query_stmt(q) {
            Some(st) => render(st) == query_sql(q),
            None => q is SearchBlocks,
        },
        q is VisibleNotes ==> selected(query_stmt(q).unwrap(), query_params(q), s) == Set::new(
            |id: i64| is_visible(s, id),
        ),
        q is LatestTrashed ==> selected(query_stmt(q).unwrap(), query_params(q), s) == Set::new(
            |id: i64| is_latest_trashed(s, id),
        ),
        q is TrashedIds ==> selected(query_stmt(q).unwrap(), query_params(q), s) == Set::new(
            |id: i64| is_trashed(s, id),
        ),
        q matches Query::BlocksOfNote { note_id } ==> selected(query_stmt(q).unwrap(), query_params(q), s)
            == Set::new(|k: i64| s.blocks.contains_key(k) && s.blocks[k].note_id == note_id),
        q is VisibleNotes || q is LatestTrashed ==> forall|id: i64| s.notes.contains_key(id)
            ==> #[trigger] selected_row(query_stmt(q).unwrap(), s, id) == note_row(id, s.notes[id]),
        q is TrashedIds ==> forall|id: i64| #[trigger] selected_row(query_stmt(q).unwrap(), s, id)
            == seq![Value::Int(id as int)],
        q matches Query::LinksOfNote { note_id } ==> selected_links(query_stmt(q).unwrap(),
            query_params(q), s) == links_of_note(s, note_id),
{
    if query_stmt(q) is Some {
        lemma_query_text(q);
    }
    let st = query_stmt(q);
    match q {
        Query::VisibleNotes => {
            let st = st.unwrap();
            assert(selected(st, query_params(q), s) =~= Set::new(|id: i64| is_visible(s, id)));
            assert forall|id: i64| s.notes.contains_key(id) implies #[trigger] selected_row(st, s, id)
                == note_row(id, s.notes[id]) by {
                assert(selected_row(st, s, id) =~= note_row(id, s.notes[id]));
            }
        },
        Query::LatestTrashed => {
            let st = st.unwrap();
            let p = query_params(q);
            let cond = Cond::EqLit(Column::Deleted, 1);
            assert forall|o: i64| note_selected(cond, p, s, o) == is_trashed(s, o) by {}
            assert(selected(st, p, s) =~= Set::new(|id: i64| is_latest_trashed(s, id))) by {
                assert forall|id: i64| selected(st, p, s).contains(id) <==> is_latest_trashed(s, id) by {
                    if is_latest_trashed(s, id) {
                        assert forall|o: i64| #[trigger] note_selected(cond, p, s, o) && o != id
                            implies ranks_below(s, o, id) by {
                            assert(is_trashed(s, o));
                        }
                    }
                    if selected(st, p, s).contains(id) {
                        assert forall|o: i64| #[trigger] is_trashed(s, o) && o != id implies (
                            s.notes[o].deletion_order < s.notes[id].deletion_order
                            || (s.notes[o].deletion_order == s.notes[id].deletion_order && o < id)) by {
                            assert(note_selected(cond, p, s, o));
                        }
                    }
                }
            }
            assert forall|id: i64| s.notes.contains_key(id) implies #[trigger] selected_row(st, s, id)
                == note_row(id, s.notes[id]) by {
                assert(selected_row(st, s, id) =~= note_row(id, s.notes[id]));
            }
        },
        Query::TrashedIds => {
            let st = st.unwrap();
            assert(selected(st, query_params(q), s) =~= Set::new(|id: i64| is_trashed(s, id)));
            assert forall|id: i64| #[trigger] selected_row(st, s, id) == seq![Value::Int(id as int)] by {
                assert(selected_row(st, s, id) =~= seq![Value::Int(id as int)]);
            }
        },
        Query::BlocksOfNote { note_id } => {
            let st = st.unwrap();
            assert(selected(st, query_params(q), s) =~= Set::new(
                |k: i64| s.blocks.contains_key(k) && s.blocks[k].note_id == note_id,
            ));
        },
        Query::LinksOfNote { note_id } => {
            let st = st.unwrap();
            assert(selected_links(st, query_params(q), s) =~= links_of_note(s, note_id));
        },
        _ => {},
    }
}

} // verus!
