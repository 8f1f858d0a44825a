//! The application's dealings with the desktop: launcher and autostart
//! entries, colours from the picker, the tray menu, the command line and the
//! spotlight search.

use vstd::prelude::*;
use crate::db::{new_note, is_new_note_command, Command, Note};
use crate::text::{decimal, hex_byte, push_decimal, push_hex_byte, push_str, push_char};

verus! {

/// The autostart entry that relaunches the program `exe` in the background
/// at login, hidden from the application menu.
pub fn autostart_entry(exe: &str) -> (res: String)
    ensures
        res@ == "[Desktop Entry]\nType=Application\nName=Sticky Autostart\nComment=Auto-start Sticky on login\nExec="@
            + exe@
            + " --background\nIcon=sticky\nHidden=false\nNoDisplay=true\nX-GNOME-Autostart-enabled=true\n"@,
{
    let mut res = String::new();
    push_str(&mut res, "[Desktop Entry]\nType=Application\nName=Sticky Autostart\nComment=Auto-start Sticky on login\nExec=");
    push_str(&mut res, exe);
    push_str(&mut res, " --background\nIcon=sticky\nHidden=false\nNoDisplay=true\nX-GNOME-Autostart-enabled=true\n");
    res
}

/// The launcher entry of an AppImage at `path`, which it runs (quoted).
pub fn appimage_entry(path: &str) -> (res: String)
    ensures
        res@ == "[Desktop Entry]\nType=Application\nName=Sticky\nComment=Modern floating sticky notes and infinite whiteboard\nExec=\""@
            + path@
            + "\"\nIcon=sticky\nTerminal=false\nCategories=Utility;GTK;\nStartupNotify=true\n"@,
{
    let mut res = String::new();
    push_str(&mut res, "[Desktop Entry]\nType=Application\nName=Sticky\nComment=Modern floating sticky notes and infinite whiteboard\nExec=\"");
    push_str(&mut res, path);
    push_str(&mut res, "\"\nIcon=sticky\nTerminal=false\nCategories=Utility;GTK;\nStartupNotify=true\n");
    res
}

/// A colour written `#RRGGBB` in upper-case hexadecimal.
pub fn hex_color(red: u8, green: u8, blue: u8) -> (res: String)
    ensures
        res@ == "#"@ + hex_byte(red) + hex_byte(green) + hex_byte(blue),
{
    let mut res = String::new();
    push_str(&mut res, "#");
    push_hex_byte(&mut res, red);
    push_hex_byte(&mut res, green);
    push_hex_byte(&mut res, blue);
    res
}

/// The directory, under the user's data directory, that holds the store.
pub fn data_dir_name() -> (res: &'static str)
    ensures
        res@ == "sticky"@,
{
    "sticky"
}

/// The store's file name.
pub fn database_file_name() -> (res: &'static str)
    ensures
        res@ == "notes.db"@,
{
    "notes.db"
}

/// Where the autostart entry goes: a directory under the user's
/// configuration directory, and the file's name.
pub fn autostart_location() -> (res: (&'static str, &'static str))
    ensures
        res.0@ == "autostart"@,
        res.1@ == "sticky-autostart.desktop"@,
{
    ("autostart", "sticky-autostart.desktop")
}

/// Where an AppImage's launcher entry goes: a directory under the user's
/// data directory, and the file's name.
pub fn launcher_location() -> (res: (&'static str, &'static str))
    ensures
        res.0@ == "applications"@,
        res.1@ == "sticky-appimage.desktop"@,
{
    ("applications", "sticky-appimage.desktop")
}

/// The colour of a new note.
pub fn default_note_color() -> (res: &'static str)
    ensures
        res@ == "#FFE66D"@,
{
    "#FFE66D"
}

/// The command that creates a note from the menu, the tray or the command
/// line: at (100, 100), in the default colour.
pub fn menu_note_command() -> (res: Command)
    ensures
        is_new_note_command(res, 100, 100, "#FFE66D"@),
{
    new_note(100, 100, default_note_color())
}

/// The command that creates a note when starting left no window open: at
/// (300, 200), in the default colour.
pub fn fallback_note_command() -> (res: Command)
    ensures
        is_new_note_command(res, 300, 200, "#FFE66D"@),
{
    new_note(300, 200, default_note_color())
}

/// The position of the first note in `notes` with id `id`.
pub fn find_note(notes: &Vec<Note>, id: i64) -> (res: Option<usize>)
    ensures
        match res {
            Some(k) => k < notes.len() && notes@[k as int].id == id
                && forall|j: int| 0 <= j < k ==> #[trigger] notes@[j].id != id,
            None => forall|j: int| 0 <= j < notes.len() ==> #[trigger] notes@[j].id != id,
        },
{
    let mut i: usize = 0;
    while i < notes.len()
        invariant
            i <= notes.len(),
            forall|j: int| 0 <= j < i ==> #[trigger] notes@[j].id != id,
        decreases notes.len() - i,
    {
        if notes[i].id == id {
            return Some(i);
        }
        i = i + 1;
    }
    None
}

/// An entry of the tray menu.
#[derive(PartialEq, Eq, Structural, Clone, Copy, Debug)]
pub enum TrayCommand {
    NewNote,
    Search,
    Restore,
    EmptyTrash,
    ExportBackup,
    ImportBackup,
    Quit,
}

/// The name a tray entry is sent under to the main loop.
pub open spec fn tray_name(c: TrayCommand) -> Seq<char> {
    match c {
        TrayCommand::NewNote => "new-note"@,
        TrayCommand::Search => "search"@,
        TrayCommand::Restore => "restore"@,
        TrayCommand::EmptyTrash => "empty"@,
        TrayCommand::ExportBackup => "export-backup"@,
        TrayCommand::ImportBackup => "import-backup"@,
        TrayCommand::Quit => "quit"@,
    }
}

/// The label a tray entry shows.
pub open spec fn tray_label(c: TrayCommand) -> Seq<char> {
    match c {
        TrayCommand::NewNote => "📝 New Note"@,
        TrayCommand::Search => "🔍 Search Notes"@,
        TrayCommand::Restore => "♻️ Restore Last Deleted"@,
        TrayCommand::EmptyTrash => "🗑️ Empty Trash"@,
        TrayCommand::ExportBackup => "💾 Export Backup"@,
        TrayCommand::ImportBackup => "📂 Import Backup"@,
        TrayCommand::Quit => "Quit"@,
    }
}

/// The tray entry sent under `name`, if any.
pub open spec fn tray_command_named(name: Seq<char>) -> Option<TrayCommand> {
    if name == "new-note"@ {
        Some(TrayCommand::NewNote)
    } else if name == "search"@ {
        Some(TrayCommand::Search)
    } else if name == "restore"@ {
        Some(TrayCommand::Restore)
    } else if name == "empty"@ {
        Some(TrayCommand::EmptyTrash)
    } else if name == "export-backup"@ {
        Some(TrayCommand::ExportBackup)
    } else if name == "import-backup"@ {
        Some(TrayCommand::ImportBackup)
    } else if name == "quit"@ {
        Some(TrayCommand::Quit)
    } else {
        None
    }
}

fn str_eq(a: &str, b: &str) -> (res: bool)
    ensures
        res == (a@ == b@),
{
    let x = crate::text::chars_of(a);
    let y = crate::text::chars_of(b);
    if x.len() != y.len() {
        return false;
    }
    let mut i: usize = 0;
    while i < x.len()
        invariant
            i <= x.len(),
            x.len() == y.len(),
            x@ == a@,
            y@ == b@,
            forall|j: int| 0 <= j < i ==> x@[j] == y@[j],
        decreases x.len() - i,
    {
        if x[i] != y[i] {
            assert(a@[i as int] != b@[i as int]);
            return false;
        }
        i = i + 1;
    }
    assert(x@ =~= y@);
    true
}

impl TrayCommand {
    /// The entries of the tray menu, in order (separators fall after search,
    /// after emptying the bin and after importing).
    pub fn menu() -> (res: Vec<TrayCommand>)
        ensures
            res@ == seq![TrayCommand::NewNote, TrayCommand::Search, TrayCommand::Restore,
                TrayCommand::EmptyTrash, TrayCommand::ExportBackup, TrayCommand::ImportBackup,
                TrayCommand::Quit],
    {
        let mut res = Vec::new();
        res.push(TrayCommand::NewNote);
        res.push(TrayCommand::Search);
        res.push(TrayCommand::Restore);
        res.push(TrayCommand::EmptyTrash);
        res.push(TrayCommand::ExportBackup);
        res.push(TrayCommand::ImportBackup);
        res.push(TrayCommand::Quit);
        res
    }

    /// The name the entry is sent under.
    pub fn name(&self) -> (res: &'static str)
        ensures
            res@ == tray_name(*self),
    {
        match self {
            TrayCommand::NewNote => "new-note",
            TrayCommand::Search => "search",
            TrayCommand::Restore => "restore",
            TrayCommand::EmptyTrash => "empty",
            TrayCommand::ExportBackup => "export-backup",
            TrayCommand::ImportBackup => "import-backup",
            TrayCommand::Quit => "quit",
        }
    }

    /// The label the entry shows.
    pub fn label(&self) -> (res: &'static str)
        ensures
            res@ == tray_label(*self),
    {
        match self {
            TrayCommand::NewNote => "📝 New Note",
            TrayCommand::Search => "🔍 Search Notes",
            TrayCommand::Restore => "♻️ Restore Last Deleted",
            TrayCommand::EmptyTrash => "🗑️ Empty Trash",
            TrayCommand::ExportBackup => "💾 Export Backup",
            TrayCommand::ImportBackup => "📂 Import Backup",
            TrayCommand::Quit => "Quit",
        }
    }

    /// The entry sent under `name`; unknown names are ignored.
    pub fn from_name(name: &str) -> (res: Option<TrayCommand>)
        ensures
            res == tray_command_named(name@),
    {
        if str_eq(name, "new-note") {
            Some(TrayCommand::NewNote)
        } else if str_eq(name, "search") {
            Some(TrayCommand::Search)
        } else if str_eq(name, "restore") {
            Some(TrayCommand::Restore)
        } else if str_eq(name, "empty") {
            Some(TrayCommand::EmptyTrash)
        } else if str_eq(name, "export-backup") {
            Some(TrayCommand::ExportBackup)
        } else if str_eq(name, "import-backup") {
            Some(TrayCommand::ImportBackup)
        } else if str_eq(name, "quit") {
            Some(TrayCommand::Quit)
        } else {
            None
        }
    }
}

/// Every tray entry arrives as itself: the name it is sent under is read
/// back as the same entry.
pub proof fn law_tray_names_round_trip(c: TrayCommand)
    ensures
        tray_command_named(tray_name(c)) == Some(c),
{
    reveal_strlit("new-note");
    reveal_strlit("search");
    reveal_strlit("restore");
    reveal_strlit("empty");
    reveal_strlit("export-backup");
    reveal_strlit("import-backup");
    reveal_strlit("quit");
    assert("new-note"@[0] == 'n');
    assert("search"@[0] == 's');
    assert("restore"@[0] == 'r');
    assert("empty"@[1] == 'm');
    assert("export-backup"@[1] == 'x');
    assert("export-backup"@[0] == 'e');
    assert("empty"@[0] == 'e');
    assert("import-backup"@[0] == 'i');
    assert("quit"@[0] == 'q');
}

/// What the program does before it starts the application.
#[derive(PartialEq, Eq, Structural, Clone, Copy, Debug)]
pub enum Startup {
    /// Print the version and stop.
    PrintVersion,
    /// Write the autostart entry and stop.
    InstallAutostart,
    /// Start the application.
    Run,
}

/// The startup decision for the program's arguments (the program's own
/// name included): `--version` or `-v` anywhere prints the version; else
/// `--install-autostart` anywhere writes the autostart entry.
pub open spec fn startup_for(args: Seq<Seq<char>>) -> Startup {
    if exists|k: int| 0 <= k < args.len() && (args[k] == "--version"@ || args[k] == "-v"@) {
        Startup::PrintVersion
    } else if exists|k: int| 0 <= k < args.len() && args[k] == "--install-autostart"@ {
        Startup::InstallAutostart
    } else {
        Startup::Run
    }
}

/// `--version` or `-v` anywhere prints the version, before anything else;
/// `--install-autostart` writes the autostart entry; a program started
/// with no argument runs.
pub proof fn law_startup_flags(args: Seq<Seq<char>>, program: Seq<char>)
    requires
        program != "--version"@,
        program != "-v"@,
        program != "--install-autostart"@,
    ensures
        startup_for(args.push("--version"@)) == Startup::PrintVersion,
        startup_for(args.push("-v"@)) == Startup::PrintVersion,
        startup_for(seq![program, "--install-autostart"@]) == Startup::InstallAutostart,
        startup_for(seq![program]) == Startup::Run,
{
    reveal_strlit("--version");
    reveal_strlit("-v");
    reveal_strlit("--install-autostart");
    let v = args.push("--version"@);
    assert(v[args.len() as int] == "--version"@);
    let w = args.push("-v"@);
    assert(w[args.len() as int] == "-v"@);
    let i = seq![program, "--install-autostart"@];
    assert(i[1] == "--install-autostart"@);
    assert("--install-autostart"@ != "--version"@) by {
        assert("--install-autostart"@.len() != "--version"@.len());
    }
    assert("--install-autostart"@ != "-v"@) by {
        assert("--install-autostart"@.len() != "-v"@.len());
    }
    assert(!exists|k: int| 0 <= k < i.len() && (i[k] == "--version"@ || i[k] == "-v"@)) by {
        assert forall|k: int| 0 <= k < i.len() implies !(i[k] == "--version"@ || i[k] == "-v"@) by {
            if k == 0 {
                assert(i[k] == program);
            }
        }
    }
    let r = seq![program];
    assert forall|k: int| 0 <= k < r.len() implies r[k] == program by {}
}

/// Decides what the program does with its arguments.
pub fn startup(args: &Vec<String>) -> (res: Startup)
    ensures
        res == startup_for(args@.map_values(|a: String| a@)),
{
    let ghost v = args@.map_values(|a: String| a@);
    let mut i: usize = 0;
    while i < args.len()
        invariant
            i <= args.len(),
            v == args@.map_values(|a: String| a@),
            forall|k: int| 0 <= k < i ==> !(v[k] == "--version"@ || v[k] == "-v"@),
        decreases args.len() - i,
    {
        let a = args[i].as_str();
        if str_eq(a, "--version") || str_eq(a, "-v") {
            assert(v[i as int] == a@);
            return Startup::PrintVersion;
        }
        i = i + 1;
    }
    let mut i: usize = 0;
    while i < args.len()
        invariant
            i <= args.len(),
            v == args@.map_values(|a: String| a@),
            forall|k: int| 0 <= k < args.len() ==> !(v[k] == "--version"@ || v[k] == "-v"@),
            forall|k: int| 0 <= k < i ==> v[k] != "--install-autostart"@,
        decreases args.len() - i,
    {
        let a = args[i].as_str();
        if str_eq(a, "--install-autostart") {
            assert(v[i as int] == a@);
            return Startup::InstallAutostart;
        }
        i = i + 1;
    }
    Startup::Run
}

/// The line printed for `--version`.
pub fn version_line(version: &str) -> (res: String)
    ensures
        res@ == "sticky "@ + version@,
{
    let mut res = String::new();
    push_str(&mut res, "sticky ");
    push_str(&mut res, version);
    res
}

/// The options of a command line handed to the running application.
pub struct CommandLine {
    /// `--new-note`: open a new note.
    pub force_new: bool,
    /// `--background`: start without opening a note.
    pub background: bool,
    /// `--quit`: stop the application.
    pub quit: bool,
}

/// Some argument after the first is `flag`.
pub open spec fn has_flag(args: Seq<Seq<char>>, flag: Seq<char>) -> bool {
    exists|k: int| 1 <= k < args.len() && args[k] == flag
}

/// Reads the options from the arguments (the first, the program's name, is
/// skipped; unknown arguments are ignored).
pub fn parse_command_line(args: &Vec<String>) -> (res: CommandLine)
    ensures
        res.force_new == has_flag(args@.map_values(|a: String| a@), "--new-note"@),
        res.background == has_flag(args@.map_values(|a: String| a@), "--background"@),
        res.quit == has_flag(args@.map_values(|a: String| a@), "--quit"@),
{
    let ghost v = args@.map_values(|a: String| a@);
    let mut res = CommandLine { force_new: false, background: false, quit: false };
    proof {
        reveal_strlit("--new-note");
        reveal_strlit("--background");
        reveal_strlit("--quit");
        assert("--new-note"@[2] == 'n');
        assert("--background"@[2] == 'b');
        assert("--quit"@[2] == 'q');
    }
    let mut i: usize = 1;
    while i < args.len()
        invariant
            1 <= i,
            i <= args.len() || args.len() == 0,
            v == args@.map_values(|a: String| a@),
            "--new-note"@ != "--background"@,
            "--new-note"@ != "--quit"@,
            "--background"@ != "--quit"@,
            res.force_new == exists|k: int| 1 <= k < i && k < v.len() && v[k] == "--new-note"@,
            res.background == exists|k: int| 1 <= k < i && k < v.len() && v[k] == "--background"@,
            res.quit == exists|k: int| 1 <= k < i && k < v.len() && v[k] == "--quit"@,
        decreases args.len() - i,
    {
        let a = args[i].as_str();
        assert(v[i as int] == a@);
        if str_eq(a, "--new-note") {
            res.force_new = true;
        } else if str_eq(a, "--background") {
            res.background = true;
        } else if str_eq(a, "--quit") {
            res.quit = true;
        }
        i = i + 1;
    }
    res
}

/// When the stored notes are all gone and the application was not started
/// in the background, a default note is created.
pub fn needs_default_note(no_notes: bool, background: bool) -> (res: bool)
    ensures
        res == (no_notes && !background),
{
    no_notes && !background
}

/// A new note is opened at the end of start-up when asked for, or when no
/// window is open and the application was not started in the background.
pub fn opens_new_note(force_new: bool, no_windows: bool, background: bool) -> (res: bool)
    ensures
        res == (force_new || (no_windows && !background)),
{
    force_new || (no_windows && !background)
}

/// Most results the spotlight search lists.
pub const MAX_SEARCH_RESULTS: usize = 5;

/// Longest excerpt of a block's content in a search result.
pub const EXCERPT_CHARS: usize = 40;

/// The spotlight searches once the query is longer than one byte.
pub fn should_search(query: &str) -> (res: bool)
    ensures
        res == (query.len() > 1),
{
    query.len() > 1
}

/// The label of a search result: the note's number and the first 40
/// characters of the block's content.
pub fn search_result_label(note_id: i64, content: &str) -> (res: String)
    ensures
        res@ == "Note #"@ + decimal(note_id as int) + ": "@
            + content@.take(if content@.len() < 40 { content@.len() as int } else { 40 }),
{
    let mut res = String::new();
    push_str(&mut res, "Note #");
    push_decimal(&mut res, note_id);
    push_str(&mut res, ": ");
    let cs = crate::text::chars_of(content);
    let n = if cs.len() < EXCERPT_CHARS { cs.len() } else { EXCERPT_CHARS };
    let ghost head = res@;
    let mut i: usize = 0;
    while i < n
        invariant
            i <= n <= cs.len(),
            res@ == head + cs@.take(i as int),
        decreases n - i,
    {
        push_char(&mut res, cs[i]);
        i = i + 1;
        assert(res@ =~= head + cs@.take(i as int));
    }
    res
}

} // verus!
