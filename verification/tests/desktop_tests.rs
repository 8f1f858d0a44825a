use sticky::db::{Command, Note};
use sticky::desktop::{
    appimage_entry, autostart_entry, default_note_color, fallback_note_command, find_note,
    hex_color, menu_note_command, needs_default_note, opens_new_note, parse_command_line,
    search_result_label, should_search, startup, version_line, Startup, TrayCommand,
    MAX_SEARCH_RESULTS,
};

fn args(a: &[&str]) -> Vec<String> {
    a.iter().map(|s| s.to_string()).collect()
}

fn note(id: i64) -> Note {
    Note { id, x: 0, y: 0, width: 1, height: 1, color: String::new(), always_on_top: false }
}

#[test]
fn desktop_entries() {
    assert_eq!(
        autostart_entry("/usr/bin/sticky"),
        "[Desktop Entry]\nType=Application\nName=Sticky Autostart\nComment=Auto-start Sticky on login\nExec=/usr/bin/sticky --background\nIcon=sticky\nHidden=false\nNoDisplay=true\nX-GNOME-Autostart-enabled=true\n"
    );
    assert_eq!(
        appimage_entry("/a/S.AppImage"),
        "[Desktop Entry]\nType=Application\nName=Sticky\nComment=Modern floating sticky notes and infinite whiteboard\nExec=\"/a/S.AppImage\"\nIcon=sticky\nTerminal=false\nCategories=Utility;GTK;\nStartupNotify=true\n"
    );
}

#[test]
fn picked_colours() {
    assert_eq!(hex_color(255, 230, 109), "#FFE66D");
    assert_eq!(hex_color(0, 1, 16), "#000110");
    assert_eq!(default_note_color(), "#FFE66D");
}

#[test]
fn new_note_commands() {
    assert_eq!(
        menu_note_command(),
        Command::InsertNote { x: 100, y: 100, width: 300, height: 300, color: "#FFE66D".to_string(), always_on_top: true }
    );
    assert_eq!(
        fallback_note_command(),
        Command::InsertNote { x: 300, y: 200, width: 300, height: 300, color: "#FFE66D".to_string(), always_on_top: true }
    );
}

#[test]
fn finding_notes() {
    let notes = vec![note(1), note(4), note(4)];
    assert_eq!(find_note(&notes, 4), Some(1));
    assert_eq!(find_note(&notes, 9), None);
}

#[test]
fn tray_entries() {
    let menu = TrayCommand::menu();
    assert_eq!(menu.len(), 7);
    for c in menu {
        assert_eq!(TrayCommand::from_name(c.name()), Some(c));
    }
    assert_eq!(TrayCommand::from_name("empty"), Some(TrayCommand::EmptyTrash));
    assert_eq!(TrayCommand::from_name("nonsense"), None);
    assert_eq!(TrayCommand::Restore.label(), "♻️ Restore Last Deleted");
}

#[test]
fn startup_decisions() {
    assert_eq!(startup(&args(&["sticky", "-v"])), Startup::PrintVersion);
    assert_eq!(startup(&args(&["sticky", "--install-autostart", "--version"])), Startup::PrintVersion);
    assert_eq!(startup(&args(&["sticky", "--install-autostart"])), Startup::InstallAutostart);
    assert_eq!(startup(&args(&["sticky", "--new-note"])), Startup::Run);
    assert_eq!(startup(&args(&["--version"])), Startup::PrintVersion);
    assert_eq!(version_line("0.1.0"), "sticky 0.1.0");
}

#[test]
fn command_line_options() {
    let c = parse_command_line(&args(&["sticky", "--quit", "--background", "x"]));
    assert!(c.quit && c.background && !c.force_new);
    let c = parse_command_line(&args(&["--new-note"]));
    assert!(!c.force_new);
    let c = parse_command_line(&args(&["sticky", "--new-note"]));
    assert!(c.force_new);
    let c = parse_command_line(&args(&[]));
    assert!(!c.force_new && !c.background && !c.quit);
    assert!(needs_default_note(true, false));
    assert!(!needs_default_note(true, true));
    assert!(opens_new_note(true, false, true));
    assert!(opens_new_note(false, true, false));
    assert!(!opens_new_note(false, true, true));
}

#[test]
fn spotlight_search() {
    assert!(!should_search("a"));
    assert!(should_search("ab"));
    assert!(should_search("é"));
    assert_eq!(search_result_label(7, "hello"), "Note #7: hello");
    let long: String = "x".repeat(50);
    assert_eq!(search_result_label(1, &long), format!("Note #1: {}", "x".repeat(40)));
    assert_eq!(MAX_SEARCH_RESULTS, 5);
}
