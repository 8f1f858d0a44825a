use sticky::db::{Command, Note};
use sticky::note::{
    is_palette_shortcut, meeting_blocks, note_color_css, note_css_class, palette_choice,
    palette_entries, rollup, summary_prompt, PaletteChoice,
};

fn note(id: i64) -> Note {
    Note { id, x: 1, y: 2, width: 300, height: 200, color: "#000000".to_string(), always_on_top: true }
}

#[test]
fn style_of_a_note() {
    assert_eq!(note_css_class(12), "note-12");
    assert_eq!(note_css_class(-3), "note--3");
    assert_eq!(note_color_css(3, "#FF6B6B"), ".note-3 { background-color: #FF6B6B; }");
}

#[test]
fn recoloring_a_note() {
    let mut n = note(5);
    let cmd = n.recolor("#4ECDC4");
    assert_eq!(n.color, "#4ECDC4");
    assert_eq!((n.id, n.width, n.height), (5, 300, 200));
    assert_eq!(cmd, Command::RecolorNote { id: 5, color: "#4ECDC4".to_string() });
    assert_eq!(n.resize_command(10, 11), Command::ResizeNote { id: 5, width: 10, height: 11 });
    assert_eq!(n.pin_command(false), Command::PinNote { id: 5, always_on_top: false });
    assert_eq!(n.trash_command(), Command::TrashNote { id: 5 });
}

#[test]
fn rolling_up_and_down() {
    let r = rollup(true, Some(&note(1)));
    assert!(!r.canvas_visible);
    assert_eq!(r.size, Some((-1, -1)));
    let r = rollup(false, Some(&note(1)));
    assert!(r.canvas_visible);
    assert_eq!(r.size, Some((300, 200)));
    assert_eq!(rollup(false, None).size, None);
}

#[test]
fn command_palette() {
    assert!(is_palette_shortcut(true, 'k'));
    assert!(!is_palette_shortcut(false, 'k'));
    assert!(!is_palette_shortcut(true, 'K'));
    let entries = palette_entries();
    assert_eq!(entries.len(), 6);
    assert_eq!(entries[0], ("📝 Add Checklist", "[CHECKLIST] []"));
    assert_eq!(entries[5], ("🟡 Yellow Background", "#FFE66D"));
    match palette_choice("#FF6B6B") {
        PaletteChoice::Recolor { hex } => assert_eq!(hex, "#FF6B6B"),
        _ => panic!("expected a colour"),
    }
    match palette_choice("[TIMER]") {
        PaletteChoice::AddBlock { content } => assert_eq!(content, "[TIMER]"),
        _ => panic!("expected a block"),
    }
}

#[test]
fn meeting_summary_blocks() {
    let b = meeting_blocks(Ok(("It went well.".to_string(), vec!["a".to_string(), "b".to_string()])));
    assert_eq!(b.text, "🎙️ Meeting Summary:\n\nIt went well.");
    let list = b.checklist.unwrap();
    assert_eq!(list.len(), 2);
    assert_eq!((list[0].text.as_str(), list[0].checked), ("a", false));
    assert_eq!((list[1].text.as_str(), list[1].checked), ("b", false));
    let b = meeting_blocks(Ok(("s".to_string(), vec![])));
    assert!(b.checklist.is_none());
    let b = meeting_blocks(Err("boom".to_string()));
    assert_eq!(b.text, "boom");
    assert!(b.checklist.is_none());
}

#[test]
fn summary_request() {
    assert_eq!(
        summary_prompt("hello"),
        "Summarize the meeting and extract action items. Return a JSON object with 'summary' (string) and 'action_items' (array of strings):\n\nhello"
    );
}
