use sticky::block::{
    calculate_before_cursor, calculation_expression, calculator_accepts, calculator_replacement, checklist_content, checklist_json, classify, code_template,
    content_after_edit, dropped_file_content, empty_checklist, expression_start,
    file_button_label, focus_tick, generating_placeholder, open_file_label, session_label,
    set_item_checked, speech_text, timer_template, with_answer, with_new_item, BlockKind,
    ChecklistItem, TimerTick,
};
use sticky::text::chars_of;

#[test]
fn classify_each_kind() {
    match classify("[IMAGE][IMAGE]/a.png") {
        BlockKind::Image { path } => assert_eq!(path, "/a.png"),
        _ => panic!("expected an image"),
    }
    match classify("[FILE]/tmp/x.pdf") {
        BlockKind::File { path } => assert_eq!(path, "/tmp/x.pdf"),
        _ => panic!("expected a file"),
    }
    assert!(matches!(classify("[TIMER]"), BlockKind::Timer));
    match classify("[CODE]\nfn main() {}") {
        BlockKind::Code { code } => assert_eq!(code, "fn main() {}"),
        _ => panic!("expected code"),
    }
    match classify("[CODE]x") {
        BlockKind::Code { code } => assert_eq!(code, "[CODE]x"),
        _ => panic!("expected code"),
    }
    assert!(matches!(classify("[CHECKLIST] []"), BlockKind::Checklist));
    assert!(matches!(classify("hello **there**"), BlockKind::Text));
    assert!(matches!(classify(""), BlockKind::Text));
}

#[test]
fn edits_keep_or_replace_content() {
    assert_eq!(content_after_edit("[CODE]\nold", "new code", "t"), "[CODE]\nnew code");
    assert_eq!(content_after_edit("[TIMER]", "c", "t"), "[TIMER]");
    assert_eq!(content_after_edit("[IMAGE]/p.png", "c", "t"), "[IMAGE]/p.png");
    assert_eq!(content_after_edit("[CHECKLIST] []", "c", "t"), "[CHECKLIST] []");
    assert_eq!(content_after_edit("[FILE]/f", "c", "t"), "[FILE]/f");
    assert_eq!(content_after_edit("plain", "c", "typed"), "typed");
}

#[test]
fn read_aloud_text() {
    assert_eq!(speech_text(""), None);
    assert_eq!(speech_text("[CHECKLIST] say \"hi\""), Some(" say hi".to_string()));
    assert_eq!(speech_text("plain"), Some("plain".to_string()));
}

#[test]
fn dropped_files() {
    assert_eq!(dropped_file_content("/x/Photo.PNG"), "[IMAGE]/x/Photo.PNG");
    assert_eq!(dropped_file_content("/x/a.JpEg"), "[IMAGE]/x/a.JpEg");
    assert_eq!(dropped_file_content("/x/a.gif"), "[IMAGE]/x/a.gif");
    assert_eq!(dropped_file_content("/x/doc.pdf"), "[FILE]/x/doc.pdf");
    assert_eq!(dropped_file_content("png"), "[FILE]png");
}

#[test]
fn file_buttons() {
    assert_eq!(file_button_label("/tmp/report.pdf"), "📎 Open report.pdf");
    assert_eq!(file_button_label("/tmp/dir/"), "📎 Open dir");
    assert_eq!(file_button_label("/"), "📎 Open ");
    assert_eq!(file_button_label("/tmp/.."), "📎 Open ");
    assert_eq!(open_file_label(Some("a.txt")), "📎 Open a.txt");
    assert_eq!(open_file_label(None), "📎 Open ");
}

#[test]
fn checklist_framing() {
    assert_eq!(
        checklist_json("[CHECKLIST] [{\"text\":\"a\",\"checked\":false}] "),
        "[{\"text\":\"a\",\"checked\":false}]"
    );
    assert_eq!(checklist_json("[CHECKLIST][CHECKLIST]\n[]"), "[]");
    assert_eq!(checklist_content("[]"), "[CHECKLIST] []");
    assert_eq!(checklist_json(&checklist_content(" [1] ")), "[1]");
    assert_eq!(empty_checklist(), "[CHECKLIST] []");
    assert_eq!(code_template(), "[CODE]\n// Write code here...");
    assert_eq!(timer_template(), "[TIMER]");
}

fn item(text: &str, checked: bool) -> ChecklistItem {
    ChecklistItem { text: text.to_string(), checked }
}

#[test]
fn ticking_items() {
    let items = vec![item("a", false), item("b", false), item("c", true)];
    let out = set_item_checked(items.clone(), 1, true).unwrap();
    let flags: Vec<(String, bool)> = out.into_iter().map(|i| (i.text, i.checked)).collect();
    assert_eq!(
        flags,
        vec![("a".to_string(), false), ("b".to_string(), true), ("c".to_string(), true)]
    );
    assert!(set_item_checked(items, 3, true).is_none());
}

#[test]
fn adding_items() {
    let out = with_new_item(vec![item("a", true)], "new".to_string());
    assert_eq!(out.len(), 2);
    assert_eq!(out[1].text, "new");
    assert!(!out[1].checked);
    assert!(out[0].checked);
}

#[test]
fn focus_timer_counts_down() {
    assert_eq!(session_label(), "25:00");
    match focus_tick(true, 0) {
        TimerTick::Remaining { label } => assert_eq!(label, "25:00"),
        _ => panic!("expected time left"),
    }
    match focus_tick(true, 61) {
        TimerTick::Remaining { label } => assert_eq!(label, "23:59"),
        _ => panic!("expected time left"),
    }
    match focus_tick(true, 1499) {
        TimerTick::Remaining { label } => assert_eq!(label, "00:01"),
        _ => panic!("expected time left"),
    }
    assert!(matches!(focus_tick(true, 1500), TimerTick::Finished));
    assert!(matches!(focus_tick(true, 99999), TimerTick::Finished));
    assert!(matches!(focus_tick(false, 10), TimerTick::Stopped));
}

#[test]
fn expression_boundaries() {
    let text = chars_of("total 12*3");
    assert_eq!(expression_start(&text, text.len()), 6);
    assert_eq!(expression_start(&text, 3), 0);
    assert_eq!(expression_start(&chars_of("a\nb"), 3), 2);
}

#[test]
fn inline_calculator() {
    let text = chars_of("x 1+2");
    let r = calculate_before_cursor(&text, 5).unwrap();
    assert_eq!((r.start, r.end, r.text.as_str()), (2, 5, "3"));
    let text = chars_of("cost 6*7");
    let r = calculate_before_cursor(&text, text.len()).unwrap();
    assert_eq!(r.text, "42");
    assert!(calculate_before_cursor(&chars_of("ab "), 3).is_none());
    assert!(calculate_before_cursor(&chars_of("foo("), 4).is_none());
    let text = chars_of("a 7-2");
    assert_eq!(calculate_before_cursor(&text, 3).unwrap().text, "7");
}

#[test]
fn calculator_declines_panicking_builtins() {
    let text = chars_of("x str::substring(\"é\",0,1)");
    assert!(!calculator_accepts(&text, text.len()));
    let text = chars_of("x math::abs(0-3)");
    assert!(!calculator_accepts(&text, text.len()));
    let text = chars_of("x 2*(3+4)");
    assert!(calculator_accepts(&text, text.len()));
    let text = chars_of("x str::substring(\"hello\",1,3)");
    assert!(calculator_accepts(&text, text.len()));
    assert!(calculate_before_cursor(&text, text.len()).is_some());
    let r = calculator_replacement(2, 5, Some("9".to_string())).unwrap();
    assert_eq!((r.start, r.end, r.text.as_str()), (2, 5, "9"));
    assert!(calculator_replacement(2, 5, None).is_none());
}

#[test]
fn assistant_answer_replaces_placeholder() {
    let with = format!("question{}", generating_placeholder());
    assert_eq!(with_answer(&with, "A"), "question\n\nA");
    assert_eq!(with_answer("no marker", "A"), "no marker");
}

#[test]
fn edited_code_block_stays_code() {
    let content = content_after_edit("[CODE]\nold", "let x = 1;", "ignored");
    match classify(&content) {
        BlockKind::Code { code } => assert_eq!(code, "let x = 1;"),
        _ => panic!("expected code"),
    }
}

#[test]
fn calculation_expressions() {
    let text = chars_of("total math::abs(0-3)");
    let (start, expr) = calculation_expression(&text, text.len()).unwrap();
    assert_eq!((start, expr.as_str()), (6, "math::abs(0-3)"));
    assert!(calculation_expression(&chars_of("a  "), 3).is_none());
}
