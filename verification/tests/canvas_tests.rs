use sticky::canvas::{grid_positions, join_block_texts, link_endpoints, CanvasState, WHITEBOARD_EXTENT};

#[test]
fn copied_text_skips_pictures() {
    let contents = vec!["a".to_string(), "[IMAGE]/x.png".to_string(), "b".to_string()];
    assert_eq!(join_block_texts(&contents), "a\n\nb");
    let contents = vec!["[IMAGE]/x.png".to_string(), "only".to_string()];
    assert_eq!(join_block_texts(&contents), "only");
    assert_eq!(join_block_texts(&Vec::new()), "");
    let contents = vec!["".to_string(), "x".to_string()];
    assert_eq!(join_block_texts(&contents), "\n\nx");
}

#[test]
fn dot_grid() {
    assert_eq!(grid_positions(100), vec![28, 56, 84]);
    assert_eq!(grid_positions(28), Vec::<i32>::new());
    assert_eq!(grid_positions(29), vec![28]);
    assert_eq!(grid_positions(0), Vec::<i32>::new());
    assert_eq!(grid_positions(-5), Vec::<i32>::new());
    assert_eq!(grid_positions(4000).len(), 142);
}

#[test]
fn link_ends_use_last_matching_block() {
    assert_eq!(link_endpoints(&vec![5, 6, 5], 5, 6), Some((2, 1)));
    assert_eq!(link_endpoints(&vec![5, 6], 5, 7), None);
    assert_eq!(link_endpoints(&vec![], 1, 2), None);
}

#[test]
fn linking_gesture() {
    let mut c = CanvasState::new();
    assert_eq!(c.start_linking(1), None);
    assert_eq!(c.linking_from, Some(1));
    assert_eq!(c.start_linking(2), Some((1, 2)));
    assert_eq!(c.linking_from, None);
    assert_eq!(c.start_linking(3), None);
    assert_eq!(c.start_linking(3), None);
    assert_eq!(c.linking_from, None);
}

#[test]
fn whiteboard_mode() {
    let mut c = CanvasState::new();
    c.load_note(9);
    assert!(!c.is_whiteboard());
    assert_eq!(c.set_whiteboard_mode(true), (WHITEBOARD_EXTENT, WHITEBOARD_EXTENT));
    assert!(c.is_whiteboard());
    assert_eq!(c.set_whiteboard_mode(false), (-1, -1));
    assert!(!c.is_whiteboard());
    assert_eq!(c.note_id, 9);
}
