use batch_image_processing::numbering::{preload_plan, MoveOperation, NumberingState};
use std::path::PathBuf;

fn paths(names: &[&str]) -> Vec<PathBuf> {
    names.iter().map(|n| PathBuf::from(format!("/f/{n}"))).collect()
}

fn loaded(names: &[&str]) -> NumberingState {
    let mut s = NumberingState::new();
    s.load_folder(PathBuf::from("/f"), paths(names));
    s
}

#[test]
fn new_state_waits_for_a_folder() {
    let s = NumberingState::new();
    assert_eq!(s.status_message, "Open a folder to begin numbering");
    assert!(s.current_image().is_none());
    assert_eq!(s.progress(), (0, 0));
    assert_eq!(s.remaining(), 0);
    let d = NumberingState::default();
    assert_eq!(d.status_message, s.status_message);
}

#[test]
fn loading_a_folder_resets_position_and_history() {
    let mut s = loaded(&["a.jpg"]);
    s.current_index = 0;
    s.input_buffer = "12".into();
    s.undo_stack.push(MoveOperation {
        original_path: PathBuf::from("/x"),
        new_path: PathBuf::from("/y"),
        number: "1".into(),
    });
    s.load_folder(PathBuf::from("/g"), paths(&["1.jpg", "2.jpg", "3.jpg"]));
    assert_eq!(s.status_message, "Loaded 3 images");
    assert_eq!(s.source_folder, Some(PathBuf::from("/g")));
    assert_eq!(s.current_index, 0);
    assert!(s.undo_stack.is_empty());
    assert!(s.input_buffer.is_empty());
    assert_eq!(s.current_image(), Some(&PathBuf::from("/f/1.jpg")));
}

#[test]
fn next_and_prev_stay_in_bounds_and_clear_input() {
    let mut s = loaded(&["a", "b", "c"]);
    s.input_buffer = "9".into();
    s.ocr_suggestion = Some("9".into());
    s.prev_image();
    assert_eq!(s.current_index, 0);
    assert_eq!(s.input_buffer, "9");
    s.next_image();
    assert_eq!(s.current_index, 1);
    assert!(s.input_buffer.is_empty());
    assert!(s.ocr_suggestion.is_none());
    s.next_image();
    s.next_image();
    assert_eq!(s.current_index, 2);
    s.prev_image();
    s.next_image();
    assert_eq!(s.current_index, 2);
    s.prev_image();
    s.prev_image();
    s.next_image();
    assert_eq!(s.current_index, 1);
}

#[test]
fn confirm_plan_reports_errors_in_order() {
    let mut s = NumberingState::new();
    assert_eq!(s.plan_confirm().err().as_deref(), Some("Please enter a number"));
    s.input_buffer = " \t ".into();
    assert_eq!(s.plan_confirm().err().as_deref(), Some("Please enter a number"));
    s.input_buffer = "82".into();
    assert_eq!(s.plan_confirm().err().as_deref(), Some("No folder selected"));
    s.source_folder = Some(PathBuf::from("/f"));
    assert_eq!(s.plan_confirm().err().as_deref(), Some("No image selected"));
    s.image_paths = paths(&["a.jpg"]);
    s.input_buffer = "  82 \n".into();
    let req = s.plan_confirm().unwrap();
    assert_eq!(req.number, "82");
    assert_eq!(req.source_folder, PathBuf::from("/f"));
    assert_eq!(req.current_path, PathBuf::from("/f/a.jpg"));
}

fn confirm(s: &mut NumberingState, number: &str) -> Result<(), String> {
    s.input_buffer = number.into();
    let req = s.plan_confirm()?;
    s.confirm_number(req, Ok(()))
}

#[test]
fn confirming_moves_the_current_image_out_of_the_list() {
    let mut s = loaded(&["a.jpg", "b.jpg", "c.jpg"]);
    s.next_image();
    s.ocr_suggestion = Some("3".into());
    confirm(&mut s, "82").unwrap();
    assert_eq!(s.image_paths, paths(&["a.jpg", "c.jpg"]));
    assert_eq!(s.current_index, 1);
    assert_eq!(s.status_message, "Moved to 82/. 2 remaining");
    assert!(s.input_buffer.is_empty());
    assert!(s.ocr_suggestion.is_none());
    assert_eq!(s.undo_stack.len(), 1);
    assert_eq!(s.undo_stack[0].original_path, PathBuf::from("/f/b.jpg"));
    assert_eq!(s.undo_stack[0].new_path, PathBuf::from("/f/82/b.jpg"));
    assert_eq!(s.undo_stack[0].number, "82");
    assert_eq!(s.progress(), (1, 3));
    assert_eq!(s.remaining(), 2);

    // Confirming the last image steps the index back.
    confirm(&mut s, "7").unwrap();
    assert_eq!(s.image_paths, paths(&["a.jpg"]));
    assert_eq!(s.current_index, 0);
    assert_eq!(s.status_message, "Moved to 7/. 1 remaining");

    confirm(&mut s, "1").unwrap();
    assert!(s.image_paths.is_empty());
    assert_eq!(s.status_message, "All images processed!");
    assert_eq!(s.progress(), (3, 3));
    assert_eq!(confirm(&mut s, "2").err().as_deref(), Some("No image selected"));
}

#[test]
fn a_failed_move_changes_nothing() {
    let mut s = loaded(&["a.jpg", "b.jpg"]);
    s.input_buffer = "5".into();
    let req = s.plan_confirm().unwrap();
    assert_eq!(req.number_folder(), PathBuf::from("/f/5"));
    assert_eq!(req.move_target(), Ok(PathBuf::from("/f/5/a.jpg")));
    let r = s.confirm_number(req, Err("Failed to move file: busy".into()));
    assert_eq!(r.err().as_deref(), Some("Failed to move file: busy"));
    assert_eq!(s.image_paths.len(), 2);
    assert!(s.undo_stack.is_empty());
    assert_eq!(s.input_buffer, "5");
    assert_eq!(s.status_message, "Loaded 2 images");
}

#[test]
fn a_path_without_a_file_name_cannot_be_moved() {
    let mut s = NumberingState::new();
    s.load_folder(PathBuf::from("/f"), vec![PathBuf::from("/")]);
    s.input_buffer = "3".into();
    let req = s.plan_confirm().unwrap();
    assert_eq!(req.move_target().err().as_deref(), Some("Invalid filename"));
    let r = s.confirm_number(req, Ok(()));
    assert_eq!(r.err().as_deref(), Some("Invalid filename"));
    assert_eq!(s.image_paths.len(), 1);
    assert!(s.undo_stack.is_empty());
}

fn undo(s: &mut NumberingState) -> Result<(), String> {
    let op = s.take_undo()?;
    s.undo(op, Ok(()))
}

#[test]
fn undo_reverses_a_confirm_in_the_middle() {
    let mut s = loaded(&["a.jpg", "b.jpg", "c.jpg"]);
    s.next_image();
    let before = s.image_paths.clone();
    confirm(&mut s, "82").unwrap();
    undo(&mut s).unwrap();
    assert_eq!(s.image_paths, before);
    assert_eq!(s.current_index, 1);
    assert!(s.undo_stack.is_empty());
    assert_eq!(s.status_message, "Undid move of 82");
    assert_eq!(s.progress(), (0, 3));
}

#[test]
fn undo_of_the_only_image_restores_it() {
    let mut s = loaded(&["a.jpg"]);
    confirm(&mut s, "4").unwrap();
    undo(&mut s).unwrap();
    assert_eq!(s.image_paths, paths(&["a.jpg"]));
    assert_eq!(s.current_index, 0);
}

#[test]
fn undo_of_the_last_of_several_puts_it_one_place_earlier() {
    let mut s = loaded(&["a.jpg", "b.jpg"]);
    s.next_image();
    confirm(&mut s, "4").unwrap();
    undo(&mut s).unwrap();
    assert_eq!(s.image_paths, paths(&["b.jpg", "a.jpg"]));
    assert_eq!(s.current_index, 0);
}

#[test]
fn undo_errors() {
    let mut s = loaded(&["a.jpg"]);
    assert_eq!(s.take_undo().err().as_deref(), Some("Nothing to undo"));
    confirm(&mut s, "4").unwrap();
    let op = s.take_undo().unwrap();
    assert_eq!(op.number, "4");
    let r = s.undo(op, Err("No such file".into()));
    assert_eq!(r.err().as_deref(), Some("Failed to undo: No such file"));
    // The move was taken off the stack; the image stays out of the list.
    assert!(s.undo_stack.is_empty());
    assert!(s.image_paths.is_empty());
}

#[test]
fn accepting_the_ocr_suggestion_fills_the_input() {
    let mut s = loaded(&["a.jpg"]);
    s.input_buffer = "1".into();
    s.accept_ocr_suggestion();
    assert_eq!(s.input_buffer, "1");
    s.ocr_suggestion = Some("82".into());
    s.accept_ocr_suggestion();
    assert_eq!(s.input_buffer, "82");
}

#[test]
fn preload_plan_around_the_current_image() {
    assert_eq!(preload_plan(0, 10), (vec![1, 2, 3], vec![1, 2]));
    assert_eq!(preload_plan(5, 10), (vec![6, 7, 8, 4, 3], vec![6, 7]));
    assert_eq!(preload_plan(8, 10), (vec![9, 7, 6], vec![9]));
    assert_eq!(preload_plan(1, 2), (vec![0], vec![]));
    assert_eq!(preload_plan(0, 0), (vec![], vec![]));
}

#[test]
fn starting_to_load_an_image_resets_the_ocr_state() {
    let mut s = loaded(&["a.jpg", "b.jpg"]);
    s.ocr_suggestion = Some("12".into());
    assert_eq!(s.start_loading_current(true), Some(PathBuf::from("/f/a.jpg")));
    assert!(s.ocr_running);
    assert!(s.ocr_suggestion.is_none());
    assert_eq!(s.start_loading_current(false), Some(PathBuf::from("/f/a.jpg")));
    assert!(!s.ocr_running);

    let mut empty = NumberingState::new();
    empty.ocr_running = true;
    empty.ocr_suggestion = Some("3".into());
    assert_eq!(empty.start_loading_current(true), None);
    assert!(!empty.ocr_running);
    assert_eq!(empty.ocr_suggestion.as_deref(), Some("3"));
}
