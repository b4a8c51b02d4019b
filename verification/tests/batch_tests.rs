use batch_image_processing::batch::{
    adjacent_indices, batch_done_message, batch_start_error, first_failures, output_file_name,
    stem_or_default,
    OutputFormat, ProcessResult,
};
use std::path::PathBuf;

#[test]
fn output_names_take_the_format_extension() {
    assert_eq!(output_file_name("IMG_1", OutputFormat::Jpeg), "IMG_1.jpg");
    assert_eq!(output_file_name("IMG_1", OutputFormat::Pdf), "IMG_1.pdf");
    assert_eq!(output_file_name("", OutputFormat::Pdf), ".pdf");
}

#[test]
fn missing_stem_falls_back_to_image() {
    assert_eq!(stem_or_default(Some("a")), "a");
    assert_eq!(stem_or_default(None), "image");
}

#[test]
fn batch_needs_images_then_an_output_folder() {
    assert_eq!(batch_start_error(0, false).as_deref(), Some("No images loaded"));
    assert_eq!(batch_start_error(0, true).as_deref(), Some("No images loaded"));
    assert_eq!(batch_start_error(3, false).as_deref(), Some("Select an output folder first"));
    assert_eq!(batch_start_error(3, true), None);
}

#[test]
fn done_message_counts_results() {
    let results = vec![
        ProcessResult::succeeded(PathBuf::from("/a.jpg")),
        ProcessResult::failed(PathBuf::from("/b.jpg"), "Failed to decode".into()),
        ProcessResult::succeeded(PathBuf::from("/c.jpg")),
    ];
    assert_eq!(batch_done_message(&results), "Done — 2 succeeded, 1 failed out of 3 total");
    assert_eq!(batch_done_message(&vec![]), "Done — 0 succeeded, 0 failed out of 0 total");
    assert!(!results[1].success);
    assert_eq!(results[1].error.as_deref(), Some("Failed to decode"));
    assert!(results[0].error.is_none());
}

#[test]
fn adjacent_images_exist_on_either_side() {
    assert_eq!(adjacent_indices(0, 1), Vec::<usize>::new());
    assert_eq!(adjacent_indices(0, 3), vec![1]);
    assert_eq!(adjacent_indices(2, 3), vec![1]);
    assert_eq!(adjacent_indices(1, 3), vec![0, 2]);
}

#[test]
fn the_first_failures_are_listed() {
    let ok = |n: &str| ProcessResult::succeeded(PathBuf::from(n));
    let bad = |n: &str| ProcessResult::failed(PathBuf::from(n), "x".into());
    let results = vec![bad("0"), ok("1"), bad("2"), bad("3"), ok("4"), bad("5"), bad("6"), bad("7")];
    assert_eq!(first_failures(&results, 5), vec![0, 2, 3, 5, 6]);
    assert_eq!(first_failures(&results, 2), vec![0, 2]);
    assert_eq!(first_failures(&results, 0), Vec::<usize>::new());
    assert_eq!(first_failures(&vec![ok("a"), ok("b")], 5), Vec::<usize>::new());
    assert_eq!(first_failures(&vec![ok("a"), bad("b")], 5), vec![1]);
}
