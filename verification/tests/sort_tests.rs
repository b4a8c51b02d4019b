use batch_image_processing::sort::{
    destination_folder_numbers, discover_numbered_file_jobs, parse_number_folder_name,
    destination_taken, folder_creation_failed, number_folder_path, sorted_file_result,
    summarize_sort, unreadable_folder_outcome, FolderEntry, NumberedSortJob, NumberedSortMode,
    NumberedSortResult,
};
use std::path::PathBuf;

#[test]
fn parses_numbered_file_stems() {
    assert_eq!(parse_number_folder_name("82").as_deref(), Some("82"));
    assert_eq!(parse_number_folder_name("82 (2)").as_deref(), Some("82"));
    assert_eq!(parse_number_folder_name("82-001").as_deref(), Some("82"));
    assert_eq!(parse_number_folder_name("82-002").as_deref(), Some("82"));
    assert_eq!(parse_number_folder_name("82-003").as_deref(), Some("82"));
    assert_eq!(
        parse_number_folder_name("82-002 (2)").as_deref(),
        Some("82")
    );
}

#[test]
fn rejects_non_numbered_file_stems() {
    assert_eq!(parse_number_folder_name("bike-82"), None);
    assert_eq!(parse_number_folder_name("IMG_0082"), None);
    assert_eq!(parse_number_folder_name(""), None);
    assert_eq!(parse_number_folder_name("  "), None);
}

#[test]
fn trims_leading_whitespace_before_number() {
    assert_eq!(parse_number_folder_name("  82-001").as_deref(), Some("82"));
}

#[test]
fn trims_unicode_whitespace_and_keeps_only_ascii_digits() {
    assert_eq!(parse_number_folder_name("\u{3000}\t 7abc").as_deref(), Some("7"));
    assert_eq!(parse_number_folder_name("\u{a0}0042x").as_deref(), Some("0042"));
    // Arabic-Indic digit three is a digit, but not an ASCII one.
    assert_eq!(parse_number_folder_name("\u{663}12"), None);
    // Whitespace after the number ends it.
    assert_eq!(parse_number_folder_name("12 34").as_deref(), Some("12"));
}

#[test]
fn parsed_folder_name_parses_to_itself() {
    for stem in ["82-001", "  7 (3)", "0012abc", "123456789012345678901234567890"] {
        let name = parse_number_folder_name(stem).unwrap();
        assert!(name.chars().all(|c| c.is_ascii_digit()));
        assert_eq!(parse_number_folder_name(&name), Some(name.clone()));
    }
}

fn listed(dir: &str, name: &str, stem: Option<&str>, is_file: bool) -> FolderEntry {
    FolderEntry::Listed {
        path: PathBuf::from(dir).join(name),
        is_file,
        stem: stem.map(str::to_string),
    }
}

#[test]
fn discovery_plans_jobs_skips_and_failures() {
    let dir = PathBuf::from("/photos");
    let entries = vec![
        listed("/photos", "82-001.jpg", Some("82-001"), true),
        FolderEntry::Unreadable { error: "permission denied".to_string() },
        listed("/photos", "82", Some("82"), false),
        listed("/photos", "IMG_0082.jpg", Some("IMG_0082"), true),
        FolderEntry::UnknownType {
            path: PathBuf::from("/photos/x.jpg"),
            error: "bad inode".to_string(),
        },
        listed("/photos", "7 (2).png", Some("7 (2)"), true),
        listed("/photos", "odd.jpg", None, true),
        // A path without a file name.
        FolderEntry::Listed {
            path: PathBuf::from("/"),
            is_file: true,
            stem: Some("9".to_string()),
        },
    ];
    let (jobs, skipped, failures) = discover_numbered_file_jobs(&dir, &entries);

    assert_eq!(jobs.len(), 2);
    assert_eq!(jobs[0].source, PathBuf::from("/photos/82-001.jpg"));
    assert_eq!(jobs[0].number, "82");
    assert_eq!(jobs[0].destination, PathBuf::from("/photos/82/82-001.jpg"));
    assert_eq!(jobs[1].number, "7");
    assert_eq!(jobs[1].destination, PathBuf::from("/photos/7/7 (2).png"));

    assert_eq!(skipped, 4);

    assert_eq!(failures.len(), 2);
    assert_eq!(failures[0].source, dir);
    assert!(!failures[0].success);
    assert_eq!(
        failures[0].error.as_deref(),
        Some("Failed to read folder entry: permission denied")
    );
    assert_eq!(failures[1].source, PathBuf::from("/photos/x.jpg"));
    assert_eq!(
        failures[1].error.as_deref(),
        Some("Failed to inspect file type: bad inode")
    );

    // Every entry is accounted for exactly once.
    assert_eq!(jobs.len() + skipped + failures.len(), entries.len());
}

#[test]
fn discovery_of_empty_folder_plans_nothing() {
    let (jobs, skipped, failures) = discover_numbered_file_jobs(&PathBuf::from("/e"), &vec![]);
    assert!(jobs.is_empty());
    assert_eq!(skipped, 0);
    assert!(failures.is_empty());
}

fn job(number: &str) -> NumberedSortJob {
    NumberedSortJob {
        source: PathBuf::from(format!("/p/{number}.jpg")),
        number: number.to_string(),
        destination: PathBuf::from(format!("/p/{number}/{number}.jpg")),
    }
}

#[test]
fn destination_folders_are_listed_once_in_first_seen_order() {
    let jobs = vec![job("82"), job("7"), job("82"), job("082"), job("7")];
    assert_eq!(destination_folder_numbers(&jobs), vec!["82", "7", "082"]);
    assert!(destination_folder_numbers(&vec![]).is_empty());
}

#[test]
fn summary_counts_successes_and_failures() {
    let j = job("5");
    let results = vec![
        NumberedSortResult::success(&j),
        NumberedSortResult::failed(
            PathBuf::from("/p/6.jpg"),
            None,
            Some("6".to_string()),
            "Destination already exists".to_string(),
        ),
        NumberedSortResult::success(&j),
    ];
    let other = vec![NumberedSortResult::failed(
        PathBuf::from("/p"),
        None,
        None,
        "Failed to read folder entry: x".to_string(),
    )];
    let (summary, all) = summarize_sort(3, 4, 2, results, other);
    assert_eq!(summary.discovered, 3);
    assert_eq!(summary.sorted, 2);
    assert_eq!(summary.failed, 2);
    assert_eq!(summary.skipped, 4);
    assert_eq!(summary.folders_created, 2);
    assert_eq!(all.len(), 4);
    assert_eq!(all[3].source, PathBuf::from("/p"));
    assert_eq!(all[0].destination, Some(PathBuf::from("/p/5/5.jpg")));
    assert_eq!(all[0].number.as_deref(), Some("5"));
    assert!(all[0].error.is_none());
}

#[test]
fn unreadable_folder_counts_one_failure() {
    let (summary, results) = unreadable_folder_outcome(PathBuf::from("/nope"), "gone");
    assert_eq!(summary.discovered, 0);
    assert_eq!(summary.sorted, 0);
    assert_eq!(summary.failed, 1);
    assert_eq!(summary.skipped, 0);
    assert_eq!(summary.folders_created, 0);
    assert_eq!(results.len(), 1);
    assert_eq!(results[0].source, PathBuf::from("/nope"));
    assert_eq!(results[0].error.as_deref(), Some("Failed to read folder /nope: gone"));
}

#[test]
fn sort_mode_verbs() {
    assert_eq!(NumberedSortMode::Move.verb(), "move");
    assert_eq!(NumberedSortMode::Copy.verb(), "copy");
}

#[test]
fn folder_and_file_results_name_the_paths() {
    let dir = PathBuf::from("/p");
    let n = "82".to_string();
    assert_eq!(number_folder_path(&dir, &n), PathBuf::from("/p/82"));
    let r = folder_creation_failed(&dir, &n, "denied");
    assert_eq!(r.source, PathBuf::from("/p/82"));
    assert_eq!(r.number.as_deref(), Some("82"));
    assert!(!r.success);
    assert_eq!(r.error.as_deref(), Some("Failed to create destination folder /p/82: denied"));

    let j = job("5");
    let taken = destination_taken(&j);
    assert!(!taken.success);
    assert_eq!(taken.error.as_deref(), Some("Destination already exists: /p/5/5.jpg"));
    assert_eq!(taken.destination, Some(PathBuf::from("/p/5/5.jpg")));

    let ok = sorted_file_result(&j, NumberedSortMode::Move, Ok(()));
    assert!(ok.success);
    assert!(ok.error.is_none());
    let bad = sorted_file_result(&j, NumberedSortMode::Copy, Err("disk full".into()));
    assert!(!bad.success);
    assert_eq!(bad.error.as_deref(), Some("Failed to copy /p/5.jpg to /p/5/5.jpg: disk full"));
    assert_eq!(bad.number.as_deref(), Some("5"));
}
