//! Sorting numbered photos into one folder per number.
//!
//! A photo whose file stem starts with a number, such as `82.jpg`,
//! `82 (2).jpg` or `82-001.jpg`, belongs in the folder `82` next to it.
//! The library decides, from what was read of a folder, which files are
//! sorted where, which folders are needed and what the run amounts to; the
//! caller does the filesystem work.

use vstd::prelude::*;
use std::path::PathBuf;
use crate::paths::{
    display_path, file_name_of, join_path, join_str, path_display, path_file_name, path_joined,
    path_joined_str,
};
use crate::text::{
    chars_of, is_whitespace, lemma_leading_count, lemma_leading_count_unique, concat, is_ascii_digit, leading_count, owned, skip_digits, skip_whitespace,
    string_from_range, trim_start,
};

verus! {

/// Operation to perform when sorting numbered files.
#[derive(Clone, Copy, Debug, PartialEq, Eq, Structural)]
pub enum NumberedSortMode {
    /// Move files into their number folders.
    Move,
    /// Copy files into their number folders, leaving originals in place.
    Copy,
}

/// A discovered file that should be sorted.
pub struct NumberedSortJob {
    /// Original path of the file.
    pub source: PathBuf,
    /// Parsed leading number, used as the destination directory name.
    pub number: String,
    /// Final destination path.
    pub destination: PathBuf,
}

/// Result of sorting one file.
pub struct NumberedSortResult {
    pub source: PathBuf,
    pub destination: Option<PathBuf>,
    pub number: Option<String>,
    pub success: bool,
    pub error: Option<String>,
}

/// Aggregate counters for a completed sort run.
pub struct NumberedSortSummary {
    pub discovered: usize,
    pub sorted: usize,
    pub failed: usize,
    pub skipped: usize,
    pub folders_created: usize,
}

/// What was read of one entry of the folder being sorted.
pub enum FolderEntry {
    /// The folder listing failed on this entry; `error` describes why.
    Unreadable { error: String },
    /// The entry's file type could not be read.
    UnknownType { path: PathBuf, error: String },
    /// An entry whose file type was read.
    Listed {
        path: PathBuf,
        /// Whether the entry is a regular file.
        is_file: bool,
        /// The file stem, where the path has one that is valid UTF-8.
        stem: Option<String>,
    },
}

// ---------------------------------------------------------------------------
// Specification
// ---------------------------------------------------------------------------

/// The folder name for a numbered file stem: the leading run of ASCII
/// digits after any leading whitespace, or `None` where there is none.
pub open spec fn number_folder_name(stem: Seq<char>) -> Option<Seq<char>> {
    let t = trim_start(stem);
    let n = leading_count(t, |c: char| is_ascii_digit(c));
    if n == 0 {
        None
    } else {
        Some(t.take(n as int))
    }
}

/// The number under which a listed entry is sorted, if it is sorted at all:
/// it must be a file, with a UTF-8 stem that starts with a number, and with
/// a file name.
pub open spec fn entry_number(e: FolderEntry) -> Option<Seq<char>> {
    match e {
        FolderEntry::Listed { path, is_file, stem } => {
            if is_file && stem is Some && path_file_name(path) is Some {
                number_folder_name(stem->0@)
            } else {
                None
            }
        },
        _ => None,
    }
}

pub open spec fn is_job_entry(e: FolderEntry) -> bool {
    entry_number(e) is Some
}

pub open spec fn is_failed_entry(e: FolderEntry) -> bool {
    !(e is Listed)
}

pub open spec fn is_skipped_entry(e: FolderEntry) -> bool {
    e is Listed && entry_number(e) is None
}

pub open spec fn entry_path(e: FolderEntry, source_dir: PathBuf) -> PathBuf {
    match e {
        FolderEntry::Unreadable { .. } => source_dir,
        FolderEntry::UnknownType { path, .. } => path,
        FolderEntry::Listed { path, .. } => path,
    }
}

/// What a job says: which file goes under which number, and where to.
pub open spec fn job_view(j: NumberedSortJob) -> (PathBuf, Seq<char>, PathBuf) {
    (j.source, j.number@, j.destination)
}

/// The job planned for an entry that is sorted: the file goes to
/// `source_dir/number/file name`.
pub open spec fn entry_job_view(e: FolderEntry, source_dir: PathBuf) -> (PathBuf, Seq<char>, PathBuf) {
    match e {
        FolderEntry::Listed { path, .. } => (
            path,
            entry_number(e)->0,
            path_joined(path_joined_str(source_dir, entry_number(e)->0), path_file_name(path)->0),
        ),
        _ => (entry_path(e, source_dir), entry_number(e)->0, source_dir),
    }
}

/// What a result says, each string by its characters.
pub open spec fn result_view(r: NumberedSortResult) -> (
    PathBuf,
    Option<PathBuf>,
    Option<Seq<char>>,
    bool,
    Option<Seq<char>>,
) {
    (
        r.source,
        r.destination,
        match r.number {
            Some(n) => Some(n@),
            None => None,
        },
        r.success,
        match r.error {
            Some(e) => Some(e@),
            None => None,
        },
    )
}

/// The failure recorded for an entry that could not be read.
pub open spec fn entry_failure_view(e: FolderEntry, source_dir: PathBuf) -> (
    PathBuf,
    Option<PathBuf>,
    Option<Seq<char>>,
    bool,
    Option<Seq<char>>,
) {
    match e {
        FolderEntry::Unreadable { error } => (
            source_dir,
            None,
            None,
            false,
            Some("Failed to read folder entry: "@ + error@),
        ),
        FolderEntry::UnknownType { path, error } => (
            path,
            None,
            None,
            false,
            Some("Failed to inspect file type: "@ + error@),
        ),
        FolderEntry::Listed { path, .. } => (path, None, None, false, None),
    }
}

/// Number of results that report success.
pub open spec fn count_successes(rs: Seq<NumberedSortResult>) -> nat
    decreases rs.len(),
{
    if rs.len() == 0 {
        0
    } else {
        count_successes(rs.drop_last()) + if rs.last().success {
            1nat
        } else {
            0nat
        }
    }
}

/// `numbers` holds no string twice.
pub open spec fn distinct(numbers: Seq<String>) -> bool {
    forall|i: int, j: int| 0 <= i < j < numbers.len() ==> #[trigger] numbers[i]@ != #[trigger] numbers[j]@
}

// ---------------------------------------------------------------------------
// Trusted path operations
// ---------------------------------------------------------------------------

// ---------------------------------------------------------------------------
// Executable
// ---------------------------------------------------------------------------

/// Parse the folder name from a numbered file stem.
///
/// The parser accepts any file stem that starts with one or more ASCII
/// digits, after leading whitespace. It stops at the first non-digit
/// character, so `82`, `82 (2)`, `82-001` and `82-002 (2)` all become `82`.
/// Stems that do not start with a digit return `None`.
pub fn parse_number_folder_name(file_stem: &str) -> (r: Option<String>)
    ensures
        match r {
            Some(s) => number_folder_name(file_stem@) == Some(s@),
            None => number_folder_name(file_stem@) is None,
        },
{
    let v = chars_of(file_stem);
    let start = skip_whitespace(&v, 0);
    let end = skip_digits(&v, start);
    proof {
        assert(v@.skip(0) =~= v@);
        assert(v@.skip(start as int) =~= trim_start(file_stem@));
    }
    if end == start {
        None
    } else {
        let s = string_from_range(&v, start, end);
        proof {
            assert(s@ =~= trim_start(file_stem@).take((end - start) as int));
        }
        Some(s)
    }
}

impl NumberedSortMode {
    /// The verb used in error messages: `move` or `copy`.
    pub fn verb(&self) -> (s: String)
        ensures
            s@ == match *self {
                NumberedSortMode::Move => "move"@,
                NumberedSortMode::Copy => "copy"@,
            },
    {
        match self {
            NumberedSortMode::Move => owned("move"),
            NumberedSortMode::Copy => owned("copy"),
        }
    }
}

impl NumberedSortResult {
    /// The result of a job that was carried out.
    pub fn success(job: &NumberedSortJob) -> (r: Self)
        ensures
            r.source == job.source,
            r.destination == Some(job.destination),
            r.number == Some(job.number),
            r.success,
            r.error is None,
    {
        NumberedSortResult {
            source: job.source.clone(),
            destination: Some(job.destination.clone()),
            number: Some(job.number.clone()),
            success: true,
            error: None,
        }
    }

    /// The result of a job, or of an entry, that failed with `error`.
    pub fn failed(
        source: PathBuf,
        destination: Option<PathBuf>,
        number: Option<String>,
        error: String,
    ) -> (r: Self)
        ensures
            r.source == source,
            r.destination == destination,
            r.number == number,
            !r.success,
            r.error == Some(error),
    {
        NumberedSortResult { source, destination, number, success: false, error: Some(error) }
    }
}

/// Plan the sort of a folder from what was read of its entries, without
/// moving or copying anything.
///
/// Returns the jobs to carry out (in the order of the entries, each file
/// going to `source_dir/number/file name`), the number
/// of entries skipped (directories and other non-files, files without a
/// UTF-8 stem, without a leading number or without a file name), and one
/// failure per entry that could not be read.
pub fn discover_numbered_file_jobs(source_dir: &PathBuf, entries: &Vec<FolderEntry>) -> (r: (
    Vec<NumberedSortJob>,
    usize,
    Vec<NumberedSortResult>,
))
    ensures
        r.0@.map_values(|j: NumberedSortJob| job_view(j)) == entries@.filter(
            |e: FolderEntry| is_job_entry(e),
        ).map_values(|e: FolderEntry| entry_job_view(e, *source_dir)),
        r.1 == entries@.filter(|e: FolderEntry| is_skipped_entry(e)).len(),
        r.2@.map_values(|f: NumberedSortResult| result_view(f)) == entries@.filter(
            |e: FolderEntry| is_failed_entry(e),
        ).map_values(|e: FolderEntry| entry_failure_view(e, *source_dir)),
{
    let mut jobs: Vec<NumberedSortJob> = Vec::new();
    let mut skipped: usize = 0;
    let mut failures: Vec<NumberedSortResult> = Vec::new();
    let mut i: usize = 0;
    while i < entries.len()
        invariant
            i <= entries@.len(),
            jobs@.map_values(|j: NumberedSortJob| job_view(j)) == entries@.take(i as int).filter(
                |e: FolderEntry| is_job_entry(e),
            ).map_values(|e: FolderEntry| entry_job_view(e, *source_dir)),
            skipped == entries@.take(i as int).filter(|e: FolderEntry| is_skipped_entry(e)).len(),
            failures@.map_values(|f: NumberedSortResult| result_view(f)) == entries@.take(
                i as int,
            ).filter(|e: FolderEntry| is_failed_entry(e)).map_values(
                |e: FolderEntry| entry_failure_view(e, *source_dir),
            ),
        decreases entries@.len() - i,
    {
        let ghost e = entries@[i as int];
        let ghost prefix = entries@.take(i as int);
        proof {
            assert(entries@.take(i + 1) =~= prefix + seq![e]);
            Seq::filter_distributes_over_add(prefix, seq![e], |e: FolderEntry| is_job_entry(e));
            Seq::filter_distributes_over_add(prefix, seq![e], |e: FolderEntry| is_skipped_entry(e));
            Seq::filter_distributes_over_add(prefix, seq![e], |e: FolderEntry| is_failed_entry(e));
            reveal_with_fuel(Seq::filter, 2);
            assert(seq![e].drop_last() =~= Seq::<FolderEntry>::empty());
            assert(seq![e].filter(|e: FolderEntry| is_job_entry(e)) =~= if is_job_entry(e) {
                seq![e]
            } else {
                Seq::empty()
            });
            assert(seq![e].filter(|e: FolderEntry| is_skipped_entry(e)) =~= if is_skipped_entry(
                e,
            ) {
                seq![e]
            } else {
                Seq::empty()
            });
            assert(seq![e].filter(|e: FolderEntry| is_failed_entry(e)) =~= if is_failed_entry(e) {
                seq![e]
            } else {
                Seq::empty()
            });
            broadcast use vstd::seq_lib::group_filter_ensures;
        }
        let ghost old_jobs = jobs@.map_values(|j: NumberedSortJob| job_view(j));
        let ghost old_failures = failures@.map_values(|f: NumberedSortResult| result_view(f));
        let entry = &entries[i];
        assert(*entry == e);
        match entry {
            FolderEntry::Unreadable { error } => {
                let message = concat("Failed to read folder entry: ", error.as_str());
                failures.push(NumberedSortResult::failed(source_dir.clone(), None, None, message));
                assert(failures@.map_values(|f: NumberedSortResult| result_view(f))
                    =~= old_failures.push(entry_failure_view(e, *source_dir)));
            },
            FolderEntry::UnknownType { path, error } => {
                let message = concat("Failed to inspect file type: ", error.as_str());
                failures.push(NumberedSortResult::failed(path.clone(), None, None, message));
                assert(failures@.map_values(|f: NumberedSortResult| result_view(f))
                    =~= old_failures.push(entry_failure_view(e, *source_dir)));
            },
            FolderEntry::Listed { path, is_file, stem } => {
                let mut planned: Option<NumberedSortJob> = None;
                if *is_file {
                    if let Some(stem) = stem {
                        if let Some(number) = parse_number_folder_name(stem.as_str()) {
                            if let Some(file_name) = file_name_of(path) {
                                let folder = join_str(source_dir, number.as_str());
                                let destination = join_path(&folder, &file_name);
                                planned = Some(
                                    NumberedSortJob { source: path.clone(), number, destination },
                                );
                            }
                        }
                    }
                }
                assert(planned is Some <==> is_job_entry(e));
                match planned {
                    Some(job) => {
                        jobs.push(job);
                        assert(jobs@.map_values(|j: NumberedSortJob| job_view(j))
                            =~= old_jobs.push(entry_job_view(e, *source_dir)));
                    },
                    None => {
                        skipped = skipped + 1;
                    },
                }
            },
        }
        i = i + 1;
    }
    proof {
        assert(entries@.take(entries@.len() as int) =~= entries@);
    }
    (jobs, skipped, failures)
}


/// Some string of `numbers` reads `n`.
pub open spec fn lists_number(numbers: Seq<String>, n: Seq<char>) -> bool {
    exists|k: int| 0 <= k < numbers.len() && #[trigger] numbers[k]@ == n
}

/// Some job among `jobs` is filed under `n`.
pub open spec fn has_job_numbered(jobs: Seq<NumberedSortJob>, n: Seq<char>) -> bool {
    exists|a: int| 0 <= a < jobs.len() && #[trigger] jobs[a].number@ == n
}

/// The numbers whose folders a set of jobs needs, each once.
///
/// Every job's destination lies directly in the folder named by its
/// number, so these are exactly the destination folders to create.
pub fn destination_folder_numbers(jobs: &Vec<NumberedSortJob>) -> (numbers: Vec<String>)
    ensures
        distinct(numbers@),
        forall|a: int| 0 <= a < jobs@.len() ==> lists_number(numbers@, #[trigger] jobs@[a].number@),
        forall|k: int|
            0 <= k < numbers@.len() ==> has_job_numbered(jobs@, #[trigger] numbers@[k]@),
{
    let mut numbers: Vec<String> = Vec::new();
    let mut i: usize = 0;
    while i < jobs.len()
        invariant
            i <= jobs@.len(),
            distinct(numbers@),
            forall|a: int| 0 <= a < i ==> lists_number(numbers@, #[trigger] jobs@[a].number@),
            forall|k: int|
                0 <= k < numbers@.len() ==> has_job_numbered(
                    jobs@.take(i as int),
                    #[trigger] numbers@[k]@,
                ),
        decreases jobs@.len() - i,
    {
        let number = &jobs[i].number;
        let mut found = false;
        let mut k: usize = 0;
        while k < numbers.len()
            invariant
                k <= numbers@.len(),
                found <==> exists|m: int| 0 <= m < k && #[trigger] numbers@[m]@ == number@,
            decreases numbers@.len() - k,
        {
            if numbers[k] == *number {
                found = true;
            }
            k = k + 1;
        }
        let ghost before = numbers@;
        let ghost prefix = jobs@.take(i as int);
        let ghost next = jobs@.take(i + 1);
        proof {
            assert forall|n: Seq<char>| has_job_numbered(prefix, n) implies has_job_numbered(
                next,
                n,
            ) by {
                let a = choose|a: int| 0 <= a < prefix.len() && #[trigger] prefix[a].number@ == n;
                assert(next[a] == prefix[a]);
            }
            assert(next[i as int] == jobs@[i as int]);
            assert(has_job_numbered(next, number@));
        }
        if !found {
            numbers.push(number.clone());
            proof {
                assert forall|a: int, b: int|
                    0 <= a < b < numbers@.len() implies #[trigger] numbers@[a]@
                    != #[trigger] numbers@[b]@ by {
                    assert(numbers@[a] == before[a]);
                    if b < before.len() {
                        assert(numbers@[b] == before[b]);
                    }
                }
                assert(numbers@[before.len() as int]@ == number@);
            }
        }
        proof {
            assert forall|n: Seq<char>| lists_number(before, n) implies lists_number(numbers@, n) by {
                let m = choose|m: int| 0 <= m < before.len() && #[trigger] before[m]@ == n;
                assert(numbers@[m] == before[m]);
            }
            if !found {
                assert(numbers@[before.len() as int]@ == number@);
            }
            assert(lists_number(numbers@, jobs@[i as int].number@));
            assert forall|m: int| 0 <= m < numbers@.len() implies has_job_numbered(
                next,
                #[trigger] numbers@[m]@,
            ) by {
                if m < before.len() {
                    assert(numbers@[m] == before[m]);
                    assert(has_job_numbered(prefix, before[m]@));
                }
            }
        }
        i = i + 1;
    }
    proof {
        assert(jobs@.take(jobs@.len() as int) =~= jobs@);
    }
    numbers
}

/// The outcome of a sort run whose folder could not be listed: no file is
/// discovered and the run counts one failure, the folder itself, with the
/// message `Failed to read folder <folder>: <error>`.
pub fn unreadable_folder_outcome(source_dir: PathBuf, error: &str) -> (r: (
    NumberedSortSummary,
    Vec<NumberedSortResult>,
))
    ensures
        r.0.discovered == 0,
        r.0.sorted == 0,
        r.0.failed == 1,
        r.0.skipped == 0,
        r.0.folders_created == 0,
        r.1@.len() == 1,
        r.1@[0].source == source_dir,
        r.1@[0].destination is None,
        r.1@[0].number is None,
        !r.1@[0].success,
        r.1@[0].error matches Some(m) && m@ == "Failed to read folder "@ + path_display(source_dir)
            + ": "@ + error@,
{
    let summary = NumberedSortSummary {
        discovered: 0,
        sorted: 0,
        failed: 1,
        skipped: 0,
        folders_created: 0,
    };
    let shown = display_path(&source_dir);
    let mut message = concat("Failed to read folder ", shown.as_str());
    message = concat(message.as_str(), ": ");
    message = concat(message.as_str(), error);
    let mut results: Vec<NumberedSortResult> = Vec::new();
    results.push(NumberedSortResult::failed(source_dir, None, None, message));
    (summary, results)
}

/// The folder of the files numbered `number`: `source_dir/number`.
pub fn number_folder_path(source_dir: &PathBuf, number: &String) -> (folder: PathBuf)
    ensures
        folder == path_joined_str(*source_dir, number@),
{
    join_str(source_dir, number.as_str())
}

/// The failure recorded when the folder of `number` could not be created.
pub fn folder_creation_failed(source_dir: &PathBuf, number: &String, error: &str) -> (r:
    NumberedSortResult)
    ensures
        r.source == path_joined_str(*source_dir, number@),
        r.destination is None,
        r.number == Some(*number),
        !r.success,
        r.error matches Some(m) && m@ == "Failed to create destination folder "@ + path_display(
            path_joined_str(*source_dir, number@),
        ) + ": "@ + error@,
{
    let folder = join_str(source_dir, number.as_str());
    let shown = display_path(&folder);
    let mut message = concat("Failed to create destination folder ", shown.as_str());
    message = concat(message.as_str(), ": ");
    message = concat(message.as_str(), error);
    NumberedSortResult::failed(folder, None, Some(number.clone()), message)
}

/// The result of a job whose destination already exists: it fails, and
/// nothing is moved or copied.
pub fn destination_taken(job: &NumberedSortJob) -> (r: NumberedSortResult)
    ensures
        r.source == job.source,
        r.destination == Some(job.destination),
        r.number == Some(job.number),
        !r.success,
        r.error matches Some(m) && m@ == "Destination already exists: "@ + path_display(
            job.destination,
        ),
{
    let shown = display_path(&job.destination);
    let message = concat("Destination already exists: ", shown.as_str());
    NumberedSortResult::failed(
        job.source.clone(),
        Some(job.destination.clone()),
        Some(job.number.clone()),
        message,
    )
}

/// The result of a job once its file was moved or copied (`Ok`), or the
/// move or copy failed with `error`: `Failed to <move|copy> <source> to
/// <destination>: <error>`.
pub fn sorted_file_result(
    job: &NumberedSortJob,
    mode: NumberedSortMode,
    outcome: Result<(), String>,
) -> (r: NumberedSortResult)
    ensures
        r.source == job.source,
        r.destination == Some(job.destination),
        r.number == Some(job.number),
        r.success == outcome is Ok,
        match outcome {
            Ok(()) => r.error is None,
            Err(e) => r.error matches Some(m) && m@ == "Failed to "@ + match mode {
                NumberedSortMode::Move => "move"@,
                NumberedSortMode::Copy => "copy"@,
            } + " "@ + path_display(job.source) + " to "@ + path_display(job.destination) + ": "@
                + e@,
        },
{
    match outcome {
        Ok(()) => NumberedSortResult::success(job),
        Err(e) => {
            let verb = mode.verb();
            let source = display_path(&job.source);
            let destination = display_path(&job.destination);
            let mut message = concat("Failed to ", verb.as_str());
            message = concat(message.as_str(), " ");
            message = concat(message.as_str(), source.as_str());
            message = concat(message.as_str(), " to ");
            message = concat(message.as_str(), destination.as_str());
            message = concat(message.as_str(), ": ");
            message = concat(message.as_str(), e.as_str());
            NumberedSortResult::failed(
                job.source.clone(),
                Some(job.destination.clone()),
                Some(job.number.clone()),
                message,
            )
        },
    }
}

/// Sum up a sort run: the results of the jobs, followed by the failures
/// found while discovering files and creating folders, and the counters
/// over them. `sorted` counts the successful results and `failed` the rest.
pub fn summarize_sort(
    discovered: usize,
    skipped: usize,
    folders_created: usize,
    job_results: Vec<NumberedSortResult>,
    other_failures: Vec<NumberedSortResult>,
) -> (r: (NumberedSortSummary, Vec<NumberedSortResult>))
    requires
        job_results@.len() + other_failures@.len() <= usize::MAX,
    ensures
        r.1@ == job_results@ + other_failures@,
        r.0.discovered == discovered,
        r.0.sorted == count_successes(r.1@),
        r.0.failed == r.1@.len() - count_successes(r.1@),
        r.0.sorted == r.1@.filter(|x: NumberedSortResult| x.success).len(),
        r.0.failed == r.1@.filter(|x: NumberedSortResult| !x.success).len(),
        r.0.skipped == skipped,
        r.0.folders_created == folders_created,
{
    let mut results = job_results;
    let mut rest = other_failures;
    results.append(&mut rest);
    let mut sorted: usize = 0;
    let mut i: usize = 0;
    while i < results.len()
        invariant
            i <= results@.len(),
            sorted == count_successes(results@.take(i as int)),
            sorted <= i,
        decreases results@.len() - i,
    {
        proof {
            assert(results@.take(i + 1).drop_last() =~= results@.take(i as int));
        }
        if results[i].success {
            sorted = sorted + 1;
        }
        i = i + 1;
    }
    proof {
        assert(results@.take(results@.len() as int) =~= results@);
        law_sorted_counts_the_successes(results@);
    }
    let failed = results.len() - sorted;
    (NumberedSortSummary { discovered, sorted, failed, skipped, folders_created }, results)
}

/// Every entry of a folder is accounted for exactly once by the plan: it is
/// sorted, skipped, or recorded as a failure.
pub proof fn law_every_entry_accounted_for(entries: Seq<FolderEntry>)
    ensures
        entries.filter(|e: FolderEntry| is_job_entry(e)).len() + entries.filter(
            |e: FolderEntry| is_skipped_entry(e),
        ).len() + entries.filter(|e: FolderEntry| is_failed_entry(e)).len() == entries.len(),
    decreases entries.len(),
{
    reveal_with_fuel(Seq::filter, 1);
    if entries.len() > 0 {
        law_every_entry_accounted_for(entries.drop_last());
    }
}

/// A parsed folder name is a non-empty run of ASCII digits, and parsing it
/// again gives it back unchanged.
pub proof fn law_number_folder_name_is_stable(stem: Seq<char>)
    ensures
        number_folder_name(stem) matches Some(n) ==> {
            &&& n.len() > 0
            &&& forall|i: int| 0 <= i < n.len() ==> is_ascii_digit(#[trigger] n[i])
            &&& number_folder_name(n) == Some(n)
        },
{
    let t = trim_start(stem);
    let dp = |c: char| is_ascii_digit(c);
    let wp = |c: char| is_whitespace(c);
    lemma_leading_count(t, dp);
    if let Some(n) = number_folder_name(stem) {
        assert forall|i: int| 0 <= i < n.len() implies is_ascii_digit(#[trigger] n[i]) by {
            assert(n[i] == t[i]);
            assert(dp(t[i]));
        }
        assert(!is_whitespace(n[0]));
        lemma_leading_count_unique(n, wp, 0);
        assert(n.skip(0) =~= n);
        assert forall|i: int| 0 <= i < n.len() implies dp(#[trigger] n[i]) by {}
        lemma_leading_count_unique(n, dp, n.len() as int);
        assert(n.take(n.len() as int) =~= n);
    }
}

/// The run's counts split its results by their success flag: `sorted` is
/// the number of results that succeeded and `failed` the number that did
/// not.
pub proof fn law_sorted_counts_the_successes(rs: Seq<NumberedSortResult>)
    ensures
        count_successes(rs) == rs.filter(|r: NumberedSortResult| r.success).len(),
        rs.len() - count_successes(rs) == rs.filter(|r: NumberedSortResult| !r.success).len(),
    decreases rs.len(),
{
    reveal(Seq::filter);
    if rs.len() > 0 {
        law_sorted_counts_the_successes(rs.drop_last());
    }
}

} // verus!
