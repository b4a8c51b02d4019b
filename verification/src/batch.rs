//! Naming and reporting for batch conversion of images to JPEG or PDF.

use vstd::prelude::*;
use std::path::PathBuf;
use crate::text::{concat, decimal, decimal_string, owned};

verus! {

/// What format to export as.
#[derive(Debug, Clone, Copy, PartialEq, Eq, Structural)]
pub enum OutputFormat {
    Jpeg,
    Pdf,
}

/// Result of processing a single image.
pub struct ProcessResult {
    pub source: PathBuf,
    pub success: bool,
    pub error: Option<String>,
}

/// The file extension written for a format, with its dot.
pub open spec fn extension(format: OutputFormat) -> Seq<char> {
    match format {
        OutputFormat::Jpeg => ".jpg"@,
        OutputFormat::Pdf => ".pdf"@,
    }
}

/// The name of the output file for an image with file stem `stem`.
pub fn output_file_name(stem: &str, format: OutputFormat) -> (name: String)
    ensures
        name@ == stem@ + extension(format),
{
    match format {
        OutputFormat::Jpeg => concat(stem, ".jpg"),
        OutputFormat::Pdf => concat(stem, ".pdf"),
    }
}

/// The stem under which an image's output is named: its own file stem
/// where it has a UTF-8 one, else `image`.
pub fn stem_or_default(stem: Option<&str>) -> (s: String)
    ensures
        s@ == match stem {
            Some(t) => t@,
            None => "image"@,
        },
{
    match stem {
        Some(t) => owned(t),
        None => owned("image"),
    }
}

impl ProcessResult {
    /// An image that was converted and written.
    pub fn succeeded(source: PathBuf) -> (r: Self)
        ensures
            r.source == source,
            r.success,
            r.error is None,
    {
        ProcessResult { source, success: true, error: None }
    }

    /// An image that could not be loaded, converted or written.
    pub fn failed(source: PathBuf, error: String) -> (r: Self)
        ensures
            r.source == source,
            !r.success,
            r.error == Some(error),
    {
        ProcessResult { source, success: false, error: Some(error) }
    }
}


/// Number of results that report success.
pub open spec fn count_succeeded(rs: Seq<ProcessResult>) -> nat
    decreases rs.len(),
{
    if rs.len() == 0 {
        0
    } else {
        count_succeeded(rs.drop_last()) + if rs.last().success {
            1nat
        } else {
            0nat
        }
    }
}

/// Why a batch cannot start, if it cannot: no image is loaded, or no
/// output folder is chosen (checked in that order).
pub fn batch_start_error(image_count: usize, has_output_dir: bool) -> (r: Option<String>)
    ensures
        image_count == 0 ==> (r matches Some(m) && m@ == "No images loaded"@),
        image_count > 0 && !has_output_dir ==> (r matches Some(m) && m@
            == "Select an output folder first"@),
        image_count > 0 && has_output_dir ==> r is None,
{
    if image_count == 0 {
        Some(owned("No images loaded"))
    } else if !has_output_dir {
        Some(owned("Select an output folder first"))
    } else {
        None
    }
}

/// The status shown when a batch is done: how many images succeeded, how
/// many failed and how many there were.
pub fn batch_done_message(results: &Vec<ProcessResult>) -> (m: String)
    ensures
        m@ == "Done — "@ + decimal(count_succeeded(results@)) + " succeeded, "@ + decimal(
            (results@.len() - count_succeeded(results@)) as nat,
        ) + " failed out of "@ + decimal(results@.len()) + " total"@,
{
    let mut succeeded: usize = 0;
    let mut i: usize = 0;
    while i < results.len()
        invariant
            i <= results@.len(),
            succeeded == count_succeeded(results@.take(i as int)),
            succeeded <= i,
        decreases results@.len() - i,
    {
        proof {
            assert(results@.take(i + 1).drop_last() =~= results@.take(i as int));
        }
        if results[i].success {
            succeeded = succeeded + 1;
        }
        i = i + 1;
    }
    proof {
        assert(results@.take(results@.len() as int) =~= results@);
    }
    let failed = results.len() - succeeded;
    let mut m = concat("Done — ", decimal_string(succeeded).as_str());
    m = concat(m.as_str(), " succeeded, ");
    m = concat(m.as_str(), decimal_string(failed).as_str());
    m = concat(m.as_str(), " failed out of ");
    m = concat(m.as_str(), decimal_string(results.len()).as_str());
    m = concat(m.as_str(), " total");
    m
}

/// The images to preload next to the selected one: the one before and the
/// one after, where they exist.
pub fn adjacent_indices(selected: usize, count: usize) -> (r: Vec<usize>)
    requires
        selected < usize::MAX,
    ensures
        r@ == (if selected > 0 {
            seq![(selected - 1) as usize]
        } else {
            Seq::empty()
        }) + (if selected + 1 < count {
            seq![(selected + 1) as usize]
        } else {
            Seq::empty()
        }),
{
    let mut r: Vec<usize> = Vec::new();
    if selected > 0 {
        r.push(selected - 1);
    }
    if selected + 1 < count {
        r.push(selected + 1);
    }
    proof {
        assert(r@ =~= (if selected > 0 {
            seq![(selected - 1) as usize]
        } else {
            Seq::empty()
        }) + (if selected + 1 < count {
            seq![(selected + 1) as usize]
        } else {
            Seq::empty()
        }));
    }
    r
}


/// The positions of the failed results, in order.
pub open spec fn failed_positions(rs: Seq<ProcessResult>) -> Seq<int> {
    Seq::new(rs.len(), |i: int| i).filter(|i: int| !rs[i].success)
}

/// Filtering a prefix gives a prefix of the filtered sequence.
proof fn lemma_filter_of_prefix(s: Seq<int>, p: spec_fn(int) -> bool, i: int)
    requires
        0 <= i <= s.len(),
    ensures
        s.take(i).filter(p).len() <= s.filter(p).len(),
        s.filter(p).take(s.take(i).filter(p).len() as int) == s.take(i).filter(p),
{
    assert(s =~= s.take(i) + s.skip(i));
    Seq::filter_distributes_over_add(s.take(i), s.skip(i), p);
    assert((s.take(i).filter(p) + s.skip(i).filter(p)).take(s.take(i).filter(p).len() as int)
        =~= s.take(i).filter(p));
}

/// The positions of the first `limit` failed results, in order: the
/// failures listed under a finished batch.
pub fn first_failures(results: &Vec<ProcessResult>, limit: usize) -> (r: Vec<usize>)
    ensures
        r@.map_values(|i: usize| i as int) == failed_positions(results@).take(
            if failed_positions(results@).len() < limit {
                failed_positions(results@).len() as int
            } else {
                limit as int
            },
        ),
{
    let ghost all = Seq::new(results@.len(), |k: int| k);
    let ghost pred = |k: int| !results@[k].success;
    let mut r: Vec<usize> = Vec::new();
    let mut i: usize = 0;
    while i < results.len() && r.len() < limit
        invariant
            i <= results@.len(),
            r@.len() <= limit,
            all == Seq::new(results@.len(), |k: int| k),
            pred == (|k: int| !results@[k].success),
            r@.map_values(|k: usize| k as int) == all.take(i as int).filter(pred),
        decreases results@.len() - i,
    {
        proof {
            reveal_with_fuel(Seq::filter, 1);
            assert(all.take(i + 1).drop_last() =~= all.take(i as int));
            assert(all.take(i + 1).last() == i as int);
        }
        let ghost before = r@;
        if !results[i].success {
            r.push(i);
            assert(r@.map_values(|k: usize| k as int) =~= before.map_values(|k: usize| k as int).push(
                i as int,
            ));
        }
        i = i + 1;
    }
    proof {
        let f = failed_positions(results@);
        assert(f == all.filter(pred));
        lemma_filter_of_prefix(all, pred, i as int);
        if i == results@.len() {
            assert(all.take(i as int) =~= all);
            assert(f.take(f.len() as int) =~= f);
        }
    }
    r
}

} // verus!
