//! Picking a motorcycle number out of OCR detections, and locating the OCR
//! model files.
//!
//! The OCR engine itself runs outside the library; it hands back the text
//! of each detection with a confidence. The library keeps the digits of
//! each text, keeps texts with one to four digits, and picks the most
//! confident of those. Confidences are compared through `rank`: an integer
//! that orders detections exactly as the engine's confidences are ordered
//! by `f32::total_cmp`.

use vstd::prelude::*;
use crate::text::{char_is_ascii_digit, chars_of, concat, is_ascii_digit, owned, push_char};

verus! {

/// One OCR detection: its text, and the rank of its confidence.
pub struct RankedText {
    pub text: String,
    pub rank: i32,
}

/// The chosen number: its digits, and which detection they came from.
pub struct BestNumber {
    pub digits: String,
    pub index: usize,
}

/// A model file that OCR needs, and the file names it may have.
pub struct ModelFile {
    pub label: String,
    pub candidates: Vec<String>,
}

/// The ASCII digits of `text`, in order.
pub open spec fn digits_of(text: Seq<char>) -> Seq<char> {
    text.filter(|c: char| is_ascii_digit(c))
}

/// A text that may carry a motorcycle number: one to four digits.
pub open spec fn is_plausible_number(text: Seq<char>) -> bool {
    1 <= digits_of(text).len() <= 4
}

/// `list` joined by `sep` (as `[&str]::join` does).
pub open spec fn joined(list: Seq<Seq<char>>, sep: Seq<char>) -> Seq<char>
    decreases list.len(),
{
    if list.len() == 0 {
        Seq::empty()
    } else if list.len() == 1 {
        list[0]
    } else {
        joined(list.drop_last(), sep) + sep + list.last()
    }
}

/// The index of the first `true` in `flags`, if any.
pub open spec fn first_true(flags: Seq<bool>) -> Option<int>
    decreases flags.len(),
{
    if flags.len() == 0 {
        None
    } else if flags[0] {
        Some(0)
    } else {
        match first_true(flags.drop_first()) {
            Some(i) => Some(i + 1),
            None => None,
        }
    }
}

/// The message given when none of the file names of a model file exists
/// in `model_dir`.
pub open spec fn missing_model_message(
    model_dir: Seq<char>,
    label: Seq<char>,
    candidates: Seq<Seq<char>>,
) -> Seq<char> {
    "OCR disabled: missing "@ + label + " in "@ + model_dir + " (tried: "@ + joined(candidates, ", "@)
        + "). Set BIP_OCR_MODEL_DIR to your model folder."@
}

/// The file names of a model file, by their characters.
pub open spec fn candidate_names(f: ModelFile) -> Seq<Seq<char>> {
    f.candidates@.map_values(|c: String| c@)
}

/// Keep the ASCII digits of `text`.
pub fn digits_only(text: &str) -> (r: String)
    ensures
        r@ == digits_of(text@),
{
    let v = chars_of(text);
    let mut r = String::new();
    let mut i: usize = 0;
    while i < v.len()
        invariant
            i <= v@.len(),
            v@ == text@,
            r@ == v@.take(i as int).filter(|c: char| is_ascii_digit(c)),
        decreases v@.len() - i,
    {
        proof {
            assert(v@.take(i + 1).drop_last() =~= v@.take(i as int));
            reveal_with_fuel(Seq::filter, 1);
        }
        if char_is_ascii_digit(v[i]) {
            push_char(&mut r, v[i]);
        }
        i = i + 1;
    }
    proof {
        assert(v@.take(v@.len() as int) =~= v@);
    }
    r
}

/// Pick the most likely motorcycle number among OCR detections.
///
/// Only detections whose text holds one to four digits count; of those,
/// the one with the highest rank wins, and among equally ranked ones the
/// last. The result holds the winner's digits and its index. There is no
/// result when no detection counts.
pub fn best_number_candidate(detections: &Vec<RankedText>) -> (r: Option<BestNumber>)
    ensures
        r is None <==> forall|i: int|
            0 <= i < detections@.len() ==> !is_plausible_number(#[trigger] detections@[i].text@),
        r matches Some(best) ==> {
            &&& 0 <= best.index < detections@.len()
            &&& is_plausible_number(detections@[best.index as int].text@)
            &&& best.digits@ == digits_of(detections@[best.index as int].text@)
            &&& forall|j: int|
                0 <= j < detections@.len() && is_plausible_number(#[trigger] detections@[j].text@)
                    ==> detections@[j].rank <= detections@[best.index as int].rank
            &&& forall|j: int|
                best.index < j < detections@.len() && is_plausible_number(
                    #[trigger] detections@[j].text@,
                ) ==> detections@[j].rank < detections@[best.index as int].rank
        },
{
    let mut best: Option<BestNumber> = None;
    let mut i: usize = 0;
    while i < detections.len()
        invariant
            i <= detections@.len(),
            best is None <==> forall|k: int|
                0 <= k < i ==> !is_plausible_number(#[trigger] detections@[k].text@),
            best matches Some(b) ==> {
                &&& 0 <= b.index < i
                &&& is_plausible_number(detections@[b.index as int].text@)
                &&& b.digits@ == digits_of(detections@[b.index as int].text@)
                &&& forall|j: int|
                    0 <= j < i && is_plausible_number(#[trigger] detections@[j].text@)
                        ==> detections@[j].rank <= detections@[b.index as int].rank
                &&& forall|j: int|
                    b.index < j < i && is_plausible_number(#[trigger] detections@[j].text@)
                        ==> detections@[j].rank < detections@[b.index as int].rank
            },
        decreases detections@.len() - i,
    {
        let digits = digits_only(detections[i].text.as_str());
        let n = chars_of(digits.as_str()).len();
        if 1 <= n && n <= 4 {
            let rank = detections[i].rank;
            let replace = match &best {
                None => true,
                Some(b) => detections[b.index].rank <= rank,
            };
            if replace {
                best = Some(BestNumber { digits, index: i });
            }
        }
        i = i + 1;
    }
    best
}

/// Whether the OCR engine slot holds a working engine: the slot has been
/// initialised, and its initialisation produced an engine.
pub fn is_ocr_available<E>(engine_slot: Option<&Option<E>>) -> (available: bool)
    ensures
        available == (engine_slot matches Some(engine) && engine is Some),
{
    match engine_slot {
        Some(engine) => engine.is_some(),
        None => false,
    }
}


/// `first_true` is the first index holding `true`.
pub proof fn lemma_first_true(flags: Seq<bool>, i: int)
    requires
        0 <= i <= flags.len(),
        forall|k: int| 0 <= k < i ==> !flags[k],
    ensures
        i < flags.len() && flags[i] ==> first_true(flags) == Some(i),
        i == flags.len() ==> first_true(flags) is None,
    decreases i,
{
    if i > 0 {
        let t = flags.drop_first();
        assert forall|k: int| 0 <= k < i - 1 implies !t[k] by {
            assert(t[k] == flags[k + 1]);
        }
        lemma_first_true(t, i - 1);
        if i < flags.len() {
            assert(t[i - 1] == flags[i]);
        }
    }
}

/// The model files that OCR needs, in the order detection model,
/// recognition model, text-line orientation model, document orientation
/// model, dictionary; each with the file names it may have, in order of
/// preference.
pub fn model_files() -> (files: Vec<ModelFile>)
    ensures
        files@.len() == 5,
        files@[0].label@ == "detection model"@,
        candidate_names(files@[0]) == seq!["det.onnx"@],
        files@[1].label@ == "recognition model"@,
        candidate_names(files@[1]) == seq!["rec.onnx"@],
        files@[2].label@ == "text-line orientation model"@,
        candidate_names(files@[2]) == seq![
            "PP-LCNet_x0_25_textline_ori.onnx"@,
            "textline_ori.onnx"@,
            "text_line_ori.onnx"@,
        ],
        files@[3].label@ == "document orientation model"@,
        candidate_names(files@[3]) == seq!["PP-LCNet_x1_0_doc_ori.onnx"@, "doc_ori.onnx"@],
        files@[4].label@ == "OCR dictionary"@,
        candidate_names(files@[4]) == seq!["ppocrv5_dict.txt"@, "dict.txt"@],
{
    let mut det = Vec::new();
    det.push(owned("det.onnx"));
    let mut rec = Vec::new();
    rec.push(owned("rec.onnx"));
    let mut line = Vec::new();
    line.push(owned("PP-LCNet_x0_25_textline_ori.onnx"));
    line.push(owned("textline_ori.onnx"));
    line.push(owned("text_line_ori.onnx"));
    let mut doc = Vec::new();
    doc.push(owned("PP-LCNet_x1_0_doc_ori.onnx"));
    doc.push(owned("doc_ori.onnx"));
    let mut dict = Vec::new();
    dict.push(owned("ppocrv5_dict.txt"));
    dict.push(owned("dict.txt"));
    let mut files = Vec::new();
    files.push(ModelFile { label: owned("detection model"), candidates: det });
    files.push(ModelFile { label: owned("recognition model"), candidates: rec });
    files.push(ModelFile { label: owned("text-line orientation model"), candidates: line });
    files.push(ModelFile { label: owned("document orientation model"), candidates: doc });
    files.push(ModelFile { label: owned("OCR dictionary"), candidates: dict });
    proof {
        assert(candidate_names(files@[0]) =~= seq!["det.onnx"@]);
        assert(candidate_names(files@[1]) =~= seq!["rec.onnx"@]);
        assert(candidate_names(files@[2]) =~= seq![
            "PP-LCNet_x0_25_textline_ori.onnx"@,
            "textline_ori.onnx"@,
            "text_line_ori.onnx"@,
        ]);
        assert(candidate_names(files@[3]) =~= seq!["PP-LCNet_x1_0_doc_ori.onnx"@, "doc_ori.onnx"@]);
        assert(candidate_names(files@[4]) =~= seq!["ppocrv5_dict.txt"@, "dict.txt"@]);
    }
    files
}

/// `list` joined by `sep`.
pub fn join_strings(list: &Vec<String>, sep: &str) -> (r: String)
    ensures
        r@ == joined(list@.map_values(|c: String| c@), sep@),
{
    let ghost names = list@.map_values(|c: String| c@);
    let mut r = String::new();
    let mut i: usize = 0;
    while i < list.len()
        invariant
            i <= list@.len(),
            names == list@.map_values(|c: String| c@),
            r@ == joined(names.take(i as int), sep@),
        decreases list@.len() - i,
    {
        proof {
            assert(names.take(i + 1).drop_last() =~= names.take(i as int));
            assert(names.take(i + 1).last() == list@[i as int]@);
            if i == 0 {
                assert(names.take(0) =~= Seq::<Seq<char>>::empty());
                assert(names.take(1) =~= seq![list@[0]@]);
            }
        }
        if i == 0 {
            r = concat(r.as_str(), list[i].as_str());
        } else {
            r = concat(r.as_str(), sep);
            r = concat(r.as_str(), list[i].as_str());
        }
        i = i + 1;
    }
    proof {
        assert(names.take(list@.len() as int) =~= names);
    }
    r
}

/// Find which file name of `file` exists in the model folder.
///
/// `present[i]` tells whether `candidates[i]` exists in `model_dir`; the
/// first that exists is chosen. Where none does, the error names the file,
/// the folder and every name tried.
pub fn find_existing(model_dir: &str, file: &ModelFile, present: &Vec<bool>) -> (r: Result<
    usize,
    String,
>)
    requires
        present@.len() == file.candidates@.len(),
    ensures
        match first_true(present@) {
            Some(i) => r == Ok::<usize, String>(i as usize),
            None => r matches Err(m) && m@ == missing_model_message(
                model_dir@,
                file.label@,
                candidate_names(*file),
            ),
        },
{
    let mut i: usize = 0;
    while i < present.len()
        invariant
            i <= present@.len(),
            forall|k: int| 0 <= k < i ==> !present@[k],
        decreases present@.len() - i,
    {
        if present[i] {
            proof {
                lemma_first_true(present@, i as int);
            }
            return Ok(i);
        }
        i = i + 1;
    }
    proof {
        lemma_first_true(present@, i as int);
    }
    let tried = join_strings(&file.candidates, ", ");
    let mut m = concat("OCR disabled: missing ", file.label.as_str());
    m = concat(m.as_str(), " in ");
    m = concat(m.as_str(), model_dir);
    m = concat(m.as_str(), " (tried: ");
    m = concat(m.as_str(), tried.as_str());
    m = concat(m.as_str(), "). Set BIP_OCR_MODEL_DIR to your model folder.");
    Err(m)
}

/// Choose the file name of every model file, given which names exist in
/// the model folder (`present[g][i]` for `files[g].candidates[i]`).
///
/// Succeeds with the chosen name of each file, in order, when every file
/// has an existing name; otherwise fails with the message of the first
/// file that has none.
pub fn resolve_model_paths(model_dir: &str, files: &Vec<ModelFile>, present: &Vec<Vec<bool>>) -> (r:
    Result<Vec<String>, String>)
    requires
        present@.len() == files@.len(),
        forall|g: int|
            0 <= g < files@.len() ==> #[trigger] present@[g]@.len()
                == files@[g].candidates@.len(),
    ensures
        r is Ok <==> forall|g: int|
            0 <= g < files@.len() ==> #[trigger] first_true(present@[g]@) is Some,
        r matches Ok(names) ==> {
            &&& names@.len() == files@.len()
            &&& forall|g: int|
                0 <= g < files@.len() ==> #[trigger] names@[g]@ == candidate_names(
                    files@[g],
                )[first_true(present@[g]@)->0]
        },
        r matches Err(m) ==> exists|g: int|
            {
                &&& 0 <= g < files@.len()
                &&& #[trigger] first_true(present@[g]@) is None
                &&& forall|h: int| 0 <= h < g ==> first_true(present@[h]@) is Some
                &&& m@ == missing_model_message(
                    model_dir@,
                    files@[g].label@,
                    candidate_names(files@[g]),
                )
            },
{
    let mut names: Vec<String> = Vec::new();
    let mut g: usize = 0;
    while g < files.len()
        invariant
            g <= files@.len(),
            present@.len() == files@.len(),
            forall|h: int|
                0 <= h < files@.len() ==> #[trigger] present@[h]@.len()
                    == files@[h].candidates@.len(),
            names@.len() == g,
            forall|h: int| 0 <= h < g ==> #[trigger] first_true(present@[h]@) is Some,
            forall|h: int|
                0 <= h < g ==> #[trigger] names@[h]@ == candidate_names(
                    files@[h],
                )[first_true(present@[h]@)->0],
        decreases files@.len() - g,
    {
        let flags = &present[g];
        let file = &files[g];
        assert(*flags == present@[g as int]);
        assert(*file == files@[g as int]);
        let flags_len = flags.len();
        let found = find_existing(model_dir, file, flags);
        match found {
            Ok(i) => {
                proof {
                    lemma_first_true_in_range(flags@);
                    assert(first_true(flags@)->0 < flags_len);
                }
                let name = files[g].candidates[i].clone();
                let ghost before = names@;
                names.push(name);
                proof {
                    assert(names@[g as int]@ == candidate_names(files@[g as int])[i as int]);
                    assert forall|h: int| 0 <= h < g + 1 implies #[trigger] names@[h]@
                        == candidate_names(files@[h])[first_true(present@[h]@)->0] by {
                        if h < g {
                            assert(names@[h] == before[h]);
                        }
                    }
                }
            },
            Err(m) => {
                return Err(m);
            },
        }
        g = g + 1;
    }
    Ok(names)
}

/// `first_true` points into the flags.
pub proof fn lemma_first_true_in_range(flags: Seq<bool>)
    ensures
        first_true(flags) matches Some(i) ==> 0 <= i < flags.len() && flags[i],
    decreases flags.len(),
{
    if flags.len() > 0 && !flags[0] {
        lemma_first_true_in_range(flags.drop_first());
    }
}

/// A text counts as a number exactly when it holds one to four ASCII
/// digits, whatever else it holds.
pub proof fn law_plausible_numbers_have_one_to_four_digits(text: Seq<char>)
    ensures
        is_plausible_number(text) <==> 1 <= text.filter(|c: char| '0' <= c <= '9').len() <= 4,
{
    assert(text.filter(|c: char| is_ascii_digit(c)) =~= text.filter(|c: char| '0' <= c <= '9'))
        by {
        assert((|c: char| is_ascii_digit(c)) =~= (|c: char| '0' <= c <= '9'));
    }
}

} // verus!
