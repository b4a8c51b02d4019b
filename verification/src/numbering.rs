//! State of the numbering workflow: one photo at a time is shown, the user
//! types the number seen on it, and the photo is moved into the folder of
//! that number; moves can be undone.
//!
//! Moving files is the caller's work. Each step that touches the disk is
//! split in two: the state says what to move (`plan_confirm`,
//! `take_undo`), the caller moves it, and the state takes the outcome
//! (`confirm_number`, `undo`).

use vstd::prelude::*;
use std::path::PathBuf;
use crate::paths::{file_name_of, join_path, join_str, path_file_name, path_joined, path_joined_str};
use crate::text::{concat, decimal, decimal_string, owned, trim, trimmed};

verus! {

/// Represents a completed file move operation for undo support.
pub struct MoveOperation {
    pub original_path: PathBuf,
    pub new_path: PathBuf,
    pub number: String,
}

/// A move, with the number by its characters.
pub struct MoveView {
    pub original_path: PathBuf,
    pub new_path: PathBuf,
    pub number: Seq<char>,
}

impl View for MoveOperation {
    type V = MoveView;

    open spec fn view(&self) -> MoveView {
        MoveView {
            original_path: self.original_path,
            new_path: self.new_path,
            number: self.number@,
        }
    }
}

/// How much trust an OCR suggestion deserves.
#[derive(Clone, Copy, Debug, PartialEq, Eq, Structural)]
pub enum ConfidenceLevel {
    High,
    Medium,
    Low,
}

/// What confirming the typed number asks the caller to do: move
/// `current_path` into the folder `number` under `source_folder`.
pub struct ConfirmRequest {
    pub number: String,
    pub source_folder: PathBuf,
    pub current_path: PathBuf,
}

/// A confirm request, with the number by its characters.
pub struct ConfirmRequestView {
    pub number: Seq<char>,
    pub source_folder: PathBuf,
    pub current_path: PathBuf,
}

impl ConfirmRequestView {
    /// The folder the image goes into: `source_folder/number`.
    pub open spec fn number_folder(self) -> PathBuf {
        path_joined_str(self.source_folder, self.number)
    }

    /// Where the image goes: `source_folder/number/file name`, or an error
    /// where its path has no file name.
    pub open spec fn move_target(self) -> Result<PathBuf, Seq<char>> {
        match path_file_name(self.current_path) {
            Some(name) => Ok(path_joined(self.number_folder(), name)),
            None => Err("Invalid filename"@),
        }
    }
}

impl ConfirmRequest {
    /// The folder the image goes into: `source_folder/number`.
    pub fn number_folder(&self) -> (folder: PathBuf)
        ensures
            folder == self@.number_folder(),
    {
        join_str(&self.source_folder, self.number.as_str())
    }

    /// Where the image goes: `source_folder/number/file name`.
    pub fn move_target(&self) -> (r: Result<PathBuf, String>)
        ensures
            match r {
                Ok(t) => self@.move_target() == Ok::<PathBuf, Seq<char>>(t),
                Err(m) => self@.move_target() == Err::<PathBuf, Seq<char>>(m@),
            },
    {
        match file_name_of(&self.current_path) {
            Some(name) => {
                let folder = self.number_folder();
                Ok(join_path(&folder, &name))
            },
            None => Err(owned("Invalid filename")),
        }
    }
}

impl View for ConfirmRequest {
    type V = ConfirmRequestView;

    open spec fn view(&self) -> ConfirmRequestView {
        ConfirmRequestView {
            number: self.number@,
            source_folder: self.source_folder,
            current_path: self.current_path,
        }
    }
}

/// State for the numbering mode.
pub struct NumberingState {
    /// Source folder path
    pub source_folder: Option<PathBuf>,
    /// All image paths in the folder that are still to be numbered
    pub image_paths: Vec<PathBuf>,
    /// Current image index
    pub current_index: usize,
    /// Number input buffer (what the user is typing)
    pub input_buffer: String,
    /// Undo stack
    pub undo_stack: Vec<MoveOperation>,
    /// The number suggested by OCR for the current image, if any
    pub ocr_suggestion: Option<String>,
    /// Whether OCR is currently running
    pub ocr_running: bool,
    /// Status message
    pub status_message: String,
}

/// The numbering state, every string by its characters.
pub struct NumberingView {
    pub source_folder: Option<PathBuf>,
    pub image_paths: Seq<PathBuf>,
    pub current_index: int,
    pub input_buffer: Seq<char>,
    pub undo_stack: Seq<MoveView>,
    pub ocr_suggestion: Option<Seq<char>>,
    pub ocr_running: bool,
    pub status_message: Seq<char>,
}

impl View for NumberingState {
    type V = NumberingView;

    open spec fn view(&self) -> NumberingView {
        NumberingView {
            source_folder: self.source_folder,
            image_paths: self.image_paths@,
            current_index: self.current_index as int,
            input_buffer: self.input_buffer@,
            undo_stack: self.undo_stack@.map_values(|m: MoveOperation| m@),
            ocr_suggestion: match self.ocr_suggestion {
                Some(s) => Some(s@),
                None => None,
            },
            ocr_running: self.ocr_running,
            status_message: self.status_message@,
        }
    }
}

impl NumberingView {
    /// The state before any folder is opened.
    pub open spec fn initial() -> NumberingView {
        NumberingView {
            source_folder: None,
            image_paths: Seq::empty(),
            current_index: 0,
            input_buffer: Seq::empty(),
            undo_stack: Seq::empty(),
            ocr_suggestion: None,
            ocr_running: false,
            status_message: "Open a folder to begin numbering"@,
        }
    }

    /// The current index points at an image, or is 0 when none is left.
    pub open spec fn index_in_bounds(self) -> bool {
        ||| 0 <= self.current_index < self.image_paths.len()
        ||| self.current_index == 0 && self.image_paths.len() == 0
    }

    /// The image being numbered, if any.
    pub open spec fn current_image(self) -> Option<PathBuf> {
        if 0 <= self.current_index < self.image_paths.len() {
            Some(self.image_paths[self.current_index])
        } else {
            None
        }
    }

    /// A new folder of images was opened.
    pub open spec fn with_folder(self, folder: PathBuf, images: Seq<PathBuf>) -> NumberingView {
        NumberingView {
            source_folder: Some(folder),
            image_paths: images,
            current_index: 0,
            undo_stack: Seq::empty(),
            input_buffer: Seq::empty(),
            status_message: "Loaded "@ + decimal(images.len()) + " images"@,
            ..self
        }
    }

    /// Skipping ahead to the next image, where there is one.
    pub open spec fn moved_to_next(self) -> NumberingView {
        if self.current_index + 1 < self.image_paths.len() {
            NumberingView {
                current_index: self.current_index + 1,
                input_buffer: Seq::empty(),
                ocr_suggestion: None,
                ..self
            }
        } else {
            self
        }
    }

    /// Going back to the previous image, where there is one.
    pub open spec fn moved_to_prev(self) -> NumberingView {
        if self.current_index > 0 {
            NumberingView {
                current_index: self.current_index - 1,
                input_buffer: Seq::empty(),
                ocr_suggestion: None,
                ..self
            }
        } else {
            self
        }
    }

    /// What confirming the typed number asks for: the typed text without
    /// surrounding whitespace must be non-empty, a folder must be open and
    /// an image must be current.
    pub open spec fn confirm_request(self) -> Result<ConfirmRequestView, Seq<char>> {
        let number = trim(self.input_buffer);
        if number.len() == 0 {
            Err("Please enter a number"@)
        } else if self.source_folder is None {
            Err("No folder selected"@)
        } else if self.current_image() is None {
            Err("No image selected"@)
        } else {
            Ok(
                ConfirmRequestView {
                    number,
                    source_folder: self.source_folder->0,
                    current_path: self.current_image()->0,
                },
            )
        }
    }

    /// The current image was moved as `op` records: it leaves the list, the
    /// move is pushed for undo, the index stays (or steps back from the
    /// end), the input and the suggestion are cleared.
    pub open spec fn after_move(self, op: MoveView) -> NumberingView {
        let images = self.image_paths.remove(self.current_index);
        let index = if self.current_index >= images.len() && self.current_index > 0 {
            self.current_index - 1
        } else {
            self.current_index
        };
        NumberingView {
            image_paths: images,
            current_index: index,
            undo_stack: self.undo_stack.push(op),
            input_buffer: Seq::empty(),
            ocr_suggestion: None,
            status_message: if images.len() == 0 {
                "All images processed!"@
            } else {
                "Moved to "@ + op.number + "/. "@ + decimal(images.len()) + " remaining"@
            },
            ..self
        }
    }

    /// The last move was taken off the undo stack.
    pub open spec fn undo_taken(self) -> NumberingView {
        NumberingView { undo_stack: self.undo_stack.drop_last(), ..self }
    }

    /// The file of `op` was moved back: it rejoins the list at the current
    /// position.
    pub open spec fn after_undo(self, op: MoveView) -> NumberingView {
        NumberingView {
            image_paths: self.image_paths.insert(self.current_index, op.original_path),
            status_message: "Undid move of "@ + op.number,
            ..self
        }
    }

    /// The OCR suggestion, if any, became the typed input.
    pub open spec fn with_suggestion_accepted(self) -> NumberingView {
        match self.ocr_suggestion {
            Some(s) => NumberingView { input_buffer: s, ..self },
            None => self,
        }
    }

    /// Showing the current image began: OCR runs for it if OCR is enabled,
    /// and any earlier suggestion is gone; with no current image, OCR is
    /// not running.
    pub open spec fn loading_started(self, ocr_enabled: bool) -> NumberingView {
        if self.current_image() is Some {
            NumberingView { ocr_running: ocr_enabled, ocr_suggestion: None, ..self }
        } else {
            NumberingView { ocr_running: false, ..self }
        }
    }

    /// Images numbered so far.
    pub open spec fn done(self) -> int {
        self.undo_stack.len() as int
    }

    /// Images numbered so far plus images still to number.
    pub open spec fn total(self) -> int {
        (self.image_paths.len() + self.undo_stack.len()) as int
    }
}

impl NumberingState {
    pub fn new() -> (s: Self)
        ensures
            s@ == NumberingView::initial(),
    {
        let s = NumberingState {
            source_folder: None,
            image_paths: Vec::new(),
            current_index: 0,
            input_buffer: String::new(),
            undo_stack: Vec::new(),
            ocr_suggestion: None,
            ocr_running: false,
            status_message: owned("Open a folder to begin numbering"),
        };
        assert(s@.undo_stack =~= Seq::<MoveView>::empty());
        s
    }

    /// Get the current image path, if any.
    pub fn current_image(&self) -> (r: Option<&PathBuf>)
        ensures
            match r {
                Some(p) => self@.current_image() == Some(*p),
                None => self@.current_image() is None,
            },
    {
        if self.current_index < self.image_paths.len() {
            Some(&self.image_paths[self.current_index])
        } else {
            None
        }
    }

    /// Start numbering the images of a newly opened folder.
    pub fn load_folder(&mut self, folder: PathBuf, images: Vec<PathBuf>)
        ensures
            final(self)@ == old(self)@.with_folder(folder, images@),
    {
        let count = decimal_string(images.len());
        let mut message = concat("Loaded ", count.as_str());
        message = concat(message.as_str(), " images");
        self.source_folder = Some(folder);
        self.image_paths = images;
        self.current_index = 0;
        self.undo_stack = Vec::new();
        self.input_buffer = String::new();
        self.status_message = message;
        proof {
            assert(self@.undo_stack =~= Seq::<MoveView>::empty());
        }
    }

    /// Move to the next image (without saving).
    pub fn next_image(&mut self)
        ensures
            final(self)@ == old(self)@.moved_to_next(),
    {
        if self.current_index < self.image_paths.len() && self.current_index + 1
            < self.image_paths.len() {
            self.current_index = self.current_index + 1;
            self.input_buffer = String::new();
            self.ocr_suggestion = None;
        }
    }

    /// Move to the previous image (without saving).
    pub fn prev_image(&mut self)
        ensures
            final(self)@ == old(self)@.moved_to_prev(),
    {
        if self.current_index > 0 {
            self.current_index = self.current_index - 1;
            self.input_buffer = String::new();
            self.ocr_suggestion = None;
        }
    }

    /// Check the typed number and say which file to move where.
    ///
    /// Errors, in this order: nothing typed (apart from whitespace), no
    /// folder open, no image current.
    pub fn plan_confirm(&self) -> (r: Result<ConfirmRequest, String>)
        ensures
            match r {
                Ok(req) => self@.confirm_request() == Ok::<ConfirmRequestView, Seq<char>>(req@),
                Err(m) => self@.confirm_request() == Err::<ConfirmRequestView, Seq<char>>(m@),
            },
    {
        let number = trimmed(self.input_buffer.as_str());
        if number.as_str().is_empty() {
            return Err(owned("Please enter a number"));
        }
        let source_folder = match &self.source_folder {
            Some(folder) => folder.clone(),
            None => {
                return Err(owned("No folder selected"));
            },
        };
        let current_path = match self.current_image() {
            Some(path) => path.clone(),
            None => {
                return Err(owned("No image selected"));
            },
        };
        Ok(ConfirmRequest { number, source_folder, current_path })
    }

    /// Take the outcome of moving the current image as `request` (planned
    /// for this very state by `plan_confirm`) asked.
    ///
    /// If the move failed, its error is returned and nothing changes. If it
    /// succeeded, the move to the request's target is recorded for undo,
    /// the image leaves the list and the next one becomes current.
    pub fn confirm_number(&mut self, request: ConfirmRequest, moved: Result<(), String>) -> (r:
        Result<(), String>)
        requires
            old(self)@.confirm_request() == Ok::<ConfirmRequestView, Seq<char>>(request@),
        ensures
            match moved {
                Err(e) => r == Err::<(), String>(e) && final(self)@ == old(self)@,
                Ok(()) => match request@.move_target() {
                    Ok(new_path) => {
                        &&& r is Ok
                        &&& final(self)@ == old(self)@.after_move(
                            MoveView {
                                original_path: request.current_path,
                                new_path,
                                number: request.number@,
                            },
                        )
                    },
                    Err(m) => {
                        &&& r matches Err(e) && e@ == m
                        &&& final(self)@ == old(self)@
                    },
                },
            },
    {
        if let Err(e) = moved {
            return Err(e);
        }
        let new_path = match request.move_target() {
            Ok(t) => t,
            Err(m) => {
                return Err(m);
            },
        };
        let ghost old_view = self@;
        let op = MoveOperation {
            original_path: request.current_path,
            new_path,
            number: request.number,
        };
        let status_number = concat("Moved to ", op.number.as_str());
        let ghost op_view = op@;
        let ghost old_stack = self.undo_stack@;
        self.undo_stack.push(op);
        proof {
            assert(self.undo_stack@.map_values(|m: MoveOperation| m@) =~= old_stack.map_values(
                |m: MoveOperation| m@,
            ).push(op_view));
        }
        self.image_paths.remove(self.current_index);
        if self.current_index >= self.image_paths.len() && self.current_index > 0 {
            self.current_index = self.current_index - 1;
        }
        self.input_buffer = String::new();
        self.ocr_suggestion = None;
        if self.image_paths.is_empty() {
            self.status_message = owned("All images processed!");
        } else {
            let count = decimal_string(self.image_paths.len());
            let mut message = concat(status_number.as_str(), "/. ");
            message = concat(message.as_str(), count.as_str());
            message = concat(message.as_str(), " remaining");
            self.status_message = message;
        }
        Ok(())
    }

    /// Take the last move off the undo stack, to be moved back.
    pub fn take_undo(&mut self) -> (r: Result<MoveOperation, String>)
        ensures
            old(self)@.undo_stack.len() == 0 ==> {
                &&& r matches Err(m) && m@ == "Nothing to undo"@
                &&& final(self)@ == old(self)@
            },
            old(self)@.undo_stack.len() > 0 ==> {
                &&& r matches Ok(op) && op@ == old(self)@.undo_stack.last()
                &&& final(self)@ == old(self)@.undo_taken()
            },
    {
        let ghost old_stack = self.undo_stack@;
        match self.undo_stack.pop() {
            Some(op) => {
                proof {
                    assert(self.undo_stack@.map_values(|m: MoveOperation| m@) =~= old_stack.map_values(
                        |m: MoveOperation| m@,
                    ).drop_last());
                }
                Ok(op)
            },
            None => Err(owned("Nothing to undo")),
        }
    }

    /// Take the outcome of moving the file of `op` back.
    ///
    /// If moving it back failed, the error is returned prefixed by
    /// `Failed to undo: ` and nothing changes. Otherwise the file rejoins
    /// the list at the current position.
    pub fn undo(&mut self, op: MoveOperation, moved_back: Result<(), String>) -> (r: Result<
        (),
        String,
    >)
        requires
            moved_back is Ok ==> old(self).current_index <= old(self).image_paths@.len(),
        ensures
            match moved_back {
                Err(e) => {
                    &&& r matches Err(m) && m@ == "Failed to undo: "@ + e@
                    &&& final(self)@ == old(self)@
                },
                Ok(()) => r is Ok && final(self)@ == old(self)@.after_undo(op@),
            },
    {
        match moved_back {
            Err(e) => Err(concat("Failed to undo: ", e.as_str())),
            Ok(()) => {
                self.status_message = concat("Undid move of ", op.number.as_str());
                self.image_paths.insert(self.current_index, op.original_path);
                Ok(())
            },
        }
    }

    /// Begin showing the current image: say whether OCR runs for it and
    /// drop the previous suggestion. Returns the image to show, if any.
    pub fn start_loading_current(&mut self, ocr_enabled: bool) -> (r: Option<PathBuf>)
        ensures
            r == old(self)@.current_image(),
            final(self)@ == old(self)@.loading_started(ocr_enabled),
    {
        if self.current_index < self.image_paths.len() {
            let path = self.image_paths[self.current_index].clone();
            self.ocr_running = ocr_enabled;
            self.ocr_suggestion = None;
            Some(path)
        } else {
            self.ocr_running = false;
            None
        }
    }

    /// Accept the OCR suggestion as input.
    pub fn accept_ocr_suggestion(&mut self)
        ensures
            final(self)@ == old(self)@.with_suggestion_accepted(),
    {
        if let Some(suggestion) = &self.ocr_suggestion {
            self.input_buffer = suggestion.clone();
        }
    }

    /// Get progress as (done, total).
    pub fn progress(&self) -> (r: (usize, usize))
        requires
            self.image_paths@.len() + self.undo_stack@.len() <= usize::MAX,
        ensures
            r.0 == self@.done(),
            r.1 == self@.total(),
    {
        let total = self.image_paths.len() + self.undo_stack.len();
        let done = self.undo_stack.len();
        (done, total)
    }

    /// Remaining count.
    pub fn remaining(&self) -> (r: usize)
        ensures
            r == self@.image_paths.len(),
    {
        self.image_paths.len()
    }
}

impl Default for NumberingState {
    fn default() -> (s: Self)
        ensures
            s@ == NumberingView::initial(),
    {
        NumberingState::new()
    }
}


/// The indices to preload around image `current` of `count`: the images
/// up to three ahead and then up to two behind, nearest first; and, for
/// OCR, the images up to two ahead.
pub fn preload_plan(current: usize, count: usize) -> (r: (Vec<usize>, Vec<usize>))
    requires
        current + 3 <= usize::MAX,
    ensures
        r.0@ == Seq::new(3, |k: int| current + 1 + k).filter(|i: int| i < count).map_values(
            |i: int| i as usize,
        ) + Seq::new(2, |k: int| current - 1 - k).filter(|i: int| i >= 0).map_values(
            |i: int| i as usize,
        ),
        r.1@ == Seq::new(2, |k: int| current + 1 + k).filter(|i: int| i < count).map_values(
            |i: int| i as usize,
        ),
{
    let mut images: Vec<usize> = Vec::new();
    let mut ocr: Vec<usize> = Vec::new();
    if current + 1 < count {
        images.push(current + 1);
        ocr.push(current + 1);
    }
    if current + 2 < count {
        images.push(current + 2);
        ocr.push(current + 2);
    }
    if current + 3 < count {
        images.push(current + 3);
    }
    if current >= 1 {
        images.push(current - 1);
    }
    if current >= 2 {
        images.push(current - 2);
    }
    proof {
        reveal_with_fuel(Seq::filter, 4);
        let ahead3 = Seq::new(3, |k: int| current + 1 + k);
        let ahead2 = Seq::new(2, |k: int| current + 1 + k);
        let behind = Seq::new(2, |k: int| current - 1 - k);
        assert(ahead3.drop_last().drop_last().drop_last() =~= Seq::<int>::empty());
        assert(ahead3.drop_last().drop_last() =~= seq![current + 1]);
        assert(ahead3.drop_last() =~= seq![current + 1, current + 2]);
        assert(ahead2 =~= seq![current + 1, current + 2]);
        assert(behind.drop_last().drop_last() =~= Seq::<int>::empty());
        assert(behind.drop_last() =~= seq![current - 1]);
        assert(seq![current + 1].drop_last() =~= Seq::<int>::empty());
        assert(seq![current - 1].drop_last() =~= Seq::<int>::empty());
        assert(seq![current + 1, current + 2].drop_last() =~= seq![current + 1]);
        assert(images@ =~= ahead3.filter(|i: int| i < count).map_values(|i: int| i as usize)
            + behind.filter(|i: int| i >= 0).map_values(|i: int| i as usize));
        assert(ocr@ =~= ahead2.filter(|i: int| i < count).map_values(|i: int| i as usize));
    }
    (images, ocr)
}

// ---------------------------------------------------------------------------
// Laws
// ---------------------------------------------------------------------------

/// Every step keeps the current index on an image, or at 0 once no image
/// is left.
pub proof fn law_index_stays_in_bounds(
    v: NumberingView,
    op: MoveView,
    folder: PathBuf,
    images: Seq<PathBuf>,
)
    requires
        v.index_in_bounds(),
    ensures
        v.with_folder(folder, images).index_in_bounds(),
        v.moved_to_next().index_in_bounds(),
        v.moved_to_prev().index_in_bounds(),
        v.current_image() is Some ==> v.after_move(op).index_in_bounds(),
        v.undo_taken().index_in_bounds(),
        v.after_undo(op).index_in_bounds(),
        v.with_suggestion_accepted().index_in_bounds(),
{
}

/// Going to the next image and back returns to the same image, and so does
/// going back and then forward.
pub proof fn law_next_and_prev_are_inverse(v: NumberingView)
    requires
        v.index_in_bounds(),
    ensures
        v.current_index + 1 < v.image_paths.len() ==> v.moved_to_next().moved_to_prev().current_index
            == v.current_index,
        v.current_index > 0 ==> v.moved_to_prev().moved_to_next().current_index
            == v.current_index,
{
}

/// Progress is (done, total) with done plus remaining equal to total, for
/// every state. Moving between images, accepting a suggestion and a failed
/// confirm or undo (which leave the state as it was) keep both numbers; a
/// successful confirm adds one to done and keeps the total; taking a move
/// back off the stack and moving its file back takes one from done and
/// keeps the total.
pub proof fn law_progress_total_is_kept(v: NumberingView, op: MoveView)
    ensures
        v.done() + v.image_paths.len() == v.total(),
        v.moved_to_next().done() == v.done() && v.moved_to_next().total() == v.total(),
        v.moved_to_prev().done() == v.done() && v.moved_to_prev().total() == v.total(),
        v.with_suggestion_accepted().done() == v.done()
            && v.with_suggestion_accepted().total() == v.total(),
        v.current_image() is Some ==> v.after_move(op).done() == v.done() + 1
            && v.after_move(op).total() == v.total(),
        v.undo_stack.len() > 0 && 0 <= v.current_index <= v.image_paths.len()
            ==> v.undo_taken().after_undo(op).done() == v.done() - 1
            && v.undo_taken().after_undo(op).total() == v.total(),
        v.current_image() is Some ==> v.after_move(op).undo_taken().after_undo(op).done()
            == v.done() && v.after_move(op).undo_taken().after_undo(op).total() == v.total(),
{
}

/// Progress starts from nothing: a new state has numbered nothing out of
/// nothing, and a freshly loaded folder has numbered nothing out of exactly
/// its images. As every other step keeps the total, the total of a state
/// reached from these is the number of a folder's images.
pub proof fn law_progress_starts_from_the_folder(
    v: NumberingView,
    folder: PathBuf,
    images: Seq<PathBuf>,
)
    ensures
        NumberingView::initial().done() == 0,
        NumberingView::initial().total() == 0,
        v.with_folder(folder, images).done() == 0,
        v.with_folder(folder, images).total() == images.len(),
{
}

/// Confirming the current image takes it out of the list, keeps the other
/// images in order, and moves on: to the image that followed it, or, when
/// it was the last of several, to the image before it, now the last one.
/// When it was the only image the list is empty.
pub proof fn law_confirm_moves_on_to_the_neighbour(v: NumberingView, op: MoveView)
    requires
        v.current_image() is Some,
    ensures
        v.after_move(op).image_paths.len() == v.image_paths.len() - 1,
        forall|i: int|
            0 <= i < v.current_index ==> #[trigger] v.after_move(op).image_paths[i]
                == v.image_paths[i],
        forall|i: int|
            v.current_index <= i < v.image_paths.len() - 1 ==> #[trigger] v.after_move(
                op,
            ).image_paths[i] == v.image_paths[i + 1],
        v.current_index + 1 < v.image_paths.len() ==> v.after_move(op).current_index
            == v.current_index && v.after_move(op).current_image() == Some(
            v.image_paths[v.current_index + 1],
        ),
        v.current_index + 1 == v.image_paths.len() && v.image_paths.len() > 1 ==> v.after_move(
            op,
        ).current_index == v.after_move(op).image_paths.len() - 1 && v.after_move(
            op,
        ).current_image() == Some(v.image_paths[v.current_index - 1]),
        v.image_paths.len() == 1 ==> v.after_move(op).image_paths.len() == 0 && v.after_move(
            op,
        ).current_index == 0 && v.after_move(op).current_image() is None,
        v.after_move(op).undo_stack == v.undo_stack.push(op),
{
}

/// Undoing a confirmed move takes back that very move and restores the
/// image list, the current image and the undo stack, unless the confirmed
/// image was the last of several (the index then stepped back, and the
/// image returns one place before its old position).
pub proof fn law_undo_reverses_confirm(v: NumberingView, op: MoveView)
    requires
        v.current_image() == Some(op.original_path),
        v.current_index + 1 < v.image_paths.len() || v.image_paths.len() == 1,
    ensures
        v.after_move(op).undo_stack.last() == op,
        v.after_move(op).undo_taken().after_undo(op).image_paths == v.image_paths,
        v.after_move(op).undo_taken().after_undo(op).current_index == v.current_index,
        v.after_move(op).undo_taken().after_undo(op).undo_stack == v.undo_stack,
{
    let w = v.after_move(op).undo_taken().after_undo(op);
    assert(v.after_move(op).undo_taken().undo_stack =~= v.undo_stack);
    assert(w.image_paths =~= v.image_paths);
}


/// The whole round trip: when confirming is possible, confirming the
/// typed number (the move to `new_path` succeeding) and then undoing it
/// (moving the file back succeeding) gives back the image list, the current
/// image and the undo stack, unless the confirmed image was the last of
/// several.
pub proof fn law_confirm_then_undo_round_trip(v: NumberingView, new_path: PathBuf)
    requires
        v.confirm_request() is Ok,
        v.current_index + 1 < v.image_paths.len() || v.image_paths.len() == 1,
    ensures
        ({
            let req = v.confirm_request()->Ok_0;
            let op = MoveView {
                original_path: req.current_path,
                new_path,
                number: req.number,
            };
            let w = v.after_move(op).undo_taken().after_undo(op);
            &&& v.after_move(op).undo_stack.last() == op
            &&& w.image_paths == v.image_paths
            &&& w.current_index == v.current_index
            &&& w.undo_stack == v.undo_stack
            &&& w.current_image() == v.current_image()
        }),
{
    let req = v.confirm_request()->Ok_0;
    let op = MoveView { original_path: req.current_path, new_path, number: req.number };
    law_undo_reverses_confirm(v, op);
}

} // verus!
