//! One regeneration of a slide deck, as decisions on plain values: what the
//! destination allows, which files to write with which text, and what the
//! watch mode does with each change notification. Reading and writing files
//! is left to the caller.
use vstd::prelude::*;
use crate::segment::{SlideView, segment, slides_view, split_to_slides};
use crate::render::{
    notes_document, notes_document_of, slide_file_name, slide_file_name_of, slide_text,
    slide_text_of,
};

verus! {

/// What is found at the destination path before a run.
#[derive(PartialEq, Eq, Structural, Clone, Copy, Debug)]
pub enum Destination {
    Missing,
    Directory,
    File,
}

/// The errors that end a run.
#[derive(PartialEq, Eq, Structural, Clone, Copy, Debug)]
pub enum PipelineError {
    /// The source document could not be read.
    ReadError,
    /// The destination exists and is not a directory.
    DestinationConflict,
    /// A slide file or the notes file could not be written.
    WriteError,
}

/// One file to write into the destination directory.
pub struct OutputFile {
    pub name: String,
    pub body: String,
}

/// Everything one run writes.
pub struct RegenerationPlan {
    /// Whether the destination directory has to be created first.
    pub create_dir: bool,
    /// The slide files, in slide order.
    pub files: Vec<OutputFile>,
    /// The text of the notes file, when one was asked for.
    pub notes: Option<String>,
}

pub struct PlanView {
    pub create_dir: bool,
    pub files: Seq<(Seq<char>, Seq<char>)>,
    pub notes: Option<Seq<char>>,
}

impl View for RegenerationPlan {
    type V = PlanView;

    open spec fn view(&self) -> PlanView {
        PlanView {
            create_dir: self.create_dir,
            files: self.files@.map_values(|f: OutputFile| (f.name@, f.body@)),
            notes: match self.notes {
                Some(n) => Some(n@),
                None => None,
            },
        }
    }
}

/// The slide files of `slides`: the slide at index `i` goes to the file
/// named for position `i + 1`.
pub open spec fn slide_files(slides: Seq<SlideView>) -> Seq<(Seq<char>, Seq<char>)> {
    slides.map(|i: int, s: SlideView| (slide_file_name_of((i + 1) as nat), slide_text(s)))
}

/// What a run on the document `doc` does, given what is at the destination
/// and whether a notes file was asked for.
pub open spec fn regeneration(doc: Seq<char>, dest: Destination, with_notes: bool) -> Result<
    PlanView,
    PipelineError,
> {
    if dest == Destination::File {
        Err(PipelineError::DestinationConflict)
    } else {
        Ok(
            PlanView {
                create_dir: dest == Destination::Missing,
                files: slide_files(segment(doc)),
                notes: if with_notes {
                    Some(notes_document(segment(doc)))
                } else {
                    None
                },
            },
        )
    }
}

pub open spec fn plan_result_view(r: Result<RegenerationPlan, PipelineError>) -> Result<
    PlanView,
    PipelineError,
> {
    match r {
        Ok(p) => Ok(p@),
        Err(e) => Err(e),
    }
}

/// Plans one run on the document `contents`. A destination that is a file
/// is refused before anything is written; otherwise each slide gets a file
/// `NNN.md` holding its text, and the notes document is built when asked
/// for.
pub fn plan_regeneration(contents: &str, dest: Destination, with_notes: bool) -> (r: Result<
    RegenerationPlan,
    PipelineError,
>)
    ensures
        plan_result_view(r) == regeneration(contents@, dest, with_notes),
{
    if dest == Destination::File {
        return Err(PipelineError::DestinationConflict);
    }
    let slides = split_to_slides(contents);
    let ghost sv = slides_view(slides@);
    let mut files: Vec<OutputFile> = Vec::new();
    let mut i: usize = 0;
    while i < slides.len()
        invariant
            i <= slides.len(),
            sv == slides_view(slides@),
            files.len() == i,
            files@.map_values(|f: OutputFile| (f.name@, f.body@)) == slide_files(sv).take(
                i as int,
            ),
        decreases slides.len() - i,
    {
        let name = slide_file_name(i + 1);
        let body = slide_text_of(&slides[i]);
        assert(sv[i as int] == slides@[i as int]@);
        assert(slide_files(sv)[i as int] == (name@, body@));
        files.push(OutputFile { name, body });
        i += 1;
        assert(files@.map_values(|f: OutputFile| (f.name@, f.body@)) =~= slide_files(sv).take(
            i as int,
        ));
    }
    assert(slide_files(sv).take(i as int) =~= slide_files(sv));
    let notes = if with_notes {
        Some(notes_document_of(&slides))
    } else {
        None
    };
    Ok(RegenerationPlan { create_dir: dest == Destination::Missing, files, notes })
}


/// A run whose destination is an existing file fails with
/// `DestinationConflict` and plans no file at all.
pub proof fn lemma_file_destination_conflicts(doc: Seq<char>, with_notes: bool)
    ensures
        regeneration(doc, Destination::File, with_notes) == Err::<PlanView, PipelineError>(
            PipelineError::DestinationConflict,
        ),
{
}

/// Running twice on an unchanged document writes byte-identical files: the
/// second run finds the directory that the first one used, creates nothing,
/// and writes the same names with the same text, and the same notes.
pub proof fn lemma_regeneration_idempotent(doc: Seq<char>, first: Destination, with_notes: bool)
    requires
        first != Destination::File,
    ensures
        regeneration(doc, first, with_notes) is Ok,
        regeneration(doc, Destination::Directory, with_notes) is Ok,
        ({
            let a = regeneration(doc, first, with_notes)->Ok_0;
            let b = regeneration(doc, Destination::Directory, with_notes)->Ok_0;
            &&& !b.create_dir
            &&& b.files == a.files
            &&& b.notes == a.notes
        }),
{
}

// ---------------------------------------------------------------------------
// Watch mode

/// What the change subscription delivered.
#[derive(PartialEq, Eq, Structural, Clone, Copy, Debug)]
pub enum WatchEvent {
    /// The source changed (already coalesced over the debounce interval).
    Changed,
    /// An early notice that a change has begun, sent before the debounce
    /// interval has passed; the coalesced change follows it.
    Notice,
    /// The subscription reported an error for one notification.
    Failed,
}

/// What watch mode does next.
#[derive(PartialEq, Eq, Structural, Clone, Copy, Debug)]
pub enum WatchAction {
    /// Run the pipeline once more, to completion, before the next event.
    Regenerate { verbose: bool },
    /// Report the subscription error, skip the event and keep waiting.
    Report,
    /// Do nothing and keep waiting.
    Ignore,
}

/// The decision for one notification: a coalesced change runs the pipeline
/// quietly, an early notice is ignored so that a burst of writes gives one
/// run, an error is reported and skipped.
pub fn watch_action(event: WatchEvent) -> (r: WatchAction)
    ensures
        event == WatchEvent::Changed ==> r == (WatchAction::Regenerate { verbose: false }),
        event == WatchEvent::Notice ==> r == WatchAction::Ignore,
        event == WatchEvent::Failed ==> r == WatchAction::Report,
{
    match event {
        WatchEvent::Changed => WatchAction::Regenerate { verbose: false },
        WatchEvent::Notice => WatchAction::Ignore,
        WatchEvent::Failed => WatchAction::Report,
    }
}

/// Whether watch mode goes on after a regeneration: only when it succeeded;
/// a failed run ends the watch as it ends a first run.
pub fn keeps_watching(outcome: &Result<(), PipelineError>) -> (r: bool)
    ensures
        r == outcome is Ok,
{
    outcome.is_ok()
}

// ---------------------------------------------------------------------------
// Invocation

/// The source document and the destination directory of an invocation.
pub struct VimSlidesArgs {
    pub source_file: String,
    pub destination: String,
}

pub open spec fn default_destination() -> Seq<char> {
    seq!['.', '/', 's', 'l', 'i', 'd', 'e', 's']
}

pub open spec fn default_editor() -> Seq<char> {
    seq!['v', 'i']
}

impl VimSlidesArgs {
    /// The arguments of an invocation; the destination defaults to
    /// `./slides`.
    pub fn new(source_file: String, destination: Option<String>) -> (r: VimSlidesArgs)
        ensures
            r.source_file@ == source_file@,
            destination is Some ==> r.destination@ == destination->Some_0@,
            destination is None ==> r.destination@ == default_destination(),
    {
        proof {
            reveal_strlit("./slides");
        }
        let destination = match destination {
            Some(d) => d,
            None => "./slides".to_owned(),
        };
        VimSlidesArgs { source_file, destination }
    }
}

/// The program named in the completion message: the configured editor, or
/// `vi` when none is configured.
pub fn editor_name(configured: Option<String>) -> (r: String)
    ensures
        configured is Some ==> r@ == configured->Some_0@,
        configured is None ==> r@ == default_editor(),
{
    proof {
        reveal_strlit("vi");
    }
    match configured {
        Some(e) => e,
        None => "vi".to_owned(),
    }
}

} // verus!
