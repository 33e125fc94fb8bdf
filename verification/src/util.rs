//! Copying a directory tree, as a machine. The machine names one step at a
//! time: list a directory, create one, copy a file. The caller performs it
//! and reports its outcome, and the machine names the next step.
//!
//! A directory is created before anything is copied into it, and an entry
//! goes to the destination under the path that it has below the source.

use crate::path::{join_path, join_paths};
use crate::error::{SiteError, SiteErrorView};
use vstd::prelude::*;

verus! {

/// An entry of a directory, as it was listed.
#[derive(Debug, Clone, PartialEq, Eq)]
pub struct Entry {
    pub name: String,
    pub is_dir: bool,
}

/// What an entry is, as text.
pub struct EntryView {
    pub name: Seq<char>,
    pub is_dir: bool,
}

impl View for Entry {
    type V = EntryView;

    open spec fn view(&self) -> EntryView {
        EntryView { name: self.name@, is_dir: self.is_dir }
    }
}

/// The entries of a list, each as text.
pub open spec fn entry_models(entries: Seq<Entry>) -> Seq<EntryView> {
    entries.map_values(|e: Entry| e@)
}

/// What the caller is to do next.
#[derive(Debug, Clone, PartialEq, Eq)]
pub enum CopyStep {
    /// List the entries of the source directory `dir`.
    List { dir: String },
    /// Create the directory `path` in the destination.
    CreateDir { path: String },
    /// Copy the file `from` to `to`, over what may be there.
    CopyFile { from: String, to: String },
}

/// What a step is, as text.
pub enum CopyStepView {
    List { dir: Seq<char> },
    CreateDir { path: Seq<char> },
    CopyFile { from: Seq<char>, to: Seq<char> },
}

impl View for CopyStep {
    type V = CopyStepView;

    open spec fn view(&self) -> CopyStepView {
        match self {
            CopyStep::List { dir } => CopyStepView::List { dir: dir@ },
            CopyStep::CreateDir { path } => CopyStepView::CreateDir { path: path@ },
            CopyStep::CopyFile { from, to } => CopyStepView::CopyFile { from: from@, to: to@ },
        }
    }
}

/// How a step ended.
#[derive(Debug, Clone, PartialEq, Eq)]
pub enum CopyOutcome {
    /// The directory was listed: these are its entries.
    Listed(Vec<Entry>),
    /// The directory was created, or the file copied.
    Done,
    /// The step failed.
    Failed,
}

/// What an outcome is, as text.
pub enum CopyOutcomeView {
    Listed(Seq<EntryView>),
    Done,
    Failed,
}

impl View for CopyOutcome {
    type V = CopyOutcomeView;

    open spec fn view(&self) -> CopyOutcomeView {
        match self {
            CopyOutcome::Listed(entries) => CopyOutcomeView::Listed(entry_models(entries@)),
            CopyOutcome::Done => CopyOutcomeView::Done,
            CopyOutcome::Failed => CopyOutcomeView::Failed,
        }
    }
}

/// A directory in the course of being mirrored: the source `from`, the
/// destination `to`, and the entries of the source, of which those before
/// `next` are dealt with.
struct Frame {
    from: String,
    to: String,
    entries: Vec<Entry>,
    next: usize,
}

/// What a directory in the course of being mirrored is, as text.
pub struct FrameView {
    pub from: Seq<char>,
    pub to: Seq<char>,
    pub entries: Seq<EntryView>,
    pub next: nat,
}

impl View for Frame {
    type V = FrameView;

    closed spec fn view(&self) -> FrameView {
        FrameView {
            from: self.from@,
            to: self.to@,
            entries: entry_models(self.entries@),
            next: self.next as nat,
        }
    }
}

/// The step whose outcome the copy waits for, with the source and the
/// destination that it is about.
enum Pending {
    Listing { from: String, to: String },
    Creating { from: String, to: String },
    Copying { from: String, to: String },
}

/// What a pending step is, as text.
pub enum PendingView {
    Listing { from: Seq<char>, to: Seq<char> },
    Creating { from: Seq<char>, to: Seq<char> },
    Copying { from: Seq<char>, to: Seq<char> },
}

impl View for Pending {
    type V = PendingView;

    closed spec fn view(&self) -> PendingView {
        match self {
            Pending::Listing { from, to } => PendingView::Listing { from: from@, to: to@ },
            Pending::Creating { from, to } => PendingView::Creating { from: from@, to: to@ },
            Pending::Copying { from, to } => PendingView::Copying { from: from@, to: to@ },
        }
    }
}

/// A copy between two steps: the directories that it is in the course of
/// mirroring, the innermost last, and the step that it waits for.
pub struct TreeCopy {
    stack: Vec<Frame>,
    pending: Pending,
}

/// What a copy is, as text.
pub struct TreeCopyView {
    pub stack: Seq<FrameView>,
    pub pending: PendingView,
}

/// The directories of a list, each as text.
spec fn frame_models(stack: Seq<Frame>) -> Seq<FrameView> {
    stack.map_values(|f: Frame| f@)
}

impl View for TreeCopy {
    type V = TreeCopyView;

    closed spec fn view(&self) -> TreeCopyView {
        TreeCopyView { stack: frame_models(self.stack@), pending: self.pending@ }
    }
}

/// Where a copy stands after a step.
pub enum CopyProgress {
    /// The copy goes on: the caller performs the step and reports its
    /// outcome.
    Next(TreeCopy, CopyStep),
    /// The tree is mirrored.
    Finished,
    /// The copy is over and failed.
    Failed(SiteError),
}

/// Where a copy stands, as text.
pub enum CopyProgressView {
    Next(TreeCopyView, CopyStepView),
    Finished,
    Failed(SiteErrorView),
}

impl View for CopyProgress {
    type V = CopyProgressView;

    open spec fn view(&self) -> CopyProgressView {
        match self {
            CopyProgress::Next(copy, step) => CopyProgressView::Next(copy@, step@),
            CopyProgress::Finished => CopyProgressView::Finished,
            CopyProgress::Failed(error) => CopyProgressView::Failed(error@),
        }
    }
}

/// The source of the pending step.
pub open spec fn pending_source(pending: PendingView) -> Seq<char> {
    match pending {
        PendingView::Listing { from, .. } => from,
        PendingView::Creating { from, .. } => from,
        PendingView::Copying { from, .. } => from,
    }
}

/// The destination of the pending step.
pub open spec fn pending_destination(pending: PendingView) -> Seq<char> {
    match pending {
        PendingView::Listing { to, .. } => to,
        PendingView::Creating { to, .. } => to,
        PendingView::Copying { to, .. } => to,
    }
}

/// The directory `frame` with one more entry dealt with.
pub open spec fn stepped(frame: FrameView) -> FrameView {
    FrameView { next: frame.next + 1, ..frame }
}

/// Where a copy stands when it turns to the directories of `stack`: it
/// leaves the innermost ones whose entries are all dealt with, then takes
/// the next entry of the innermost left: a directory is created, a file is
/// copied, each under its own name below the destination. With no
/// directory left the tree is mirrored.
pub open spec fn resume(stack: Seq<FrameView>) -> CopyProgressView
    decreases stack.len(),
{
    if stack.len() == 0 {
        CopyProgressView::Finished
    } else {
        let frame = stack.last();
        if frame.next >= frame.entries.len() {
            resume(stack.drop_last())
        } else {
            let entry = frame.entries[frame.next as int];
            let from = join_path(frame.from, entry.name);
            let to = join_path(frame.to, entry.name);
            let rest = stack.drop_last().push(stepped(frame));
            if entry.is_dir {
                CopyProgressView::Next(
                    TreeCopyView { stack: rest, pending: PendingView::Creating { from, to } },
                    CopyStepView::CreateDir { path: to },
                )
            } else {
                CopyProgressView::Next(
                    TreeCopyView { stack: rest, pending: PendingView::Copying { from, to } },
                    CopyStepView::CopyFile { from, to },
                )
            }
        }
    }
}

/// Where the copy `s` stands once the step that it waits for has ended
/// with `o`. A directory that was created is listed next; one that was
/// listed is mirrored entry by entry, before the copy returns to the
/// directory that holds it; after a file the copy goes on with the next
/// entry. Any other outcome ends the copy with an error that names the
/// source and the destination of the step.
pub open spec fn copy_step(s: TreeCopyView, o: CopyOutcomeView) -> CopyProgressView {
    match (s.pending, o) {
        (PendingView::Listing { from, to }, CopyOutcomeView::Listed(entries)) => resume(
            s.stack.push(FrameView { from, to, entries, next: 0 }),
        ),
        (PendingView::Creating { from, to }, CopyOutcomeView::Done) => CopyProgressView::Next(
            TreeCopyView { stack: s.stack, pending: PendingView::Listing { from, to } },
            CopyStepView::List { dir: from },
        ),
        (PendingView::Copying { .. }, CopyOutcomeView::Done) => resume(s.stack),
        _ => CopyProgressView::Failed(
            SiteErrorView::Copy {
                source: pending_source(s.pending),
                destination: pending_destination(s.pending),
            },
        ),
    }
}

/// Where the copy of the tree `from` into the directory `to` starts: with
/// the listing of `from`.
pub open spec fn copy_start(from: Seq<char>, to: Seq<char>) -> CopyProgressView {
    CopyProgressView::Next(
        TreeCopyView { stack: Seq::empty(), pending: PendingView::Listing { from, to } },
        CopyStepView::List { dir: from },
    )
}

/// Turns to the directories of `stack`.
fn resume_copy(frames: Vec<Frame>) -> (progress: CopyProgress)
    ensures
        progress@ == resume(frame_models(frames@)),
{
    let ghost given = frame_models(frames@);
    let mut stack = frames;
    loop
        invariant
            given == frame_models(frames@),
            resume(given) == resume(frame_models(stack@)),
        decreases stack.len(),
    {
        let ghost before = frame_models(stack@);
        match stack.pop() {
            None => {
                return CopyProgress::Finished;
            },
            Some(frame) => {
                assert(frame@ == before.last());
                assert(frame_models(stack@) == before.drop_last());
                if frame.next < frame.entries.len() {
                    let entry = &frame.entries[frame.next];
                    assert(entry@ == frame@.entries[frame.next as int]);
                    let from = join_paths(frame.from.as_str(), entry.name.as_str());
                    let to = join_paths(frame.to.as_str(), entry.name.as_str());
                    let is_dir = entry.is_dir;
                    let next = Frame {
                        from: frame.from,
                        to: frame.to,
                        entries: frame.entries,
                        next: frame.next + 1,
                    };
                    assert(next@ == stepped(before.last()));
                    stack.push(next);
                    assert(frame_models(stack@) == before.drop_last().push(stepped(before.last())));
                    if is_dir {
                        let step = CopyStep::CreateDir { path: to.clone() };
                        return CopyProgress::Next(
                            TreeCopy { stack, pending: Pending::Creating { from, to } },
                            step,
                        );
                    } else {
                        let step = CopyStep::CopyFile { from: from.clone(), to: to.clone() };
                        return CopyProgress::Next(
                            TreeCopy { stack, pending: Pending::Copying { from, to } },
                            step,
                        );
                    }
                }
            },
        }
    }
}

impl TreeCopy {
    /// Starts the copy of the tree `from` into the directory `to`, which is
    /// there already.
    pub fn start(from: String, to: String) -> (progress: CopyProgress)
        ensures
            progress@ == copy_start(from@, to@),
    {
        let step = CopyStep::List { dir: from.clone() };
        let copy = TreeCopy { stack: Vec::new(), pending: Pending::Listing { from, to } };
        assert(frame_models(copy.stack@) == Seq::<FrameView>::empty());
        CopyProgress::Next(copy, step)
    }

    /// Takes the outcome of the step that was handed out last, and hands
    /// out the next one, or ends the copy.
    pub fn advance(self, outcome: CopyOutcome) -> (progress: CopyProgress)
        ensures
            progress@ == copy_step(self@, outcome@),
    {
        let mut stack = self.stack;
        match self.pending {
            Pending::Listing { from, to } => match outcome {
                CopyOutcome::Listed(entries) => {
                    let ghost before = frame_models(stack@);
                    let frame = Frame { from, to, entries, next: 0 };
                    stack.push(frame);
                    assert(frame_models(stack@) == before.push(frame@));
                    resume_copy(stack)
                },
                _ => CopyProgress::Failed(SiteError::Copy { source: from, destination: to }),
            },
            Pending::Creating { from, to } => match outcome {
                CopyOutcome::Done => {
                    let step = CopyStep::List { dir: from.clone() };
                    CopyProgress::Next(
                        TreeCopy { stack, pending: Pending::Listing { from, to } },
                        step,
                    )
                },
                _ => CopyProgress::Failed(SiteError::Copy { source: from, destination: to }),
            },
            Pending::Copying { from, to } => match outcome {
                CopyOutcome::Done => resume_copy(stack),
                _ => CopyProgress::Failed(SiteError::Copy { source: from, destination: to }),
            },
        }
    }
}

} // verus!
