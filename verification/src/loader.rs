//! Loading a document with its imports.
//!
//! A [`Loader`] decides; its caller reads. The loader hands out a
//! [`Request`]: to find a file, to read one, or to take the result. The
//! caller does what is asked and hands back what came of it, and gets the
//! next request.
//!
//! A file is open from the moment its text arrives until its last line is
//! read. An import of a file that is open is circular. An import that
//! cannot be found or read, or that is circular, adds nothing to the
//! importing document, which is read on; only the failure of the outermost
//! file is reported. When an imported document ends, its entries are merged
//! into the importing one, and the file is open no more, so that a later
//! import of it is read anew.

use crate::assoc::merged;
use crate::context::{paths_distinct, ImportStack, ParserContext};
use crate::document::{run, DocumentParser};
use crate::text::{append, split_lines, to_chars, to_text};
use crate::value::{LaCoNValue, ValueView};
use vstd::prelude::*;

verus! {

/// Why a document could not be loaded.
#[derive(Debug, PartialEq, Eq)]
pub enum LoadError {
    /// The file was not found or could not be read; the text says why.
    Unreadable(String),
    /// The file, named by its canonical path, was open already.
    CircularImport(String),
}

/// What a failure is to a specification.
pub enum LoadErrorView {
    Unreadable(Seq<char>),
    CircularImport(Seq<char>),
}

impl View for LoadError {
    type V = LoadErrorView;

    open spec fn view(&self) -> LoadErrorView {
        match self {
            LoadError::Unreadable(reason) => LoadErrorView::Unreadable(reason@),
            LoadError::CircularImport(path) => LoadErrorView::CircularImport(path@),
        }
    }
}

impl LoadError {
    /// The failure in words.
    pub fn message(&self) -> (r: String)
        ensures
            r@ == match self@ {
                LoadErrorView::Unreadable(reason) => reason,
                LoadErrorView::CircularImport(path) => "Circular import detected: \""@ + path
                    + "\""@,
            },
    {
        match self {
            LoadError::Unreadable(reason) => reason.clone(),
            LoadError::CircularImport(path) => {
                let mut text = to_chars("Circular import detected: \"");
                append(&mut text, &to_chars(path.as_str()));
                append(&mut text, &to_chars("\""));
                to_text(&text)
            },
        }
    }
}

/// Where a file was found.
#[derive(Debug, PartialEq, Eq)]
pub struct Located {
    /// The canonical path of the file.
    pub path: String,
    /// The directory that holds the file.
    pub directory: String,
}

/// What the loader asks of its caller.
#[derive(Debug, PartialEq)]
pub enum Request {
    /// Find the file at `path`, taken from `directory` where there is one,
    /// and answer with [`Loader::located`].
    Locate { directory: Option<String>, path: String },
    /// Read the file at the canonical path `path`, and answer with
    /// [`Loader::content`].
    Read { path: String },
    /// Nothing more: this is the object of the document, or the reason why
    /// there is none.
    Finished(Result<LaCoNValue, LoadError>),
}

/// What a request is to a specification.
pub enum RequestView {
    Locate { directory: Option<Seq<char>>, path: Seq<char> },
    Read { path: Seq<char> },
    Finished(Result<ValueView, LoadErrorView>),
}

impl View for Request {
    type V = RequestView;

    open spec fn view(&self) -> RequestView {
        match self {
            Request::Locate { directory, path } => RequestView::Locate {
                directory: match directory {
                    Some(d) => Some(d@),
                    None => None,
                },
                path: path@,
            },
            Request::Read { path } => RequestView::Read { path: path@ },
            Request::Finished(result) => RequestView::Finished(
                match result {
                    Ok(v) => Ok(v@),
                    Err(e) => Err(e@),
                },
            ),
        }
    }
}

/// An open file, as a specification sees it.
pub struct FrameView {
    /// The canonical path of the file.
    pub path: Seq<char>,
    /// The directory of the file.
    pub directory: Seq<char>,
    /// The files that are open, this one last.
    pub stack: Seq<Seq<char>>,
    /// The variables declared so far.
    pub vars: Seq<(Seq<char>, Seq<char>)>,
    /// The lines of the file.
    pub lines: Seq<Seq<char>>,
    /// The index of the line to go on with.
    pub cursor: int,
    /// The entries read so far.
    pub root: Seq<(Seq<char>, ValueView)>,
}

/// What the loader waits for.
pub enum PhaseView {
    /// For [`Loader::located`].
    Locating,
    /// For [`Loader::content`], of the file at `path` in `directory`.
    Reading { path: Seq<char>, directory: Seq<char> },
    /// For nothing: the result was handed out.
    Finished,
}

/// A loader, as a specification sees it.
pub struct LoaderView {
    /// The files that were open before the outermost file.
    pub base: Seq<Seq<char>>,
    /// The open files, the outermost first.
    pub frames: Seq<FrameView>,
    /// What the loader waits for.
    pub phase: PhaseView,
}

/// The phase that follows a request.
pub open spec fn phase_after(request: RequestView, path: Seq<char>, directory: Seq<char>) -> PhaseView {
    match request {
        RequestView::Locate { .. } => PhaseView::Locating,
        RequestView::Read { .. } => PhaseView::Reading { path, directory },
        RequestView::Finished(_) => PhaseView::Finished,
    }
}

/// The files that are open: those of the innermost open file, or those from
/// before the outermost file.
pub open spec fn open_files(state: LoaderView) -> Seq<Seq<char>> {
    if state.frames.len() > 0 {
        state.frames.last().stack
    } else {
        state.base
    }
}

/// Reads on in the innermost open file. At an import directive, the request
/// is to find that file. At the end of the file, its entries are merged
/// into the file that imported it, which is read on in the same way; the
/// end of the outermost file is the end of the load.
pub open spec fn settle(frames: Seq<FrameView>) -> (Seq<FrameView>, RequestView)
    decreases frames.len(),
{
    if frames.len() == 0 {
        (frames, RequestView::Finished(Ok(ValueView::Dictionary(Seq::empty()))))
    } else {
        let top = frames.last();
        let s = run(top.lines, top.cursor, top.root, top.vars);
        match s.import {
            Some(path) => (
                frames.drop_last().push(
                    FrameView { cursor: s.cursor, root: s.root, vars: s.vars, ..top },
                ),
                RequestView::Locate { directory: Some(top.directory), path },
            ),
            None => if frames.len() == 1 {
                (Seq::empty(), RequestView::Finished(Ok(ValueView::Dictionary(s.root))))
            } else {
                let parent = frames[frames.len() - 2];
                settle(
                    frames.drop_last().drop_last().push(
                        FrameView { root: merged(parent.root, s.root), ..parent },
                    ),
                )
            },
        }
    }
}

/// What becomes of a loader when a file cannot be had: the outermost file
/// fails the load; an import is passed over.
pub open spec fn after_failure(state: LoaderView, error: LoadErrorView) -> (
    LoaderView,
    RequestView,
) {
    if state.frames.len() == 0 {
        (
            LoaderView { phase: PhaseView::Finished, ..state },
            RequestView::Finished(Err(error)),
        )
    } else {
        let (frames, request) = settle(state.frames);
        (
            LoaderView { frames, phase: phase_after(request, Seq::empty(), Seq::empty()), ..state },
            request,
        )
    }
}

/// What becomes of a loader that is told where a file was found, or why it
/// was not.
pub open spec fn after_located(
    state: LoaderView,
    found: Result<(Seq<char>, Seq<char>), Seq<char>>,
) -> (LoaderView, RequestView) {
    match found {
        Err(reason) => after_failure(state, LoadErrorView::Unreadable(reason)),
        Ok((path, directory)) => if open_files(state).contains(path) {
            after_failure(state, LoadErrorView::CircularImport(path))
        } else {
            (
                LoaderView { phase: PhaseView::Reading { path, directory }, ..state },
                RequestView::Read { path },
            )
        },
    }
}

/// What becomes of a loader that is given the text of the file it asked
/// for, or the reason why there is none.
pub open spec fn after_content(state: LoaderView, text: Result<Seq<char>, Seq<char>>) -> (
    LoaderView,
    RequestView,
) {
    match text {
        Err(reason) => after_failure(state, LoadErrorView::Unreadable(reason)),
        Ok(t) => {
            let frame = FrameView {
                path: state.phase->Reading_path,
                directory: state.phase->directory,
                stack: open_files(state).push(state.phase->Reading_path),
                vars: Seq::empty(),
                lines: split_lines(t),
                cursor: 0,
                root: Seq::empty(),
            };
            let (frames, request) = settle(state.frames.push(frame));
            (
                LoaderView {
                    frames,
                    phase: phase_after(request, Seq::empty(), Seq::empty()),
                    ..state
                },
                request,
            )
        },
    }
}

/// Whether each open file holds, as its open files, those of the file
/// before it and itself, and no file twice.
#[verifier::opaque]
pub open spec fn frames_chained(base: Seq<Seq<char>>, frames: Seq<FrameView>) -> bool {
    &&& paths_distinct(base)
    &&& forall|k: int|
        0 <= k < frames.len() ==> {
            &&& paths_distinct((#[trigger] frames[k]).stack)
            &&& frames[k].stack == (if k == 0 {
                base
            } else {
                frames[k - 1].stack
            }).push(frames[k].path)
        }
}

/// Whether two views are of the same open file: its path, its directory,
/// the files open with it, and its lines.
pub open spec fn same_file(a: FrameView, b: FrameView) -> bool {
    a.path == b.path && a.directory == b.directory && a.stack == b.stack && a.lines == b.lines
}

/// With no file open, the files from before the outermost file are
/// chained if none of them occurs twice.
pub proof fn lemma_chained_without_frames(base: Seq<Seq<char>>, frames: Seq<FrameView>)
    ensures
        frames_chained(base, frames) ==> paths_distinct(base),
        paths_distinct(base) ==> frames_chained(base, Seq::<FrameView>::empty()),
{
    reveal(frames_chained);
}

/// The outermost of chained open files are chained, whatever has been read
/// in them since.
pub proof fn lemma_chained_same_files(
    base: Seq<Seq<char>>,
    frames: Seq<FrameView>,
    other: Seq<FrameView>,
)
    requires
        frames_chained(base, frames),
        other.len() <= frames.len(),
        forall|k: int| 0 <= k < other.len() ==> same_file(#[trigger] other[k], frames[k]),
    ensures
        frames_chained(base, other),
{
    reveal(frames_chained);
    assert forall|k: int| 0 <= k < other.len() implies {
        &&& paths_distinct((#[trigger] other[k]).stack)
        &&& other[k].stack == (if k == 0 {
            base
        } else {
            other[k - 1].stack
        }).push(other[k].path)
    } by {
        assert(same_file(other[k], frames[k]));
        if k > 0 {
            assert(same_file(other[k - 1], frames[k - 1]));
        }
    }
}

/// The files open with an open file are those from before the outermost
/// file, then the open files up to it, in order.
pub proof fn lemma_chained_stack(base: Seq<Seq<char>>, frames: Seq<FrameView>, k: int)
    requires
        frames_chained(base, frames),
        0 <= k < frames.len(),
    ensures
        paths_distinct(frames[k].stack),
        frames[k].stack.len() == base.len() + k + 1,
        forall|m: int| 0 <= m < base.len() ==> frames[k].stack[m] == base[m],
        forall|i: int| 0 <= i <= k ==> frames[k].stack[base.len() + i] == frames[i].path,
    decreases k,
{
    reveal(frames_chained);
    if k > 0 {
        lemma_chained_stack(base, frames, k - 1);
    }
}

/// A file that is open further in is not among the files open with one
/// further out.
pub proof fn lemma_outer_stack_lacks_inner(
    base: Seq<Seq<char>>,
    frames: Seq<FrameView>,
    i: int,
    k: int,
)
    requires
        frames_chained(base, frames),
        0 <= i < k < frames.len(),
    ensures
        frames[i].path != frames[k].path,
        !frames[i].stack.contains(frames[k].path),
        !base.contains(frames[k].path),
{
    lemma_chained_stack(base, frames, i);
    lemma_chained_stack(base, frames, k);
    let inner = frames[k].stack;
    let last = base.len() + k;
    assert(paths_distinct(inner));
    assert(inner[last] == frames[k].path);
    assert(inner[base.len() + i] != inner[last]);
    if frames[i].stack.contains(frames[k].path) {
        let m = choose|m: int| 0 <= m < frames[i].stack.len() && frames[i].stack[m]
            == frames[k].path;
        if m < base.len() {
            assert(inner[m] == base[m]);
        } else {
            let at = m - base.len();
            assert(frames[i].stack[base.len() + at] == frames[at].path);
            assert(inner[base.len() + at] == frames[at].path);
        }
        assert(inner[m] != inner[last]);
    }
    if base.contains(frames[k].path) {
        let m = choose|m: int| 0 <= m < base.len() && base[m] == frames[k].path;
        assert(inner[m] == base[m]);
        assert(inner[m] != inner[last]);
    }
}

/// No file is open twice, and none that was open before the outermost
/// file: so there are never more open files than there are files.
pub proof fn law_open_files_are_distinct(base: Seq<Seq<char>>, frames: Seq<FrameView>)
    requires
        frames_chained(base, frames),
    ensures
        forall|i: int, j: int|
            0 <= i < j < frames.len() ==> (#[trigger] frames[i]).path != (#[trigger] frames[j]).path,
        forall|k: int| 0 <= k < frames.len() ==> !base.contains((#[trigger] frames[k]).path),
{
    assert forall|i: int, j: int| 0 <= i < j < frames.len() implies (#[trigger] frames[i]).path != (
    #[trigger] frames[j]).path by {
        lemma_outer_stack_lacks_inner(base, frames, i, j);
    }
    assert forall|k: int| 0 <= k < frames.len() implies !base.contains(
        (#[trigger] frames[k]).path,
    ) by {
        lemma_chained_stack(base, frames, k);
        let inner = frames[k].stack;
        if base.contains(frames[k].path) {
            let m = choose|m: int| 0 <= m < base.len() && base[m] == frames[k].path;
            assert(inner[m] == base[m]);
            assert(inner[base.len() + k] == frames[k].path);
            assert(inner[m] != inner[base.len() + k]);
        }
    }
}

/// Reading on opens no file and closes only files that have come to their
/// end: what stays open are the outermost of the open files, each with the
/// files open with it as before. The request that follows is to find a file
/// while a file is open, and the result once none is.
pub proof fn law_settle_keeps_open_files(base: Seq<Seq<char>>, frames: Seq<FrameView>)
    requires
        frames_chained(base, frames),
        frames.len() > 0,
    ensures
        ({
            let (after, request) = settle(frames);
            &&& after.len() <= frames.len()
            &&& forall|k: int| 0 <= k < after.len() ==> same_file(#[trigger] after[k], frames[k])
            &&& frames_chained(base, after)
            &&& request is Locate <==> after.len() > 0
            &&& request is Finished <==> after.len() == 0
            &&& request matches RequestView::Finished(result) ==> result is Ok
        }),
    decreases frames.len(),
{
    let top = frames.last();
    let s = run(top.lines, top.cursor, top.root, top.vars);
    lemma_chained_without_frames(base, frames);
    if s.import is None && frames.len() > 1 {
        let parent = frames[frames.len() - 2];
        let lower = frames.drop_last().drop_last().push(
            FrameView { root: merged(parent.root, s.root), ..parent },
        );
        assert forall|k: int| 0 <= k < lower.len() implies same_file(
            #[trigger] lower[k],
            frames[k],
        ) by {}
        lemma_chained_same_files(base, frames, lower);
        law_settle_keeps_open_files(base, lower);
        let (after, request) = settle(lower);
        assert forall|k: int| 0 <= k < after.len() implies same_file(
            #[trigger] after[k],
            frames[k],
        ) by {
            assert(same_file(after[k], lower[k]));
            assert(same_file(lower[k], frames[k]));
        }
    } else if s.import is Some {
        let (after, request) = settle(frames);
        assert forall|k: int| 0 <= k < after.len() implies same_file(
            #[trigger] after[k],
            frames[k],
        ) by {}
        lemma_chained_same_files(base, frames, after);
    }
}

/// A file is open no more once its last line is read: a later import of it
/// is no circular import.
pub proof fn law_finished_file_is_closed(base: Seq<Seq<char>>, frames: Seq<FrameView>)
    requires
        frames_chained(base, frames),
        frames.len() > 0,
        run(
            frames.last().lines,
            frames.last().cursor,
            frames.last().root,
            frames.last().vars,
        ).import is None,
    ensures
        ({
            let (after, request) = settle(frames);
            let open = if after.len() > 0 {
                after.last().stack
            } else {
                base
            };
            after.len() < frames.len() && !open.contains(frames.last().path)
        }),
{
    let top = frames.last();
    let s = run(top.lines, top.cursor, top.root, top.vars);
    if frames.len() == 1 {
        lemma_chained_stack(base, frames, 0);
        if base.contains(top.path) {
            let m = choose|m: int| 0 <= m < base.len() && base[m] == top.path;
            assert(top.stack[m] == base[m]);
            assert(top.stack[base.len() as int] == top.path);
        }
    }
    if frames.len() > 1 {
        let parent = frames[frames.len() - 2];
        let lower = frames.drop_last().drop_last().push(
            FrameView { root: merged(parent.root, s.root), ..parent },
        );
        assert forall|k: int| 0 <= k < lower.len() implies same_file(
            #[trigger] lower[k],
            frames[k],
        ) by {}
        lemma_chained_same_files(base, frames, lower);
        law_settle_keeps_open_files(base, lower);
        let (after, request) = settle(lower);
        if after.len() == 0 {
            lemma_outer_stack_lacks_inner(base, frames, 0, frames.len() - 1);
        }
        if after.len() > 0 {
            let m = after.len() - 1;
            assert(same_file(after[m], lower[m]));
            assert(same_file(lower[m], frames[m]));
            lemma_outer_stack_lacks_inner(base, frames, m, frames.len() - 1);
        }
    }
}

/// An import of a file that is open opens nothing: the importing document
/// is read on as if the import were not there. Where the file asked for
/// first is open, the load fails with a circular import.
pub proof fn law_circular_import_adds_nothing(
    state: LoaderView,
    path: Seq<char>,
    directory: Seq<char>,
)
    requires
        open_files(state).contains(path),
    ensures
        ({
            let (after, request) = after_located(state, Ok((path, directory)));
            &&& after.base == state.base
            &&& !(request is Read)
            &&& state.frames.len() == 0 ==> after.frames == state.frames && request
                == RequestView::Finished(Err(LoadErrorView::CircularImport(path)))
            &&& state.frames.len() > 0 ==> (after.frames, request) == settle(state.frames)
        }),
{
    if state.frames.len() > 0 {
        let top = state.frames.last();
        let s = run(top.lines, top.cursor, top.root, top.vars);
        lemma_settle_never_reads(state.frames);
    }
}

/// Reading on never asks for the text of a file.
pub proof fn lemma_settle_never_reads(frames: Seq<FrameView>)
    ensures
        !(settle(frames).1 is Read),
    decreases frames.len(),
{
    if frames.len() > 1 {
        let top = frames.last();
        let s = run(top.lines, top.cursor, top.root, top.vars);
        let parent = frames[frames.len() - 2];
        lemma_settle_never_reads(
            frames.drop_last().drop_last().push(
                FrameView { root: merged(parent.root, s.root), ..parent },
            ),
        );
    }
}

/// What a found file is to a specification.
pub open spec fn located_view(found: Result<Located, String>) -> Result<
    (Seq<char>, Seq<char>),
    Seq<char>,
> {
    match found {
        Ok(l) => Ok((l.path@, l.directory@)),
        Err(reason) => Err(reason@),
    }
}

/// What the text of a file is to a specification.
pub open spec fn content_view(text: Result<String, String>) -> Result<Seq<char>, Seq<char>> {
    match text {
        Ok(t) => Ok(t@),
        Err(reason) => Err(reason@),
    }
}

/// An open file.
#[derive(Debug)]
struct Frame {
    path: String,
    ctx: ParserContext,
    parser: DocumentParser,
}

impl View for Frame {
    type V = FrameView;

    closed spec fn view(&self) -> FrameView {
        FrameView {
            path: self.path@,
            directory: self.ctx.current_dir@,
            stack: self.ctx.import_stack@,
            vars: self.ctx.variable_registry@,
            lines: self.parser.lines(),
            cursor: self.parser.cursor(),
            root: self.parser.root(),
        }
    }
}

/// What a loader with the given file awaited, or with its result handed
/// out, waits for.
closed spec fn phase_of(pending: Option<Located>, finished: bool) -> PhaseView {
    if finished {
        PhaseView::Finished
    } else {
        match pending {
            Some(place) => PhaseView::Reading { path: place.path@, directory: place.directory@ },
            None => PhaseView::Locating,
        }
    }
}

/// The load of one document with its imports.
#[derive(Debug)]
pub struct Loader {
    base: ImportStack,
    frames: Vec<Frame>,
    /// The file whose text is awaited.
    pending: Option<Located>,
    /// Whether the result was handed out.
    finished: bool,
}

/// What a list of open files is to a specification.
closed spec fn frames_view(frames: Seq<Frame>) -> Seq<FrameView> {
    Seq::new(frames.len(), |i: int| frames[i]@)
}

impl View for Loader {
    type V = LoaderView;

    closed spec fn view(&self) -> LoaderView {
        LoaderView {
            base: self.base@,
            frames: frames_view(self.frames@),
            phase: phase_of(self.pending, self.finished),
        }
    }
}

/// Reads on in the innermost open file, and in those that imported it as
/// far as each comes to its end.
fn settle_frames(base: &ImportStack, frames: &mut Vec<Frame>) -> (r: Request)
    requires
        frames_chained(base@, frames_view(old(frames)@)),
        old(frames).len() > 0,
    ensures
        frames_chained(base@, frames_view(final(frames)@)),
        (frames_view(final(frames)@), r@) == settle(frames_view(old(frames)@)),
        r@ is Locate || r@ is Finished,
{
    let ghost goal = settle(frames_view(frames@));
    loop
        invariant
            frames_chained(base@, frames_view(frames@)),
            frames.len() > 0,
            settle(frames_view(frames@)) == goal,
            goal == settle(frames_view(old(frames)@)),
        decreases frames.len(),
    {
        let ghost before = frames_view(frames@);
        let mut frame = frames.pop().unwrap();
        let ghost rest = frames_view(frames@);
        assert(rest =~= before.drop_last());
        assert(frame@ == before.last());
        match frame.parser.advance(&mut frame.ctx) {
            Some(path) => {
                let directory = frame.ctx.current_dir.clone();
                let ghost moved = frame@;
                frames.push(frame);
                proof {
                    let after = frames_view(frames@);
                    assert(after =~= rest.push(moved));
                    assert forall|k: int| 0 <= k < after.len() implies same_file(
                        #[trigger] after[k],
                        before[k],
                    ) by {}
                    lemma_chained_same_files(base@, before, after);
                }
                return Request::Locate { directory: Some(directory), path };
            },
            None => {
                let root = frame.parser.into_root();
                if frames.len() == 0 {
                    proof {
                        assert(frames_view(frames@) =~= Seq::<FrameView>::empty());
                        lemma_chained_without_frames(base@, before);
                    }
                    return Request::Finished(Ok(LaCoNValue::Dictionary(root)));
                }
                let mut parent = frames.pop().unwrap();
                let ghost lower = frames_view(frames@);
                assert(lower =~= before.drop_last().drop_last());
                assert(parent@ == before[before.len() - 2]);
                parent.parser.merge_import(root);
                let ghost merged_parent = parent@;
                frames.push(parent);
                proof {
                    let after = frames_view(frames@);
                    assert(after =~= lower.push(merged_parent));
                    assert forall|k: int| 0 <= k < after.len() implies same_file(
                        #[trigger] after[k],
                        before[k],
                    ) by {}
                    lemma_chained_same_files(base@, before, after);
                }
            },
        }
    }
}

/// The files that are open with the given open files: those of the
/// innermost, or those from before the outermost.
closed spec fn open_with(base: Seq<Seq<char>>, frames: Seq<FrameView>) -> Seq<Seq<char>> {
    if frames.len() > 0 {
        frames.last().stack
    } else {
        base
    }
}

/// Opens the file at `path` with the given text, before its first line.
fn open_frame(
    base: &ImportStack,
    frames: &mut Vec<Frame>,
    path: String,
    directory: String,
    text: &str,
)
    requires
        frames_chained(base@, frames_view(old(frames)@)),
        !open_with(base@, frames_view(old(frames)@)).contains(path@),
    ensures
        final(frames).len() == old(frames).len() + 1,
        frames_chained(base@, frames_view(final(frames)@)),
        frames_view(final(frames)@) == frames_view(old(frames)@).push(
            FrameView {
                path: path@,
                directory: directory@,
                stack: open_with(base@, frames_view(old(frames)@)).push(path@),
                vars: Seq::empty(),
                lines: split_lines(text@),
                cursor: 0,
                root: Seq::empty(),
            },
        ),
{
    proof {
        reveal(frames_chained);
    }
    let n = frames.len();
    let ghost before = frames_view(frames@);
    let mut stack = if n > 0 {
        assert(before.last() == frames@[n - 1]@);
        frames[n - 1].ctx.import_stack.clone()
    } else {
        base.clone()
    };
    assert(stack@ == open_with(base@, before));
    let entered = stack.enter(path.as_str());
    let m = stack.len();
    let frame = Frame {
        path,
        ctx: ParserContext::new(directory, stack),
        parser: DocumentParser::new(text),
    };
    let ghost pushed = frame@;
    frames.push(frame);
    proof {
        let after = frames_view(frames@);
        assert(after =~= before.push(pushed));
        assert forall|k: int| 0 <= k < after.len() implies {
            &&& paths_distinct((#[trigger] after[k]).stack)
            &&& after[k].stack == (if k == 0 {
                base@
            } else {
                after[k - 1].stack
            }).push(after[k].path)
        } by {
            if k < before.len() {
                assert(before[k] == after[k]);
                if k > 0 {
                    assert(before[k - 1] == after[k - 1]);
                }
            } else if k > 0 {
                assert(before[k - 1] == after[k - 1]);
            }
        }
    }
}

impl Loader {
    /// Each open file holds, as its open files, those of the file before it
    /// and itself, and no file twice; and a file whose text is awaited is
    /// not open.
    #[verifier::type_invariant]
    spec fn well_formed(&self) -> bool {
        &&& frames_chained(self@.base, self@.frames)
        &&& self@.phase matches PhaseView::Reading { path, .. } ==> !open_files(self@).contains(
            path,
        )
    }

    /// Starts the load of the file at `path`, with the files of `open`
    /// taken to be open already. The first request is to find the file.
    pub fn begin(path: &str, open: ImportStack) -> (r: (Loader, Request))
        ensures
            r.0@ == (LoaderView { base: open@, frames: Seq::empty(), phase: PhaseView::Locating }),
            r.1@ == (RequestView::Locate { directory: None, path: path@ }),
    {
        let n = open.len();
        let frames: Vec<Frame> = Vec::new();
        proof {
            assert(frames_view(frames@) =~= Seq::<FrameView>::empty());
            lemma_chained_without_frames(open@, Seq::empty());
        }
        (
            Loader { base: open, frames, pending: None, finished: false },
            Request::Locate { directory: None, path: path.to_owned() },
        )
    }

    /// Whether the loader waits to be told where a file was found.
    pub fn awaits_location(&self) -> (r: bool)
        ensures
            r == (self@.phase is Locating),
    {
        !self.finished && self.pending.is_none()
    }

    /// Whether the loader waits for the text of a file.
    pub fn awaits_content(&self) -> (r: bool)
        ensures
            r == (self@.phase is Reading),
    {
        !self.finished && self.pending.is_some()
    }

    /// The number of open files. The open files of a loader are chained:
    /// each holds, as its open files, those of the file before it and
    /// itself, and no file twice.
    pub fn depth(&self) -> (r: usize)
        ensures
            r == self@.frames.len(),
            frames_chained(self@.base, self@.frames),
    {
        proof {
            use_type_invariant(self);
        }
        self.frames.len()
    }

    /// Whether the file at the canonical path `path` is open.
    pub fn is_open(&self, path: &str) -> (r: bool)
        ensures
            r == open_files(self@).contains(path@),
    {
        let n = self.frames.len();
        if n > 0 {
            assert(frames_view(self.frames@).last() == self.frames@[n - 1]@);
            self.frames[n - 1].ctx.import_stack.contains(path)
        } else {
            self.base.contains(path)
        }
    }

    /// Reads on in the open files, where there are any.
    fn resume(&mut self) -> (r: Request)
        requires
            old(self)@.frames.len() > 0,
            !(old(self)@.phase is Finished),
        ensures
            final(self)@.base == old(self)@.base,
            (final(self)@.frames, r@) == settle(old(self)@.frames),
            final(self)@.phase == phase_after(r@, Seq::empty(), Seq::empty()),
    {
        proof {
            use_type_invariant(&*self);
            lemma_chained_without_frames(self@.base, self@.frames);
        }
        self.pending = None;
        let mut frames: Vec<Frame> = Vec::new();
        assert(frames_view(frames@) =~= Seq::<FrameView>::empty());
        std::mem::swap(&mut frames, &mut self.frames);
        let request = settle_frames(&self.base, &mut frames);
        self.frames = frames;
        match request {
            Request::Finished(_) => {
                self.finished = true;
            },
            _ => {},
        }
        request
    }

    /// Passes over a file that cannot be had, or fails the load where that
    /// file is the outermost.
    fn fail(&mut self, error: LoadError) -> (r: Request)
        requires
            !(old(self)@.phase is Finished),
        ensures
            (final(self)@, r@) == after_failure(old(self)@, error@),
    {
        if self.frames.len() == 0 {
            proof {
                use_type_invariant(&*self);
            }
            self.finished = true;
            Request::Finished(Err(error))
        } else {
            self.resume()
        }
    }

    /// Takes the answer to [`Request::Locate`]: the canonical path and the
    /// directory of the file, or the reason why it was not found. A file
    /// that is open is not read again: its import is circular.
    pub fn located(&mut self, found: Result<Located, String>) -> (r: Request)
        requires
            old(self)@.phase is Locating,
        ensures
            (final(self)@, r@) == after_located(old(self)@, located_view(found)),
    {
        match found {
            Err(reason) => self.fail(LoadError::Unreadable(reason)),
            Ok(place) => {
                if self.is_open(place.path.as_str()) {
                    self.fail(LoadError::CircularImport(place.path))
                } else {
                    proof {
                        use_type_invariant(&*self);
                    }
                    let request = Request::Read { path: place.path.clone() };
                    self.pending = Some(place);
                    request
                }
            },
        }
    }

    /// Opens the file at `place` with the given text, and reads on.
    fn enter(&mut self, place: Located, text: &str) -> (r: Request)
        requires
            old(self)@.phase is Locating,
            !open_files(old(self)@).contains(place.path@),
        ensures
            final(self)@.base == old(self)@.base,
            (final(self)@.frames, r@) == settle(
                old(self)@.frames.push(
                    FrameView {
                        path: place.path@,
                        directory: place.directory@,
                        stack: open_files(old(self)@).push(place.path@),
                        vars: Seq::empty(),
                        lines: split_lines(text@),
                        cursor: 0,
                        root: Seq::empty(),
                    },
                ),
            ),
            final(self)@.phase == phase_after(r@, Seq::empty(), Seq::empty()),
    {
        proof {
            use_type_invariant(&*self);
            lemma_chained_without_frames(self@.base, self@.frames);
        }
        let mut frames: Vec<Frame> = Vec::new();
        assert(frames_view(frames@) =~= Seq::<FrameView>::empty());
        std::mem::swap(&mut frames, &mut self.frames);
        open_frame(&self.base, &mut frames, place.path, place.directory, text);
        let request = settle_frames(&self.base, &mut frames);
        self.frames = frames;
        match request {
            Request::Finished(_) => {
                self.finished = true;
            },
            _ => {},
        }
        request
    }

    /// Takes the answer to [`Request::Read`]: the text of the file, or the
    /// reason why it could not be read. With the text the file is open, and
    /// is read up to its first import or to its end.
    pub fn content(&mut self, text: Result<String, String>) -> (r: Request)
        requires
            old(self)@.phase is Reading,
        ensures
            (final(self)@, r@) == after_content(old(self)@, content_view(text)),
    {
        match text {
            Err(reason) => self.fail(LoadError::Unreadable(reason)),
            Ok(t) => {
                proof {
                    use_type_invariant(&*self);
                }
                let mut pending: Option<Located> = None;
                std::mem::swap(&mut pending, &mut self.pending);
                let place = pending.unwrap();
                self.enter(place, t.as_str())
            },
        }
    }
}

} // verus!
