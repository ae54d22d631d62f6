//! Listing every file of the archive, depth first.
use vstd::prelude::*;
use crate::engine::{action_view, result_view, Action, ActionView, EngineReply, EngineRequest, ReplyView, RequestView};
use crate::error::{ErrorView, ZArchiveError};
use crate::iter::{dir_lookup, open_next, open_root_start, root_label};
use crate::model::ArchiveModel;
use crate::node::ZArchiveNodeHandle;
use crate::path::{child_of, child_path};

verus! {

/// The most directories that a listing holds open at once; a deeper
/// directory ends the listing with [`ZArchiveError::TooDeep`].
pub const MAX_LIST_DEPTH: usize = 256;

/// A directory being listed.
#[derive(Debug)]
pub struct Frame {
    node: ZArchiveNodeHandle,
    path: String,
    index: u32,
    count: u32,
}

/// [`Frame`] as a value.
pub struct FrameView {
    pub node: ZArchiveNodeHandle,
    pub path: Seq<char>,
    /// The next entry to ask for.
    pub index: u32,
    /// How many entries the directory has.
    pub count: u32,
}

impl View for Frame {
    type V = FrameView;

    closed spec fn view(&self) -> FrameView {
        FrameView { node: self.node, path: self.path@, index: self.index, count: self.count }
    }
}

/// Where a listing stands.
#[derive(Debug, Clone, Copy, PartialEq, Eq, Structural)]
pub enum ListStage {
    /// Waiting for the root directory's node.
    AwaitRoot,
    /// Waiting for the number of entries of a directory whose node is known.
    AwaitCount(ZArchiveNodeHandle),
    /// Waiting for the next entry of the innermost open directory.
    AwaitEntry,
    /// Waiting for the node of a subdirectory.
    AwaitSubdir,
    /// The result has been handed out.
    Finished,
}

/// [`FileLister`] as a value.
pub struct ListerView {
    /// The open directories, outermost first.
    pub frames: Seq<FrameView>,
    /// The files found so far, in the order found.
    pub files: Seq<Seq<char>>,
    /// The path of the directory being looked up or counted.
    pub pending: Seq<char>,
    pub stage: ListStage,
}

/// A listing that waits for an entry has a directory open with entries left.
pub open spec fn lister_wf(s: ListerView) -> bool {
    s.stage == ListStage::AwaitEntry ==> s.frames.len() > 0 && s.frames.last().index
        < s.frames.last().count
}

/// A listing that has not started.
pub open spec fn list_start() -> ListerView {
    ListerView {
        frames: Seq::empty(),
        files: Seq::empty(),
        pending: Seq::empty(),
        stage: ListStage::AwaitRoot,
    }
}

/// What a listing does once the innermost directory may have no entries
/// left: it closes every finished directory from the inside out, then asks
/// for the next entry of the innermost one still open, or, when none is,
/// hands out the files found.
pub open spec fn list_settle(frames: Seq<FrameView>, files: Seq<Seq<char>>, pending: Seq<char>) -> (
    ListerView,
    ActionView<Result<Seq<Seq<char>>, ErrorView>>,
)
    decreases frames.len(),
{
    if frames.len() == 0 {
        (
            ListerView { frames, files: Seq::empty(), pending, stage: ListStage::Finished },
            ActionView::Done(Ok(files)),
        )
    } else if frames.last().index >= frames.last().count {
        list_settle(frames.drop_last(), files, pending)
    } else {
        (
            ListerView { frames, files, pending, stage: ListStage::AwaitEntry },
            ActionView::Call(
                RequestView::DirEntry { node: frames.last().node, index: frames.last().index },
            ),
        )
    }
}

/// The innermost directory moved on by one entry.
pub open spec fn step_top(frames: Seq<FrameView>) -> Seq<FrameView> {
    let top = frames.last();
    frames.update(frames.len() - 1, FrameView { index: (top.index + 1) as u32, ..top })
}

/// The next state of a listing, and what it does next, given the engine's
/// reply. A file entry adds its path; a directory entry is looked up by its
/// path and, when found, listed before the entries after it; a directory
/// that the lookup does not find is passed over.
pub open spec fn list_next(s: ListerView, r: ReplyView) -> (
    ListerView,
    ActionView<Result<Seq<Seq<char>>, ErrorView>>,
) {
    let fin = ListerView { stage: ListStage::Finished, ..s };
    match (s.stage, r) {
        (ListStage::Finished, _) => (fin, ActionView::Done(Err(ErrorView::UnexpectedReply))),
        (_, ReplyView::Failed(m)) => (fin, ActionView::Done(Err(ErrorView::Other(m)))),
        (ListStage::AwaitRoot, ReplyView::Node(n)) => if n.spec_is_valid() {
            (
                ListerView { stage: ListStage::AwaitCount(n), pending: Seq::empty(), ..s },
                ActionView::Call(RequestView::DirEntryCount { node: n }),
            )
        } else {
            (fin, ActionView::Done(Err(ErrorView::MissingFile(root_label()))))
        },
        (ListStage::AwaitCount(n), ReplyView::Count(c)) => list_settle(
            s.frames.push(FrameView { node: n, path: s.pending, index: 0, count: c }),
            s.files,
            s.pending,
        ),
        (ListStage::AwaitEntry, ReplyView::Entry(e)) => {
            let frames = step_top(s.frames);
            match e {
                None => list_settle(frames, s.files, s.pending),
                Some(e) => {
                    let p = child_path(s.frames.last().path, e.name);
                    if e.is_file {
                        list_settle(frames, s.files.push(p), s.pending)
                    } else if e.is_directory {
                        if s.frames.len() >= MAX_LIST_DEPTH {
                            (
                                ListerView { frames, stage: ListStage::Finished, ..s },
                                ActionView::Done(Err(ErrorView::TooDeep(p))),
                            )
                        } else {
                            (
                                ListerView { frames, pending: p, stage: ListStage::AwaitSubdir, ..s },
                                ActionView::Call(dir_lookup(p)),
                            )
                        }
                    } else {
                        list_settle(frames, s.files, s.pending)
                    }
                },
            }
        },
        (ListStage::AwaitSubdir, ReplyView::Node(n)) => if n.spec_is_valid() {
            (
                ListerView { stage: ListStage::AwaitCount(n), ..s },
                ActionView::Call(RequestView::DirEntryCount { node: n }),
            )
        } else {
            list_settle(s.frames, s.files, s.pending)
        },
        _ => (fin, ActionView::Done(Err(ErrorView::UnexpectedReply))),
    }
}

/// Lists the full path of every file in the archive: depth first, each
/// directory's entries in the engine's order, each subdirectory looked up
/// again by its path before it is listed.
#[derive(Debug)]
pub struct FileLister {
    frames: Vec<Frame>,
    files: Vec<String>,
    pending: String,
    stage: ListStage,
}

impl View for FileLister {
    type V = ListerView;

    closed spec fn view(&self) -> ListerView {
        ListerView {
            frames: self.frames@.map_values(|f: Frame| f@),
            files: self.files@.map_values(|s: String| s@),
            pending: self.pending@,
            stage: self.stage,
        }
    }
}

/// The view of what a listing does next.
pub open spec fn list_action_view(a: Action<Result<Vec<String>, ZArchiveError>>) -> ActionView<
    Result<Seq<Seq<char>>, ErrorView>,
> {
    action_view(
        a,
        |x: Result<Vec<String>, ZArchiveError>|
            match x {
                Ok(v) => Ok(v@.map_values(|s: String| s@)),
                Err(e) => Err(e@),
            },
    )
}

impl FileLister {
    /// A listing, and its first call: the lookup of the root directory.
    pub fn new() -> (r: (FileLister, EngineRequest))
        ensures
            r.0@ == list_start(),
            lister_wf(r.0@),
            r.1@ == dir_lookup(Seq::empty()),
    {
        let lister = FileLister {
            frames: Vec::new(),
            files: Vec::new(),
            pending: String::new(),
            stage: ListStage::AwaitRoot,
        };
        proof {
            assert(lister@.frames =~= Seq::empty());
            assert(lister@.files =~= Seq::empty());
        }
        (
            lister,
            EngineRequest::LookUp { path: String::new(), allow_file: false, allow_directory: true },
        )
    }

    fn settle(&mut self) -> (a: Action<Result<Vec<String>, ZArchiveError>>)
        ensures
            (final(self)@, list_action_view(a)) == list_settle(
                old(self)@.frames,
                old(self)@.files,
                old(self)@.pending,
            ),
            lister_wf(final(self)@),
    {
        self.stage = ListStage::Finished;
        while self.frames.len() > 0 && self.frames[self.frames.len() - 1].index
            >= self.frames[self.frames.len() - 1].count
            invariant
                self.stage == ListStage::Finished,
                self@.files == old(self)@.files,
                self@.pending == old(self)@.pending,
                list_settle(self@.frames, self@.files, self@.pending) == list_settle(
                    old(self)@.frames,
                    old(self)@.files,
                    old(self)@.pending,
                ),
            decreases self.frames@.len(),
        {
            let ghost before = self@.frames;
            self.frames.pop();
            proof {
                assert(self@.frames =~= before.drop_last());
            }
        }
        if self.frames.len() == 0 {
            let mut out = Vec::new();
            std::mem::swap(&mut out, &mut self.files);
            proof {
                assert(self@.files =~= Seq::<Seq<char>>::empty());
            }
            Action::Done(Ok(out))
        } else {
            let top = &self.frames[self.frames.len() - 1];
            let req = EngineRequest::DirEntry { node: top.node, index: top.index };
            self.stage = ListStage::AwaitEntry;
            Action::Call(req)
        }
    }

    /// Hands the engine's reply to the listing; returns its next call or its
    /// result.
    pub fn resume(&mut self, reply: EngineReply) -> (a: Action<Result<Vec<String>, ZArchiveError>>)
        requires
            lister_wf(old(self)@),
        ensures
            (final(self)@, list_action_view(a)) == list_next(old(self)@, reply@),
            lister_wf(final(self)@),
    {
        let stage = self.stage;
        self.stage = ListStage::Finished;
        match (stage, reply) {
            (ListStage::Finished, _) => Action::Done(Err(ZArchiveError::UnexpectedReply)),
            (_, EngineReply::Failed(m)) => Action::Done(Err(ZArchiveError::Other(m))),
            (ListStage::AwaitRoot, EngineReply::Node(n)) => if n.is_valid() {
                self.pending = String::new();
                self.stage = ListStage::AwaitCount(n);
                Action::Call(EngineRequest::DirEntryCount { node: n })
            } else {
                Action::Done(Err(ZArchiveError::MissingFile(String::from_str("archive root"))))
            },
            (ListStage::AwaitCount(n), EngineReply::Count(c)) => {
                let ghost before = self@.frames;
                let path = self.pending.clone();
                let f = Frame { node: n, path, index: 0, count: c };
                let ghost fv = f@;
                self.frames.push(f);
                proof {
                    assert(self@.frames =~= before.push(fv));
                }
                self.settle()
            },
            (ListStage::AwaitEntry, EngineReply::Entry(e)) => {
                let ghost before = self@.frames;
                let depth = self.frames.len();
                let mut top = self.frames.pop().unwrap();
                top.index = top.index + 1;
                // The entry's path, while the directory's own path is at hand.
                let found = match e {
                    Some(info) => {
                        let p = child_of(top.path.as_str(), info.name.as_str());
                        Some((info, p))
                    },
                    None => None,
                };
                self.frames.push(top);
                proof {
                    assert(self@.frames =~= step_top(before));
                }
                match found {
                    None => self.settle(),
                    Some((info, p)) => if info.is_file {
                        self.files.push(p);
                        proof {
                            assert(self@.files =~= old(self)@.files.push(p@));
                        }
                        self.settle()
                    } else if info.is_directory {
                        if depth >= MAX_LIST_DEPTH {
                            Action::Done(Err(ZArchiveError::TooDeep(p)))
                        } else {
                            let req = EngineRequest::LookUp {
                                path: p.clone(),
                                allow_file: false,
                                allow_directory: true,
                            };
                            self.pending = p;
                            self.stage = ListStage::AwaitSubdir;
                            Action::Call(req)
                        }
                    } else {
                        self.settle()
                    },
                }
            },
            (ListStage::AwaitSubdir, EngineReply::Node(n)) => if n.is_valid() {
                self.stage = ListStage::AwaitCount(n);
                Action::Call(EngineRequest::DirEntryCount { node: n })
            } else {
                self.settle()
            },
            _ => Action::Done(Err(ZArchiveError::UnexpectedReply)),
        }
    }
}


/// A container whose root directory cannot be resolved neither lists nor
/// walks: both the listing and the opening of the root fail with
/// [`ZArchiveError::MissingFile`] at their first reply.
pub proof fn lemma_missing_root_is_not_found(m: ArchiveModel)
    requires
        !m.is_dir_at(Seq::empty()),
    ensures
        list_next(list_start(), m.serve(dir_lookup(Seq::empty()))).1 == ActionView::<
            Result<Seq<Seq<char>>, ErrorView>,
        >::Done(Err(ErrorView::MissingFile(root_label()))),
        open_next(open_root_start(), m.serve(dir_lookup(Seq::empty()))).1 == ActionView::<
            Result<ZArchiveNodeHandle, ErrorView>,
        >::Done(Err(ErrorView::MissingFile(root_label()))),
{
}


/// The file paths under the entries of the directory `node`, whose path is
/// `path`, from index `i` on: depth first, in the engine's order, descending
/// at most `budget` levels. A directory entry that no directory of the
/// archive backs adds nothing.
pub open spec fn files_from(
    m: ArchiveModel,
    path: Seq<char>,
    node: ZArchiveNodeHandle,
    i: int,
    budget: nat,
) -> Seq<Seq<char>>
    decreases budget, m.nodes[node].entries.len() - i,
{
    let es = m.nodes[node].entries;
    if i < 0 || i >= es.len() {
        Seq::empty()
    } else {
        let e = es[i];
        let p = child_path(path, e.name);
        let here = if e.is_file {
            seq![p]
        } else if e.is_directory && m.is_dir_at(p) && budget > 0 {
            files_from(m, p, m.paths[p], 0, (budget - 1) as nat)
        } else {
            Seq::empty()
        };
        here + files_from(m, path, node, i + 1, budget)
    }
}

/// Whether every directory entry under the entries of `node` from index `i`
/// on lies within `budget` levels below it.
pub open spec fn fits(m: ArchiveModel, path: Seq<char>, node: ZArchiveNodeHandle, i: int, budget: nat) -> bool
    decreases budget, m.nodes[node].entries.len() - i,
{
    let es = m.nodes[node].entries;
    if i < 0 || i >= es.len() {
        true
    } else {
        let e = es[i];
        let p = child_path(path, e.name);
        &&& (!e.is_file && e.is_directory) ==> budget > 0 && (m.is_dir_at(p) ==> fits(
            m,
            p,
            m.paths[p],
            0,
            (budget - 1) as nat,
        ))
        &&& fits(m, path, node, i + 1, budget)
    }
}

/// An upper bound on the calls that listing the entries of `node` from `i`
/// on takes.
pub open spec fn steps_from(
    m: ArchiveModel,
    path: Seq<char>,
    node: ZArchiveNodeHandle,
    i: int,
    budget: nat,
) -> nat
    decreases budget, m.nodes[node].entries.len() - i,
{
    let es = m.nodes[node].entries;
    if i < 0 || i >= es.len() {
        0
    } else {
        let e = es[i];
        let p = child_path(path, e.name);
        let here: nat = if !e.is_file && e.is_directory && m.is_dir_at(p) && budget > 0 {
            1 + steps_from(m, p, m.paths[p], 0, (budget - 1) as nat)
        } else {
            0
        };
        1 + here + steps_from(m, path, node, i + 1, budget)
    }
}

/// The levels that the innermost of `frames` open directories may still
/// descend.
pub open spec fn budget_of(frames: Seq<FrameView>) -> nat {
    (MAX_LIST_DEPTH - frames.len()) as nat
}

/// The files that the open directories have still to give, innermost first.
pub open spec fn files_left(m: ArchiveModel, frames: Seq<FrameView>) -> Seq<Seq<char>>
    decreases frames.len(),
{
    if frames.len() == 0 {
        Seq::empty()
    } else {
        let f = frames.last();
        files_from(m, f.path, f.node, f.index as int, budget_of(frames)) + files_left(
            m,
            frames.drop_last(),
        )
    }
}

/// The calls that the open directories have still to make, at most.
pub open spec fn steps_left(m: ArchiveModel, frames: Seq<FrameView>) -> nat
    decreases frames.len(),
{
    if frames.len() == 0 {
        0
    } else {
        let f = frames.last();
        steps_from(m, f.path, f.node, f.index as int, budget_of(frames)) + steps_left(
            m,
            frames.drop_last(),
        )
    }
}

/// Each open directory is the one at its path, with the engine's count of
/// entries, and what is left of it lies within the levels it may descend.
pub open spec fn frames_agree(m: ArchiveModel, frames: Seq<FrameView>) -> bool {
    &&& frames.len() <= MAX_LIST_DEPTH
    &&& forall|j: int|
        0 <= j < frames.len() ==> {
            let f = #[trigger] frames[j];
            &&& m.is_dir_at(f.path)
            &&& f.node == m.paths[f.path]
            &&& f.count == m.nodes[f.node].entries.len()
            &&& f.index <= f.count
            &&& fits(m, f.path, f.node, f.index as int, (MAX_LIST_DEPTH - 1 - j) as nat)
        }
}

/// The result of a listing in state `s` that makes the call `req` and talks
/// to an engine that answers as `m` says, if it ends within `fuel` further
/// calls.
pub open spec fn run_list(m: ArchiveModel, s: ListerView, req: RequestView, fuel: nat) -> Option<
    Result<Seq<Seq<char>>, ErrorView>,
>
    decreases fuel,
{
    let (s2, a) = list_next(s, m.serve(req));
    match a {
        ActionView::Done(v) => Some(v),
        ActionView::Call(r2) => if fuel == 0 {
            None
        } else {
            run_list(m, s2, r2, (fuel - 1) as nat)
        },
    }
}

/// The result of a listing that has just done `sa`, within `fuel` further
/// calls.
pub open spec fn run_from(
    m: ArchiveModel,
    sa: (ListerView, ActionView<Result<Seq<Seq<char>>, ErrorView>>),
    fuel: nat,
) -> Option<Result<Seq<Seq<char>>, ErrorView>> {
    match sa.1 {
        ActionView::Done(v) => Some(v),
        ActionView::Call(req) => run_list(m, sa.0, req, fuel),
    }
}

proof fn lemma_files_left_step(m: ArchiveModel, frames: Seq<FrameView>)
    requires
        m.wf(),
        frames_agree(m, frames),
        frames.len() > 0,
        frames.last().index < frames.last().count,
    ensures
        frames_agree(m, step_top(frames)),
        ({
            let f = frames.last();
            let e = m.nodes[f.node].entries[f.index as int];
            let p = child_path(f.path, e.name);
            let rest = files_left(m, step_top(frames));
            let b = budget_of(frames);
            let n = m.paths[p];
            &&& step_top(frames).drop_last() == frames.drop_last()
            &&& budget_of(step_top(frames)) == b
            &&& e.is_file ==> files_left(m, frames) == seq![p] + rest
            &&& !e.is_file && e.is_directory ==> b > 0 && frames.len() < MAX_LIST_DEPTH
            &&& !e.is_file && e.is_directory && m.is_dir_at(p) ==> files_left(m, frames)
                == files_from(m, p, n, 0, (b - 1) as nat) + rest && fits(
                m,
                p,
                n,
                0,
                (b - 1) as nat,
            ) && steps_from(m, p, n, 0, (b - 1) as nat) + steps_left(m, step_top(frames))
                < steps_left(m, frames)
            &&& !e.is_file && !(e.is_directory && m.is_dir_at(p)) ==> files_left(m, frames)
                == rest
            &&& steps_left(m, step_top(frames)) < steps_left(m, frames)
        }),
{
    let f = frames.last();
    let j = frames.len() - 1;
    let t = step_top(frames);
    assert(frames[j] == f);
    assert(t.drop_last() =~= frames.drop_last());
    assert(t.last() == FrameView { index: (f.index + 1) as u32, ..f });
    assert forall|k: int| 0 <= k < t.len() implies {
        let g = #[trigger] t[k];
        &&& m.is_dir_at(g.path)
        &&& g.node == m.paths[g.path]
        &&& g.count == m.nodes[g.node].entries.len()
        &&& g.index <= g.count
        &&& fits(m, g.path, g.node, g.index as int, (MAX_LIST_DEPTH - 1 - k) as nat)
    } by {
        assert(frames[k] == frames[k]);
        if k == j {
            assert(fits(m, f.path, f.node, f.index as int, (MAX_LIST_DEPTH - 1 - j) as nat));
        }
    }
    let e = m.nodes[f.node].entries[f.index as int];
    let p = child_path(f.path, e.name);
    let b = budget_of(frames);
    assert(b == (MAX_LIST_DEPTH - 1 - j) as nat);
    assert(fits(m, f.path, f.node, f.index as int, b));
    if e.is_file {
        assert(files_from(m, f.path, f.node, f.index as int, b) == seq![p] + files_from(
            m,
            f.path,
            f.node,
            f.index + 1,
            b,
        ));
        assert(files_left(m, frames) =~= seq![p] + files_left(m, t));
    } else if e.is_directory && m.is_dir_at(p) {
        assert(files_left(m, frames) =~= files_from(m, p, m.paths[p], 0, (b - 1) as nat)
            + files_left(m, t));
    } else {
        assert(files_left(m, frames) =~= files_left(m, t));
    }
}

proof fn lemma_settle_gives_files_left(
    m: ArchiveModel,
    frames: Seq<FrameView>,
    files: Seq<Seq<char>>,
    pending: Seq<char>,
) -> (fuel: nat)
    requires
        m.wf(),
        frames_agree(m, frames),
    ensures
        run_from(m, list_settle(frames, files, pending), fuel) == Some(
            Ok::<Seq<Seq<char>>, ErrorView>(files + files_left(m, frames)),
        ),
    decreases steps_left(m, frames), frames.len(),
{
    if frames.len() == 0 {
        assert(files + files_left(m, frames) =~= files);
        0
    } else if frames.last().index >= frames.last().count {
        let j = frames.len() - 1;
        assert(frames[j] == frames.last());
        assert(files_left(m, frames) =~= files_left(m, frames.drop_last()));
        assert(steps_left(m, frames) == steps_left(m, frames.drop_last()));
        lemma_settle_gives_files_left(m, frames.drop_last(), files, pending)
    } else {
        let j = frames.len() - 1;
        assert(frames[j] == frames.last());
        let f = frames.last();
        let e = m.nodes[f.node].entries[f.index as int];
        let p = child_path(f.path, e.name);
        let t = step_top(frames);
        lemma_files_left_step(m, frames);
        let s2 = ListerView { frames, files, pending, stage: ListStage::AwaitEntry };
        let req = RequestView::DirEntry { node: f.node, index: f.index };
        assert(m.nodes.contains_key(f.node));
        assert(m.serve(req) == ReplyView::Entry(Some(e)));
        if e.is_file {
            let fuel = lemma_settle_gives_files_left(m, t, files.push(p), pending);
            assert(files.push(p) + files_left(m, t) =~= files + files_left(m, frames));
            reveal_with_fuel(run_list, 2);
            fuel + 1
        } else if e.is_directory {
            let s3 = ListerView { frames: t, pending: p, stage: ListStage::AwaitSubdir, ..s2 };
            if m.is_dir_at(p) {
                let n = m.paths[p];
                let b = budget_of(frames);
                assert(m.nodes.contains_key(n));
                let c = m.nodes[n].entries.len() as u32;
                let g = FrameView { node: n, path: p, index: 0, count: c };
                let t2 = t.push(g);
                assert(t2.drop_last() =~= t);
                assert(t2.last() == g);
                assert(budget_of(t2) == (b - 1) as nat);
                assert forall|k: int| 0 <= k < t2.len() implies {
                    let h = #[trigger] t2[k];
                    &&& m.is_dir_at(h.path)
                    &&& h.node == m.paths[h.path]
                    &&& h.count == m.nodes[h.node].entries.len()
                    &&& h.index <= h.count
                    &&& fits(m, h.path, h.node, h.index as int, (MAX_LIST_DEPTH - 1 - k) as nat)
                } by {
                    if k < t.len() {
                        assert(t2[k] == t[k]);
                    }
                }
                assert(files_left(m, t2) == files_from(m, p, n, 0, (b - 1) as nat) + files_left(
                    m,
                    t,
                ));
                assert(steps_left(m, t2) == steps_from(m, p, n, 0, (b - 1) as nat) + steps_left(
                    m,
                    t,
                ));
                let fuel = lemma_settle_gives_files_left(m, t2, files, p);
                assert(files + files_left(m, t2) =~= files + files_left(m, frames));
                reveal_with_fuel(run_list, 4);
                fuel + 3
            } else {
                let fuel = lemma_settle_gives_files_left(m, t, files, p);
                reveal_with_fuel(run_list, 3);
                fuel + 2
            }
        } else {
            let fuel = lemma_settle_gives_files_left(m, t, files, pending);
            reveal_with_fuel(run_list, 2);
            fuel + 1
        }
    }
}

/// Against an engine that presents a finite tree no deeper than the listing
/// follows, the listing ends, and ends with exactly the paths of the files of
/// that tree, depth first and in the engine's order of entries.
pub proof fn lemma_listing_gives_every_file(m: ArchiveModel)
    requires
        m.wf(),
        m.is_dir_at(Seq::empty()),
        fits(m, Seq::empty(), m.paths[Seq::empty()], 0, (MAX_LIST_DEPTH - 1) as nat),
    ensures
        exists|fuel: nat|
            run_list(m, list_start(), dir_lookup(Seq::empty()), fuel) == Some(
                Ok::<Seq<Seq<char>>, ErrorView>(
                    files_from(
                        m,
                        Seq::empty(),
                        m.paths[Seq::empty()],
                        0,
                        (MAX_LIST_DEPTH - 1) as nat,
                    ),
                ),
            ),
{
    let root = m.paths[Seq::empty()];
    assert(m.nodes.contains_key(root));
    let c = m.nodes[root].entries.len() as u32;
    let g = FrameView { node: root, path: Seq::empty(), index: 0, count: c };
    let frames = seq![g];
    assert(frames.drop_last() =~= Seq::<FrameView>::empty());
    assert(frames[0] == g);
    assert(frames.last() == g);
    assert(files_left(m, frames.drop_last()) == Seq::<Seq<char>>::empty());
    assert(budget_of(frames) == (MAX_LIST_DEPTH - 1) as nat);
    let fuel = lemma_settle_gives_files_left(m, frames, Seq::empty(), Seq::empty());
    let want = files_from(m, Seq::empty(), root, 0, (MAX_LIST_DEPTH - 1) as nat);
    assert(files_left(m, frames) =~= want);
    assert(Seq::<Seq<char>>::empty() + files_left(m, frames) =~= want);
    assert(Seq::<FrameView>::empty().push(g) =~= frames);
    let s0 = list_start();
    let s1 = ListerView { stage: ListStage::AwaitCount(root), pending: Seq::empty(), ..s0 };
    assert(m.serve(dir_lookup(Seq::empty())) == ReplyView::Node(root));
    assert(list_next(s0, ReplyView::Node(root)) == (
        s1,
        ActionView::<Result<Seq<Seq<char>>, ErrorView>>::Call(
            RequestView::DirEntryCount { node: root },
        ),
    ));
    assert(m.serve(RequestView::DirEntryCount { node: root }) == ReplyView::Count(c));
    assert(list_next(s1, ReplyView::Count(c)) == list_settle(frames, Seq::empty(), Seq::empty()));
    reveal_with_fuel(run_list, 3);
    assert(run_list(m, s1, RequestView::DirEntryCount { node: root }, fuel + 1) == Some(
        Ok::<Seq<Seq<char>>, ErrorView>(want),
    ));
    assert(run_list(m, s0, dir_lookup(Seq::empty()), fuel + 2) == Some(
        Ok::<Seq<Seq<char>>, ErrorView>(want),
    ));
}

} // verus!
