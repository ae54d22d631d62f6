//! Opening a directory, counting its entries, and walking it one entry at a
//! time.
use vstd::prelude::*;
use crate::engine::{action_view, result_view, Action, ActionView, EngineReply, EngineRequest, EntryView, ReplyView, RequestView};
use crate::entry::{DirEntry, DirEntryView};
use crate::error::{ErrorView, ZArchiveError};
use crate::model::ArchiveModel;
use crate::node::ZArchiveNodeHandle;
use crate::parent::{parent_items, parent_new, ParentPath};

verus! {

/// The lookup that opens the directory at a path.
pub open spec fn dir_lookup(path: Seq<char>) -> RequestView {
    RequestView::LookUp { path, allow_file: false, allow_directory: true }
}

/// How a missing archive root is named in the error.
pub open spec fn root_label() -> Seq<char> {
    "archive root"@
}

/// An opening of the archive's root directory that has not started.
pub open spec fn open_root_start() -> DirOpenView {
    DirOpenView { path: Seq::empty(), label: root_label(), is_directory: true, finished: false }
}

/// [`DirOpen`] as a value.
pub struct DirOpenView {
    pub path: Seq<char>,
    /// How the directory is named if it is missing.
    pub label: Seq<char>,
    /// Whether the entry being opened says it is a directory.
    pub is_directory: bool,
    pub finished: bool,
}

/// The next state of an opening, and what it does next, given the engine's
/// reply.
pub open spec fn open_next(s: DirOpenView, r: ReplyView) -> (
    DirOpenView,
    ActionView<Result<ZArchiveNodeHandle, ErrorView>>,
) {
    let fin = DirOpenView { finished: true, ..s };
    (
        fin,
        ActionView::Done(
            if s.finished {
                Err(ErrorView::UnexpectedReply)
            } else {
                match r {
                    ReplyView::Failed(m) => Err(ErrorView::Other(m)),
                    ReplyView::Node(n) => if !s.is_directory {
                        Err(ErrorView::NotADirectory(s.path))
                    } else if !n.spec_is_valid() {
                        Err(ErrorView::MissingFile(s.label))
                    } else {
                        Ok(n)
                    },
                    _ => Err(ErrorView::UnexpectedReply),
                }
            },
        ),
    )
}

/// Resolves a directory to its node: the archive root, or a directory entry
/// met while walking. An entry that is not a directory is reported as
/// [`ZArchiveError::NotADirectory`], whatever the lookup found; a directory
/// that the lookup does not find, as [`ZArchiveError::MissingFile`].
#[derive(Debug)]
pub struct DirOpen {
    path: String,
    label: String,
    is_directory: bool,
    finished: bool,
}

impl View for DirOpen {
    type V = DirOpenView;

    closed spec fn view(&self) -> DirOpenView {
        DirOpenView {
            path: self.path@,
            label: self.label@,
            is_directory: self.is_directory,
            finished: self.finished,
        }
    }
}

/// The view of what an opening does next.
pub open spec fn open_action_view(a: Action<Result<ZArchiveNodeHandle, ZArchiveError>>) -> ActionView<
    Result<ZArchiveNodeHandle, ErrorView>,
> {
    action_view(a, |x: Result<ZArchiveNodeHandle, ZArchiveError>| result_view(x))
}

impl DirOpen {
    /// Opens the archive's root directory, whose path is empty.
    pub fn root() -> (r: (DirOpen, EngineRequest))
        ensures
            r.0@ == open_root_start(),
            r.1@ == dir_lookup(Seq::empty()),
    {
        let label = String::from_str("archive root");
        (
            DirOpen { path: String::new(), label, is_directory: true, finished: false },
            EngineRequest::LookUp { path: String::new(), allow_file: false, allow_directory: true },
        )
    }

    /// Opens the directory that `dir` names, looked up by its full path.
    pub fn entry(dir: &DirEntry) -> (r: (DirOpen, EngineRequest))
        ensures
            r.0@ == (DirOpenView {
                path: dir@.full_path(),
                label: dir@.full_path(),
                is_directory: dir@.is_directory,
                finished: false,
            }),
            r.1@ == dir_lookup(dir@.full_path()),
    {
        let path = dir.full_path();
        let label = path.clone();
        let req = EngineRequest::LookUp {
            path: path.clone(),
            allow_file: false,
            allow_directory: true,
        };
        (DirOpen { path, label, is_directory: dir.is_dir(), finished: false }, req)
    }

    /// Hands the engine's reply to the opening; returns its result.
    pub fn resume(&mut self, reply: EngineReply) -> (a: Action<
        Result<ZArchiveNodeHandle, ZArchiveError>,
    >)
        ensures
            (final(self)@, open_action_view(a)) == open_next(old(self)@, reply@),
    {
        let was_finished = self.finished;
        self.finished = true;
        if was_finished {
            return Action::Done(Err(ZArchiveError::UnexpectedReply));
        }
        match reply {
            EngineReply::Failed(m) => Action::Done(Err(ZArchiveError::Other(m))),
            EngineReply::Node(n) => if !self.is_directory {
                Action::Done(Err(ZArchiveError::NotADirectory(self.path.clone())))
            } else if !n.is_valid() {
                Action::Done(Err(ZArchiveError::MissingFile(self.label.clone())))
            } else {
                Action::Done(Ok(n))
            },
            _ => Action::Done(Err(ZArchiveError::UnexpectedReply)),
        }
    }
}

/// [`DirCount`] as a value.
pub struct DirCountView {
    pub node: ZArchiveNodeHandle,
    pub finished: bool,
}

/// The next state of a count, and what it does next, given the engine's reply.
pub open spec fn count_next(s: DirCountView, r: ReplyView) -> (
    DirCountView,
    ActionView<Result<usize, ErrorView>>,
) {
    (
        DirCountView { finished: true, ..s },
        ActionView::Done(
            match (s.finished, r) {
                (false, ReplyView::Count(c)) => Ok(c as usize),
                (false, ReplyView::Failed(m)) => Err(ErrorView::Other(m)),
                _ => Err(ErrorView::UnexpectedReply),
            },
        ),
    )
}

/// Counts the entries of an opened directory.
#[derive(Debug)]
pub struct DirCount {
    node: ZArchiveNodeHandle,
    finished: bool,
}

impl View for DirCount {
    type V = DirCountView;

    closed spec fn view(&self) -> DirCountView {
        DirCountView { node: self.node, finished: self.finished }
    }
}

/// The view of what a count does next.
pub open spec fn count_action_view(a: Action<Result<usize, ZArchiveError>>) -> ActionView<
    Result<usize, ErrorView>,
> {
    action_view(a, |x: Result<usize, ZArchiveError>| result_view(x))
}

impl DirCount {
    /// A count of the entries of `node`, and the call it makes.
    pub fn new(node: ZArchiveNodeHandle) -> (r: (DirCount, EngineRequest))
        ensures
            r.0@ == (DirCountView { node, finished: false }),
            r.1@ == (RequestView::DirEntryCount { node }),
    {
        (DirCount { node, finished: false }, EngineRequest::DirEntryCount { node })
    }

    /// Hands the engine's reply to the count; returns its result.
    pub fn resume(&mut self, reply: EngineReply) -> (a: Action<Result<usize, ZArchiveError>>)
        ensures
            (final(self)@, count_action_view(a)) == count_next(old(self)@, reply@),
    {
        let was_finished = self.finished;
        self.finished = true;
        Action::Done(
            match (was_finished, reply) {
                (false, EngineReply::Count(c)) => Ok(c as usize),
                (false, EngineReply::Failed(m)) => Err(ZArchiveError::Other(m)),
                _ => Err(ZArchiveError::UnexpectedReply),
            },
        )
    }
}


/// Where a directory walk stands.
#[derive(Debug, Clone, Copy, PartialEq, Eq, Structural)]
pub enum IterStage {
    /// Between entries.
    Idle,
    /// Waiting for the number of entries.
    AwaitCount,
    /// Waiting for the entry at the current index.
    AwaitEntry,
    /// No more entries will come.
    Ended,
}

/// [`DirIter`] as a value.
pub struct DirIterView {
    pub node: ZArchiveNodeHandle,
    /// The directories above the entries that this walk yields.
    pub parent: Seq<Seq<char>>,
    pub index: u32,
    pub count: u32,
    pub started: bool,
    pub stage: IterStage,
}

/// A walk over the directory `node` whose entries have `parent` above them.
pub open spec fn iter_start(node: ZArchiveNodeHandle, parent: Seq<Seq<char>>) -> DirIterView {
    DirIterView { node, parent, index: 0, count: 0, started: false, stage: IterStage::Idle }
}

/// What asking for the next entry does: the first time it asks how many
/// entries there are; then it asks for the entry at the current index until
/// the index reaches the count.
pub open spec fn iter_advance(s: DirIterView) -> (DirIterView, ActionView<Option<DirEntryView>>) {
    if s.stage == IterStage::Ended {
        (s, ActionView::Done(None))
    } else if !s.started {
        (
            DirIterView { stage: IterStage::AwaitCount, ..s },
            ActionView::Call(RequestView::DirEntryCount { node: s.node }),
        )
    } else if s.index >= s.count {
        (DirIterView { stage: IterStage::Ended, ..s }, ActionView::Done(None))
    } else {
        (
            DirIterView { stage: IterStage::AwaitEntry, ..s },
            ActionView::Call(RequestView::DirEntry { node: s.node, index: s.index }),
        )
    }
}

/// The entry that the engine reported, below `parent`.
pub open spec fn entry_below(e: EntryView, parent: Seq<Seq<char>>) -> DirEntryView {
    DirEntryView {
        name: e.name,
        is_file: e.is_file,
        is_directory: e.is_directory,
        size: e.size,
        parent,
    }
}

/// The next state of a walk, and what it does next, given the engine's reply.
/// A failure, a missing entry or a reply of the wrong kind ends the walk.
pub open spec fn iter_resume(s: DirIterView, r: ReplyView) -> (
    DirIterView,
    ActionView<Option<DirEntryView>>,
) {
    match (s.stage, r) {
        (IterStage::AwaitCount, ReplyView::Count(c)) => iter_advance(
            DirIterView { started: true, count: c, stage: IterStage::Idle, ..s },
        ),
        (IterStage::AwaitEntry, ReplyView::Entry(Some(e))) => (
            DirIterView { index: (s.index + 1) as u32, stage: IterStage::Idle, ..s },
            ActionView::Done(Some(entry_below(e, s.parent))),
        ),
        _ => (DirIterView { stage: IterStage::Ended, ..s }, ActionView::Done(None)),
    }
}

/// Walks the entries of one directory in the engine's order, one entry at a
/// time. Each call of [`DirIter::next`] either yields at once or names one
/// engine call, whose reply goes to [`DirIter::resume`].
#[derive(Debug)]
pub struct DirIter {
    node: ZArchiveNodeHandle,
    parent: ParentPath,
    index: u32,
    count: u32,
    started: bool,
    stage: IterStage,
}

impl View for DirIter {
    type V = DirIterView;

    closed spec fn view(&self) -> DirIterView {
        DirIterView {
            node: self.node,
            parent: parent_items(self.parent),
            index: self.index,
            count: self.count,
            started: self.started,
            stage: self.stage,
        }
    }
}

/// The view of what a walk does next.
pub open spec fn iter_action_view(a: Action<Option<DirEntry>>) -> ActionView<Option<DirEntryView>> {
    action_view(
        a,
        |x: Option<DirEntry>|
            match x {
                Some(e) => Some(e@),
                None => None,
            },
    )
}

impl DirIter {
    #[verifier::type_invariant]
    spec fn inv(&self) -> bool {
        self.stage == IterStage::AwaitEntry ==> self.index < self.count
    }

    /// A walk over the archive's root directory, found at `node`.
    pub fn root(node: ZArchiveNodeHandle) -> (r: DirIter)
        ensures
            r@ == iter_start(node, Seq::empty()),
    {
        DirIter {
            node,
            parent: parent_new(),
            index: 0,
            count: 0,
            started: false,
            stage: IterStage::Idle,
        }
    }

    /// A walk over the directory `dir`, found at `node`; it fails when `dir`
    /// is not a directory.
    pub fn children(node: ZArchiveNodeHandle, dir: &DirEntry) -> (r: Result<DirIter, ZArchiveError>)
        ensures
            !dir@.is_directory ==> result_view(r) == Err::<DirIterView, ErrorView>(
                ErrorView::NotADirectory(dir@.full_path()),
            ),
            dir@.is_directory ==> result_view(r) == Ok::<DirIterView, ErrorView>(
                iter_start(node, dir@.child_parent()),
            ),
    {
        match dir.child_parent() {
            Some(parent) => Ok(
                DirIter { node, parent, index: 0, count: 0, started: false, stage: IterStage::Idle },
            ),
            None => Err(ZArchiveError::NotADirectory(dir.full_path())),
        }
    }

    /// Asks for the next entry: yields `None` once the walk is over, or names
    /// the engine call to make.
    pub fn next(&mut self) -> (a: Action<Option<DirEntry>>)
        ensures
            (final(self)@, iter_action_view(a)) == iter_advance(old(self)@),
    {
        self.advance()
    }

    fn advance(&mut self) -> (a: Action<Option<DirEntry>>)
        ensures
            (final(self)@, iter_action_view(a)) == iter_advance(old(self)@),
    {
        if self.stage == IterStage::Ended {
            Action::Done(None)
        } else if !self.started {
            self.stage = IterStage::AwaitCount;
            Action::Call(EngineRequest::DirEntryCount { node: self.node })
        } else if self.index >= self.count {
            self.stage = IterStage::Ended;
            Action::Done(None)
        } else {
            self.stage = IterStage::AwaitEntry;
            Action::Call(EngineRequest::DirEntry { node: self.node, index: self.index })
        }
    }

    /// Hands the engine's reply to the walk; returns its next call or the
    /// entry it yields.
    pub fn resume(&mut self, reply: EngineReply) -> (a: Action<Option<DirEntry>>)
        ensures
            (final(self)@, iter_action_view(a)) == iter_resume(old(self)@, reply@),
    {
        proof {
            use_type_invariant(&*self);
        }
        match (self.stage, reply) {
            (IterStage::AwaitCount, EngineReply::Count(c)) => {
                self.started = true;
                self.count = c;
                self.stage = IterStage::Idle;
                self.advance()
            },
            (IterStage::AwaitEntry, EngineReply::Entry(Some(info))) => {
                let e = DirEntry::from_info(info, &self.parent);
                self.stage = IterStage::Idle;
                self.index = self.index + 1;
                Action::Done(Some(e))
            },
            _ => {
                self.stage = IterStage::Ended;
                Action::Done(None)
            },
        }
    }
}


/// The state of a walk that talks to an engine answering as `m` says, and
/// what it yields, once the action `sa` has been followed for at most `fuel`
/// further calls.
pub open spec fn run_walk(
    m: ArchiveModel,
    sa: (DirIterView, ActionView<Option<DirEntryView>>),
    fuel: nat,
) -> Option<(DirIterView, Option<DirEntryView>)>
    decreases fuel,
{
    match sa.1 {
        ActionView::Done(v) => Some((sa.0, v)),
        ActionView::Call(req) => if fuel == 0 {
            None
        } else {
            run_walk(m, iter_resume(sa.0, m.serve(req)), (fuel - 1) as nat)
        },
    }
}

/// A walk of the directory `node`, below `parent`, after it has yielded `k`
/// of the directory's `len` entries.
pub open spec fn walked(node: ZArchiveNodeHandle, parent: Seq<Seq<char>>, k: nat, len: nat) -> DirIterView {
    if k == 0 {
        iter_start(node, parent)
    } else {
        DirIterView {
            node,
            parent,
            index: k as u32,
            count: len as u32,
            started: true,
            stage: IterStage::Idle,
        }
    }
}

/// Walking a directory yields its entries one per step, in the engine's
/// order and each below the walk's parent, and then nothing more.
pub proof fn lemma_walk_yields_entries_in_order(
    m: ArchiveModel,
    node: ZArchiveNodeHandle,
    parent: Seq<Seq<char>>,
    k: nat,
)
    requires
        m.wf(),
        m.nodes.contains_key(node),
        k <= m.nodes[node].entries.len(),
    ensures
        ({
            let es = m.nodes[node].entries;
            let len = es.len();
            let r = run_walk(m, iter_advance(walked(node, parent, k, len)), 2);
            &&& k < len ==> r == Some(
                (walked(node, parent, k + 1, len), Some(entry_below(es[k as int], parent))),
            )
            &&& k == len ==> r matches Some((_, None))
        }),
{
    let len = m.nodes[node].entries.len();
    assert(len <= u32::MAX);
    reveal_with_fuel(run_walk, 3);
}

} // verus!
