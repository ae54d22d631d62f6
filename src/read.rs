//! Whole-file and byte-range reads, and file-size queries.
use vstd::prelude::*;
use crate::engine::{action_view, result_view, Action, ActionView, EngineReply, EngineRequest, ReplyView, RequestView};
use crate::error::{ErrorView, ZArchiveError};
use crate::model::ArchiveModel;
use crate::node::ZArchiveNodeHandle;

verus! {

/// Where a read stands.
#[derive(Debug, Clone, Copy, PartialEq, Eq, Structural)]
pub enum ReadStage {
    /// Waiting for the node of the path.
    Resolving,
    /// Waiting to learn whether the node is a file.
    CheckingKind(ZArchiveNodeHandle),
    /// Waiting for the file's size.
    Sizing(ZArchiveNodeHandle),
    /// Waiting for `length` bytes of the file.
    Reading { node: ZArchiveNodeHandle, length: u64 },
    /// The result has been handed out.
    Finished,
}

/// [`FileRead`] as a value.
pub struct FileReadView {
    pub path: Seq<char>,
    pub offset: u64,
    /// `None` reads the whole file.
    pub length: Option<u64>,
    pub stage: ReadStage,
}

/// A read that has not started: the path is looked up first.
pub open spec fn read_start(path: Seq<char>, offset: u64, length: Option<u64>) -> FileReadView {
    FileReadView { path, offset, length, stage: ReadStage::Resolving }
}

/// The lookup that every read of a file starts with.
pub open spec fn file_lookup(path: Seq<char>) -> RequestView {
    RequestView::LookUp { path, allow_file: true, allow_directory: false }
}

/// Whether `length` bytes from `offset` lie inside a file of `size` bytes.
pub open spec fn range_fits(size: u64, offset: u64, length: u64) -> bool {
    offset + length <= size
}

/// The next state of a read, and what it does next, given the engine's reply.
pub open spec fn read_next(s: FileReadView, r: ReplyView) -> (
    FileReadView,
    ActionView<Result<Seq<u8>, ErrorView>>,
) {
    let fin = FileReadView { stage: ReadStage::Finished, ..s };
    let unexpected = (fin, ActionView::Done(Err(ErrorView::UnexpectedReply)));
    if s.stage == ReadStage::Finished {
        unexpected
    } else {
        match r {
            ReplyView::Failed(m) => (fin, ActionView::Done(Err(ErrorView::Other(m)))),
            _ => match s.stage {
                ReadStage::Resolving => match r {
                    ReplyView::Node(n) => if n.spec_is_valid() {
                        (
                            FileReadView { stage: ReadStage::CheckingKind(n), ..s },
                            ActionView::Call(RequestView::IsFile { node: n }),
                        )
                    } else {
                        (fin, ActionView::Done(Err(ErrorView::MissingFile(s.path))))
                    },
                    _ => unexpected,
                },
                ReadStage::CheckingKind(n) => match r {
                    ReplyView::Flag(b) => if b {
                        (
                            FileReadView { stage: ReadStage::Sizing(n), ..s },
                            ActionView::Call(RequestView::FileSize { node: n }),
                        )
                    } else {
                        (fin, ActionView::Done(Err(ErrorView::MissingFile(s.path))))
                    },
                    _ => unexpected,
                },
                ReadStage::Sizing(n) => match r {
                    ReplyView::Size(size) => match s.length {
                        None => (
                            FileReadView { stage: ReadStage::Reading { node: n, length: size }, ..s },
                            ActionView::Call(
                                RequestView::ReadFromFile { node: n, offset: 0, length: size },
                            ),
                        ),
                        Some(len) => if range_fits(size, s.offset, len) {
                            (
                                FileReadView {
                                    stage: ReadStage::Reading { node: n, length: len },
                                    ..s
                                },
                                ActionView::Call(
                                    RequestView::ReadFromFile {
                                        node: n,
                                        offset: s.offset,
                                        length: len,
                                    },
                                ),
                            )
                        } else {
                            (
                                fin,
                                ActionView::Done(
                                    Err(
                                        ErrorView::OutOfRange {
                                            size,
                                            offset: s.offset,
                                            length: len,
                                        },
                                    ),
                                ),
                            )
                        },
                    },
                    _ => unexpected,
                },
                ReadStage::Reading { node, length } => match r {
                    ReplyView::Bytes(d) => if d.len() == length {
                        (fin, ActionView::Done(Ok(d)))
                    } else {
                        (
                            fin,
                            ActionView::Done(
                                Err(ErrorView::ShortRead { expected: length, written: d.len() as u64 }),
                            ),
                        )
                    },
                    _ => unexpected,
                },
                ReadStage::Finished => unexpected,
            },
        }
    }
}

/// Reads a file of the archive, whole or a byte range of it.
///
/// The path is resolved as a file (a directory at that path is reported as
/// missing), the file's size is asked for, the range is checked against it,
/// and exactly the requested bytes are asked for. A reply with another number
/// of bytes ends the read with [`ZArchiveError::ShortRead`]: no partial data
/// is ever returned.
#[derive(Debug)]
pub struct FileRead {
    path: String,
    offset: u64,
    length: Option<u64>,
    stage: ReadStage,
}

impl View for FileRead {
    type V = FileReadView;

    closed spec fn view(&self) -> FileReadView {
        FileReadView {
            path: self.path@,
            offset: self.offset,
            length: self.length,
            stage: self.stage,
        }
    }
}

/// The view of what a read does next.
pub open spec fn read_action_view(a: Action<Result<Vec<u8>, ZArchiveError>>) -> ActionView<
    Result<Seq<u8>, ErrorView>,
> {
    action_view(a, |x: Result<Vec<u8>, ZArchiveError>| result_view(x))
}

impl FileRead {
    /// A read of the whole file at `path`, and the first call it makes.
    pub fn whole(path: String) -> (r: (FileRead, EngineRequest))
        ensures
            r.0@ == read_start(path@, 0, None),
            r.1@ == file_lookup(path@),
    {
        let req = EngineRequest::LookUp {
            path: path.clone(),
            allow_file: true,
            allow_directory: false,
        };
        (FileRead { path, offset: 0, length: None, stage: ReadStage::Resolving }, req)
    }

    /// A read of `length` bytes from `offset` of the file at `path`, and the
    /// first call it makes.
    pub fn range(path: String, offset: u64, length: u64) -> (r: (FileRead, EngineRequest))
        ensures
            r.0@ == read_start(path@, offset, Some(length)),
            r.1@ == file_lookup(path@),
    {
        let req = EngineRequest::LookUp {
            path: path.clone(),
            allow_file: true,
            allow_directory: false,
        };
        (FileRead { path, offset, length: Some(length), stage: ReadStage::Resolving }, req)
    }

    fn finish(&mut self, e: ZArchiveError) -> (a: Action<Result<Vec<u8>, ZArchiveError>>)
        ensures
            final(self)@ == (FileReadView { stage: ReadStage::Finished, ..old(self)@ }),
            a == Action::<Result<Vec<u8>, ZArchiveError>>::Done(Err(e)),
    {
        self.stage = ReadStage::Finished;
        Action::Done(Err(e))
    }

    /// Hands the engine's reply to the read; returns its next call or its result.
    pub fn resume(&mut self, reply: EngineReply) -> (a: Action<Result<Vec<u8>, ZArchiveError>>)
        ensures
            (final(self)@, read_action_view(a)) == read_next(old(self)@, reply@),
    {
        if self.stage == ReadStage::Finished {
            return self.finish(ZArchiveError::UnexpectedReply);
        }
        if let EngineReply::Failed(m) = reply {
            return self.finish(ZArchiveError::Other(m));
        }
        match self.stage {
            ReadStage::Resolving => match reply {
                EngineReply::Node(n) => if n.is_valid() {
                    self.stage = ReadStage::CheckingKind(n);
                    Action::Call(EngineRequest::IsFile { node: n })
                } else {
                    let p = self.path.clone();
                    self.finish(ZArchiveError::MissingFile(p))
                },
                _ => self.finish(ZArchiveError::UnexpectedReply),
            },
            ReadStage::CheckingKind(n) => match reply {
                EngineReply::Flag(b) => if b {
                    self.stage = ReadStage::Sizing(n);
                    Action::Call(EngineRequest::FileSize { node: n })
                } else {
                    let p = self.path.clone();
                    self.finish(ZArchiveError::MissingFile(p))
                },
                _ => self.finish(ZArchiveError::UnexpectedReply),
            },
            ReadStage::Sizing(n) => match reply {
                EngineReply::Size(size) => match self.length {
                    None => {
                        self.stage = ReadStage::Reading { node: n, length: size };
                        Action::Call(EngineRequest::ReadFromFile { node: n, offset: 0, length: size })
                    },
                    Some(len) => if self.offset as u128 + len as u128 <= size as u128 {
                        self.stage = ReadStage::Reading { node: n, length: len };
                        Action::Call(
                            EngineRequest::ReadFromFile { node: n, offset: self.offset, length: len },
                        )
                    } else {
                        let off = self.offset;
                        self.finish(ZArchiveError::OutOfRange { size, offset: off, length: len })
                    },
                },
                _ => self.finish(ZArchiveError::UnexpectedReply),
            },
            ReadStage::Reading { node: _, length } => match reply {
                EngineReply::Bytes(d) => if d.len() as u64 == length {
                    self.stage = ReadStage::Finished;
                    Action::Done(Ok(d))
                } else {
                    let written = d.len() as u64;
                    self.finish(ZArchiveError::ShortRead { expected: length, written })
                },
                _ => self.finish(ZArchiveError::UnexpectedReply),
            },
            ReadStage::Finished => self.finish(ZArchiveError::UnexpectedReply),
        }
    }
}

/// Where a size query stands.
#[derive(Debug, Clone, Copy, PartialEq, Eq, Structural)]
pub enum SizeStage {
    /// Waiting for the node of the path.
    Resolving,
    /// Waiting to learn whether the node is a file.
    CheckingKind(ZArchiveNodeHandle),
    /// Waiting for the file's size.
    Sizing(ZArchiveNodeHandle),
    /// The result has been handed out.
    Finished,
}

/// [`FileSizeQuery`] as a value.
pub struct FileSizeView {
    pub path: Seq<char>,
    pub stage: SizeStage,
}

/// The next state of a size query, and what it does next, given the engine's
/// reply.
pub open spec fn size_next(s: FileSizeView, r: ReplyView) -> (
    FileSizeView,
    ActionView<Result<u64, ErrorView>>,
) {
    let fin = FileSizeView { stage: SizeStage::Finished, ..s };
    let unexpected = (fin, ActionView::Done(Err(ErrorView::UnexpectedReply)));
    match (s.stage, r) {
        (SizeStage::Finished, _) => unexpected,
        (_, ReplyView::Failed(m)) => (fin, ActionView::Done(Err(ErrorView::Other(m)))),
        (SizeStage::Resolving, ReplyView::Node(n)) => if n.spec_is_valid() {
            (
                FileSizeView { stage: SizeStage::CheckingKind(n), ..s },
                ActionView::Call(RequestView::IsFile { node: n }),
            )
        } else {
            (fin, ActionView::Done(Err(ErrorView::MissingFile(s.path))))
        },
        (SizeStage::CheckingKind(n), ReplyView::Flag(b)) => if b {
            (
                FileSizeView { stage: SizeStage::Sizing(n), ..s },
                ActionView::Call(RequestView::FileSize { node: n }),
            )
        } else {
            (fin, ActionView::Done(Err(ErrorView::MissingFile(s.path))))
        },
        (SizeStage::Sizing(_), ReplyView::Size(size)) => (fin, ActionView::Done(Ok(size))),
        _ => unexpected,
    }
}

/// Asks for the size of the file at a path. As for a read, the path is
/// resolved as a file and the node must be a file.
#[derive(Debug)]
pub struct FileSizeQuery {
    path: String,
    stage: SizeStage,
}

impl View for FileSizeQuery {
    type V = FileSizeView;

    closed spec fn view(&self) -> FileSizeView {
        FileSizeView { path: self.path@, stage: self.stage }
    }
}

/// The view of what a size query does next.
pub open spec fn size_action_view(a: Action<Result<u64, ZArchiveError>>) -> ActionView<
    Result<u64, ErrorView>,
> {
    action_view(a, |x: Result<u64, ZArchiveError>| result_view(x))
}

impl FileSizeQuery {
    /// A query of the size of the file at `path`, and the first call it makes.
    pub fn new(path: String) -> (r: (FileSizeQuery, EngineRequest))
        ensures
            r.0@ == (FileSizeView { path: path@, stage: SizeStage::Resolving }),
            r.1@ == file_lookup(path@),
    {
        let req = EngineRequest::LookUp {
            path: path.clone(),
            allow_file: true,
            allow_directory: false,
        };
        (FileSizeQuery { path, stage: SizeStage::Resolving }, req)
    }

    /// Hands the engine's reply to the query; returns its next call or its result.
    pub fn resume(&mut self, reply: EngineReply) -> (a: Action<Result<u64, ZArchiveError>>)
        ensures
            (final(self)@, size_action_view(a)) == size_next(old(self)@, reply@),
    {
        let stage = self.stage;
        self.stage = SizeStage::Finished;
        match (stage, reply) {
            (SizeStage::Finished, _) => Action::Done(Err(ZArchiveError::UnexpectedReply)),
            (_, EngineReply::Failed(m)) => Action::Done(Err(ZArchiveError::Other(m))),
            (SizeStage::Resolving, EngineReply::Node(n)) => if n.is_valid() {
                self.stage = SizeStage::CheckingKind(n);
                Action::Call(EngineRequest::IsFile { node: n })
            } else {
                Action::Done(Err(ZArchiveError::MissingFile(self.path.clone())))
            },
            (SizeStage::CheckingKind(n), EngineReply::Flag(b)) => if b {
                self.stage = SizeStage::Sizing(n);
                Action::Call(EngineRequest::FileSize { node: n })
            } else {
                Action::Done(Err(ZArchiveError::MissingFile(self.path.clone())))
            },
            (SizeStage::Sizing(_), EngineReply::Size(size)) => Action::Done(Ok(size)),
            _ => Action::Done(Err(ZArchiveError::UnexpectedReply)),
        }
    }
}


/// The result of a read that starts in state `s` with the call `req` and
/// talks to an engine that answers as `m` says, if it ends within `fuel`
/// further calls.
pub open spec fn run_read(m: ArchiveModel, s: FileReadView, req: RequestView, fuel: nat) -> Option<
    Result<Seq<u8>, ErrorView>,
>
    decreases fuel,
{
    let (s2, a) = read_next(s, m.serve(req));
    match a {
        ActionView::Done(v) => Some(v),
        ActionView::Call(r2) => if fuel == 0 {
            None
        } else {
            run_read(m, s2, r2, (fuel - 1) as nat)
        },
    }
}

/// Reading a whole file gives exactly its bytes, so extracting the same file
/// twice writes the same bytes both times.
pub proof fn lemma_whole_read_is_content(m: ArchiveModel, p: Seq<char>)
    requires
        m.wf(),
        m.is_file_at(p),
    ensures
        run_read(m, read_start(p, 0, None), file_lookup(p), 3) == Some(
            Ok::<Seq<u8>, ErrorView>(m.node_at(p).content),
        ),
{
    let c = m.node_at(p).content;
    assert(m.nodes.contains_key(m.paths[p]));
    assert(c.subrange(0, c.len() as int) =~= c);
    reveal_with_fuel(run_read, 4);
}

/// Reading the first `min(4, s)` bytes of a file of `s` bytes gives exactly
/// the first bytes of what reading the whole file gives.
pub proof fn lemma_partial_read_is_prefix(m: ArchiveModel, p: Seq<char>)
    requires
        m.wf(),
        m.is_file_at(p),
    ensures
        ({
            let c = m.node_at(p).content;
            let k: u64 = if c.len() < 4 {
                c.len() as u64
            } else {
                4
            };
            &&& run_read(m, read_start(p, 0, Some(k)), file_lookup(p), 3) == Some(
                Ok::<Seq<u8>, ErrorView>(c.take(k as int)),
            )
            &&& run_read(m, read_start(p, 0, None), file_lookup(p), 3) == Some(
                Ok::<Seq<u8>, ErrorView>(c),
            )
        }),
{
    lemma_whole_read_is_content(m, p);
    assert(m.nodes.contains_key(m.paths[p]));
    reveal_with_fuel(run_read, 4);
}

/// Reading `length` bytes from `offset` of a file, where the range lies
/// inside the file, gives exactly those bytes of it.
pub proof fn lemma_range_read_is_slice(m: ArchiveModel, p: Seq<char>, offset: u64, length: u64)
    requires
        m.wf(),
        m.is_file_at(p),
        offset + length <= m.node_at(p).content.len(),
    ensures
        run_read(m, read_start(p, offset, Some(length)), file_lookup(p), 3) == Some(
            Ok::<Seq<u8>, ErrorView>(
                m.node_at(p).content.subrange(offset as int, offset + length),
            ),
        ),
{
    assert(m.nodes.contains_key(m.paths[p]));
    reveal_with_fuel(run_read, 4);
}

/// A range that ends past the end of the file fails with
/// [`ZArchiveError::OutOfRange`] and returns no bytes.
pub proof fn lemma_range_past_end_fails(m: ArchiveModel, p: Seq<char>, offset: u64, length: u64)
    requires
        m.wf(),
        m.is_file_at(p),
        offset + length > m.node_at(p).content.len(),
    ensures
        run_read(m, read_start(p, offset, Some(length)), file_lookup(p), 3) == Some(
            Err::<Seq<u8>, ErrorView>(
                ErrorView::OutOfRange {
                    size: m.node_at(p).content.len() as u64,
                    offset,
                    length,
                },
            ),
        ),
{
    assert(m.nodes.contains_key(m.paths[p]));
    reveal_with_fuel(run_read, 4);
}

/// Reading a directory as a file fails with [`ZArchiveError::MissingFile`],
/// and the directory's node is never handed out.
pub proof fn lemma_directory_is_not_a_file(m: ArchiveModel, p: Seq<char>, length: Option<u64>)
    requires
        m.wf(),
        m.is_dir_at(p),
    ensures
        run_read(m, read_start(p, 0, length), file_lookup(p), 3) == Some(
            Err::<Seq<u8>, ErrorView>(ErrorView::MissingFile(p)),
        ),
{
    reveal_with_fuel(run_read, 4);
}

} // verus!
