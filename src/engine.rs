//! The calls that the archive engine answers, and its answers.
use vstd::prelude::*;
use crate::error::{ErrorView, ZArchiveError};
use crate::node::ZArchiveNodeHandle;

verus! {

/// One directory entry as the engine reports it, copied out of the engine.
#[derive(Debug)]
pub struct EntryInfo {
    pub name: String,
    pub is_file: bool,
    pub is_directory: bool,
    pub size: u64,
}

/// [`EntryInfo`] as a value.
pub struct EntryView {
    pub name: Seq<char>,
    pub is_file: bool,
    pub is_directory: bool,
    pub size: u64,
}

impl View for EntryInfo {
    type V = EntryView;

    open spec fn view(&self) -> EntryView {
        EntryView {
            name: self.name@,
            is_file: self.is_file,
            is_directory: self.is_directory,
            size: self.size,
        }
    }
}

/// A call into the engine.
#[derive(Debug)]
pub enum EngineRequest {
    /// Resolve a path to a node, admitting the kinds that the flags allow.
    LookUp { path: String, allow_file: bool, allow_directory: bool },
    /// Whether a node is a file.
    IsFile { node: ZArchiveNodeHandle },
    /// The number of entries of a directory node.
    DirEntryCount { node: ZArchiveNodeHandle },
    /// The entry at an index of a directory node.
    DirEntry { node: ZArchiveNodeHandle, index: u32 },
    /// The size in bytes of a file node.
    FileSize { node: ZArchiveNodeHandle },
    /// Copy `length` bytes from `offset` of a file node.
    ReadFromFile { node: ZArchiveNodeHandle, offset: u64, length: u64 },
}

/// [`EngineRequest`] as a value.
pub enum RequestView {
    LookUp { path: Seq<char>, allow_file: bool, allow_directory: bool },
    IsFile { node: ZArchiveNodeHandle },
    DirEntryCount { node: ZArchiveNodeHandle },
    DirEntry { node: ZArchiveNodeHandle, index: u32 },
    FileSize { node: ZArchiveNodeHandle },
    ReadFromFile { node: ZArchiveNodeHandle, offset: u64, length: u64 },
}

impl View for EngineRequest {
    type V = RequestView;

    open spec fn view(&self) -> RequestView {
        match self {
            EngineRequest::LookUp { path, allow_file, allow_directory } => RequestView::LookUp {
                path: path@,
                allow_file: *allow_file,
                allow_directory: *allow_directory,
            },
            EngineRequest::IsFile { node } => RequestView::IsFile { node: *node },
            EngineRequest::DirEntryCount { node } => RequestView::DirEntryCount { node: *node },
            EngineRequest::DirEntry { node, index } => RequestView::DirEntry {
                node: *node,
                index: *index,
            },
            EngineRequest::FileSize { node } => RequestView::FileSize { node: *node },
            EngineRequest::ReadFromFile { node, offset, length } => RequestView::ReadFromFile {
                node: *node,
                offset: *offset,
                length: *length,
            },
        }
    }
}

/// Whether a request goes through the engine's internal cursor, so that it
/// must run alone; the others only read directory data and may run side by
/// side.
pub open spec fn spec_needs_exclusive(r: RequestView) -> bool {
    match r {
        RequestView::LookUp { .. } | RequestView::FileSize { .. } | RequestView::ReadFromFile {
            ..
        } => true,
        _ => false,
    }
}

impl EngineRequest {
    /// Whether this call must hold the engine alone while it runs.
    pub fn needs_exclusive(&self) -> (r: bool)
        ensures
            r == spec_needs_exclusive(self@),
    {
        match self {
            EngineRequest::LookUp { .. } => true,
            EngineRequest::FileSize { .. } => true,
            EngineRequest::ReadFromFile { .. } => true,
            _ => false,
        }
    }
}

/// The engine's answer to a request.
#[derive(Debug)]
pub enum EngineReply {
    /// A node, possibly the "not found" value.
    Node(ZArchiveNodeHandle),
    /// A yes or no.
    Flag(bool),
    /// A number of directory entries.
    Count(u32),
    /// A directory entry, or none at that index.
    Entry(Option<EntryInfo>),
    /// A file size.
    Size(u64),
    /// The bytes the engine wrote.
    Bytes(Vec<u8>),
    /// The engine raised an error, with its message.
    Failed(String),
}

/// [`EngineReply`] as a value.
pub enum ReplyView {
    Node(ZArchiveNodeHandle),
    Flag(bool),
    Count(u32),
    Entry(Option<EntryView>),
    Size(u64),
    Bytes(Seq<u8>),
    Failed(Seq<char>),
}

impl View for EngineReply {
    type V = ReplyView;

    open spec fn view(&self) -> ReplyView {
        match self {
            EngineReply::Node(n) => ReplyView::Node(*n),
            EngineReply::Flag(b) => ReplyView::Flag(*b),
            EngineReply::Count(c) => ReplyView::Count(*c),
            EngineReply::Entry(e) => ReplyView::Entry(
                match e {
                    Some(i) => Some(i@),
                    None => None,
                },
            ),
            EngineReply::Size(s) => ReplyView::Size(*s),
            EngineReply::Bytes(b) => ReplyView::Bytes(b@),
            EngineReply::Failed(m) => ReplyView::Failed(m@),
        }
    }
}

/// What an operation asks for next: an engine call, or nothing more because
/// it has its result.
#[derive(Debug)]
pub enum Action<T> {
    Call(EngineRequest),
    Done(T),
}

/// [`Action`] as a value.
pub enum ActionView<V> {
    Call(RequestView),
    Done(V),
}

/// The view of an action, with `f` giving the view of a result.
pub open spec fn action_view<T, V>(a: Action<T>, f: spec_fn(T) -> V) -> ActionView<V> {
    match a {
        Action::Call(r) => ActionView::Call(r@),
        Action::Done(t) => ActionView::Done(f(t)),
    }
}

/// The view of a result whose success value has a view.
pub open spec fn result_view<T: View>(r: Result<T, ZArchiveError>) -> Result<T::V, ErrorView> {
    match r {
        Ok(t) => Ok(t@),
        Err(e) => Err(e@),
    }
}

} // verus!
