//! What a consistent engine answers, for stating what the operations achieve.
use vstd::prelude::*;
use crate::engine::{EntryView, ReplyView, RequestView};
use crate::node::{INVALID_NODE_RAW, ZArchiveNodeHandle};

verus! {

/// One node of an archive.
pub struct NodeModel {
    pub is_file: bool,
    /// A file's bytes.
    pub content: Seq<u8>,
    /// A directory's entries, in the engine's order.
    pub entries: Seq<EntryView>,
}

/// An archive as the engine presents it: which path leads to which node, and
/// what each node holds.
pub struct ArchiveModel {
    pub paths: Map<Seq<char>, ZArchiveNodeHandle>,
    pub nodes: Map<ZArchiveNodeHandle, NodeModel>,
}

impl ArchiveModel {
    /// Every path leads to a real node that the archive holds, and every size
    /// and count fits the engine's integer types.
    pub open spec fn wf(self) -> bool {
        &&& forall|p: Seq<char>| #[trigger]
            self.paths.contains_key(p) ==> self.paths[p].spec_is_valid() && self.nodes.contains_key(
                self.paths[p],
            )
        &&& forall|n: ZArchiveNodeHandle| #[trigger]
            self.nodes.contains_key(n) ==> self.nodes[n].content.len() <= u64::MAX
                && self.nodes[n].entries.len() <= u32::MAX
    }

    /// The node at a path.
    pub open spec fn node_at(self, p: Seq<char>) -> NodeModel {
        self.nodes[self.paths[p]]
    }

    /// Whether a file lives at a path.
    pub open spec fn is_file_at(self, p: Seq<char>) -> bool {
        self.paths.contains_key(p) && self.node_at(p).is_file
    }

    /// Whether a directory lives at a path.
    pub open spec fn is_dir_at(self, p: Seq<char>) -> bool {
        self.paths.contains_key(p) && !self.node_at(p).is_file
    }

    /// What a consistent engine answers to a request.
    pub open spec fn serve(self, req: RequestView) -> ReplyView {
        match req {
            RequestView::LookUp { path, allow_file, allow_directory } => if (allow_file
                && self.is_file_at(path)) || (allow_directory && self.is_dir_at(path)) {
                ReplyView::Node(self.paths[path])
            } else {
                ReplyView::Node(ZArchiveNodeHandle(INVALID_NODE_RAW))
            },
            RequestView::IsFile { node } => ReplyView::Flag(
                self.nodes.contains_key(node) && self.nodes[node].is_file,
            ),
            RequestView::DirEntryCount { node } => ReplyView::Count(
                self.nodes[node].entries.len() as u32,
            ),
            RequestView::DirEntry { node, index } => ReplyView::Entry(
                if index < self.nodes[node].entries.len() {
                    Some(self.nodes[node].entries[index as int])
                } else {
                    None
                },
            ),
            RequestView::FileSize { node } => ReplyView::Size(
                self.nodes[node].content.len() as u64,
            ),
            RequestView::ReadFromFile { node, offset, length } => if offset + length
                <= self.nodes[node].content.len() {
                ReplyView::Bytes(self.nodes[node].content.subrange(offset as int, offset + length))
            } else {
                ReplyView::Failed(Seq::empty())
            },
        }
    }
}

} // verus!
