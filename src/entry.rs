//! Entries met while walking a directory.
use vstd::prelude::*;
use crate::engine::{EntryInfo, EntryView};
use crate::parent::{parent_items, parent_len, parent_new, parent_push, parent_slice, ParentPath};
use crate::path::{join_path, join_with};

verus! {

/// [`DirEntry`] as a value.
pub struct DirEntryView {
    pub name: Seq<char>,
    pub is_file: bool,
    pub is_directory: bool,
    pub size: u64,
    /// The directories above the entry, outermost first.
    pub parent: Seq<Seq<char>>,
}

impl DirEntryView {
    /// The entry's path from the archive root.
    pub open spec fn full_path(self) -> Seq<char> {
        join_path(self.parent.push(self.name))
    }

    /// The directories that the entry's own children have above them.
    pub open spec fn child_parent(self) -> Seq<Seq<char>> {
        self.parent.push(self.name)
    }
}

/// A file or subdirectory met while walking a directory of the archive, with
/// the directories above it.
#[derive(Debug)]
pub struct DirEntry {
    name: String,
    is_file: bool,
    is_directory: bool,
    size: u64,
    parent: ParentPath,
}

impl View for DirEntry {
    type V = DirEntryView;

    closed spec fn view(&self) -> DirEntryView {
        DirEntryView {
            name: self.name@,
            is_file: self.is_file,
            is_directory: self.is_directory,
            size: self.size,
            parent: parent_items(self.parent),
        }
    }
}

/// A copy of a parent path.
pub(crate) fn copy_parent(p: &ParentPath) -> (r: ParentPath)
    ensures
        parent_items(r) == parent_items(*p),
{
    let items = parent_slice(p);
    let n = parent_len(p);
    let ghost want = parent_items(*p);
    let mut r = parent_new();
    let mut i: usize = 0;
    while i < n
        invariant
            n == want.len(),
            items@.map_values(|s: String| s@) == want,
            i <= n,
            parent_items(r) == want.take(i as int),
        decreases n - i,
    {
        assert(items@.map_values(|s: String| s@)[i as int] == items@[i as int]@);
        let s = items[i].clone();
        parent_push(&mut r, s);
        assert(want.take(i as int + 1) =~= want.take(i as int).push(want[i as int]));
        i = i + 1;
    }
    assert(want.take(n as int) =~= want);
    r
}

impl DirEntry {
    /// The entry that the engine reported, below the directories of `parent`.
    pub(crate) fn from_info(info: EntryInfo, parent: &ParentPath) -> (r: DirEntry)
        ensures
            r@ == (DirEntryView {
                name: info.name@,
                is_file: info.is_file,
                is_directory: info.is_directory,
                size: info.size,
                parent: parent_items(*parent),
            }),
    {
        DirEntry {
            name: info.name,
            is_file: info.is_file,
            is_directory: info.is_directory,
            size: info.size,
            parent: copy_parent(parent),
        }
    }

    /// The name of the entry.
    pub fn name(&self) -> (r: &str)
        ensures
            r@ == self@.name,
    {
        self.name.as_str()
    }

    /// Whether the entry is a file.
    pub fn is_file(&self) -> (r: bool)
        ensures
            r == self@.is_file,
    {
        self.is_file
    }

    /// Whether the entry is a directory.
    pub fn is_dir(&self) -> (r: bool)
        ensures
            r == self@.is_directory,
    {
        self.is_directory
    }

    /// The size of the entry, if it is a file.
    pub fn size(&self) -> (r: Option<usize>)
        ensures
            r == (if self@.is_file {
                Some(self@.size as usize)
            } else {
                None
            }),
    {
        if self.is_file {
            Some(self.size as usize)
        } else {
            None
        }
    }

    /// The path of the entry from the archive root: the directories above it
    /// and its name, joined with `/`.
    pub fn full_path(&self) -> (r: String)
        ensures
            r@ == self@.full_path(),
    {
        let items = parent_slice(&self.parent);
        join_with(items, self.name.as_str())
    }

    /// How many directories lie above the entry.
    pub fn depth(&self) -> (r: usize)
        ensures
            r == self@.parent.len(),
    {
        parent_len(&self.parent)
    }

    /// The directories that the entry's children have above them, if the
    /// entry is a directory.
    pub(crate) fn child_parent(&self) -> (r: Option<ParentPath>)
        ensures
            r matches Some(p) ==> parent_items(p) == self@.child_parent(),
            r is Some <==> self@.is_directory,
    {
        if !self.is_directory {
            None
        } else {
            let mut p = copy_parent(&self.parent);
            parent_push(&mut p, self.name.clone());
            Some(p)
        }
    }
}

} // verus!
