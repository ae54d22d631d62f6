use zarchive::engine::{Action, EngineReply, EngineRequest, EntryInfo};
use zarchive::iter::{DirCount, DirIter, DirOpen};
use zarchive::list::FileLister;
use zarchive::read::{FileRead, FileSizeQuery};
use zarchive::{DirEntry, ZArchiveError, ZArchiveNodeHandle};

struct FakeNode {
    path: String,
    is_file: bool,
    content: Vec<u8>,
    children: Vec<usize>,
}

/// An engine that serves a tree held in memory.
struct FakeEngine {
    nodes: Vec<FakeNode>,
    /// Hand back one byte fewer than asked for.
    short_reads: bool,
    /// Answer every lookup of a directory with "not found".
    hide_dirs: bool,
}

impl FakeEngine {
    fn new() -> FakeEngine {
        FakeEngine {
            nodes: vec![FakeNode {
                path: String::new(),
                is_file: false,
                content: vec![],
                children: vec![],
            }],
            short_reads: false,
            hide_dirs: false,
        }
    }

    fn find(&self, path: &str) -> Option<usize> {
        self.nodes.iter().position(|n| n.path == path)
    }

    fn ensure(&mut self, path: &str, is_file: bool) -> usize {
        if let Some(i) = self.find(path) {
            return i;
        }
        let parent = match path.rfind('/') {
            Some(k) => self.ensure(&path[..k], false),
            None => 0,
        };
        self.nodes.push(FakeNode {
            path: path.to_string(),
            is_file,
            content: vec![],
            children: vec![],
        });
        let i = self.nodes.len() - 1;
        self.nodes[parent].children.push(i);
        i
    }

    fn add_file(&mut self, path: &str, content: &[u8]) {
        let i = self.ensure(path, true);
        self.nodes[i].content = content.to_vec();
    }

    fn add_dir(&mut self, path: &str) {
        self.ensure(path, false);
    }

    fn name_of(&self, i: usize) -> String {
        let p = &self.nodes[i].path;
        match p.rfind('/') {
            Some(k) => p[k + 1..].to_string(),
            None => p.clone(),
        }
    }

    fn answer(&self, req: &EngineRequest) -> EngineReply {
        match req {
            EngineRequest::LookUp { path, allow_file, allow_directory } => {
                let found = self.find(path).filter(|&i| {
                    let n = &self.nodes[i];
                    (n.is_file && *allow_file)
                        || (!n.is_file && *allow_directory && !(self.hide_dirs && i != 0))
                });
                match found {
                    Some(i) => EngineReply::Node(ZArchiveNodeHandle(i as u32)),
                    None => EngineReply::Node(ZArchiveNodeHandle::invalid()),
                }
            }
            EngineRequest::IsFile { node } => EngineReply::Flag(self.nodes[node.0 as usize].is_file),
            EngineRequest::DirEntryCount { node } => {
                EngineReply::Count(self.nodes[node.0 as usize].children.len() as u32)
            }
            EngineRequest::DirEntry { node, index } => {
                let n = &self.nodes[node.0 as usize];
                EngineReply::Entry(n.children.get(*index as usize).map(|&c| EntryInfo {
                    name: self.name_of(c),
                    is_file: self.nodes[c].is_file,
                    is_directory: !self.nodes[c].is_file,
                    size: self.nodes[c].content.len() as u64,
                }))
            }
            EngineRequest::FileSize { node } => {
                EngineReply::Size(self.nodes[node.0 as usize].content.len() as u64)
            }
            EngineRequest::ReadFromFile { node, offset, length } => {
                let c = &self.nodes[node.0 as usize].content;
                let start = *offset as usize;
                let mut end = start + *length as usize;
                if self.short_reads && end > start {
                    end -= 1;
                }
                EngineReply::Bytes(c[start..end].to_vec())
            }
        }
    }
}

fn run<T>(
    engine: &FakeEngine,
    first: EngineRequest,
    mut resume: impl FnMut(EngineReply) -> Action<T>,
) -> T {
    let mut req = first;
    loop {
        match resume(engine.answer(&req)) {
            Action::Call(r) => req = r,
            Action::Done(t) => return t,
        }
    }
}

fn sample() -> FakeEngine {
    let mut e = FakeEngine::new();
    e.add_file("content/Actor/ActorInfo.product.sbyml", b"BY\x00\x02rest-of-actor-info");
    e.add_file("content/Pack/Bootup.pack", b"SARC\x00\x1c\xfe\xff boot data");
    e.add_file("content/Model/Item_Feather.sbfres", b"FRES    feather");
    e.add_file("content/Pack/Tiny.pack", b"ab");
    e.add_dir("content/Empty");
    e.add_file("readme.txt", b"hello");
    e
}

fn read_whole(e: &FakeEngine, path: &str) -> Result<Vec<u8>, ZArchiveError> {
    let (mut op, req) = FileRead::whole(path.to_string());
    run(e, req, |r| op.resume(r))
}

fn read_range(e: &FakeEngine, path: &str, offset: u64, length: u64) -> Result<Vec<u8>, ZArchiveError> {
    let (mut op, req) = FileRead::range(path.to_string(), offset, length);
    run(e, req, |r| op.resume(r))
}

fn list(e: &FakeEngine) -> Result<Vec<String>, ZArchiveError> {
    let (mut op, req) = FileLister::new();
    run(e, req, |r| op.resume(r))
}

fn open_root(e: &FakeEngine) -> Result<DirIter, ZArchiveError> {
    let (mut op, req) = DirOpen::root();
    run(e, req, |r| op.resume(r)).map(DirIter::root)
}

fn open_dir(e: &FakeEngine, dir: &DirEntry) -> Result<DirIter, ZArchiveError> {
    let (mut op, req) = DirOpen::entry(dir);
    let node = run(e, req, |r| op.resume(r))?;
    DirIter::children(node, dir)
}

fn next_entry(e: &FakeEngine, it: &mut DirIter) -> Option<DirEntry> {
    match it.next() {
        Action::Done(x) => x,
        Action::Call(req) => run(e, req, |r| it.resume(r)),
    }
}

fn walk(e: &FakeEngine, it: &mut DirIter, out: &mut Vec<String>) {
    while let Some(entry) = next_entry(e, it) {
        if entry.is_file() {
            out.push(entry.full_path());
        } else {
            let mut sub = open_dir(e, &entry).unwrap();
            walk(e, &mut sub, out);
        }
    }
}

#[test]
fn file_list() {
    let archive = sample();
    for file in list(&archive).unwrap() {
        println!("{}", file);
    }
}

#[test]
fn walk_tree() {
    let archive = sample();
    let mut root = open_root(&archive).unwrap();
    let mut seen = vec![];
    walk(&archive, &mut root, &mut seen);
    for f in &seen {
        println!("{}", f);
    }
    assert_eq!(seen, list(&archive).unwrap());
}

#[test]
fn partial_read() {
    let archive = sample();
    let data = read_range(&archive, "content/Pack/Bootup.pack", 0, 4).unwrap();
    assert_eq!(&data[..4], b"SARC");
}

#[test]
fn listing_is_depth_first_in_engine_order() {
    let archive = sample();
    assert_eq!(
        list(&archive).unwrap(),
        vec![
            "content/Actor/ActorInfo.product.sbyml".to_string(),
            "content/Pack/Bootup.pack".to_string(),
            "content/Pack/Tiny.pack".to_string(),
            "content/Model/Item_Feather.sbfres".to_string(),
            "readme.txt".to_string(),
        ]
    );
}

#[test]
fn listing_matches_the_packed_set() {
    let mut archive = FakeEngine::new();
    let packed = ["a/b/c.bin", "a/d.bin", "e.bin", "f/g/h/i/j.bin"];
    for p in packed {
        archive.add_file(p, p.as_bytes());
    }
    let mut got = list(&archive).unwrap();
    got.sort();
    let mut want: Vec<String> = packed.iter().map(|s| s.to_string()).collect();
    want.sort();
    assert_eq!(got, want);
}

#[test]
fn listing_of_empty_archive_is_empty() {
    let archive = FakeEngine::new();
    assert_eq!(list(&archive).unwrap(), Vec::<String>::new());
}

#[test]
fn listing_passes_over_directories_that_do_not_resolve() {
    let mut archive = sample();
    archive.hide_dirs = true;
    assert_eq!(list(&archive).unwrap(), vec!["readme.txt".to_string()]);
}

#[test]
fn listing_refuses_a_tree_deeper_than_its_limit() {
    let mut archive = FakeEngine::new();
    let mut path = String::from("d");
    for _ in 0..300 {
        path.push_str("/d");
    }
    path.push_str("/leaf");
    archive.add_file(&path, b"x");
    assert!(matches!(list(&archive), Err(ZArchiveError::TooDeep(_))));
}

#[test]
fn listing_follows_a_tree_at_its_limit() {
    let mut archive = FakeEngine::new();
    let mut path = String::from("d");
    for _ in 0..254 {
        path.push_str("/d");
    }
    path.push_str("/leaf");
    archive.add_file(&path, b"x");
    assert_eq!(list(&archive).unwrap(), vec![path]);
}

#[test]
fn missing_root_is_not_found() {
    let (mut lister, req) = FileLister::new();
    assert!(matches!(req, EngineRequest::LookUp { allow_file: false, allow_directory: true, .. }));
    let r = lister.resume(EngineReply::Node(ZArchiveNodeHandle::invalid()));
    match r {
        Action::Done(Err(ZArchiveError::MissingFile(m))) => assert_eq!(m, "archive root"),
        other => panic!("unexpected {:?}", other),
    }
    let (mut open, _) = DirOpen::root();
    assert!(matches!(
        open.resume(EngineReply::Node(ZArchiveNodeHandle::invalid())),
        Action::Done(Err(ZArchiveError::MissingFile(_)))
    ));
}

#[test]
fn whole_read_returns_the_file() {
    let archive = sample();
    assert_eq!(read_whole(&archive, "readme.txt").unwrap(), b"hello".to_vec());
}

#[test]
fn partial_read_is_prefix_of_whole_read() {
    let archive = sample();
    for f in list(&archive).unwrap() {
        let all = read_whole(&archive, &f).unwrap();
        let k = all.len().min(4) as u64;
        let part = read_range(&archive, &f, 0, k).unwrap();
        assert_eq!(&all[..k as usize], &part[..]);
    }
}

#[test]
fn range_in_the_middle() {
    let archive = sample();
    assert_eq!(read_range(&archive, "readme.txt", 1, 3).unwrap(), b"ell".to_vec());
    assert_eq!(read_range(&archive, "readme.txt", 5, 0).unwrap(), Vec::<u8>::new());
    assert_eq!(read_range(&archive, "content/Pack/Bootup.pack", 4, 4).unwrap(), b"\x00\x1c\xfe\xff".to_vec());
}

#[test]
fn range_past_the_end_is_refused() {
    let archive = sample();
    match read_range(&archive, "readme.txt", 3, 3) {
        Err(ZArchiveError::OutOfRange { size, offset, length }) => {
            assert_eq!((size, offset, length), (5, 3, 3))
        }
        other => panic!("unexpected {:?}", other),
    }
    assert!(matches!(
        read_range(&archive, "readme.txt", u64::MAX, 2),
        Err(ZArchiveError::OutOfRange { .. })
    ));
    assert!(matches!(read_range(&archive, "readme.txt", 0, 6), Err(ZArchiveError::OutOfRange { .. })));
}

#[test]
fn directory_is_not_read_as_file() {
    let archive = sample();
    match read_whole(&archive, "content/Pack") {
        Err(ZArchiveError::MissingFile(p)) => assert_eq!(p, "content/Pack"),
        other => panic!("unexpected {:?}", other),
    }
    // Even an engine that hands out the directory's node does not get it read.
    let (mut op, _) = FileRead::whole("content/Pack".to_string());
    assert!(matches!(op.resume(EngineReply::Node(ZArchiveNodeHandle(3))), Action::Call(EngineRequest::IsFile { .. })));
    assert!(matches!(op.resume(EngineReply::Flag(false)), Action::Done(Err(ZArchiveError::MissingFile(_)))));
}

#[test]
fn missing_file_is_reported() {
    let archive = sample();
    assert!(matches!(read_whole(&archive, "nope.bin"), Err(ZArchiveError::MissingFile(_))));
}

#[test]
fn short_read_returns_no_data() {
    let mut archive = sample();
    archive.short_reads = true;
    match read_whole(&archive, "readme.txt") {
        Err(ZArchiveError::ShortRead { expected, written }) => assert_eq!((expected, written), (5, 4)),
        other => panic!("unexpected {:?}", other),
    }
}

#[test]
fn engine_failure_and_wrong_replies() {
    let (mut op, _) = FileRead::whole("x".to_string());
    match op.resume(EngineReply::Failed("corrupt".to_string())) {
        Action::Done(Err(ZArchiveError::Other(m))) => assert_eq!(m, "corrupt"),
        other => panic!("unexpected {:?}", other),
    }
    assert!(matches!(op.resume(EngineReply::Flag(true)), Action::Done(Err(ZArchiveError::UnexpectedReply))));
    let (mut op, _) = FileRead::whole("x".to_string());
    assert!(matches!(op.resume(EngineReply::Count(1)), Action::Done(Err(ZArchiveError::UnexpectedReply))));
}

#[test]
fn extraction_reads_are_identical() {
    let archive = sample();
    let a = read_whole(&archive, "content/Model/Item_Feather.sbfres").unwrap();
    let b = read_whole(&archive, "content/Model/Item_Feather.sbfres").unwrap();
    assert_eq!(a, b);
    assert_eq!(a, b"FRES    feather".to_vec());
}

#[test]
fn reads_of_distinct_files_do_not_mix() {
    let archive = sample();
    let files = list(&archive).unwrap();
    let mut ops: Vec<(FileRead, EngineRequest)> =
        files.iter().map(|f| FileRead::range(f.clone(), 0, 2)).collect();
    let mut results: Vec<Option<Vec<u8>>> = vec![None; files.len()];
    // Interleave the reads one engine call at a time.
    let mut active = true;
    while active {
        active = false;
        for (i, (op, req)) in ops.iter_mut().enumerate() {
            if results[i].is_some() {
                continue;
            }
            match op.resume(archive.answer(req)) {
                Action::Call(r) => {
                    *req = r;
                    active = true;
                }
                Action::Done(v) => results[i] = Some(v.unwrap()),
            }
        }
    }
    let expected: Vec<&[u8]> = vec![b"BY", b"SA", b"ab", b"FR", b"he"];
    for (r, want) in results.iter().zip(expected) {
        assert_eq!(r.as_deref(), Some(want));
    }
}

#[test]
fn file_size_query() {
    let archive = sample();
    let (mut op, req) = FileSizeQuery::new("content/Pack/Tiny.pack".to_string());
    assert_eq!(run(&archive, req, |r| op.resume(r)).unwrap(), 2);
    let (mut op, req) = FileSizeQuery::new("content".to_string());
    assert!(matches!(run(&archive, req, |r| op.resume(r)), Err(ZArchiveError::MissingFile(_))));
    // A node that the engine hands out is still checked to be a file.
    let (mut op, _) = FileSizeQuery::new("content".to_string());
    assert!(matches!(op.resume(EngineReply::Node(ZArchiveNodeHandle(1))), Action::Call(EngineRequest::IsFile { .. })));
    assert!(matches!(op.resume(EngineReply::Flag(false)), Action::Done(Err(ZArchiveError::MissingFile(_)))));
}

#[test]
fn entries_carry_their_paths() {
    let archive = sample();
    let mut root = open_root(&archive).unwrap();
    let content = next_entry(&archive, &mut root).unwrap();
    assert_eq!(content.name(), "content");
    assert!(content.is_dir() && !content.is_file());
    assert_eq!(content.size(), None);
    assert_eq!(content.depth(), 0);
    let mut it = open_dir(&archive, &content).unwrap();
    let actor = next_entry(&archive, &mut it).unwrap();
    assert_eq!(actor.full_path(), "content/Actor");
    assert_eq!(actor.depth(), 1);
    let mut it = open_dir(&archive, &actor).unwrap();
    let info = next_entry(&archive, &mut it).unwrap();
    assert_eq!(info.full_path(), "content/Actor/ActorInfo.product.sbyml");
    assert_eq!(info.size(), Some(22));
    assert!(next_entry(&archive, &mut it).is_none());
    assert!(next_entry(&archive, &mut it).is_none());
    let readme = {
        let mut last = None;
        while let Some(e) = next_entry(&archive, &mut root) {
            last = Some(e);
        }
        last.unwrap()
    };
    assert_eq!(readme.full_path(), "readme.txt");
    match open_dir(&archive, &readme) {
        Err(ZArchiveError::NotADirectory(p)) => assert_eq!(p, "readme.txt"),
        other => panic!("unexpected {:?}", other.map(|_| ())),
    }
    let (mut open, _) = DirOpen::entry(&readme);
    assert!(matches!(
        open.resume(EngineReply::Node(ZArchiveNodeHandle(5))),
        Action::Done(Err(ZArchiveError::NotADirectory(_)))
    ));
}

#[test]
fn counting_entries() {
    let archive = sample();
    let mut root = open_root(&archive).unwrap();
    let content = next_entry(&archive, &mut root).unwrap();
    let (mut op, req) = DirOpen::entry(&content);
    let node = run(&archive, req, |r| op.resume(r)).unwrap();
    let (mut count, req) = DirCount::new(node);
    assert_eq!(run(&archive, req, |r| count.resume(r)).unwrap(), 4);
}

#[test]
fn walking_goes_below_five_levels() {
    let mut archive = FakeEngine::new();
    archive.add_file("a/b/c/d/e/f/g/h.bin", b"deep");
    let mut it = open_root(&archive).unwrap();
    let mut entry = next_entry(&archive, &mut it).unwrap();
    for _ in 0..7 {
        it = open_dir(&archive, &entry).unwrap();
        entry = next_entry(&archive, &mut it).unwrap();
    }
    assert_eq!(entry.full_path(), "a/b/c/d/e/f/g/h.bin");
    assert_eq!(entry.depth(), 7);
    assert!(entry.is_file());
    let mut walked = vec![];
    walk(&archive, &mut open_root(&archive).unwrap(), &mut walked);
    assert_eq!(walked, list(&archive).unwrap());
}

#[test]
fn count_agrees_with_walk_at_depth() {
    let mut archive = FakeEngine::new();
    archive.add_file("a/b/c/d/e/f/x.bin", b"1");
    archive.add_file("a/b/c/d/e/f/y.bin", b"2");
    let mut it = open_root(&archive).unwrap();
    let mut entry = next_entry(&archive, &mut it).unwrap();
    for _ in 0..5 {
        it = open_dir(&archive, &entry).unwrap();
        entry = next_entry(&archive, &mut it).unwrap();
    }
    assert_eq!(entry.full_path(), "a/b/c/d/e/f");
    let (mut op, req) = DirOpen::entry(&entry);
    let node = run(&archive, req, |r| op.resume(r)).unwrap();
    let (mut count, req) = DirCount::new(node);
    let n = run(&archive, req, |r| count.resume(r)).unwrap();
    let mut sub = open_dir(&archive, &entry).unwrap();
    let mut seen = 0;
    while next_entry(&archive, &mut sub).is_some() {
        seen += 1;
    }
    assert_eq!((n, seen), (2, 2));
}

#[test]
fn walk_ends_on_a_failed_reply() {
    let mut it = DirIter::root(ZArchiveNodeHandle(0));
    assert!(matches!(it.next(), Action::Call(EngineRequest::DirEntryCount { .. })));
    assert!(matches!(it.resume(EngineReply::Failed("bad".to_string())), Action::Done(None)));
    assert!(matches!(it.next(), Action::Done(None)));
}

#[test]
fn lock_kinds() {
    let n = ZArchiveNodeHandle(1);
    assert!(EngineRequest::LookUp { path: String::new(), allow_file: true, allow_directory: true }
        .needs_exclusive());
    assert!(EngineRequest::FileSize { node: n }.needs_exclusive());
    assert!(EngineRequest::ReadFromFile { node: n, offset: 0, length: 1 }.needs_exclusive());
    assert!(!EngineRequest::IsFile { node: n }.needs_exclusive());
    assert!(!EngineRequest::DirEntryCount { node: n }.needs_exclusive());
    assert!(!EngineRequest::DirEntry { node: n, index: 0 }.needs_exclusive());
}

#[test]
fn node_handles() {
    assert!(!ZArchiveNodeHandle::invalid().is_valid());
    assert_eq!(ZArchiveNodeHandle::invalid().raw(), 0xFFFF_FFFF);
    assert!(ZArchiveNodeHandle(0).is_valid());
    assert!(ZArchiveNodeHandle(1) < ZArchiveNodeHandle(2));
}
