//! The inode-addressed entry tree and identifier allocation.
use vstd::prelude::*;
use crate::text::str_equal;

verus! {

broadcast use vstd::std_specs::vec::axiom_vec_index_decreases;

/// The identifier of the root directory.
pub const INODE_ROOT: u64 = 1;

/// The identifier that denotes no entry.
pub const INODE_INVALID: u64 = 0;

/// The kind of an entry.
#[derive(Debug, Clone, Copy, PartialEq, Eq, Structural)]
pub enum FileType {
    Directory,
    RegularFile,
}

/// Whether an entry is read or written.
#[derive(Debug, Clone, Copy, PartialEq, Eq, Structural)]
pub enum Mode {
    ReadOnly,
    WriteOnly,
}

/// A node of the tree: a file, or a directory with ordered children.
pub struct FsEntry {
    pub inode: u64,
    pub file_type: FileType,
    pub name: String,
    pub mode: Mode,
    pub fs_entries: Vec<FsEntry>,
}

/// The attributes reported for an entry. Its timestamps are all the epoch.
#[derive(Debug, Clone, Copy, PartialEq, Eq, Structural)]
pub struct FileAttr {
    pub ino: u64,
    pub size: u64,
    pub blocks: u64,
    pub kind: FileType,
    pub perm: u16,
    pub nlink: u32,
    pub uid: u32,
    pub gid: u32,
    pub rdev: u32,
    pub flags: u32,
}

/// The permission bits of an entry: directories `0o555`, read-only files
/// `0o444`, write-only files `0o222`.
pub open spec fn perm_of(file_type: FileType, mode: Mode) -> u16 {
    match file_type {
        FileType::RegularFile => match mode {
            Mode::WriteOnly => 0o222,
            Mode::ReadOnly => 0o444,
        },
        FileType::Directory => 0o555,
    }
}

/// The attributes of entry `e` with content of `size` bytes: one block
/// and one link for a file, none and two for a directory, owner root.
pub open spec fn attr_of(e: FsEntry, size: u32) -> FileAttr {
    FileAttr {
        ino: e.inode,
        size: size as u64,
        blocks: if e.file_type == FileType::RegularFile { 1 } else { 0 },
        kind: e.file_type,
        perm: perm_of(e.file_type, e.mode),
        nlink: if e.file_type == FileType::RegularFile { 1 } else { 2 },
        uid: 0,
        gid: 0,
        rdev: 0,
        flags: 0,
    }
}

/// `e` is a read-only regular file without children, with this identifier and name.
pub open spec fn ro_file(e: FsEntry, inode: u64, name: Seq<char>) -> bool {
    &&& e.inode == inode
    &&& e.name@ == name
    &&& e.file_type == FileType::RegularFile
    &&& e.mode == Mode::ReadOnly
    &&& e.fs_entries@.len() == 0
}

/// `e` is a read-only directory with this identifier and name.
pub open spec fn ro_dir(e: FsEntry, inode: u64, name: Seq<char>) -> bool {
    &&& e.inode == inode
    &&& e.name@ == name
    &&& e.file_type == FileType::Directory
    &&& e.mode == Mode::ReadOnly
}

/// The first entry with identifier `inode`, in pre-order, in the subtree of `e`.
pub open spec fn find_spec(e: FsEntry, inode: u64) -> Option<FsEntry>
    decreases e,
{
    if e.inode == inode {
        Some(e)
    } else {
        find_in_spec(e.fs_entries@, inode)
    }
}

/// The first entry with identifier `inode`, in pre-order, in the subtrees of `s`.
pub open spec fn find_in_spec(s: Seq<FsEntry>, inode: u64) -> Option<FsEntry>
    decreases s,
{
    if s.len() == 0 {
        None
    } else {
        match find_spec(s[0], inode) {
            Some(x) => Some(x),
            None => find_in_spec(s.subrange(1, s.len() as int), inode),
        }
    }
}

/// The first entry named `name`, in pre-order, in the subtree of `e`.
pub open spec fn find_by_name_spec(e: FsEntry, name: Seq<char>) -> Option<FsEntry>
    decreases e,
{
    if e.name@ == name {
        Some(e)
    } else {
        find_by_name_in_spec(e.fs_entries@, name)
    }
}

/// The first entry named `name`, in pre-order, in the subtrees of `s`.
pub open spec fn find_by_name_in_spec(s: Seq<FsEntry>, name: Seq<char>) -> Option<FsEntry>
    decreases s,
{
    if s.len() == 0 {
        None
    } else {
        match find_by_name_spec(s[0], name) {
            Some(x) => Some(x),
            None => find_by_name_in_spec(s.subrange(1, s.len() as int), name),
        }
    }
}

/// Whether an entry with identifier `inode` lies in the subtree of `e`.
pub open spec fn contains_inode(e: FsEntry, inode: u64) -> bool {
    find_spec(e, inode) is Some
}

proof fn lemma_find_in_step(s: Seq<FsEntry>, i: int, inode: u64)
    requires
        0 <= i < s.len(),
        find_spec(s[i], inode) is None,
    ensures
        find_in_spec(s.subrange(i, s.len() as int), inode) == find_in_spec(
            s.subrange(i + 1, s.len() as int),
            inode,
        ),
{
    let t = s.subrange(i, s.len() as int);
    assert(t[0] == s[i]);
    assert(t.subrange(1, t.len() as int) =~= s.subrange(i + 1, s.len() as int));
}

proof fn lemma_find_by_name_in_step(s: Seq<FsEntry>, i: int, name: Seq<char>)
    requires
        0 <= i < s.len(),
        find_by_name_spec(s[i], name) is None,
    ensures
        find_by_name_in_spec(s.subrange(i, s.len() as int), name) == find_by_name_in_spec(
            s.subrange(i + 1, s.len() as int),
            name,
        ),
{
    let t = s.subrange(i, s.len() as int);
    assert(t[0] == s[i]);
    assert(t.subrange(1, t.len() as int) =~= s.subrange(i + 1, s.len() as int));
}

proof fn lemma_find_in_hit(s: Seq<FsEntry>, i: int, inode: u64)
    requires
        0 <= i < s.len(),
        find_spec(s[i], inode) is Some,
    ensures
        find_in_spec(s.subrange(i, s.len() as int), inode) == find_spec(s[i], inode),
{
    let t = s.subrange(i, s.len() as int);
    assert(t[0] == s[i]);
}

proof fn lemma_find_by_name_in_hit(s: Seq<FsEntry>, i: int, name: Seq<char>)
    requires
        0 <= i < s.len(),
        find_by_name_spec(s[i], name) is Some,
    ensures
        find_by_name_in_spec(s.subrange(i, s.len() as int), name) == find_by_name_spec(s[i], name),
{
    let t = s.subrange(i, s.len() as int);
    assert(t[0] == s[i]);
}

/// An identifier lies in a list of subtrees exactly when it lies in one of them.
pub proof fn lemma_find_in_any(s: Seq<FsEntry>, inode: u64)
    ensures
        (find_in_spec(s, inode) is Some) <==> (exists|k: int| 0 <= k < s.len() && #[trigger] find_spec(s[k], inode) is Some),
    decreases s.len(),
{
    if s.len() > 0 {
        let t = s.subrange(1, s.len() as int);
        lemma_find_in_any(t, inode);
        if find_spec(s[0], inode) is Some {
            assert(find_spec(s[0], inode) is Some);
        } else {
            if find_in_spec(t, inode) is Some {
                let k = choose|k: int| 0 <= k < t.len() && #[trigger] find_spec(t[k], inode) is Some;
                assert(s[k + 1] == t[k]);
                assert(find_spec(s[k + 1], inode) is Some);
            }
            if exists|k: int| 0 <= k < s.len() && #[trigger] find_spec(s[k], inode) is Some {
                let k = choose|k: int| 0 <= k < s.len() && #[trigger] find_spec(s[k], inode) is Some;
                assert(k != 0);
                assert(t[k - 1] == s[k]);
                assert(find_spec(t[k - 1], inode) is Some);
            }
        }
    }
}

/// A subtree holds an identifier exactly when its root has it or one of
/// its children's subtrees holds it.
pub proof fn lemma_find_node(e: FsEntry, inode: u64)
    ensures
        (find_spec(e, inode) is Some) <==> (e.inode == inode || exists|k: int|
            0 <= k < e.fs_entries@.len() && #[trigger] find_spec(e.fs_entries@[k], inode) is Some),
{
    lemma_find_in_any(e.fs_entries@, inode);
}

/// A childless entry holds only its own identifier.
pub proof fn lemma_find_leaf(e: FsEntry, inode: u64)
    requires
        e.fs_entries@.len() == 0,
    ensures
        (find_spec(e, inode) is Some) <==> e.inode == inode,
{
    lemma_find_node(e, inode);
}

impl FsEntry {
    pub fn new(
        inode: u64,
        file_type: FileType,
        name: &str,
        mode: Mode,
        fs_entries: Vec<FsEntry>,
    ) -> (r: Self)
        ensures
            r.inode == inode,
            r.file_type == file_type,
            r.name@ == name@,
            r.mode == mode,
            r.fs_entries == fs_entries,
    {
        FsEntry { inode, file_type, name: name.to_owned(), mode, fs_entries }
    }

    /// The attributes of the entry, for content of `size` bytes.
    pub fn attrs(&self, size: u32) -> (r: FileAttr)
        ensures
            r == attr_of(*self, size),
    {
        let perm: u16 = match self.file_type {
            FileType::RegularFile => match self.mode {
                Mode::WriteOnly => 0o222,
                Mode::ReadOnly => 0o444,
            },
            FileType::Directory => 0o555,
        };
        let blocks: u64 = match self.file_type {
            FileType::RegularFile => 1,
            FileType::Directory => 0,
        };
        let nlink: u32 = match self.file_type {
            FileType::RegularFile => 1,
            FileType::Directory => 2,
        };
        FileAttr {
            ino: self.inode,
            size: size as u64,
            blocks,
            kind: self.file_type,
            perm,
            nlink,
            uid: 0,
            gid: 0,
            rdev: 0,
            flags: 0,
        }
    }

    /// The first entry with identifier `inode` in this subtree, in pre-order.
    pub fn find(&self, inode: u64) -> (r: Option<&FsEntry>)
        ensures
            match r {
                Some(e) => find_spec(*self, inode) == Some(*e),
                None => find_spec(*self, inode) is None,
            },
        decreases self,
    {
        if self.inode == inode {
            return Some(self);
        }
        let ghost s = self.fs_entries@;
        proof {
            assert(s.subrange(0, s.len() as int) =~= s);
        }
        let mut i: usize = 0;
        while i < self.fs_entries.len()
            invariant
                s == self.fs_entries@,
                i <= s.len(),
                self.inode != inode,
                find_spec(*self, inode) == find_in_spec(s.subrange(i as int, s.len() as int), inode),
            decreases s.len() - i,
        {
            let child = &self.fs_entries[i];
            proof {
                assert(decreases_to!(self => self.fs_entries));
            }
            match child.find(inode) {
                Some(e) => {
                    proof {
                        lemma_find_in_hit(s, i as int, inode);
                    }
                    return Some(e);
                },
                None => {
                    proof {
                        lemma_find_in_step(s, i as int, inode);
                    }
                },
            }
            i = i + 1;
        }
        proof {
            assert(s.subrange(i as int, s.len() as int).len() == 0);
        }
        None
    }

    /// The first entry named `name` in this subtree, in pre-order.
    pub fn find_by_name(&self, name: &str) -> (r: Option<&FsEntry>)
        ensures
            match r {
                Some(e) => find_by_name_spec(*self, name@) == Some(*e),
                None => find_by_name_spec(*self, name@) is None,
            },
        decreases self,
    {
        if str_equal(self.name.as_str(), name) {
            return Some(self);
        }
        let ghost s = self.fs_entries@;
        proof {
            assert(s.subrange(0, s.len() as int) =~= s);
        }
        let mut i: usize = 0;
        while i < self.fs_entries.len()
            invariant
                s == self.fs_entries@,
                i <= s.len(),
                self.name@ != name@,
                find_by_name_spec(*self, name@) == find_by_name_in_spec(
                    s.subrange(i as int, s.len() as int),
                    name@,
                ),
            decreases s.len() - i,
        {
            let child = &self.fs_entries[i];
            proof {
                assert(decreases_to!(self => self.fs_entries));
            }
            match child.find_by_name(name) {
                Some(e) => {
                    proof {
                        lemma_find_by_name_in_hit(s, i as int, name@);
                    }
                    return Some(e);
                },
                None => {
                    proof {
                        lemma_find_by_name_in_step(s, i as int, name@);
                    }
                },
            }
            i = i + 1;
        }
        proof {
            assert(s.subrange(i as int, s.len() as int).len() == 0);
        }
        None
    }
}

/// The process-wide source of entry identifiers: it hands out `2, 3, 4, …`,
/// the root holding `1`, and never the same one twice.
pub struct InodeCounter {
    last: u64,
}

impl InodeCounter {
    /// The identifier handed out last (the root's, before any allocation).
    pub closed spec fn last(&self) -> u64 {
        self.last
    }

    pub fn new() -> (r: Self)
        ensures
            r.last() == INODE_ROOT,
    {
        InodeCounter { last: INODE_ROOT }
    }

    /// A fresh identifier, one above the last; `INODE_INVALID` once all
    /// 64-bit identifiers are spent.
    pub fn create_inode(&mut self) -> (r: u64)
        ensures
            old(self).last() < u64::MAX ==> r == old(self).last() + 1 && final(self).last() == r,
            old(self).last() == u64::MAX ==> r == INODE_INVALID && final(self).last() == old(self).last(),
    {
        if self.last < u64::MAX {
            self.last = self.last + 1;
            self.last
        } else {
            INODE_INVALID
        }
    }
}

/// Identifiers are handed out in strictly increasing order: of two
/// successful allocations, the later one is the greater.
pub proof fn lemma_inodes_increase(c0: InodeCounter, c1: InodeCounter, c2: InodeCounter, a: u64, b: u64)
    requires
        c0.last() >= INODE_ROOT,
        c0.last() < u64::MAX ==> a == c0.last() + 1 && c1.last() == a,
        c0.last() == u64::MAX ==> a == INODE_INVALID && c1.last() == c0.last(),
        c1.last() < u64::MAX ==> b == c1.last() + 1 && c2.last() == b,
        c1.last() == u64::MAX ==> b == INODE_INVALID && c2.last() == c1.last(),
        a != INODE_INVALID,
        b != INODE_INVALID,
    ensures
        INODE_ROOT < a < b,
        c0.last() < a,
{
    if c0.last() == u64::MAX {
        assert(a == INODE_INVALID);
    }
    if c1.last() == u64::MAX {
        assert(b == INODE_INVALID);
    }
}

} // verus!
