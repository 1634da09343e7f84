//! The filesystem backend: the tree of module subtrees under the root, the
//! registrar that grafts them, and the kernel-filesystem operations
//! (`readdir`, `lookup`, `getattr`, `read`, `write`) answered from it.
use vstd::prelude::*;
use vstd::utf8::encode_utf8;
use crate::config::{config_index, Config, ModuleConfig};
use crate::fstree::{
    find_by_name_spec, find_spec, FileAttr, FileType, FsEntry, InodeCounter, Mode, INODE_ROOT,
};
use crate::modules::module::{Module, WriteAction};
use crate::text::str_equal;

verus! {

pub const ENTRY_JSON: &'static str = "json";

pub const ENTRY_SHELL: &'static str = "shell";

/// The seconds for which the kernel may cache an answer.
pub const TTL_S: u64 = 1;

/// Why an operation failed; the kernel sees it as `ENOENT`.
#[derive(Debug, Clone, Copy, PartialEq, Eq, Structural)]
pub enum FsError {
    NotFound,
}

/// One item of a directory listing: the entry, the offset of the next item,
/// the entry's kind and its name.
pub struct DirItem {
    pub ino: u64,
    pub offset: i64,
    pub kind: FileType,
    pub name: String,
}

pub open spec fn item_view(d: DirItem) -> (u64, i64, FileType, Seq<char>) {
    (d.ino, d.offset, d.kind, d.name@)
}

/// The listing of directory `e`: `.`, `..`, then its children in order.
pub open spec fn listing(e: FsEntry) -> Seq<(u64, FileType, Seq<char>)> {
    seq![(e.inode, FileType::Directory, "."@), (e.inode, FileType::Directory, ".."@)]
        + e.fs_entries@.map_values(|c: FsEntry| (c.inode, c.file_type, c.name@))
}

/// The listing of `e` from position `k` on, each item with the offset of the next.
pub open spec fn listing_from(e: FsEntry, k: int) -> Seq<(u64, i64, FileType, Seq<char>)> {
    let l = listing(e);
    if k >= l.len() {
        Seq::empty()
    } else {
        Seq::new((l.len() - k) as nat, |j: int| (l[k + j].0, (k + j + 1) as i64, l[k + j].1, l[k + j].2))
    }
}

/// The bytes a read returns from content `b`: from `offset`, at most `size`
/// bytes, never past the end; nothing when `offset` is negative or at or
/// past the end.
pub open spec fn read_window(b: Seq<u8>, offset: i64, size: u32) -> Seq<u8> {
    if 0 <= offset && offset < b.len() {
        let end = if offset + size < b.len() { offset + size } else { b.len() as int };
        b.subrange(offset as int, end)
    } else {
        Seq::empty()
    }
}

/// The size reported for content `s`: its UTF-8 length, as a machine
/// length cut to 32 bits.
pub open spec fn size_of(s: Seq<char>) -> u32 {
    (encode_utf8(s).len() as usize) as u32
}

/// The least index below `n` that satisfies `p`.
pub open spec fn first_where(n: int, p: spec_fn(int) -> bool) -> Option<int>
    decreases n,
{
    if n <= 0 {
        None
    } else {
        match first_where(n - 1, p) {
            Some(i) => Some(i),
            None => if p(n - 1) {
                Some(n - 1)
            } else {
                None
            },
        }
    }
}

proof fn lemma_first_where_stable(n: int, m: int, p: spec_fn(int) -> bool)
    requires
        0 <= n <= m,
        first_where(n, p) is Some,
    ensures
        first_where(m, p) == first_where(n, p),
    decreases m - n,
{
    if n < m {
        lemma_first_where_stable(n, m - 1, p);
    }
}

proof fn lemma_first_where_bound(n: int, p: spec_fn(int) -> bool)
    ensures
        first_where(n, p) is Some ==> 0 <= first_where(n, p)->0 < n && p(first_where(n, p)->0),
    decreases n,
{
    if n > 0 {
        lemma_first_where_bound(n - 1, p);
    }
}

/// The index of the first module that owns `inode`.
pub open spec fn first_owner<M: Module>(ms: Seq<M>, inode: u64) -> Option<int> {
    first_where(ms.len() as int, |i: int| ms[i].spec_owns(inode))
}

/// The index of the first module named `name`.
pub open spec fn first_named<M: Module>(ms: Seq<M>, name: Seq<char>) -> Option<int> {
    first_where(ms.len() as int, |i: int| ms[i].spec_name() == name)
}

/// The index of the first entry of `s` whose subtree holds `inode`.
pub open spec fn first_containing(s: Seq<FsEntry>, inode: u64) -> Option<int> {
    first_where(s.len() as int, |i: int| find_spec(s[i], inode) is Some)
}

/// The index of the first entry of `s` named `name`.
pub open spec fn first_child_named(s: Seq<FsEntry>, name: Seq<char>) -> Option<int> {
    first_where(s.len() as int, has_name(s, name))
}

/// Whether entry `i` of `s` is named `name`.
pub open spec fn has_name(s: Seq<FsEntry>, name: Seq<char>) -> spec_fn(int) -> bool {
    |i: int| s[i].name@ == name
}

/// `s` without its first entry named `name`, if it has one.
pub open spec fn without(s: Seq<FsEntry>, name: Seq<char>) -> Seq<FsEntry> {
    match first_child_named(s, name) {
        Some(k) => s.remove(k),
        None => s,
    }
}

/// A read-only regular file named `name` without children.
pub open spec fn is_leaf(e: FsEntry, name: Seq<char>) -> bool {
    &&& e.file_type == FileType::RegularFile
    &&& e.mode == Mode::ReadOnly
    &&& e.name@ == name
    &&& e.fs_entries@.len() == 0
}

/// The size of a `json` or `shell` file of module `m`; 0 for any other name.
pub open spec fn custom_size<M: Module>(m: M, name: Seq<char>) -> u32 {
    if name == ENTRY_JSON@ {
        size_of(m.spec_json())
    } else if name == ENTRY_SHELL@ {
        size_of(m.spec_shell())
    } else {
        0
    }
}

/// The content of a `json` or `shell` file of module `m`.
pub open spec fn custom_content<M: Module>(m: M, name: Seq<char>) -> Option<Seq<char>> {
    if name == ENTRY_JSON@ {
        Some(m.spec_json())
    } else if name == ENTRY_SHELL@ {
        Some(m.spec_shell())
    } else {
        None
    }
}

/// Whether a module with options `c` is grafted: it has options and is enabled.
pub open spec fn registered(config: Seq<(String, ModuleConfig)>, name: Seq<char>) -> bool {
    config_index(config, name) is Some && config[config_index(config, name)->0].1.spec_enabled()
}

/// The names of the extra files a module's options ask for: `json`, then `shell`.
pub open spec fn custom_names(c: ModuleConfig) -> Seq<Seq<char>> {
    (if c.spec_json_enabled() { seq![ENTRY_JSON@] } else { Seq::empty() })
        + (if c.spec_shell_enabled() { seq![ENTRY_SHELL@] } else { Seq::empty() })
}

/// `s` is a module's subtree followed by the extra files its options ask for.
pub open spec fn grafted_children<M: Module>(s: Seq<FsEntry>, m: M, c: ModuleConfig) -> bool {
    let names = custom_names(c);
    let k = s.len() - names.len();
    &&& k >= 0
    &&& m.spec_entries(s.take(k))
    &&& forall|j: int| 0 <= j < names.len() ==> is_leaf(#[trigger] s[k + j], names[j])
}

/// The root after module `m` is grafted, or left alone when the options do
/// not enable `m`: its old directory, if any, is taken out and a fresh one
/// holding its subtree is appended.
pub open spec fn graft_post<M: Module>(
    old_root: FsEntry,
    new_root: FsEntry,
    m: M,
    config: Seq<(String, ModuleConfig)>,
) -> bool {
    let name = m.spec_name();
    &&& new_root.inode == old_root.inode
    &&& new_root.file_type == old_root.file_type
    &&& new_root.mode == old_root.mode
    &&& new_root.name@ == old_root.name@
    &&& if registered(config, name) {
        let c = config[config_index(config, name)->0].1;
        let kids = new_root.fs_entries@;
        let d = kids.last();
        &&& kids.len() > 0
        &&& kids.drop_last() == without(old_root.fs_entries@, name)
        &&& d.file_type == FileType::Directory
        &&& d.mode == Mode::ReadOnly
        &&& d.name@ == name
        &&& grafted_children(d.fs_entries@, m, c)
    } else {
        new_root.fs_entries@ == old_root.fs_entries@
    }
}

/// The options of module `name`, when the configuration has them.
pub open spec fn options_of(config: Seq<(String, ModuleConfig)>, name: Seq<char>) -> ModuleConfig {
    config[config_index(config, name)->0].1
}

/// Directory `d`, grafted for a module with options `c`, took the
/// identifiers after `before`: its own first, then its extra files in
/// order; the counter stands at `after`.
pub open spec fn graft_fresh(d: FsEntry, c: ModuleConfig, before: u64, after: u64) -> bool {
    let names = custom_names(c);
    let k = d.fs_entries@.len() - names.len();
    &&& d.inode == before + 1
    &&& after == before + 1 + names.len()
    &&& forall|j: int| 0 <= j < names.len() ==> (#[trigger] d.fs_entries@[k + j]).inode == before + 2 + j
}

/// The modules carry pairwise distinct names.
pub open spec fn distinct_module_names<M: Module>(ms: Seq<M>) -> bool {
    forall|a: int, b: int| 0 <= a < ms.len() && 0 <= b < ms.len() && a != b ==> #[trigger] ms[a].spec_name() != #[trigger] ms[b].spec_name()
}

/// The entries carry pairwise distinct names.
pub open spec fn distinct_names(s: Seq<FsEntry>) -> bool {
    forall|a: int, b: int| 0 <= a < s.len() && 0 <= b < s.len() && a != b ==> #[trigger] s[a].name@ != #[trigger] s[b].name@
}

proof fn lemma_first_where_none(n: int, p: spec_fn(int) -> bool)
    requires
        forall|k: int| 0 <= k < n ==> !#[trigger] p(k),
    ensures
        first_where(n, p) is None,
    decreases n,
{
    if n > 0 {
        lemma_first_where_none(n - 1, p);
    }
}

/// Taking out the entry named `name` from a list without one changes nothing.
proof fn lemma_without_absent(s: Seq<FsEntry>, name: Seq<char>)
    requires
        forall|k: int| 0 <= k < s.len() ==> (#[trigger] s[k]).name@ != name,
    ensures
        without(s, name) == s,
{
    lemma_first_where_none(s.len() as int, has_name(s, name));
}

/// The indices, in order, of the first `n` modules that the options enable.
pub open spec fn registered_upto<M: Module>(ms: Seq<M>, n: int, config: Seq<(String, ModuleConfig)>) -> Seq<usize>
    decreases n,
{
    if n <= 0 {
        Seq::empty()
    } else {
        let before = registered_upto(ms, n - 1, config);
        if registered(config, ms[n - 1].spec_name()) {
            before.push((n - 1) as usize)
        } else {
            before
        }
    }
}

/// The bytes of `b` that a read from `offset` of at most `size` bytes returns.
pub fn read_slice(b: &[u8], offset: i64, size: u32) -> (r: Vec<u8>)
    ensures
        r@ == read_window(b@, offset, size),
{
    let len = b.len();
    let mut r: Vec<u8> = Vec::new();
    if offset < 0 || offset as u64 >= len as u64 {
        return r;
    }
    let start = offset as usize;
    let end: usize = if (size as u64) < (len - start) as u64 { start + size as usize } else { len };
    let mut i: usize = start;
    while i < end
        invariant
            start <= i <= end,
            end <= len,
            len == b@.len(),
            r@ == b@.subrange(start as int, i as int),
        decreases end - i,
    {
        r.push(b[i]);
        proof {
            assert(r@ =~= b@.subrange(start as int, i + 1));
        }
        i = i + 1;
    }
    r
}

/// Appends to module directory `entry` the `json` and `shell` files that
/// options `config` ask for, in that order, each with a fresh identifier.
pub fn register_custom_entries(config: &ModuleConfig, entry: &mut FsEntry, inodes: &mut InodeCounter)
    ensures
        final(entry).inode == old(entry).inode,
        final(entry).file_type == old(entry).file_type,
        final(entry).name@ == old(entry).name@,
        final(entry).mode == old(entry).mode,
        final(entry).fs_entries@.len() == old(entry).fs_entries@.len() + custom_names(*config).len(),
        final(entry).fs_entries@.take(old(entry).fs_entries@.len() as int) == old(entry).fs_entries@,
        forall|j: int|
            0 <= j < custom_names(*config).len() ==> is_leaf(
                #[trigger] final(entry).fs_entries@[old(entry).fs_entries@.len() + j],
                custom_names(*config)[j],
            ),
        old(inodes).last() <= final(inodes).last() <= old(inodes).last() + 2,
        old(inodes).last() + custom_names(*config).len() <= u64::MAX ==> final(inodes).last() == old(inodes).last()
            + custom_names(*config).len() && forall|j: int|
            0 <= j < custom_names(*config).len() ==> (#[trigger] final(entry).fs_entries@[old(entry).fs_entries@.len() + j]).inode
                == old(inodes).last() + j + 1,
{
    let ghost before = entry.fs_entries@;
    if config.json_enabled() {
        let inode = inodes.create_inode();
        entry.fs_entries.push(FsEntry::new(inode, FileType::RegularFile, ENTRY_JSON, Mode::ReadOnly, Vec::new()));
    }
    if config.shell_enabled() {
        let inode = inodes.create_inode();
        entry.fs_entries.push(FsEntry::new(inode, FileType::RegularFile, ENTRY_SHELL, Mode::ReadOnly, Vec::new()));
    }
    proof {
        assert(entry.fs_entries@.take(before.len() as int) =~= before);
    }
}

/// A read from offset 0 of at least the content's length returns the whole
/// content, byte for byte.
pub proof fn lemma_full_read(b: Seq<u8>, size: u32)
    requires
        b.len() <= size,
    ensures
        read_window(b, 0, size) == b,
{
    if b.len() > 0 {
        assert(b.subrange(0, b.len() as int) =~= b);
    }
}

/// A read from an offset at or past the end returns nothing, and is no error.
pub proof fn lemma_read_past_end(b: Seq<u8>, offset: i64, size: u32)
    requires
        offset >= b.len(),
    ensures
        read_window(b, offset, size) == Seq::<u8>::empty(),
{
}

/// A read that would run past the end stops at the end.
pub proof fn lemma_read_truncated(b: Seq<u8>, offset: i64, size: u32)
    requires
        0 <= offset < b.len(),
        offset + size > b.len(),
    ensures
        read_window(b, offset, size) == b.subrange(offset as int, b.len() as int),
        read_window(b, offset, size).len() == b.len() - offset,
{
}

/// Grafting one module leaves the directory of every other module in the
/// root, whole: identifiers found under it before the graft are found the
/// same way after it.
pub proof fn lemma_graft_keeps_other_subtrees<M: Module>(
    old_root: FsEntry,
    new_root: FsEntry,
    m: M,
    config: Seq<(String, ModuleConfig)>,
    j: int,
)
    requires
        graft_post(old_root, new_root, m, config),
        0 <= j < old_root.fs_entries@.len(),
        old_root.fs_entries@[j].name@ != m.spec_name(),
    ensures
        exists|k: int| 0 <= k < new_root.fs_entries@.len() && #[trigger] new_root.fs_entries@[k] == old_root.fs_entries@[j],
{
    if registered(config, m.spec_name()) {
        match first_child_named(old_root.fs_entries@, m.spec_name()) {
            Some(r) => {
                lemma_first_where_bound(old_root.fs_entries@.len() as int, has_name(old_root.fs_entries@, m.spec_name()));
                assert(r != j);
                let rest = old_root.fs_entries@.remove(r);
                assert(new_root.fs_entries@.drop_last() == rest);
                assert(rest.len() == old_root.fs_entries@.len() - 1);
                if j < r {
                    assert(rest[j] == old_root.fs_entries@[j]);
                    assert(new_root.fs_entries@[j] == new_root.fs_entries@.drop_last()[j]);
                } else {
                    assert(rest[j - 1] == old_root.fs_entries@[j]);
                    assert(new_root.fs_entries@[j - 1] == new_root.fs_entries@.drop_last()[j - 1]);
                }
            },
            None => {
                assert(new_root.fs_entries@[j] == new_root.fs_entries@.drop_last()[j]);
            },
        }
    } else {
        assert(new_root.fs_entries@[j] == old_root.fs_entries@[j]);
    }
}

proof fn lemma_first_where_none_all(n: int, p: spec_fn(int) -> bool)
    requires
        first_where(n, p) is None,
    ensures
        forall|k: int| 0 <= k < n ==> !#[trigger] p(k),
    decreases n,
{
    if n > 0 {
        lemma_first_where_none_all(n - 1, p);
    }
}

/// Grafting one module keeps every identifier found under another
/// module's directory reachable from the root: until its own module is
/// grafted anew, such an identifier never stops resolving.
pub proof fn lemma_graft_keeps_identifiers<M: Module>(
    old_root: FsEntry,
    new_root: FsEntry,
    m: M,
    config: Seq<(String, ModuleConfig)>,
    j: int,
    inode: u64,
)
    requires
        graft_post(old_root, new_root, m, config),
        0 <= j < old_root.fs_entries@.len(),
        old_root.fs_entries@[j].name@ != m.spec_name(),
        find_spec(old_root.fs_entries@[j], inode) is Some,
    ensures
        find_spec(new_root, inode) is Some,
{
    lemma_graft_keeps_other_subtrees(old_root, new_root, m, config, j);
    let k = choose|k: int| 0 <= k < new_root.fs_entries@.len() && #[trigger] new_root.fs_entries@[k] == old_root.fs_entries@[j];
    crate::fstree::lemma_find_node(new_root, inode);
    assert(find_spec(new_root.fs_entries@[k], inode) is Some);
}

/// A graft keeps the names of the root's children distinct, and leaves
/// exactly one directory named after the grafted module: delivering the
/// same graft again does not duplicate it.
pub proof fn lemma_graft_keeps_names_distinct<M: Module>(
    old_root: FsEntry,
    new_root: FsEntry,
    m: M,
    config: Seq<(String, ModuleConfig)>,
)
    requires
        graft_post(old_root, new_root, m, config),
        distinct_names(old_root.fs_entries@),
    ensures
        distinct_names(new_root.fs_entries@),
        registered(config, m.spec_name()) ==> forall|k: int|
            0 <= k < new_root.fs_entries@.len() ==> ((#[trigger] new_root.fs_entries@[k]).name@ == m.spec_name()
                <==> k == new_root.fs_entries@.len() - 1),
{
    let s = old_root.fs_entries@;
    let t = new_root.fs_entries@;
    let name = m.spec_name();
    if registered(config, name) {
        let rest = t.drop_last();
        assert(rest == without(old_root.fs_entries@, m.spec_name()));
        match first_child_named(old_root.fs_entries@, m.spec_name()) {
            Some(r) => {
                lemma_first_where_bound(old_root.fs_entries@.len() as int, has_name(old_root.fs_entries@, m.spec_name()));
                assert(rest == s.remove(r));
                assert forall|k: int| 0 <= k < rest.len() implies (#[trigger] rest[k]).name@ != name by {
                    if k < r {
                        assert(rest[k] == s[k]);
                    } else {
                        assert(rest[k] == s[k + 1]);
                    }
                }
                assert forall|a: int, b: int| 0 <= a < rest.len() && 0 <= b < rest.len() && a != b implies #[trigger] rest[a].name@ != #[trigger] rest[b].name@ by {
                    let a2 = if a < r { a } else { a + 1 };
                    let b2 = if b < r { b } else { b + 1 };
                    assert(rest[a] == s[a2]);
                    assert(rest[b] == s[b2]);
                }
            },
            None => {
                lemma_first_where_none_all(old_root.fs_entries@.len() as int, has_name(old_root.fs_entries@, m.spec_name()));
                assert(rest == s);
                assert forall|k: int| 0 <= k < rest.len() implies (#[trigger] rest[k]).name@ != name by {
                    assert(!has_name(old_root.fs_entries@, m.spec_name())(k));
                }
            },
        }
        assert forall|k: int| 0 <= k < rest.len() implies #[trigger] t[k] == rest[k] by {}
        assert forall|a: int, b: int| 0 <= a < t.len() && 0 <= b < t.len() && a != b implies #[trigger] t[a].name@ != #[trigger] t[b].name@ by {
            if a < t.len() - 1 && b < t.len() - 1 {
                assert(t[a] == rest[a] && t[b] == rest[b]);
            } else if a < t.len() - 1 {
                assert(t[a] == rest[a]);
            } else {
                assert(t[b] == rest[b]);
            }
        }
        assert forall|k: int| 0 <= k < t.len() implies ((#[trigger] t[k]).name@ == name <==> k == t.len() - 1) by {
            if k < t.len() - 1 {
                assert(t[k] == rest[k]);
            }
        }
    } else {
        assert(t == s);
    }
}

/// A brightness module that knows no device grafts an empty directory when
/// its options ask for no extra file: `readdir` of it lists only `.` and `..`.
pub proof fn lemma_brightness_without_devices(b: crate::modules::brightness::Brightness, s: Seq<FsEntry>, c: ModuleConfig)
    requires
        b.devices@.len() == 0,
        grafted_children(s, b, c),
        !c.spec_json_enabled(),
        !c.spec_shell_enabled(),
    ensures
        s.len() == 0,
{
    assert(custom_names(c).len() == 0);
    assert(s.take(s.len() as int) =~= s);
}

/// The backend: the root directory, the modules, and their options.
pub struct FsBackend<M: Module> {
    pub root: FsEntry,
    pub modules: Vec<M>,
    pub config: Config,
}

impl<M: Module> FsBackend<M> {
    /// The size of file `e`, and whether it can be told: as `getattr` finds
    /// it, with the owning directory given by `dir_name`.
    pub open spec fn size_spec(&self, e: FsEntry, dir_name: Option<Seq<char>>) -> Option<u32> {
        let ms = self.modules@;
        if e.file_type == FileType::Directory {
            Some(0)
        } else {
            match first_owner(ms, e.inode) {
                Some(i) => Some(size_of(ms[i].spec_value(e.inode))),
                None => match dir_name {
                    None => None,
                    Some(n) => match first_named(ms, n) {
                        None => None,
                        Some(i) => Some(custom_size(ms[i], e.name@)),
                    },
                },
            }
        }
    }

    /// The name of the first root child whose subtree holds `inode`.
    pub open spec fn dir_of(&self, inode: u64) -> Option<Seq<char>> {
        match first_containing(self.root.fs_entries@, inode) {
            Some(c) => Some(self.root.fs_entries@[c].name@),
            None => None,
        }
    }

    /// The content of file `e`, as `read` finds it.
    pub open spec fn content_spec(&self, e: FsEntry) -> Option<Seq<char>> {
        let ms = self.modules@;
        match first_owner(ms, e.inode) {
            Some(i) => Some(ms[i].spec_value(e.inode)),
            None => match self.dir_of(e.inode) {
                None => None,
                Some(n) => match first_named(ms, n) {
                    None => None,
                    Some(i) => custom_content(ms[i], e.name@),
                },
            },
        }
    }

    /// What `getattr` answers for identifier `ino`.
    pub open spec fn getattr_spec(&self, ino: u64) -> Result<FileAttr, FsError> {
        match find_spec(self.root, ino) {
            None => Err(FsError::NotFound),
            Some(e) => match self.size_spec(e, self.dir_of(e.inode)) {
                None => Err(FsError::NotFound),
                Some(n) => Ok(crate::fstree::attr_of(e, n)),
            },
        }
    }

    pub fn new(modules: Vec<M>, config: Config) -> (r: Self)
        ensures
            r.root.inode == INODE_ROOT,
            r.root.file_type == FileType::Directory,
            r.root.mode == Mode::ReadOnly,
            r.root.fs_entries@.len() == 0,
            r.modules == modules,
            r.config == config,
    {
        FsBackend {
            root: FsEntry::new(INODE_ROOT, FileType::Directory, "/", Mode::ReadOnly, Vec::new()),
            modules,
            config,
        }
    }

    /// The index of the first module named `name`.
    pub fn find_module_by_name(&self, name: &str) -> (r: Option<usize>)
        ensures
            match r {
                Some(i) => first_named(self.modules@, name@) == Some(i as int),
                None => first_named(self.modules@, name@) is None,
            },
            r is Some ==> r->0 < self.modules@.len(),
    {
        let mut i: usize = 0;
        while i < self.modules.len()
            invariant
                i <= self.modules@.len(),
                first_where(i as int, |j: int| self.modules@[j].spec_name() == name@) is None,
            decreases self.modules@.len() - i,
        {
            if str_equal(self.modules[i].name(), name) {
                proof {
                    lemma_first_where_stable(i + 1, self.modules@.len() as int, |j: int| self.modules@[j].spec_name() == name@);
                }
                return Some(i);
            }
            i = i + 1;
        }
        None
    }

    /// The index of the first module that owns file `inode`.
    pub fn find_module(&self, inode: u64) -> (r: Option<usize>)
        ensures
            match r {
                Some(i) => first_owner(self.modules@, inode) == Some(i as int),
                None => first_owner(self.modules@, inode) is None,
            },
            r is Some ==> r->0 < self.modules@.len(),
    {
        let mut i: usize = 0;
        while i < self.modules.len()
            invariant
                i <= self.modules@.len(),
                first_where(i as int, |j: int| self.modules@[j].spec_owns(inode)) is None,
            decreases self.modules@.len() - i,
        {
            if self.modules[i].owns(inode) {
                proof {
                    lemma_first_where_stable(i + 1, self.modules@.len() as int, |j: int| self.modules@[j].spec_owns(inode));
                }
                return Some(i);
            }
            i = i + 1;
        }
        None
    }

    /// The index of the first root child whose subtree holds `inode`.
    fn find_dir_containing(&self, inode: u64) -> (r: Option<usize>)
        ensures
            match r {
                Some(i) => first_containing(self.root.fs_entries@, inode) == Some(i as int),
                None => first_containing(self.root.fs_entries@, inode) is None,
            },
            r is Some ==> r->0 < self.root.fs_entries@.len(),
    {
        let mut i: usize = 0;
        while i < self.root.fs_entries.len()
            invariant
                i <= self.root.fs_entries@.len(),
                first_where(i as int, |j: int| find_spec(self.root.fs_entries@[j], inode) is Some) is None,
            decreases self.root.fs_entries@.len() - i,
        {
            if self.root.fs_entries[i].find(inode).is_some() {
                proof {
                    lemma_first_where_stable(i + 1, self.root.fs_entries@.len() as int, |j: int| find_spec(self.root.fs_entries@[j], inode) is Some);
                }
                return Some(i);
            }
            i = i + 1;
        }
        None
    }

    /// The size of a `json` or `shell` file of module `i`; 0 for any other name.
    fn custom_size_of(&self, i: usize, name: &str) -> (r: u32)
        requires
            i < self.modules@.len(),
        ensures
            r == custom_size(self.modules@[i as int], name@),
    {
        if str_equal(name, ENTRY_JSON) {
            #[verifier::truncate] (self.modules[i].json().as_str().len() as u32)
        } else if str_equal(name, ENTRY_SHELL) {
            #[verifier::truncate] (self.modules[i].shell().as_str().len() as u32)
        } else {
            0
        }
    }

    /// The size of file `e`, as `getattr` and `lookup` find it.
    fn size_of_entry(&self, e: &FsEntry, dir: Option<usize>) -> (r: Option<u32>)
        requires
            dir is Some ==> dir->0 < self.root.fs_entries@.len(),
        ensures
            r == self.size_spec(*e, match dir {
                Some(c) => Some(self.root.fs_entries@[c as int].name@),
                None => None,
            }),
    {
        if e.file_type == FileType::Directory {
            return Some(0);
        }
        match self.find_module(e.inode) {
            Some(i) => Some(#[verifier::truncate] (self.modules[i].value(e.inode).as_str().len() as u32)),
            None => match dir {
                None => None,
                Some(c) => match self.find_module_by_name(self.root.fs_entries[c].name.as_str()) {
                    None => None,
                    Some(i) => Some(self.custom_size_of(i, e.name.as_str())),
                },
            },
        }
    }

    /// The directory listing of `ino` from position `offset` on: `.`, `..`,
    /// then the children in order, each with the offset of the next item.
    /// An unknown identifier is not found.
    pub fn readdir(&self, ino: u64, offset: u64) -> (r: Result<Vec<DirItem>, FsError>)
        ensures
            match find_spec(self.root, ino) {
                None => r == Err::<Vec<DirItem>, FsError>(FsError::NotFound),
                Some(e) => r is Ok && r->Ok_0@.map_values(|d: DirItem| item_view(d)) == listing_from(e, offset as int),
            },
    {
        let dir = match self.root.find(ino) {
            Some(e) => e,
            None => return Err(FsError::NotFound),
        };
        let ghost want = listing_from(*dir, offset as int);
        let n = dir.fs_entries.len();
        let mut out: Vec<DirItem> = Vec::new();
        if offset == 0 {
            out.push(DirItem { ino: dir.inode, offset: 1, kind: FileType::Directory, name: ".".to_owned() });
        }
        if offset <= 1 {
            out.push(DirItem { ino: dir.inode, offset: 2, kind: FileType::Directory, name: "..".to_owned() });
        }
        let first: usize = if offset <= 2 {
            0
        } else if offset - 2 >= n as u64 {
            n
        } else {
            (offset - 2) as usize
        };
        let ghost dots: int = if offset == 0 { 2 } else if offset == 1 { 1 } else { 0 };
        proof {
            assert forall|m: int| 0 <= m < out@.len() implies item_view(#[trigger] out@[m]) == want[m] by {}
        }
        let mut j: usize = first;
        while j < n
            invariant
                first <= j <= n,
                n == dir.fs_entries@.len(),
                want == listing_from(*dir, offset as int),
                dots == (if offset == 0 { 2int } else if offset == 1 { 1int } else { 0int }),
                first == (if offset <= 2 { 0 } else if offset - 2 >= n { n as int } else { offset - 2 }),
                out@.len() == dots + (j - first),
                forall|m: int| 0 <= m < out@.len() ==> item_view(#[trigger] out@[m]) == want[m],
            decreases n - j,
        {
            let c = &dir.fs_entries[j];
            let item = DirItem {
                ino: c.inode,
                offset: #[verifier::truncate] ((j as i128 + 3) as i64),
                kind: c.file_type,
                name: c.name.clone(),
            };
            out.push(item);
            proof {
                assert forall|m: int| 0 <= m < out@.len() implies item_view(#[trigger] out@[m]) == want[m] by {
                    if m == out@.len() - 1 {
                        assert(item_view(out@[m]) == want[m]);
                    }
                }
            }
            j = j + 1;
        }
        proof {
            assert(out@.map_values(|d: DirItem| item_view(d)) =~= want);
        }
        Ok(out)
    }

    /// The attributes of entry `ino`; an unknown identifier, or a file whose
    /// module cannot be found, is not found.
    pub fn getattr(&self, ino: u64) -> (r: Result<FileAttr, FsError>)
        ensures
            r == self.getattr_spec(ino),
    {
        let e = match self.root.find(ino) {
            Some(e) => e,
            None => return Err(FsError::NotFound),
        };
        let dir = self.find_dir_containing(e.inode);
        match self.size_of_entry(e, dir) {
            Some(n) => Ok(e.attrs(n)),
            None => Err(FsError::NotFound),
        }
    }

    /// The attributes of the entry named `name` in the subtree of `parent`,
    /// sized as `getattr` sizes them: a `json` or `shell` file belongs to the
    /// module whose root directory holds it. A missing parent or name is not
    /// found.
    pub fn lookup(&self, parent: u64, name: &str) -> (r: Result<FileAttr, FsError>)
        ensures
            match find_spec(self.root, parent) {
                None => r == Err::<FileAttr, FsError>(FsError::NotFound),
                Some(p) => match find_by_name_spec(p, name@) {
                    None => r == Err::<FileAttr, FsError>(FsError::NotFound),
                    Some(e) => match self.size_spec(e, self.dir_of(e.inode)) {
                        None => r == Err::<FileAttr, FsError>(FsError::NotFound),
                        Some(n) => r == Ok::<FileAttr, FsError>(crate::fstree::attr_of(e, n)),
                    },
                },
            },
    {
        let p = match self.root.find(parent) {
            Some(p) => p,
            None => return Err(FsError::NotFound),
        };
        let e = match p.find_by_name(name) {
            Some(e) => e,
            None => return Err(FsError::NotFound),
        };
        let dir = self.find_dir_containing(e.inode);
        match self.size_of_entry(e, dir) {
            Some(n) => Ok(e.attrs(n)),
            None => Err(FsError::NotFound),
        }
    }

    /// Reads at most `size` bytes of file `ino` from `offset`. A write-only
    /// file, an unknown identifier, or a file whose content cannot be found,
    /// is not found.
    pub fn read(&self, ino: u64, offset: i64, size: u32) -> (r: Result<Vec<u8>, FsError>)
        ensures
            match find_spec(self.root, ino) {
                None => r == Err::<Vec<u8>, FsError>(FsError::NotFound),
                Some(e) => if e.mode == Mode::WriteOnly {
                    r == Err::<Vec<u8>, FsError>(FsError::NotFound)
                } else {
                    match self.content_spec(e) {
                        None => r == Err::<Vec<u8>, FsError>(FsError::NotFound),
                        Some(c) => r is Ok && r->Ok_0@ == read_window(encode_utf8(c), offset, size),
                    }
                },
            },
    {
        let e = match self.root.find(ino) {
            Some(e) => e,
            None => return Err(FsError::NotFound),
        };
        if e.mode == Mode::WriteOnly {
            return Err(FsError::NotFound);
        }
        match self.find_module(e.inode) {
            Some(i) => {
                let v = self.modules[i].value(e.inode);
                return Ok(read_slice(v.as_str().as_bytes(), offset, size));
            },
            None => {},
        }
        let c = match self.find_dir_containing(e.inode) {
            Some(c) => c,
            None => return Err(FsError::NotFound),
        };
        let i = match self.find_module_by_name(self.root.fs_entries[c].name.as_str()) {
            Some(i) => i,
            None => return Err(FsError::NotFound),
        };
        if str_equal(e.name.as_str(), ENTRY_JSON) {
            let v = self.modules[i].json();
            Ok(read_slice(v.as_str().as_bytes(), offset, size))
        } else if str_equal(e.name.as_str(), ENTRY_SHELL) {
            let v = self.modules[i].shell();
            Ok(read_slice(v.as_str().as_bytes(), offset, size))
        } else {
            Err(FsError::NotFound)
        }
    }

    /// Delivers `data` to the module owning write-only file `ino`: the whole
    /// message counts as written, and the module says what it asks for. A
    /// read-only file, an unknown identifier, or a file no module owns, is
    /// not found.
    pub fn write(&self, ino: u64, data: &[u8]) -> (r: Result<(u32, WriteAction), FsError>)
        ensures
            match find_spec(self.root, ino) {
                None => r == Err::<(u32, WriteAction), FsError>(FsError::NotFound),
                Some(e) => if e.mode != Mode::WriteOnly {
                    r == Err::<(u32, WriteAction), FsError>(FsError::NotFound)
                } else {
                    match first_owner(self.modules@, e.inode) {
                        None => r == Err::<(u32, WriteAction), FsError>(FsError::NotFound),
                        Some(i) => r == Ok::<(u32, WriteAction), FsError>(
                            (data@.len() as u32, self.modules@[i].spec_write(e.inode, data@)),
                        ),
                    }
                },
            },
    {
        let e = match self.root.find(ino) {
            Some(e) => e,
            None => return Err(FsError::NotFound),
        };
        if e.mode != Mode::WriteOnly {
            return Err(FsError::NotFound);
        }
        match self.find_module(e.inode) {
            Some(i) => {
                let action = self.modules[i].set_value(e.inode, data);
                Ok((#[verifier::truncate] (data.len() as u32), action))
            },
            None => Err(FsError::NotFound),
        }
    }

    /// The index of the first root child named `name`.
    fn find_dir_named(&self, name: &str) -> (r: Option<usize>)
        ensures
            match r {
                Some(i) => first_child_named(self.root.fs_entries@, name@) == Some(i as int),
                None => first_child_named(self.root.fs_entries@, name@) is None,
            },
            r is Some ==> r->0 < self.root.fs_entries@.len(),
    {
        let mut i: usize = 0;
        while i < self.root.fs_entries.len()
            invariant
                i <= self.root.fs_entries@.len(),
                first_where(i as int, has_name(self.root.fs_entries@, name@)) is None,
            decreases self.root.fs_entries@.len() - i,
        {
            if str_equal(self.root.fs_entries[i].name.as_str(), name) {
                proof {
                    lemma_first_where_stable(i + 1, self.root.fs_entries@.len() as int, has_name(self.root.fs_entries@, name@));
                }
                return Some(i);
            }
            i = i + 1;
        }
        None
    }

    /// Whether the options enable module `index`: it has an entry, and
    /// `enabled` is true.
    pub fn wants_registration(&self, index: usize) -> (r: bool)
        requires
            index < self.modules@.len(),
        ensures
            r == registered(self.config.modules@, self.modules@[index as int].spec_name()),
    {
        match self.config.module(self.modules[index].name()) {
            Some(c) => c.is_enabled(),
            None => false,
        }
    }

    /// Grafts module `index` under the root, if its options enable it: its
    /// old directory, if any, is taken out, and a fresh directory holding
    /// its subtree and the `json` and `shell` files its options ask for is
    /// appended. Tells whether the module was grafted, so that its worker
    /// can be started again.
    pub fn register_module(&mut self, index: usize, inodes: &mut InodeCounter) -> (r: bool)
        requires
            index < old(self).modules@.len(),
        ensures
            final(self).modules == old(self).modules,
            final(self).config == old(self).config,
            r == registered(old(self).config.modules@, old(self).modules@[index as int].spec_name()),
            graft_post(old(self).root, final(self).root, old(self).modules@[index as int], old(self).config.modules@),
            old(inodes).last() <= final(inodes).last() <= old(inodes).last() + 3,
            !r ==> final(inodes).last() == old(inodes).last(),
            r && old(inodes).last() + 3 <= u64::MAX ==> graft_fresh(
                final(self).root.fs_entries@.last(),
                options_of(old(self).config.modules@, old(self).modules@[index as int].spec_name()),
                old(inodes).last(),
                final(inodes).last(),
            ),
    {
        let ghost name = self.modules@[index as int].spec_name();
        let c = match self.config.module(self.modules[index].name()) {
            Some(c) => c,
            None => return false,
        };
        if !c.is_enabled() {
            return false;
        }
        proof {
            crate::config::lemma_config_index_bound(self.config.modules@, name);
        }
        let entries = self.modules[index].fs_entries();
        let inode = inodes.create_inode();
        let mut entry = FsEntry::new(inode, FileType::Directory, self.modules[index].name(), Mode::ReadOnly, entries);
        register_custom_entries(c, &mut entry, inodes);
        let ghost kept = without(self.root.fs_entries@, name);
        match self.find_dir_named(self.modules[index].name()) {
            Some(k) => {
                self.root.fs_entries.remove(k);
            },
            None => {},
        }
        proof {
            assert(self.root.fs_entries@ =~= kept);
            assert(entry.fs_entries@.take(entries@.len() as int) =~= entries@);
        }
        self.root.fs_entries.push(entry);
        proof {
            assert(self.root.fs_entries@.drop_last() =~= kept);
        }
        true
    }

    /// Grafts the first module named `name`, as `register_module` does;
    /// tells which module was grafted, if any.
    pub fn register_module_by_name(&mut self, name: &str, inodes: &mut InodeCounter) -> (r: Option<usize>)
        ensures
            final(self).modules == old(self).modules,
            final(self).config == old(self).config,
            match first_named(old(self).modules@, name@) {
                None => r is None && final(self).root == old(self).root,
                Some(i) => graft_post(old(self).root, final(self).root, old(self).modules@[i], old(self).config.modules@)
                    && (registered(old(self).config.modules@, name@) && old(inodes).last() + 3 <= u64::MAX ==> graft_fresh(
                        final(self).root.fs_entries@.last(),
                        options_of(old(self).config.modules@, name@),
                        old(inodes).last(),
                        final(inodes).last(),
                    ))
                    && (r == if registered(old(self).config.modules@, name@) { Some(i as usize) } else { None }),
            },
    {
        match self.find_module_by_name(name) {
            Some(i) => {
                proof {
                    lemma_first_where_bound(self.modules@.len() as int, |j: int| self.modules@[j].spec_name() == name@);
                }
                if self.register_module(i, inodes) {
                    Some(i)
                } else {
                    None
                }
            },
            None => None,
        }
    }

    /// Empties the root, then grafts every module that the options enable,
    /// in order; tells which modules were grafted, so that their workers
    /// can be started.
    pub fn register_modules(&mut self, inodes: &mut InodeCounter) -> (r: Vec<usize>)
        requires
            distinct_module_names(old(self).modules@),
        ensures
            final(self).modules == old(self).modules,
            final(self).config == old(self).config,
            r@ == registered_upto(old(self).modules@, old(self).modules@.len() as int, old(self).config.modules@),
            final(self).root.inode == old(self).root.inode,
            final(self).root.fs_entries@.len() == r@.len(),
            forall|j: int| 0 <= j < r@.len() ==> {
                let d = #[trigger] final(self).root.fs_entries@[j];
                let m = old(self).modules@[r@[j] as int];
                &&& d.name@ == m.spec_name()
                &&& d.file_type == FileType::Directory
                &&& d.mode == Mode::ReadOnly
                &&& grafted_children(d.fs_entries@, m, options_of(old(self).config.modules@, m.spec_name()))
            },
            distinct_names(final(self).root.fs_entries@),
            old(inodes).last() <= final(inodes).last(),
            old(inodes).last() + 3 * old(self).modules@.len() <= u64::MAX ==> forall|a: int, b: int|
                0 <= a < b < r@.len() ==> old(inodes).last() < (#[trigger] final(self).root.fs_entries@[a]).inode
                    < (#[trigger] final(self).root.fs_entries@[b]).inode <= final(inodes).last(),
            old(inodes).last() + 3 * old(self).modules@.len() <= u64::MAX ==> forall|j: int|
                0 <= j < r@.len() ==> old(inodes).last() < (#[trigger] final(self).root.fs_entries@[j]).inode
                    <= final(inodes).last(),
    {
        self.root.fs_entries.clear();
        let mut r: Vec<usize> = Vec::new();
        let mut i: usize = 0;
        let ghost start = inodes.last();
        let ghost bounded = start + 3 * self.modules@.len() <= u64::MAX;
        while i < self.modules.len()
            invariant
                i <= self.modules@.len(),
                self.modules == old(self).modules,
                self.config == old(self).config,
                self.root.inode == old(self).root.inode,
                distinct_module_names(self.modules@),
                start == old(inodes).last(),
                bounded == (start + 3 * self.modules@.len() <= u64::MAX),
                r@ == registered_upto(self.modules@, i as int, self.config.modules@),
                self.root.fs_entries@.len() == r@.len(),
                forall|j: int| 0 <= j < r@.len() ==> r@[j] < i,
                forall|a: int, b: int| 0 <= a < b < r@.len() ==> r@[a] < r@[b],
                forall|j: int| 0 <= j < r@.len() ==> {
                    let d = #[trigger] self.root.fs_entries@[j];
                    let m = self.modules@[r@[j] as int];
                    &&& d.name@ == m.spec_name()
                    &&& d.file_type == FileType::Directory
                    &&& d.mode == Mode::ReadOnly
                    &&& grafted_children(d.fs_entries@, m, options_of(self.config.modules@, m.spec_name()))
                },
                start <= inodes.last() <= start + 3 * i,
                bounded ==> forall|a: int, b: int|
                    0 <= a < b < r@.len() ==> start < (#[trigger] self.root.fs_entries@[a]).inode
                        < (#[trigger] self.root.fs_entries@[b]).inode <= inodes.last(),
                bounded ==> forall|j: int| 0 <= j < r@.len() ==> start < (#[trigger] self.root.fs_entries@[j]).inode <= inodes.last(),
            decreases self.modules@.len() - i,
        {
            let ghost kids = self.root.fs_entries@;
            let ghost before = inodes.last();
            let ghost name = self.modules@[i as int].spec_name();
            proof {
                assert forall|k: int| 0 <= k < kids.len() implies (#[trigger] kids[k]).name@ != name by {
                    assert(kids[k].name@ == self.modules@[r@[k] as int].spec_name());
                    assert(r@[k] != i);
                }
                lemma_without_absent(kids, name);
            }
            if self.register_module(i, inodes) {
                r.push(i);
                proof {
                    assert(self.root.fs_entries@.drop_last() == kids);
                    assert forall|j: int| 0 <= j < kids.len() implies #[trigger] self.root.fs_entries@[j] == kids[j] by {
                        assert(self.root.fs_entries@.drop_last()[j] == kids[j]);
                    }
                }
            }
            i = i + 1;
        }
        proof {
            let s = self.root.fs_entries@;
            assert forall|a: int, b: int| 0 <= a < s.len() && 0 <= b < s.len() && a != b implies #[trigger] s[a].name@ != #[trigger] s[b].name@ by {
                assert(s[a].name@ == self.modules@[r@[a] as int].spec_name());
                assert(s[b].name@ == self.modules@[r@[b] as int].spec_name());
                assert(r@[a] != r@[b]);
            }
        }
        r
    }

    /// No attribute can be changed: answers as `getattr`.
    pub fn setattr(&self, ino: u64) -> (r: Result<FileAttr, FsError>)
        ensures
            r == self.getattr_spec(ino),
    {
        self.getattr(ino)
    }
}

} // verus!
