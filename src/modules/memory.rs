//! The memory module: free, total and used memory in bytes.
use vstd::prelude::*;
use crate::fstree::{find_in_spec, find_spec, lemma_find_in_any, lemma_find_leaf, FileType, FsEntry, InodeCounter, Mode};
use crate::json::{json_member, json_object, json_string, object, string_member, views};
use crate::modules::module::{change, record, tviews, Module, Transition, WriteAction};
use crate::text::{decimal, format_u64};
use crate::triggers::Kind;

verus! {

pub const MODULE_NAME: &'static str = "memory";

pub const VALUE_UNKNOWN: &'static str = "?";

pub const ENTRY_FREE: &'static str = "free";

pub const ENTRY_TOTAL: &'static str = "total";

pub const ENTRY_USED: &'static str = "used";

/// The sampled memory state, each value in bytes, as decimal text.
pub struct MemoryData {
    pub free: String,
    pub total: String,
    pub used: String,
}

impl MemoryData {
    pub fn new() -> (r: Self)
        ensures
            r.free@ == VALUE_UNKNOWN@,
            r.total@ == VALUE_UNKNOWN@,
            r.used@ == VALUE_UNKNOWN@,
    {
        MemoryData {
            free: VALUE_UNKNOWN.to_owned(),
            total: VALUE_UNKNOWN.to_owned(),
            used: VALUE_UNKNOWN.to_owned(),
        }
    }
}

/// The memory module: three read-only files under `/memory`.
pub struct Memory {
    pub inode_free: u64,
    pub inode_total: u64,
    pub inode_used: u64,
    pub first_update: bool,
    pub data: MemoryData,
}

impl Memory {
    pub fn new(inodes: &mut InodeCounter) -> (r: Self)
        ensures
            r.first_update,
            r.data.free@ == VALUE_UNKNOWN@,
            r.data.total@ == VALUE_UNKNOWN@,
            r.data.used@ == VALUE_UNKNOWN@,
            old(inodes).last() + 3 <= u64::MAX ==> r.inode_free == old(inodes).last() + 1
                && r.inode_total == old(inodes).last() + 2 && r.inode_used == old(inodes).last() + 3
                && final(inodes).last() == old(inodes).last() + 3,
    {
        let free = inodes.create_inode();
        let total = inodes.create_inode();
        let used = inodes.create_inode();
        Memory { inode_free: free, inode_total: total, inode_used: used, first_update: true, data: MemoryData::new() }
    }

    /// Applies a reading of `free` and `total` bytes. Each changed field
    /// yields a transition, in the order free, total, used: a creation on
    /// the first reading, an update after.
    pub fn update(&mut self, free: u64, total: u64) -> (r: Vec<Transition>)
        requires
            free <= total,
        ensures
            final(self).inode_free == old(self).inode_free,
            final(self).inode_total == old(self).inode_total,
            final(self).inode_used == old(self).inode_used,
            !final(self).first_update,
            final(self).data.free@ == decimal(free as nat),
            final(self).data.total@ == decimal(total as nat),
            final(self).data.used@ == decimal((total - free) as nat),
            ({
                let k = if old(self).first_update { Kind::Create } else { Kind::Update };
                tviews(r@) == change(k, ENTRY_FREE@, old(self).data.free@, final(self).data.free@)
                    + change(k, ENTRY_TOTAL@, old(self).data.total@, final(self).data.total@)
                    + change(k, ENTRY_USED@, old(self).data.used@, final(self).data.used@)
            }),
    {
        let kind = if self.first_update { Kind::Create } else { Kind::Update };
        let mut out: Vec<Transition> = Vec::new();
        record(&mut out, kind, ENTRY_FREE, &mut self.data.free, format_u64(free));
        record(&mut out, kind, ENTRY_TOTAL, &mut self.data.total, format_u64(total));
        record(&mut out, kind, ENTRY_USED, &mut self.data.used, format_u64(total - free));
        self.first_update = false;
        proof {
            assert(tviews(Seq::<Transition>::empty()) =~= Seq::empty());
        }
        out
    }
}

impl Module for Memory {
    open spec fn spec_name(&self) -> Seq<char> {
        MODULE_NAME@
    }

    open spec fn spec_owns(&self, inode: u64) -> bool {
        inode == self.inode_free || inode == self.inode_total || inode == self.inode_used
    }

    open spec fn spec_value(&self, inode: u64) -> Seq<char> {
        if inode == self.inode_free {
            self.data.free@
        } else if inode == self.inode_total {
            self.data.total@
        } else if inode == self.inode_used {
            self.data.used@
        } else {
            VALUE_UNKNOWN@
        }
    }

    open spec fn spec_json(&self) -> Seq<char> {
        json_object(seq![
            json_member(ENTRY_FREE@, json_string(self.data.free@)),
            json_member(ENTRY_TOTAL@, json_string(self.data.total@)),
            json_member(ENTRY_USED@, json_string(self.data.used@)),
        ])
    }

    open spec fn spec_shell(&self) -> Seq<char> {
        "free="@ + self.data.free@ + " total="@ + self.data.total@ + " used="@ + self.data.used@
    }

    open spec fn spec_write(&self, inode: u64, data: Seq<u8>) -> WriteAction {
        WriteAction::Nothing
    }

    open spec fn spec_entries(&self, r: Seq<FsEntry>) -> bool {
        &&& r.len() == 3
        &&& r[0].inode == self.inode_free && r[0].name@ == ENTRY_FREE@
        &&& r[1].inode == self.inode_total && r[1].name@ == ENTRY_TOTAL@
        &&& r[2].inode == self.inode_used && r[2].name@ == ENTRY_USED@
        &&& forall|i: int|
            0 <= i < 3 ==> (#[trigger] r[i]).file_type == FileType::RegularFile && r[i].mode
                == Mode::ReadOnly && r[i].fs_entries@.len() == 0
    }

    fn name(&self) -> (r: &str) {
        MODULE_NAME
    }

    fn owns(&self, inode: u64) -> (r: bool) {
        inode == self.inode_free || inode == self.inode_total || inode == self.inode_used
    }

    fn fs_entries(&self) -> (r: Vec<FsEntry>) {
        let mut v: Vec<FsEntry> = Vec::new();
        v.push(FsEntry::new(self.inode_free, FileType::RegularFile, ENTRY_FREE, Mode::ReadOnly, Vec::new()));
        v.push(FsEntry::new(self.inode_total, FileType::RegularFile, ENTRY_TOTAL, Mode::ReadOnly, Vec::new()));
        v.push(FsEntry::new(self.inode_used, FileType::RegularFile, ENTRY_USED, Mode::ReadOnly, Vec::new()));
        let r = v;
        proof {
            assert forall|i: u64| #[trigger] self.spec_owns(i) == (find_in_spec(r@, i) is Some) by {
                lemma_find_in_any(r@, i);
                lemma_find_leaf(r@[0], i);
                lemma_find_leaf(r@[1], i);
                lemma_find_leaf(r@[2], i);
                if self.spec_owns(i) {
                    if i == self.inode_free {
                        assert(find_spec(r@[0], i) is Some);
                    } else if i == self.inode_total {
                        assert(find_spec(r@[1], i) is Some);
                    } else if i == self.inode_used {
                        assert(find_spec(r@[2], i) is Some);
                    }
                }
            }
        }
        r
    }

    fn value(&self, inode: u64) -> (r: String) {
        if inode == self.inode_free {
            self.data.free.clone()
        } else if inode == self.inode_total {
            self.data.total.clone()
        } else if inode == self.inode_used {
            self.data.used.clone()
        } else {
            VALUE_UNKNOWN.to_owned()
        }
    }

    fn set_value(&self, inode: u64, data: &[u8]) -> (r: WriteAction) {
        WriteAction::Nothing
    }

    fn json(&self) -> (r: String) {
        let mut members: Vec<String> = Vec::new();
        members.push(string_member(ENTRY_FREE, self.data.free.as_str()));
        members.push(string_member(ENTRY_TOTAL, self.data.total.as_str()));
        members.push(string_member(ENTRY_USED, self.data.used.as_str()));
        let r = object(&members);
        proof {
            assert(views(members@) =~= seq![
                json_member(ENTRY_FREE@, json_string(self.data.free@)),
                json_member(ENTRY_TOTAL@, json_string(self.data.total@)),
                json_member(ENTRY_USED@, json_string(self.data.used@)),
            ]);
        }
        r
    }

    fn shell(&self) -> (r: String) {
        let mut r = String::from_str("free=");
        r.append(self.data.free.as_str());
        r.append(" total=");
        r.append(self.data.total.as_str());
        r.append(" used=");
        r.append(self.data.used.as_str());
        r
    }
}

} // verus!
