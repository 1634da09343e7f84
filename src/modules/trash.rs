//! The trash module: the number of trashed files, and a control file that
//! empties the trash.
use vstd::prelude::*;
use crate::fstree::{find_in_spec, find_spec, lemma_find_in_any, lemma_find_leaf, FileType, FsEntry, InodeCounter, Mode};
use crate::json::{json_member, json_object, json_string, object, string_member, views};
use crate::modules::module::{change, record, tviews, Module, Transition, WriteAction};
use crate::text::{decimal, format_u64};
use crate::triggers::Kind;

verus! {

pub const MODULE_NAME: &'static str = "trash";

pub const VALUE_UNKNOWN: &'static str = "?";

pub const ENTRY_COUNT: &'static str = "count";

pub const ENTRY_EMPTY: &'static str = "empty";

/// The sampled trash state.
pub struct TrashData {
    pub count: String,
}

impl TrashData {
    pub fn new() -> (r: Self)
        ensures
            r.count@ == VALUE_UNKNOWN@,
    {
        TrashData { count: VALUE_UNKNOWN.to_owned() }
    }
}

/// The messages that, written to `empty`, empty the trash: `1` or `true`,
/// with or without a final line feed.
pub open spec fn is_empty_command(data: Seq<u8>) -> bool {
    data == seq![0x31u8] || data == seq![0x31u8, 0x0au8] || data == seq![0x74u8, 0x72u8, 0x75u8, 0x65u8]
        || data == seq![0x74u8, 0x72u8, 0x75u8, 0x65u8, 0x0au8]
}

/// Whether `data` is one of the messages that empty the trash.
pub fn empty_command(data: &[u8]) -> (r: bool)
    ensures
        r == is_empty_command(data@),
{
    let n = data.len();
    if n == 1 {
        let r = data[0] == 0x31u8;
        proof {
            if r {
                assert(data@ =~= seq![0x31u8]);
            }
        }
        r
    } else if n == 2 {
        let r = data[0] == 0x31u8 && data[1] == 0x0au8;
        proof {
            if r {
                assert(data@ =~= seq![0x31u8, 0x0au8]);
            }
        }
        r
    } else if n == 4 || n == 5 {
        let r = data[0] == 0x74u8 && data[1] == 0x72u8 && data[2] == 0x75u8 && data[3] == 0x65u8
            && (n == 4 || data[4] == 0x0au8);
        proof {
            if r && n == 4 {
                assert(data@ =~= seq![0x74u8, 0x72u8, 0x75u8, 0x65u8]);
            }
            if r && n == 5 {
                assert(data@ =~= seq![0x74u8, 0x72u8, 0x75u8, 0x65u8, 0x0au8]);
            }
        }
        r
    } else {
        false
    }
}

/// The number of trashed files, from the number of items a walk of the
/// trash's `files` directory yields, the directory itself included.
pub open spec fn file_count(walked: nat) -> nat {
    if walked == 0 { 0 } else { (walked - 1) as nat }
}

/// The trash module: `count` (read-only) and `empty` (write-only).
pub struct Trash {
    pub inode_count: u64,
    pub inode_empty: u64,
    pub data: TrashData,
}

impl Trash {
    pub fn new(inodes: &mut InodeCounter) -> (r: Self)
        ensures
            r.data.count@ == VALUE_UNKNOWN@,
            old(inodes).last() + 2 <= u64::MAX ==> r.inode_count == old(inodes).last() + 1
                && r.inode_empty == old(inodes).last() + 2 && final(inodes).last() == old(inodes).last() + 2,
    {
        let count = inodes.create_inode();
        let empty = inodes.create_inode();
        Trash { inode_count: count, inode_empty: empty, data: TrashData::new() }
    }

    /// Applies a count of the trash: `walked` items, the directory itself
    /// included. A changed count yields an update transition.
    pub fn update_count(&mut self, walked: u64) -> (r: Vec<Transition>)
        ensures
            final(self).inode_count == old(self).inode_count,
            final(self).inode_empty == old(self).inode_empty,
            final(self).data.count@ == decimal(file_count(walked as nat)),
            tviews(r@) == change(Kind::Update, ENTRY_COUNT@, old(self).data.count@, final(self).data.count@),
    {
        let n: u64 = if walked == 0 { 0 } else { walked - 1 };
        let mut out: Vec<Transition> = Vec::new();
        record(&mut out, Kind::Update, ENTRY_COUNT, &mut self.data.count, format_u64(n));
        proof {
            assert(tviews(Seq::<Transition>::empty()) =~= Seq::empty());
        }
        out
    }
}

impl Module for Trash {
    open spec fn spec_name(&self) -> Seq<char> {
        MODULE_NAME@
    }

    open spec fn spec_owns(&self, inode: u64) -> bool {
        inode == self.inode_count || inode == self.inode_empty
    }

    open spec fn spec_value(&self, inode: u64) -> Seq<char> {
        if inode == self.inode_count {
            self.data.count@
        } else if inode == self.inode_empty {
            Seq::empty()
        } else {
            VALUE_UNKNOWN@
        }
    }

    open spec fn spec_json(&self) -> Seq<char> {
        json_object(seq![json_member(ENTRY_COUNT@, json_string(self.data.count@))])
    }

    open spec fn spec_shell(&self) -> Seq<char> {
        "count="@ + self.data.count@
    }

    open spec fn spec_write(&self, inode: u64, data: Seq<u8>) -> WriteAction {
        if inode == self.inode_empty && is_empty_command(data) {
            WriteAction::EmptyTrash
        } else {
            WriteAction::Nothing
        }
    }

    open spec fn spec_entries(&self, r: Seq<FsEntry>) -> bool {
        &&& r.len() == 2
        &&& r[0].inode == self.inode_count && r[0].name@ == ENTRY_COUNT@ && r[0].mode == Mode::ReadOnly
        &&& r[1].inode == self.inode_empty && r[1].name@ == ENTRY_EMPTY@ && r[1].mode == Mode::WriteOnly
        &&& forall|i: int|
            0 <= i < 2 ==> (#[trigger] r[i]).file_type == FileType::RegularFile && r[i].fs_entries@.len() == 0
    }

    fn name(&self) -> (r: &str) {
        MODULE_NAME
    }

    fn owns(&self, inode: u64) -> (r: bool) {
        inode == self.inode_count || inode == self.inode_empty
    }

    fn fs_entries(&self) -> (r: Vec<FsEntry>) {
        let mut v: Vec<FsEntry> = Vec::new();
        v.push(FsEntry::new(self.inode_count, FileType::RegularFile, ENTRY_COUNT, Mode::ReadOnly, Vec::new()));
        v.push(FsEntry::new(self.inode_empty, FileType::RegularFile, ENTRY_EMPTY, Mode::WriteOnly, Vec::new()));
        let r = v;
        proof {
            assert forall|i: u64| #[trigger] self.spec_owns(i) == (find_in_spec(r@, i) is Some) by {
                lemma_find_in_any(r@, i);
                lemma_find_leaf(r@[0], i);
                lemma_find_leaf(r@[1], i);
                if self.spec_owns(i) {
                    if i == self.inode_count {
                        assert(find_spec(r@[0], i) is Some);
                    } else if i == self.inode_empty {
                        assert(find_spec(r@[1], i) is Some);
                    }
                }
            }
        }
        r
    }

    fn value(&self, inode: u64) -> (r: String) {
        if inode == self.inode_count {
            self.data.count.clone()
        } else if inode == self.inode_empty {
            String::new()
        } else {
            VALUE_UNKNOWN.to_owned()
        }
    }

    fn set_value(&self, inode: u64, data: &[u8]) -> (r: WriteAction) {
        if inode == self.inode_empty && empty_command(data) {
            WriteAction::EmptyTrash
        } else {
            WriteAction::Nothing
        }
    }

    fn json(&self) -> (r: String) {
        let mut members: Vec<String> = Vec::new();
        members.push(string_member(ENTRY_COUNT, self.data.count.as_str()));
        let r = object(&members);
        proof {
            assert(views(members@) =~= seq![json_member(ENTRY_COUNT@, json_string(self.data.count@))]);
        }
        r
    }

    fn shell(&self) -> (r: String) {
        let mut r = String::from_str("count=");
        r.append(self.data.count.as_str());
        r
    }
}

} // verus!
