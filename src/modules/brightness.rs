//! The brightness module: one directory per backlight device, built once
//! the devices are known.
use vstd::prelude::*;
use crate::fstree::{find_in_spec, find_spec, lemma_find_in_any, lemma_find_leaf, lemma_find_node, FileType, FsEntry, InodeCounter, Mode};
use crate::json::{array, json_array, json_member, json_object, json_string, object, string_member, views};
use crate::modules::module::{tview, tviews, Module, Status, Transition, WriteAction};
use crate::text::{contains, str_contains};
use crate::triggers::Kind;

verus! {

pub const MODULE_NAME: &'static str = "brightness";

pub const VALUE_UNKNOWN: &'static str = "?";

pub const ENTRY_VALUE: &'static str = "value";

pub const ENTRY_CURRENT_VALUE: &'static str = "current_value";

pub const ENTRY_MAX_VALUE: &'static str = "max_value";

/// The readings of one backlight device.
pub struct BrightnessData {
    pub device: String,
    pub value: String,
    pub current_value: String,
    pub max_value: String,
}

/// A device and the identifiers of its directory and files.
pub struct BrightnessDevice {
    pub inode_dir: u64,
    pub inode_value: u64,
    pub inode_current_value: u64,
    pub inode_max_value: u64,
    pub data: BrightnessData,
}

/// The brightness module.
pub struct Brightness {
    pub devices: Vec<BrightnessDevice>,
}

/// Whether the devices hold the identifiers handed out after `last`, four
/// per device in order: directory, `value`, `current_value`, `max_value`.
pub open spec fn fresh_devices(devs: Seq<BrightnessDevice>, last: u64) -> bool {
    forall|k: int| 0 <= k < devs.len() ==> {
        let d = #[trigger] devs[k];
        &&& d.inode_dir == last + 4 * k + 1
        &&& d.inode_value == last + 4 * k + 2
        &&& d.inode_current_value == last + 4 * k + 3
        &&& d.inode_max_value == last + 4 * k + 4
    }
}

/// The field `<device>/<entry>` of a device.
pub open spec fn device_field(device: Seq<char>, entry: Seq<char>) -> Seq<char> {
    device + seq!['/'] + entry
}

/// Whether `inode` is one of the identifiers of device `d`.
pub open spec fn device_owns(d: BrightnessDevice, inode: u64) -> bool {
    inode == d.inode_dir || inode == d.inode_value || inode == d.inode_current_value
        || inode == d.inode_max_value
}

/// The content of file `inode`: the field of the first device that has a
/// file with that identifier, or the placeholder.
pub open spec fn devices_value(devs: Seq<BrightnessDevice>, inode: u64) -> Seq<char>
    decreases devs.len(),
{
    if devs.len() == 0 {
        VALUE_UNKNOWN@
    } else {
        let d = devs[0];
        if inode == d.inode_value {
            d.data.value@
        } else if inode == d.inode_current_value {
            d.data.current_value@
        } else if inode == d.inode_max_value {
            d.data.max_value@
        } else {
            devices_value(devs.drop_first(), inode)
        }
    }
}

/// The JSON object of one device.
pub open spec fn device_json(d: BrightnessDevice) -> Seq<char> {
    json_object(seq![
        json_member("device"@, json_string(d.data.device@)),
        json_member(ENTRY_VALUE@, json_string(d.data.value@)),
        json_member(ENTRY_CURRENT_VALUE@, json_string(d.data.current_value@)),
        json_member(ENTRY_MAX_VALUE@, json_string(d.data.max_value@)),
    ])
}

/// The shell text of one device.
pub open spec fn device_shell(d: BrightnessDevice) -> Seq<char> {
    d.data.device@ + "_brightness="@ + d.data.value@ + " "@ + d.data.device@ + "_actual_brightness="@
        + d.data.current_value@ + " "@ + d.data.device@ + "_max_brightness="@ + d.data.max_value@
}

/// The shell texts of the devices, one after the other.
pub open spec fn devices_shell(devs: Seq<BrightnessDevice>) -> Seq<char>
    decreases devs.len(),
{
    if devs.len() == 0 {
        Seq::empty()
    } else {
        devices_shell(devs.drop_last()) + device_shell(devs.last())
    }
}

/// The creation transitions of the files of the devices, three per device.
pub open spec fn creations(devs: Seq<BrightnessData>) -> Seq<(Kind, Seq<char>, Seq<char>, Seq<char>)>
    decreases devs.len(),
{
    if devs.len() == 0 {
        Seq::empty()
    } else {
        let d = devs.last().device@;
        creations(devs.drop_last()) + seq![
            (Kind::Create, device_field(d, ENTRY_VALUE@), Seq::empty(), Seq::empty()),
            (Kind::Create, device_field(d, ENTRY_CURRENT_VALUE@), Seq::empty(), Seq::empty()),
            (Kind::Create, device_field(d, ENTRY_MAX_VALUE@), Seq::empty(), Seq::empty()),
        ]
    }
}

/// The index of the first device whose name occurs in `path`.
pub open spec fn device_in_path(devs: Seq<BrightnessDevice>, path: Seq<char>) -> Option<int>
    decreases devs.len(),
{
    if devs.len() == 0 {
        None
    } else {
        match device_in_path(devs.drop_last(), path) {
            Some(i) => Some(i),
            None => if contains(path, devs.last().data.device@) {
                Some(devs.len() - 1)
            } else {
                None
            },
        }
    }
}

fn field_of(device: &str, entry: &str) -> (r: String)
    ensures
        r@ == device_field(device@, entry@),
{
    let slash = "/";
    proof {
        reveal_strlit("/");
    }
    let mut r = String::from_str(device);
    r.append(slash);
    r.append(entry);
    r
}

fn creation(device: &str, entry: &str) -> (r: Transition)
    ensures
        tview(r) == (Kind::Create, device_field(device@, entry@), Seq::<char>::empty(), Seq::<char>::empty()),
{
    Transition { kind: Kind::Create, field: field_of(device, entry), old: String::new(), new: String::new() }
}

impl Brightness {
    pub fn new() -> (r: Self)
        ensures
            r.devices@.len() == 0,
    {
        Brightness { devices: Vec::new() }
    }

    /// Whether the devices are still to be discovered.
    pub fn needs_build(&self) -> (r: bool)
        ensures
            r == (self.devices@.len() == 0),
    {
        self.devices.len() == 0
    }

    /// Builds the device list from `readings`, once: while no device is
    /// known, each reading becomes a device with fresh identifiers (its
    /// directory first, then `value`, `current_value`, `max_value`), a
    /// creation transition is recorded for each of its files, and the
    /// module reports a change of shape. Once devices are known, nothing
    /// changes.
    pub fn build_filesystem(&mut self, readings: Vec<BrightnessData>, inodes: &mut InodeCounter) -> (r: (Status, Vec<Transition>))
        ensures
            old(self).devices@.len() > 0 ==> final(self).devices@ == old(self).devices@ && r.0 is Unchanged
                && r.1@.len() == 0,
            old(self).devices@.len() == 0 ==> r.0 is Changed && r.0->Changed_0@ == MODULE_NAME@
                && final(self).devices@.len() == readings@.len()
                && (forall|k: int| 0 <= k < readings@.len() ==> (#[trigger] final(self).devices@[k]).data == readings@[k])
                && tviews(r.1@) == creations(readings@)
                && (old(inodes).last() + 4 * readings@.len() <= u64::MAX ==> fresh_devices(final(self).devices@, old(inodes).last())
                    && final(inodes).last() == old(inodes).last() + 4 * readings@.len()),
            old(self).devices@.len() > 0 ==> final(inodes).last() == old(inodes).last(),
    {
        if self.devices.len() > 0 {
            return (Status::Unchanged, Vec::new());
        }
        let ghost input = readings@;
        let mut out: Vec<Transition> = Vec::new();
        let mut readings = readings;
        let mut built: Vec<BrightnessDevice> = Vec::new();
        let mut rest: Vec<BrightnessData> = Vec::new();
        // Take the readings in order: reverse them so that popping yields the first.
        while readings.len() > 0
            invariant
                rest@.len() + readings@.len() == input.len(),
                forall|k: int| 0 <= k < readings@.len() ==> readings@[k] == input[k],
                forall|k: int| 0 <= k < rest@.len() ==> rest@[k] == input[input.len() - 1 - k],
            decreases readings@.len(),
        {
            let d = readings.pop().unwrap();
            rest.push(d);
        }
        while rest.len() > 0
            invariant
                built@.len() + rest@.len() == input.len(),
                forall|k: int| 0 <= k < rest@.len() ==> rest@[k] == input[input.len() - 1 - k],
                forall|k: int| 0 <= k < built@.len() ==> (#[trigger] built@[k]).data == input[k],
                tviews(out@) == creations(input.take(built@.len() as int)),
                old(inodes).last() <= inodes.last(),
                old(inodes).last() + 4 * input.len() <= u64::MAX ==> fresh_devices(built@, old(inodes).last())
                    && inodes.last() == old(inodes).last() + 4 * built@.len(),
            decreases rest@.len(),
        {
            let d = rest.pop().unwrap();
            let ghost k = built@.len() as int;
            let v1 = creation(d.device.as_str(), ENTRY_VALUE);
            let v2 = creation(d.device.as_str(), ENTRY_CURRENT_VALUE);
            let v3 = creation(d.device.as_str(), ENTRY_MAX_VALUE);
            let ghost before = out@;
            out.push(v1);
            out.push(v2);
            out.push(v3);
            let inode_dir = inodes.create_inode();
            let inode_value = inodes.create_inode();
            let inode_current_value = inodes.create_inode();
            let inode_max_value = inodes.create_inode();
            built.push(BrightnessDevice { inode_dir, inode_value, inode_current_value, inode_max_value, data: d });
            proof {
                assert(input.take(k + 1).drop_last() =~= input.take(k));
                assert(tviews(out@) =~= tviews(before) + seq![tview(v1), tview(v2), tview(v3)]);
            }
        }
        self.devices = built;
        proof {
            assert(input.take(input.len() as int) =~= input);
        }
        (Status::Changed(MODULE_NAME.to_owned()), out)
    }

    /// A device file at `path` was written with `content` (line feeds
    /// already removed): the first device whose name occurs in the path
    /// takes it as its value, and an update transition of its `value` is
    /// recorded. A path that names no device changes nothing.
    pub fn brightness_written(&mut self, path: &str, content: String) -> (r: Vec<Transition>)
        ensures
            match device_in_path(old(self).devices@, path@) {
                None => final(self).devices@ == old(self).devices@ && r@.len() == 0,
                Some(k) => {
                    let d = old(self).devices@[k];
                    &&& final(self).devices@.len() == old(self).devices@.len()
                    &&& forall|j: int| 0 <= j < old(self).devices@.len() && j != k ==> final(self).devices@[j] == old(self).devices@[j]
                    &&& final(self).devices@[k].data.value@ == content@
                    &&& final(self).devices@[k].data.device == d.data.device
                    &&& final(self).devices@[k].data.current_value == d.data.current_value
                    &&& final(self).devices@[k].data.max_value == d.data.max_value
                    &&& final(self).devices@[k].inode_dir == d.inode_dir
                    &&& final(self).devices@[k].inode_value == d.inode_value
                    &&& final(self).devices@[k].inode_current_value == d.inode_current_value
                    &&& final(self).devices@[k].inode_max_value == d.inode_max_value
                    &&& tviews(r@) == seq![(Kind::Update, device_field(d.data.device@, ENTRY_VALUE@), d.data.value@, content@)]
                },
            },
    {
        let mut i: usize = 0;
        while i < self.devices.len()
            invariant
                i <= self.devices@.len(),
                self.devices == old(self).devices,
                device_in_path(self.devices@.take(i as int), path@) is None,
            decreases self.devices@.len() - i,
        {
            proof {
                assert(self.devices@.take(i + 1).drop_last() =~= self.devices@.take(i as int));
            }
            if str_contains(path, self.devices[i].data.device.as_str()) {
                proof {
                    lemma_device_in_path_prefix(self.devices@, i as int + 1, path@);
                }
                let old_value = self.devices[i].data.value.clone();
                let field = field_of(self.devices[i].data.device.as_str(), ENTRY_VALUE);
                let t = Transition { kind: Kind::Update, field, old: old_value, new: content.clone() };
                let mut d = self.devices.remove(i);
                d.data.value = content;
                self.devices.insert(i, d);
                let mut out: Vec<Transition> = Vec::new();
                out.push(t);
                proof {
                    assert(tviews(out@) =~= seq![tview(t)]);
                    assert forall|j: int| 0 <= j < old(self).devices@.len() && j != i implies self.devices@[j] == old(self).devices@[j] by {}
                }
                return out;
            }
            i = i + 1;
        }
        proof {
            assert(self.devices@.take(i as int) =~= self.devices@);
        }
        Vec::new()
    }
}

proof fn lemma_device_in_path_prefix(s: Seq<BrightnessDevice>, k: int, path: Seq<char>)
    requires
        0 < k <= s.len(),
        device_in_path(s.take(k), path) is Some,
    ensures
        device_in_path(s, path) == device_in_path(s.take(k), path),
    decreases s.len(),
{
    if k < s.len() {
        assert(s.drop_last().take(k) =~= s.take(k));
        lemma_device_in_path_prefix(s.drop_last(), k, path);
    } else {
        assert(s.take(k) =~= s);
    }
}

impl Module for Brightness {
    open spec fn spec_name(&self) -> Seq<char> {
        MODULE_NAME@
    }

    open spec fn spec_owns(&self, inode: u64) -> bool {
        exists|k: int| 0 <= k < self.devices@.len() && device_owns(#[trigger] self.devices@[k], inode)
    }

    open spec fn spec_value(&self, inode: u64) -> Seq<char> {
        devices_value(self.devices@, inode)
    }

    open spec fn spec_json(&self) -> Seq<char> {
        json_array(self.devices@.map_values(|d: BrightnessDevice| device_json(d)))
    }

    open spec fn spec_shell(&self) -> Seq<char> {
        devices_shell(self.devices@)
    }

    open spec fn spec_write(&self, inode: u64, data: Seq<u8>) -> WriteAction {
        WriteAction::Nothing
    }

    open spec fn spec_entries(&self, r: Seq<FsEntry>) -> bool {
        &&& r.len() == self.devices@.len()
        &&& forall|k: int| 0 <= k < r.len() ==> {
            let d = #[trigger] self.devices@[k];
            let e = r[k];
            let c = e.fs_entries@;
            &&& e.inode == d.inode_dir && e.file_type == FileType::Directory && e.mode == Mode::ReadOnly
            &&& e.name@ == d.data.device@
            &&& c.len() == 3
            &&& c[0].inode == d.inode_value && c[0].name@ == ENTRY_VALUE@
            &&& c[1].inode == d.inode_current_value && c[1].name@ == ENTRY_CURRENT_VALUE@
            &&& c[2].inode == d.inode_max_value && c[2].name@ == ENTRY_MAX_VALUE@
            &&& forall|j: int| 0 <= j < 3 ==> (#[trigger] c[j]).file_type == FileType::RegularFile
                && c[j].mode == Mode::ReadOnly && c[j].fs_entries@.len() == 0
        }
    }

    fn name(&self) -> (r: &str) {
        MODULE_NAME
    }

    fn owns(&self, inode: u64) -> (r: bool) {
        let mut i: usize = 0;
        while i < self.devices.len()
            invariant
                i <= self.devices@.len(),
                forall|k: int| 0 <= k < i ==> !device_owns(#[trigger] self.devices@[k], inode),
            decreases self.devices@.len() - i,
        {
            let d = &self.devices[i];
            if inode == d.inode_dir || inode == d.inode_value || inode == d.inode_current_value
                || inode == d.inode_max_value {
                return true;
            }
            i = i + 1;
        }
        false
    }

    fn fs_entries(&self) -> (r: Vec<FsEntry>) {
        let mut v: Vec<FsEntry> = Vec::new();
        let mut i: usize = 0;
        while i < self.devices.len()
            invariant
                i <= self.devices@.len(),
                v@.len() == i,
                forall|k: int| 0 <= k < i ==> {
                    let d = self.devices@[k];
                    let e = #[trigger] v@[k];
                    let c = e.fs_entries@;
                    &&& e.inode == d.inode_dir && e.file_type == FileType::Directory && e.mode == Mode::ReadOnly
                    &&& e.name@ == d.data.device@
                    &&& c.len() == 3
                    &&& c[0].inode == d.inode_value && c[0].name@ == ENTRY_VALUE@
                    &&& c[1].inode == d.inode_current_value && c[1].name@ == ENTRY_CURRENT_VALUE@
                    &&& c[2].inode == d.inode_max_value && c[2].name@ == ENTRY_MAX_VALUE@
                    &&& forall|j: int| 0 <= j < 3 ==> (#[trigger] c[j]).file_type == FileType::RegularFile
                        && c[j].mode == Mode::ReadOnly && c[j].fs_entries@.len() == 0
                },
            decreases self.devices@.len() - i,
        {
            let d = &self.devices[i];
            let mut files: Vec<FsEntry> = Vec::new();
            files.push(FsEntry::new(d.inode_value, FileType::RegularFile, ENTRY_VALUE, Mode::ReadOnly, Vec::new()));
            files.push(FsEntry::new(d.inode_current_value, FileType::RegularFile, ENTRY_CURRENT_VALUE, Mode::ReadOnly, Vec::new()));
            files.push(FsEntry::new(d.inode_max_value, FileType::RegularFile, ENTRY_MAX_VALUE, Mode::ReadOnly, Vec::new()));
            let ghost fv = files@;
            let ghost prev = v@;
            v.push(FsEntry::new(d.inode_dir, FileType::Directory, d.data.device.as_str(), Mode::ReadOnly, files));
            proof {
                let c = v@[i as int].fs_entries@;
                assert(c == fv);
                assert forall|j: int| 0 <= j < 3 implies (#[trigger] c[j]).file_type == FileType::RegularFile
                    && c[j].mode == Mode::ReadOnly && c[j].fs_entries@.len() == 0 by {
                    assert(j == 0 || j == 1 || j == 2);
                }
                let dd = self.devices@[i as int];
                let e = v@[i as int];
                assert(e.inode == dd.inode_dir);
                assert(e.name@ == dd.data.device@);
                assert(c.len() == 3);
                assert(c[0].inode == dd.inode_value && c[0].name@ == ENTRY_VALUE@);
                assert(c[1].inode == dd.inode_current_value && c[1].name@ == ENTRY_CURRENT_VALUE@);
                assert(c[2].inode == dd.inode_max_value && c[2].name@ == ENTRY_MAX_VALUE@);
                assert forall|k: int| 0 <= k < i implies #[trigger] v@[k] == prev[k] by {}
            }
            i = i + 1;
        }
        proof {
            assert forall|x: u64| #[trigger] self.spec_owns(x) == (find_in_spec(v@, x) is Some) by {
                lemma_find_in_any(v@, x);
                if self.spec_owns(x) {
                    let k = choose|k: int| 0 <= k < self.devices@.len() && device_owns(#[trigger] self.devices@[k], x);
                    let e = v@[k];
                    let c = e.fs_entries@;
                    lemma_find_node(e, x);
                    lemma_find_leaf(c[0], x);
                    lemma_find_leaf(c[1], x);
                    lemma_find_leaf(c[2], x);
                    if x == e.inode {
                    } else if x == c[0].inode {
                        assert(find_spec(c[0], x) is Some);
                    } else if x == c[1].inode {
                        assert(find_spec(c[1], x) is Some);
                    } else {
                        assert(find_spec(c[2], x) is Some);
                    }
                    assert(find_spec(v@[k], x) is Some);
                }
                if find_in_spec(v@, x) is Some {
                    let k = choose|k: int| 0 <= k < v@.len() && #[trigger] find_spec(v@[k], x) is Some;
                    let e = v@[k];
                    let c = e.fs_entries@;
                    lemma_find_node(e, x);
                    lemma_find_leaf(c[0], x);
                    lemma_find_leaf(c[1], x);
                    lemma_find_leaf(c[2], x);
                    if e.inode != x {
                        let j = choose|j: int| 0 <= j < c.len() && #[trigger] find_spec(c[j], x) is Some;
                        assert(j == 0 || j == 1 || j == 2);
                    }
                    assert(device_owns(self.devices@[k], x));
                }
            }
        }
        v
    }

    fn value(&self, inode: u64) -> (r: String) {
        let mut i: usize = 0;
        proof {
            assert(self.devices@.skip(0) =~= self.devices@);
        }
        while i < self.devices.len()
            invariant
                i <= self.devices@.len(),
                devices_value(self.devices@, inode) == devices_value(self.devices@.skip(i as int), inode),
            decreases self.devices@.len() - i,
        {
            let d = &self.devices[i];
            proof {
                assert(self.devices@.skip(i as int)[0] == self.devices@[i as int]);
                assert(self.devices@.skip(i as int).drop_first() =~= self.devices@.skip(i + 1));
            }
            if inode == d.inode_value {
                return d.data.value.clone();
            } else if inode == d.inode_current_value {
                return d.data.current_value.clone();
            } else if inode == d.inode_max_value {
                return d.data.max_value.clone();
            }
            i = i + 1;
        }
        VALUE_UNKNOWN.to_owned()
    }

    fn set_value(&self, inode: u64, data: &[u8]) -> (r: WriteAction) {
        WriteAction::Nothing
    }

    fn json(&self) -> (r: String) {
        let mut items: Vec<String> = Vec::new();
        let mut i: usize = 0;
        while i < self.devices.len()
            invariant
                i <= self.devices@.len(),
                views(items@) == self.devices@.take(i as int).map_values(|d: BrightnessDevice| device_json(d)),
            decreases self.devices@.len() - i,
        {
            let d = &self.devices[i];
            let mut members: Vec<String> = Vec::new();
            members.push(string_member("device", d.data.device.as_str()));
            members.push(string_member(ENTRY_VALUE, d.data.value.as_str()));
            members.push(string_member(ENTRY_CURRENT_VALUE, d.data.current_value.as_str()));
            members.push(string_member(ENTRY_MAX_VALUE, d.data.max_value.as_str()));
            let o = object(&members);
            proof {
                assert(views(members@) =~= seq![
                    json_member("device"@, json_string(d.data.device@)),
                    json_member(ENTRY_VALUE@, json_string(d.data.value@)),
                    json_member(ENTRY_CURRENT_VALUE@, json_string(d.data.current_value@)),
                    json_member(ENTRY_MAX_VALUE@, json_string(d.data.max_value@)),
                ]);
            }
            let ghost prev = items@;
            items.push(o);
            proof {
                assert(views(items@) =~= views(prev).push(o@));
                assert(self.devices@.take(i + 1).map_values(|d: BrightnessDevice| device_json(d)) =~= self.devices@.take(
                    i as int,
                ).map_values(|d: BrightnessDevice| device_json(d)).push(device_json(self.devices@[i as int])));
            }
            i = i + 1;
        }
        proof {
            assert(self.devices@.take(i as int) =~= self.devices@);
        }
        array(&items)
    }

    fn shell(&self) -> (r: String) {
        let mut out = String::new();
        let mut i: usize = 0;
        while i < self.devices.len()
            invariant
                i <= self.devices@.len(),
                out@ == devices_shell(self.devices@.take(i as int)),
            decreases self.devices@.len() - i,
        {
            let d = &self.devices[i];
            proof {
                assert(self.devices@.take(i + 1).drop_last() =~= self.devices@.take(i as int));
            }
            out.append(d.data.device.as_str());
            out.append("_brightness=");
            out.append(d.data.value.as_str());
            out.append(" ");
            out.append(d.data.device.as_str());
            out.append("_actual_brightness=");
            out.append(d.data.current_value.as_str());
            out.append(" ");
            out.append(d.data.device.as_str());
            out.append("_max_brightness=");
            out.append(d.data.max_value.as_str());
            proof {
                assert(out@ =~= devices_shell(self.devices@.take(i + 1)));
            }
            i = i + 1;
        }
        proof {
            assert(self.devices@.take(i as int) =~= self.devices@);
        }
        out
    }
}

} // verus!
