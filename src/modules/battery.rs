//! The battery module: AC power, charge percentage and time remaining.
use vstd::prelude::*;
use crate::fstree::{find_in_spec, find_spec, lemma_find_in_any, lemma_find_leaf, FileType, FsEntry, InodeCounter, Mode};
use crate::json::{json_member, json_object, json_string, object, string_member, views};
use crate::modules::module::{change, record, tviews, Module, Transition, WriteAction};
use crate::text::{all_digits, decimal, format_u64, lemma_decimal_shape};
use crate::triggers::Kind;

verus! {

pub const MODULE_NAME: &'static str = "battery";

pub const VALUE_UNKNOWN: &'static str = "?";

pub const VALUE_TRUE: &'static str = "true";

pub const VALUE_FALSE: &'static str = "false";

pub const ENTRY_PLUGGED: &'static str = "plugged";

pub const ENTRY_PERCENT: &'static str = "percent";

pub const ENTRY_TIME_REMAINING: &'static str = "time_remaining";

/// The sampled battery state.
pub struct BatteryData {
    pub plugged: String,
    pub percent: String,
    pub time_remaining: String,
}

impl BatteryData {
    pub fn new() -> (r: Self)
        ensures
            r.plugged@ == VALUE_UNKNOWN@,
            r.percent@ == VALUE_UNKNOWN@,
            r.time_remaining@ == VALUE_UNKNOWN@,
    {
        BatteryData {
            plugged: VALUE_UNKNOWN.to_owned(),
            percent: VALUE_UNKNOWN.to_owned(),
            time_remaining: VALUE_UNKNOWN.to_owned(),
        }
    }
}

/// A battery reading: the charge, rounded up to a whole percent, and the
/// seconds of charge remaining.
pub struct BatteryLife {
    pub percent: u8,
    pub remaining_s: u64,
}

/// `s` padded on the left with `0` to two characters.
pub open spec fn pad2(s: Seq<char>) -> Seq<char> {
    if s.len() < 2 {
        seq!['0'] + s
    } else {
        s
    }
}

/// The time-remaining text: whole hours, `h`, the seconds past the
/// minute, `m`, each padded to two digits.
pub open spec fn time_text(secs: nat) -> Seq<char> {
    pad2(decimal(secs / 3600)) + seq!['h'] + pad2(decimal(secs % 60)) + seq!['m']
}

fn pad2_exec(s: String) -> (r: String)
    ensures
        r@ == pad2(s@),
{
    if s.unicode_len() < 2 {
        let zero = "0";
        proof {
            reveal_strlit("0");
        }
        let mut r = String::from_str(zero);
        r.append(s.as_str());
        r
    } else {
        s
    }
}

/// The time-remaining text of `secs`.
pub fn format_time(secs: u64) -> (r: String)
    ensures
        r@ == time_text(secs as nat),
{
    let h = pad2_exec(format_u64(secs / 3600));
    let m = pad2_exec(format_u64(secs % 60));
    let hs = "h";
    let ms = "m";
    proof {
        reveal_strlit("h");
        reveal_strlit("m");
    }
    let mut r = h;
    r.append(hs);
    r.append(m.as_str());
    r.append(ms);
    proof {
        assert(r@ =~= time_text(secs as nat));
    }
    r
}

/// The text of the AC power field.
pub open spec fn plugged_text(on_ac_power: Option<bool>) -> Seq<char> {
    match on_ac_power {
        Some(true) => VALUE_TRUE@,
        Some(false) => VALUE_FALSE@,
        None => VALUE_UNKNOWN@,
    }
}

/// After an update, `plugged` reads `true` or `false` when the AC probe
/// answered, and `percent` reads one to three digits when the battery
/// probe answered; each reads the placeholder otherwise.
pub proof fn lemma_battery_texts(on_ac_power: Option<bool>, life: Option<BatteryLife>)
    ensures
        on_ac_power is Some ==> plugged_text(on_ac_power) == VALUE_TRUE@ || plugged_text(on_ac_power) == VALUE_FALSE@,
        on_ac_power is None ==> plugged_text(on_ac_power) == VALUE_UNKNOWN@,
        life is Some ==> 1 <= decimal(life->0.percent as nat).len() <= 3 && all_digits(decimal(life->0.percent as nat)),
{
    if life is Some {
        lemma_decimal_shape(life->0.percent as nat);
    }
}

/// The battery module: three read-only files under `/battery`.
pub struct Battery {
    pub inode_plugged: u64,
    pub inode_percent: u64,
    pub inode_time_remaining: u64,
    pub data: BatteryData,
}

impl Battery {
    pub fn new(inodes: &mut InodeCounter) -> (r: Self)
        ensures
            r.data.plugged@ == VALUE_UNKNOWN@,
            r.data.percent@ == VALUE_UNKNOWN@,
            r.data.time_remaining@ == VALUE_UNKNOWN@,
            old(inodes).last() + 3 <= u64::MAX ==> r.inode_plugged == old(inodes).last() + 1
                && r.inode_percent == old(inodes).last() + 2
                && r.inode_time_remaining == old(inodes).last() + 3
                && final(inodes).last() == old(inodes).last() + 3,
    {
        let plugged = inodes.create_inode();
        let percent = inodes.create_inode();
        let time_remaining = inodes.create_inode();
        Battery {
            inode_plugged: plugged,
            inode_percent: percent,
            inode_time_remaining: time_remaining,
            data: BatteryData::new(),
        }
    }

    /// The files `plugged`, `percent`, `time_remaining`, in that order.
    pub fn entries(&self) -> (r: Vec<FsEntry>)
        ensures
            r@.len() == 3,
            r@[0].inode == self.inode_plugged && r@[0].name@ == ENTRY_PLUGGED@,
            r@[1].inode == self.inode_percent && r@[1].name@ == ENTRY_PERCENT@,
            r@[2].inode == self.inode_time_remaining && r@[2].name@ == ENTRY_TIME_REMAINING@,
            forall|i: int|
                0 <= i < 3 ==> (#[trigger] r@[i]).file_type == FileType::RegularFile && r@[i].mode
                    == Mode::ReadOnly && r@[i].fs_entries@.len() == 0,
    {
        let mut v: Vec<FsEntry> = Vec::new();
        v.push(FsEntry::new(self.inode_plugged, FileType::RegularFile, ENTRY_PLUGGED, Mode::ReadOnly, Vec::new()));
        v.push(FsEntry::new(self.inode_percent, FileType::RegularFile, ENTRY_PERCENT, Mode::ReadOnly, Vec::new()));
        v.push(FsEntry::new(self.inode_time_remaining, FileType::RegularFile, ENTRY_TIME_REMAINING, Mode::ReadOnly, Vec::new()));
        v
    }

    /// Applies a reading: AC power when the probe answered, and the battery
    /// life when it answered. Each field that changes yields an update
    /// transition, in the order plugged, percent, time remaining.
    pub fn update(&mut self, on_ac_power: Option<bool>, life: Option<BatteryLife>) -> (r: Vec<Transition>)
        ensures
            final(self).inode_plugged == old(self).inode_plugged,
            final(self).inode_percent == old(self).inode_percent,
            final(self).inode_time_remaining == old(self).inode_time_remaining,
            final(self).data.plugged@ == plugged_text(on_ac_power),
            final(self).data.percent@ == (match life {
                Some(l) => decimal(l.percent as nat),
                None => VALUE_UNKNOWN@,
            }),
            final(self).data.time_remaining@ == (match life {
                Some(l) => time_text(l.remaining_s as nat),
                None => VALUE_UNKNOWN@,
            }),
            tviews(r@) == change(Kind::Update, ENTRY_PLUGGED@, old(self).data.plugged@, final(self).data.plugged@)
                + change(Kind::Update, ENTRY_PERCENT@, old(self).data.percent@, final(self).data.percent@)
                + change(Kind::Update, ENTRY_TIME_REMAINING@, old(self).data.time_remaining@, final(self).data.time_remaining@),
    {
        let plugged = match on_ac_power {
            Some(true) => VALUE_TRUE.to_owned(),
            Some(false) => VALUE_FALSE.to_owned(),
            None => VALUE_UNKNOWN.to_owned(),
        };
        let (percent, time_remaining) = match &life {
            Some(l) => (format_u64(l.percent as u64), format_time(l.remaining_s)),
            None => (VALUE_UNKNOWN.to_owned(), VALUE_UNKNOWN.to_owned()),
        };
        let mut out: Vec<Transition> = Vec::new();
        record(&mut out, Kind::Update, ENTRY_PLUGGED, &mut self.data.plugged, plugged);
        record(&mut out, Kind::Update, ENTRY_PERCENT, &mut self.data.percent, percent);
        record(&mut out, Kind::Update, ENTRY_TIME_REMAINING, &mut self.data.time_remaining, time_remaining);
        proof {
            assert(tviews(Seq::<Transition>::empty()) =~= Seq::empty());
        }
        out
    }
}

impl Module for Battery {
    open spec fn spec_name(&self) -> Seq<char> {
        MODULE_NAME@
    }

    open spec fn spec_owns(&self, inode: u64) -> bool {
        inode == self.inode_plugged || inode == self.inode_percent || inode == self.inode_time_remaining
    }

    open spec fn spec_value(&self, inode: u64) -> Seq<char> {
        if inode == self.inode_percent {
            self.data.percent@
        } else if inode == self.inode_plugged {
            self.data.plugged@
        } else if inode == self.inode_time_remaining {
            self.data.time_remaining@
        } else {
            VALUE_UNKNOWN@
        }
    }

    open spec fn spec_json(&self) -> Seq<char> {
        json_object(seq![
            json_member(ENTRY_PLUGGED@, json_string(self.data.plugged@)),
            json_member(ENTRY_PERCENT@, json_string(self.data.percent@)),
            json_member(ENTRY_TIME_REMAINING@, json_string(self.data.time_remaining@)),
        ])
    }

    open spec fn spec_shell(&self) -> Seq<char> {
        "plugged="@ + self.data.plugged@ + " percent="@ + self.data.percent@ + " time_remaining="@
            + self.data.time_remaining@
    }

    open spec fn spec_write(&self, inode: u64, data: Seq<u8>) -> WriteAction {
        WriteAction::Nothing
    }

    open spec fn spec_entries(&self, r: Seq<FsEntry>) -> bool {
        &&& r.len() == 3
        &&& r[0].inode == self.inode_plugged && r[0].name@ == ENTRY_PLUGGED@
        &&& r[1].inode == self.inode_percent && r[1].name@ == ENTRY_PERCENT@
        &&& r[2].inode == self.inode_time_remaining && r[2].name@ == ENTRY_TIME_REMAINING@
        &&& forall|i: int|
            0 <= i < 3 ==> (#[trigger] r[i]).file_type == FileType::RegularFile && r[i].mode
                == Mode::ReadOnly && r[i].fs_entries@.len() == 0
    }

    fn name(&self) -> (r: &str) {
        MODULE_NAME
    }

    fn owns(&self, inode: u64) -> (r: bool) {
        inode == self.inode_plugged || inode == self.inode_percent || inode == self.inode_time_remaining
    }

    fn fs_entries(&self) -> (r: Vec<FsEntry>) {
        let r = self.entries();
        proof {
            assert forall|i: u64| #[trigger] self.spec_owns(i) == (find_in_spec(r@, i) is Some) by {
                lemma_find_in_any(r@, i);
                lemma_find_leaf(r@[0], i);
                lemma_find_leaf(r@[1], i);
                lemma_find_leaf(r@[2], i);
                if self.spec_owns(i) {
                    if i == self.inode_plugged {
                        assert(find_spec(r@[0], i) is Some);
                    } else if i == self.inode_percent {
                        assert(find_spec(r@[1], i) is Some);
                    } else if i == self.inode_time_remaining {
                        assert(find_spec(r@[2], i) is Some);
                    }
                }
            }
        }
        r
    }

    fn value(&self, inode: u64) -> (r: String) {
        if inode == self.inode_percent {
            self.data.percent.clone()
        } else if inode == self.inode_plugged {
            self.data.plugged.clone()
        } else if inode == self.inode_time_remaining {
            self.data.time_remaining.clone()
        } else {
            VALUE_UNKNOWN.to_owned()
        }
    }

    fn set_value(&self, inode: u64, data: &[u8]) -> (r: WriteAction) {
        WriteAction::Nothing
    }

    fn json(&self) -> (r: String) {
        let mut members: Vec<String> = Vec::new();
        members.push(string_member(ENTRY_PLUGGED, self.data.plugged.as_str()));
        members.push(string_member(ENTRY_PERCENT, self.data.percent.as_str()));
        members.push(string_member(ENTRY_TIME_REMAINING, self.data.time_remaining.as_str()));
        let r = object(&members);
        proof {
            assert(views(members@) =~= seq![
                json_member(ENTRY_PLUGGED@, json_string(self.data.plugged@)),
                json_member(ENTRY_PERCENT@, json_string(self.data.percent@)),
                json_member(ENTRY_TIME_REMAINING@, json_string(self.data.time_remaining@)),
            ]);
        }
        r
    }

    fn shell(&self) -> (r: String) {
        let mut r = String::from_str("plugged=");
        r.append(self.data.plugged.as_str());
        r.append(" percent=");
        r.append(self.data.percent.as_str());
        r.append(" time_remaining=");
        r.append(self.data.time_remaining.as_str());
        r
    }
}

} // verus!
