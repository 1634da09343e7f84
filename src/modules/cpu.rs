//! The CPU module: per logical CPU usage with its average and count, and
//! per physical CPU temperature with its count, each side stamped with the
//! time of its last sample.
use vstd::prelude::*;
use crate::config::ModuleConfig;
use crate::error::CerebroError;
use crate::fstree::{find_in_spec, find_spec, lemma_find_in_any, lemma_find_leaf, lemma_find_node, ro_dir, ro_file, FileType, FsEntry, InodeCounter, Mode};
use crate::json::{array, json_array, json_member, json_object, json_string, member, object, string_member, views};
use crate::modules::module::{change, record, tview, tviews, Module, Status, Transition, WriteAction};
use crate::text::{decimal, format_u64};
use crate::triggers::{regex_is_match, regex_search, Kind};

verus! {

pub const MODULE_NAME: &'static str = "cpu";

pub const VALUE_UNKNOWN: &'static str = "?";

pub const ENTRY_AVERRAGE: &'static str = "averrage";

pub const ENTRY_COUNT: &'static str = "count";

pub const ENTRY_LOGICAL: &'static str = "logical";

pub const ENTRY_PHYSICAL: &'static str = "physical";

pub const ENTRY_TEMPERATURE: &'static str = "temperature";

pub const ENTRY_TIMESTAMP: &'static str = "timestamp";

pub const ENTRY_USAGE: &'static str = "usage_percent";

/// The usage of one logical CPU, in percent, as text.
pub struct LogicalData {
    pub usage_percent: String,
}

/// The temperature of one physical CPU, as text.
pub struct PhysicalData {
    pub temperature: String,
}

/// The text of a temperature reading: its decimal value, or the
/// placeholder for a negative reading.
pub open spec fn temperature_text(t: i16) -> Seq<char> {
    if t >= 0 { decimal(t as nat) } else { VALUE_UNKNOWN@ }
}

impl PhysicalData {
    pub fn new(temperature: i16) -> (r: Self)
        ensures
            r.temperature@ == temperature_text(temperature),
    {
        if temperature >= 0 {
            PhysicalData { temperature: format_u64(temperature as u64) }
        } else {
            PhysicalData { temperature: VALUE_UNKNOWN.to_owned() }
        }
    }
}

/// The sampled CPU state.
pub struct CpuListData {
    pub logical_timestamp: String,
    pub logical_averrage_usage: String,
    pub logical_count: String,
    pub logical_list: Vec<LogicalData>,
    pub physical_timestamp: String,
    pub physical_count: String,
    pub physical_list: Vec<PhysicalData>,
}

impl CpuListData {
    pub fn new() -> (r: Self)
        ensures
            r.logical_timestamp@ == "0"@,
            r.logical_averrage_usage@ == "0"@,
            r.logical_count@ == "0"@,
            r.logical_list@.len() == 0,
            r.physical_timestamp@ == "0"@,
            r.physical_count@ == "0"@,
            r.physical_list@.len() == 0,
    {
        CpuListData {
            logical_timestamp: "0".to_owned(),
            logical_averrage_usage: "0".to_owned(),
            logical_count: "0".to_owned(),
            logical_list: Vec::new(),
            physical_timestamp: "0".to_owned(),
            physical_count: "0".to_owned(),
            physical_list: Vec::new(),
        }
    }
}

/// A sample of the logical CPUs: each usage in percent, and their average,
/// as text.
pub struct LogicalSample {
    pub usages: Vec<String>,
    pub average: String,
}

/// A temperature feature of a sensor chip: its name, and the values of its
/// temperature inputs in order.
pub struct SensorFeature {
    pub name: String,
    pub inputs: Vec<u8>,
}

/// The identifiers of a per-CPU directory and of its one file.
#[derive(Debug, Clone, Copy, PartialEq, Eq, Structural)]
pub struct CpuIds {
    pub dir: u64,
    pub file: u64,
}

/// The CPU module.
pub struct Cpu {
    pub inode_logical: u64,
    pub inode_logical_averrage: u64,
    pub inode_logical_averrage_usage: u64,
    pub inode_logical_count: u64,
    pub inode_logical_timestamp: u64,
    pub inode_physical: u64,
    pub inode_physical_count: u64,
    pub inode_physical_timestamp: u64,
    pub logical_ids: Vec<CpuIds>,
    pub physical_ids: Vec<CpuIds>,
    pub data: CpuListData,
}

/// The field of the `i`-th CPU of a side: `<side>/<i>/<entry>`.
pub open spec fn cpu_field(side: Seq<char>, i: nat, entry: Seq<char>) -> Seq<char> {
    side + seq!['/'] + decimal(i) + seq!['/'] + entry
}

/// The transitions of kind `kind`, with empty values, of the first `n`
/// CPUs of a side.
pub open spec fn per_cpu(kind: Kind, side: Seq<char>, entry: Seq<char>, n: nat) -> Seq<(Kind, Seq<char>, Seq<char>, Seq<char>)>
    decreases n,
{
    if n == 0 {
        Seq::empty()
    } else {
        per_cpu(kind, side, entry, (n - 1) as nat).push((kind, cpu_field(side, (n - 1) as nat, entry), Seq::empty(), Seq::empty()))
    }
}

/// The update transitions of the logical CPUs whose usage changed, in order.
pub open spec fn usage_changes(old: Seq<LogicalData>, new: Seq<String>, n: nat) -> Seq<(Kind, Seq<char>, Seq<char>, Seq<char>)>
    decreases n,
{
    if n == 0 {
        Seq::empty()
    } else {
        usage_changes(old, new, (n - 1) as nat) + change(
            Kind::Update,
            cpu_field(ENTRY_LOGICAL@, (n - 1) as nat, ENTRY_USAGE@),
            old[n - 1].usage_percent@,
            new[n - 1]@,
        )
    }
}

/// The temperatures a sensor chip yields: for each feature whose name the
/// pattern matches, its first non-zero input, if any.
pub open spec fn temperatures(pattern: Seq<char>, fs: Seq<SensorFeature>) -> Seq<u8>
    decreases fs.len(),
{
    if fs.len() == 0 {
        Seq::empty()
    } else {
        let before = temperatures(pattern, fs.drop_last());
        let f = fs.last();
        if regex_search(pattern, f.name@) == Some(true) {
            match first_nonzero(f.inputs@) {
                Some(v) => before.push(v),
                None => before,
            }
        } else {
            before
        }
    }
}

/// The first non-zero value of `s`.
pub open spec fn first_nonzero(s: Seq<u8>) -> Option<u8>
    decreases s.len(),
{
    if s.len() == 0 {
        None
    } else if s[0] != 0 {
        Some(s[0])
    } else {
        first_nonzero(s.drop_first())
    }
}

fn first_nonzero_exec(v: &Vec<u8>) -> (r: Option<u8>)
    ensures
        r == first_nonzero(v@),
{
    let mut i: usize = 0;
    proof {
        assert(v@.skip(0) =~= v@);
    }
    while i < v.len()
        invariant
            i <= v@.len(),
            first_nonzero(v@) == first_nonzero(v@.skip(i as int)),
        decreases v@.len() - i,
    {
        proof {
            assert(v@.skip(i as int)[0] == v@[i as int]);
            assert(v@.skip(i as int).drop_first() =~= v@.skip(i + 1));
        }
        if v[i] != 0 {
            return Some(v[i]);
        }
        i = i + 1;
    }
    None
}

/// The temperatures to report from the features of the configured chip:
/// an error when the pattern does not compile.
pub fn select_temperatures(pattern: &str, features: &Vec<SensorFeature>) -> (r: Result<Vec<u8>, CerebroError>)
    ensures
        regex_search(pattern@, Seq::empty()) is None ==> r is Err,
        regex_search(pattern@, Seq::empty()) is Some ==> r is Ok && r->Ok_0@ == temperatures(pattern@, features@),
{
    let empty = "";
    proof {
        reveal_strlit("");
        assert(empty@ =~= Seq::<char>::empty());
    }
    if regex_is_match(pattern, empty).is_none() {
        return Err(CerebroError::new("Cannot build regex"));
    }
    let mut out: Vec<u8> = Vec::new();
    let mut i: usize = 0;
    while i < features.len()
        invariant
            i <= features@.len(),
            out@ == temperatures(pattern@, features@.take(i as int)),
        decreases features@.len() - i,
    {
        proof {
            assert(features@.take(i + 1).drop_last() =~= features@.take(i as int));
        }
        let f = &features[i];
        match regex_is_match(pattern, f.name.as_str()) {
            Some(true) => match first_nonzero_exec(&f.inputs) {
                Some(v) => out.push(v),
                None => {},
            },
            _ => {},
        }
        i = i + 1;
    }
    proof {
        assert(features@.take(i as int) =~= features@);
    }
    Ok(out)
}

/// The chip prefix and feature pattern of the options: an error when
/// either is missing.
pub fn temperature_settings(config: &ModuleConfig) -> (r: Result<(&String, &String), CerebroError>)
    ensures
        match r {
            Ok((d, p)) => config.temperature is Some && config.temperature->0.device == Some(*d)
                && config.temperature->0.pattern == Some(*p),
            Err(_) => config.temperature is None || config.temperature->0.device is None
                || config.temperature->0.pattern is None,
        },
{
    let t = match &config.temperature {
        Some(t) => t,
        None => return Err(CerebroError::new("Missing temperature configuration")),
    };
    let d = match &t.device {
        Some(d) => d,
        None => return Err(CerebroError::new("Missing device configuration")),
    };
    let p = match &t.pattern {
        Some(p) => p,
        None => return Err(CerebroError::new("Missing pattern configuration")),
    };
    Ok((d, p))
}

fn side_field(side: &str, i: u64, entry: &str) -> (r: String)
    ensures
        r@ == cpu_field(side@, i as nat, entry@),
{
    let slash = "/";
    proof {
        reveal_strlit("/");
    }
    let mut r = String::from_str(side);
    r.append(slash);
    r.append(format_u64(i).as_str());
    r.append(slash);
    r.append(entry);
    r
}

fn path2(a: &str, b: &str) -> (r: String)
    ensures
        r@ == a@ + seq!['/'] + b@,
{
    let slash = "/";
    proof {
        reveal_strlit("/");
    }
    let mut r = String::from_str(a);
    r.append(slash);
    r.append(b);
    r
}

/// Pushes the transitions of kind `kind`, with empty values, of the first
/// `n` CPUs of a side.
fn push_per_cpu(out: &mut Vec<Transition>, kind: Kind, side: &str, entry: &str, n: usize)
    ensures
        tviews(final(out)@) == tviews(old(out)@) + per_cpu(kind, side@, entry@, n as nat),
{
    let mut i: usize = 0;
    while i < n
        invariant
            i <= n,
            tviews(out@) == tviews(old(out)@) + per_cpu(kind, side@, entry@, i as nat),
        decreases n - i,
    {
        let t = Transition { kind, field: side_field(side, i as u64, entry), old: String::new(), new: String::new() };
        let ghost prev = out@;
        out.push(t);
        proof {
            assert(tviews(out@) =~= tviews(prev).push(tview(t)));
        }
        i = i + 1;
    }
}

/// Whether `ids` are the `ids.len()` per-CPU identifier pairs handed out
/// after `last`, in order: the `k`-th directory gets `last + 2k + 1` and
/// its file `last + 2k + 2`.
pub open spec fn fresh_pairs(ids: Seq<CpuIds>, last: u64) -> bool {
    forall|k: int| 0 <= k < ids.len() ==> (#[trigger] ids[k]).dir == last + 2 * k + 1 && ids[k].file == last + 2 * k + 2
}

/// Fresh identifiers for `n` per-CPU directories and their files.
fn fresh_ids(n: usize, inodes: &mut InodeCounter) -> (r: Vec<CpuIds>)
    ensures
        r@.len() == n,
        old(inodes).last() <= final(inodes).last(),
        old(inodes).last() + 2 * n <= u64::MAX ==> fresh_pairs(r@, old(inodes).last())
            && final(inodes).last() == old(inodes).last() + 2 * n,
{
    let mut v: Vec<CpuIds> = Vec::new();
    let mut i: usize = 0;
    while i < n
        invariant
            i <= n,
            v@.len() == i,
            old(inodes).last() <= inodes.last(),
            old(inodes).last() + 2 * n <= u64::MAX ==> fresh_pairs(v@, old(inodes).last())
                && inodes.last() == old(inodes).last() + 2 * i,
        decreases n - i,
    {
        let dir = inodes.create_inode();
        let file = inodes.create_inode();
        v.push(CpuIds { dir, file });
        i = i + 1;
    }
    v
}

/// The first CPU whose directory or file has identifier `inode`, and
/// whether it is the directory.
pub open spec fn cpu_slot(ids: Seq<CpuIds>, inode: u64) -> Option<(int, bool)>
    decreases ids.len(),
{
    if ids.len() == 0 {
        None
    } else {
        let k = ids.len() - 1;
        match cpu_slot(ids.drop_last(), inode) {
            Some(x) => Some(x),
            None => if ids[k].dir == inode {
                Some((k, true))
            } else if ids[k].file == inode {
                Some((k, false))
            } else {
                None
            },
        }
    }
}

/// The content of per-CPU entry `inode`, if it is one: a directory reads
/// as the placeholder, a file as the value of its CPU.
pub open spec fn per_cpu_value(ids: Seq<CpuIds>, values: Seq<Seq<char>>, inode: u64) -> Option<Seq<char>> {
    match cpu_slot(ids, inode) {
        None => None,
        Some((k, is_dir)) => if !is_dir && k < values.len() {
            Some(values[k])
        } else {
            Some(VALUE_UNKNOWN@)
        },
    }
}

/// Whether one of the per-CPU identifiers is `inode`.
pub open spec fn ids_own(ids: Seq<CpuIds>, inode: u64) -> bool {
    exists|k: int| 0 <= k < ids.len() && ((#[trigger] ids[k]).dir == inode || ids[k].file == inode)
}

pub open spec fn logical_values(d: CpuListData) -> Seq<Seq<char>> {
    d.logical_list@.map_values(|l: LogicalData| l.usage_percent@)
}

pub open spec fn physical_values(d: CpuListData) -> Seq<Seq<char>> {
    d.physical_list@.map_values(|p: PhysicalData| p.temperature@)
}

/// The shell text of the per-CPU values of a side: ` <prefix><i><suffix>=<value>` each.
pub open spec fn per_cpu_shell(prefix: Seq<char>, suffix: Seq<char>, values: Seq<Seq<char>>) -> Seq<char>
    decreases values.len(),
{
    if values.len() == 0 {
        Seq::empty()
    } else {
        per_cpu_shell(prefix, suffix, values.drop_last()) + prefix + decimal((values.len() - 1) as nat) + suffix
            + seq!['='] + values.last()
    }
}

fn find_cpu(ids: &Vec<CpuIds>, inode: u64) -> (r: Option<(usize, bool)>)
    ensures
        match r {
            Some((k, d)) => cpu_slot(ids@, inode) == Some((k as int, d)) && k < ids@.len(),
            None => cpu_slot(ids@, inode) is None,
        },
{
    let mut i: usize = 0;
    while i < ids.len()
        invariant
            i <= ids@.len(),
            cpu_slot(ids@.take(i as int), inode) is None,
        decreases ids@.len() - i,
    {
        proof {
            assert(ids@.take(i + 1).drop_last() =~= ids@.take(i as int));
        }
        if ids[i].dir == inode || ids[i].file == inode {
            proof {
                lemma_cpu_slot_prefix(ids@, i as int + 1, inode);
            }
            return Some((i, ids[i].dir == inode));
        }
        i = i + 1;
    }
    proof {
        assert(ids@.take(i as int) =~= ids@);
    }
    None
}

proof fn lemma_cpu_slot_prefix(ids: Seq<CpuIds>, k: int, inode: u64)
    requires
        0 < k <= ids.len(),
        cpu_slot(ids.take(k), inode) is Some,
    ensures
        cpu_slot(ids, inode) == cpu_slot(ids.take(k), inode),
    decreases ids.len(),
{
    if k < ids.len() {
        assert(ids.drop_last().take(k) =~= ids.take(k));
        lemma_cpu_slot_prefix(ids.drop_last(), k, inode);
    } else {
        assert(ids.take(k) =~= ids);
    }
}

proof fn lemma_cpu_slot_owns(ids: Seq<CpuIds>, inode: u64)
    ensures
        cpu_slot(ids, inode) is Some <==> ids_own(ids, inode),
    decreases ids.len(),
{
    if ids.len() > 0 {
        lemma_cpu_slot_owns(ids.drop_last(), inode);
        if ids_own(ids.drop_last(), inode) {
            let k = choose|k: int| 0 <= k < ids.drop_last().len() && ((#[trigger] ids.drop_last()[k]).dir == inode || ids.drop_last()[k].file == inode);
            assert(ids[k] == ids.drop_last()[k]);
        }
        if ids_own(ids, inode) {
            let k = choose|k: int| 0 <= k < ids.len() && ((#[trigger] ids[k]).dir == inode || ids[k].file == inode);
            if k < ids.len() - 1 {
                assert(ids.drop_last()[k] == ids[k]);
            }
        }
    }
}

/// The field of the average usage: `logical/averrage/usage_percent`.
pub open spec fn averrage_field() -> Seq<char> {
    ENTRY_LOGICAL@ + seq!['/'] + ENTRY_AVERRAGE@ + seq!['/'] + ENTRY_USAGE@
}

/// The field `<side>/<entry>`.
pub open spec fn side_entry(side: Seq<char>, entry: Seq<char>) -> Seq<char> {
    side + seq!['/'] + entry
}

/// The transitions a logical sample `s` taken at `now_s` yields from state `d`.
pub open spec fn logical_transitions(d: CpuListData, s: LogicalSample, now_s: u64) -> Seq<(Kind, Seq<char>, Seq<char>, Seq<char>)> {
    let n = s.usages@.len();
    let old_n = d.logical_list@.len();
    let head = change(Kind::Update, averrage_field(), d.logical_averrage_usage@, s.average@);
    let tail = seq![(Kind::Update, side_entry(ENTRY_LOGICAL@, ENTRY_TIMESTAMP@), d.logical_timestamp@, decimal(now_s as nat))];
    if old_n != n {
        head + seq![(Kind::Update, side_entry(ENTRY_LOGICAL@, ENTRY_COUNT@), d.logical_count@, decimal(n))]
            + per_cpu(Kind::Delete, ENTRY_LOGICAL@, ENTRY_USAGE@, old_n)
            + per_cpu(Kind::Create, ENTRY_LOGICAL@, ENTRY_USAGE@, n) + tail
    } else {
        head + usage_changes(d.logical_list@, s.usages@, n) + tail
    }
}

/// The transitions the temperatures `t` read at `now_s` yield from state `d`.
pub open spec fn physical_transitions(d: CpuListData, t: Seq<u8>, now_s: u64) -> Seq<(Kind, Seq<char>, Seq<char>, Seq<char>)> {
    let tail = seq![(Kind::Update, side_entry(ENTRY_PHYSICAL@, ENTRY_TIMESTAMP@), d.physical_timestamp@, decimal(now_s as nat))];
    if d.physical_list@.len() != t.len() {
        seq![(Kind::Update, side_entry(ENTRY_PHYSICAL@, ENTRY_COUNT@), d.physical_count@, decimal(t.len()))] + tail
    } else {
        tail
    }
}

/// The logical side of `f` after sample `s` at `now_s` was applied to `o`,
/// the counter going from `before` to `after`: average, usages and
/// timestamp set; on a change of count, the count set and fresh per-CPU
/// identifiers; otherwise count and identifiers kept, and no identifier used.
pub open spec fn logical_state(o: Cpu, f: Cpu, s: LogicalSample, now_s: u64, before: u64, after: u64) -> bool {
    let n = s.usages@.len();
    &&& f.data.logical_averrage_usage@ == s.average@
    &&& logical_values(f.data) == views(s.usages@)
    &&& f.data.logical_timestamp@ == decimal(now_s as nat)
    &&& if o.data.logical_list@.len() != n {
        &&& f.data.logical_count@ == decimal(n)
        &&& f.logical_ids@.len() == n
        &&& before + 2 * n <= u64::MAX ==> fresh_pairs(f.logical_ids@, before) && after == before + 2 * n
    } else {
        &&& f.data.logical_count == o.data.logical_count
        &&& f.logical_ids == o.logical_ids
        &&& after == before
    }
}

/// The physical side of `f` after temperatures `t` read at `now_s` were
/// applied to `o`, the counter going from `before` to `after`.
pub open spec fn physical_state(o: Cpu, f: Cpu, t: Seq<u8>, now_s: u64, before: u64, after: u64) -> bool {
    &&& physical_values(f.data) == t.map_values(|x: u8| decimal(x as nat))
    &&& f.data.physical_timestamp@ == decimal(now_s as nat)
    &&& if o.data.physical_list@.len() != t.len() {
        &&& f.data.physical_count@ == decimal(t.len())
        &&& f.physical_ids@.len() == t.len()
        &&& before + 2 * t.len() <= u64::MAX ==> fresh_pairs(f.physical_ids@, before) && after == before + 2 * t.len()
    } else {
        &&& f.data.physical_count == o.data.physical_count
        &&& f.physical_ids == o.physical_ids
        &&& after == before
    }
}

/// The logical side of `f` is that of `o`.
pub open spec fn logical_kept(o: Cpu, f: Cpu) -> bool {
    &&& f.logical_ids == o.logical_ids
    &&& f.data.logical_list == o.data.logical_list
    &&& f.data.logical_count == o.data.logical_count
    &&& f.data.logical_timestamp == o.data.logical_timestamp
    &&& f.data.logical_averrage_usage == o.data.logical_averrage_usage
}

/// The physical side of `f` is that of `o`.
pub open spec fn physical_kept(o: Cpu, f: Cpu) -> bool {
    &&& f.physical_ids == o.physical_ids
    &&& f.data.physical_list == o.data.physical_list
    &&& f.data.physical_count == o.data.physical_count
    &&& f.data.physical_timestamp == o.data.physical_timestamp
}

impl Cpu {
    pub fn new(inodes: &mut InodeCounter) -> (r: Self)
        ensures
            r.logical_ids@.len() == 0,
            r.physical_ids@.len() == 0,
            r.data.logical_list@.len() == 0,
            r.data.physical_list@.len() == 0,
            r.data.logical_timestamp@ == "0"@,
            r.data.logical_averrage_usage@ == "0"@,
            r.data.logical_count@ == "0"@,
            r.data.physical_timestamp@ == "0"@,
            r.data.physical_count@ == "0"@,
            old(inodes).last() + 8 <= u64::MAX ==> r.inode_logical == old(inodes).last() + 1
                && r.inode_logical_averrage == old(inodes).last() + 2
                && r.inode_logical_averrage_usage == old(inodes).last() + 3
                && r.inode_logical_count == old(inodes).last() + 4
                && r.inode_logical_timestamp == old(inodes).last() + 5
                && r.inode_physical == old(inodes).last() + 6
                && r.inode_physical_count == old(inodes).last() + 7
                && r.inode_physical_timestamp == old(inodes).last() + 8
                && final(inodes).last() == old(inodes).last() + 8,
    {
        let logical = inodes.create_inode();
        let logical_averrage = inodes.create_inode();
        let logical_averrage_usage = inodes.create_inode();
        let logical_count = inodes.create_inode();
        let logical_timestamp = inodes.create_inode();
        let physical = inodes.create_inode();
        let physical_count = inodes.create_inode();
        let physical_timestamp = inodes.create_inode();
        Cpu {
            inode_logical: logical,
            inode_logical_averrage: logical_averrage,
            inode_logical_averrage_usage: logical_averrage_usage,
            inode_logical_count: logical_count,
            inode_logical_timestamp: logical_timestamp,
            inode_physical: physical,
            inode_physical_count: physical_count,
            inode_physical_timestamp: physical_timestamp,
            logical_ids: Vec::new(),
            physical_ids: Vec::new(),
            data: CpuListData::new(),
        }
    }

    /// Applies a sample of the logical CPUs taken at `now_s` seconds since
    /// the epoch. Without a sample (the first measurement has only just
    /// started) nothing changes. Otherwise: the average is set, with an
    /// update transition when it changed; when the number of CPUs changed,
    /// the count is set with an update transition, the per-CPU entries get
    /// fresh identifiers, each old CPU yields a deletion and each new one a
    /// creation, and the module reports a change of shape; when it did not,
    /// each CPU whose usage changed yields an update transition. Last, the
    /// timestamp is set, with an update transition.
    pub fn update_logical(&mut self, sample: Option<LogicalSample>, now_s: u64, inodes: &mut InodeCounter) -> (r: (Status, Vec<Transition>))
        ensures
            physical_kept(*old(self), *final(self)),
            sample is None ==> r.0 is Unchanged && r.1@.len() == 0 && logical_kept(*old(self), *final(self))
                && final(inodes).last() == old(inodes).last(),
            sample is Some ==> {
                let s = sample->0;
                &&& logical_state(*old(self), *final(self), s, now_s, old(inodes).last(), final(inodes).last())
                &&& tviews(r.1@) == logical_transitions(old(self).data, s, now_s)
                &&& if old(self).data.logical_list@.len() != s.usages@.len() {
                    r.0 is Changed && r.0->Changed_0@ == MODULE_NAME@
                } else {
                    r.0 is Unchanged
                }
            },
    {
        let s = match sample {
            Some(s) => s,
            None => return (Status::Unchanged, Vec::new()),
        };
        let mut out: Vec<Transition> = Vec::new();
        let averrage = path2(path2(ENTRY_LOGICAL, ENTRY_AVERRAGE).as_str(), ENTRY_USAGE);
        record(&mut out, Kind::Update, averrage.as_str(), &mut self.data.logical_averrage_usage, s.average);
        proof {
            assert(tviews(Seq::<Transition>::empty()) =~= Seq::empty());
            assert(averrage@ =~= averrage_field());
        }
        let n = s.usages.len();
        let old_n = self.data.logical_list.len();
        let ghost old_list = self.data.logical_list@;
        let status;
        if old_n != n {
            let count = format_u64(n as u64);
            let t = Transition {
                kind: Kind::Update,
                field: path2(ENTRY_LOGICAL, ENTRY_COUNT),
                old: self.data.logical_count.clone(),
                new: count.clone(),
            };
            let ghost prior = out@;
            out.push(t);
            proof {
                assert(tviews(out@) =~= tviews(prior).push(tview(t)));
            }
            self.data.logical_count = count;
            self.logical_ids = fresh_ids(n, inodes);
            push_per_cpu(&mut out, Kind::Delete, ENTRY_LOGICAL, ENTRY_USAGE, old_n);
            push_per_cpu(&mut out, Kind::Create, ENTRY_LOGICAL, ENTRY_USAGE, n);
            status = Status::Changed(MODULE_NAME.to_owned());
        } else {
            let ghost prior = out@;
            let mut i: usize = 0;
            while i < n
                invariant
                    i <= n,
                    n == s.usages@.len(),
                    self.data.logical_list@.len() == n,
                    old_list.len() == n,
                    forall|k: int| i <= k < n ==> self.data.logical_list@[k] == old_list[k],
                    forall|k: int| 0 <= k < i ==> (#[trigger] self.data.logical_list@[k]).usage_percent@ == s.usages@[k]@,
                    tviews(out@) == tviews(prior) + usage_changes(old_list, s.usages@, i as nat),
                    self.logical_ids == old(self).logical_ids,
                    self.physical_ids == old(self).physical_ids,
                    self.data.physical_list == old(self).data.physical_list,
                    self.data.physical_count == old(self).data.physical_count,
                    self.data.physical_timestamp == old(self).data.physical_timestamp,
                    self.data.logical_count == old(self).data.logical_count,
                    self.data.logical_timestamp == old(self).data.logical_timestamp,
                    self.data.logical_averrage_usage@ == s.average@,
                decreases n - i,
            {
                let field = side_field(ENTRY_LOGICAL, i as u64, ENTRY_USAGE);
                let mut slot = self.data.logical_list[i].usage_percent.clone();
                let ghost q0 = out@;
                record(&mut out, Kind::Update, field.as_str(), &mut slot, s.usages[i].clone());
                self.data.logical_list.set(i, LogicalData { usage_percent: slot });
                proof {
                    assert(tviews(out@) =~= tviews(prior) + usage_changes(old_list, s.usages@, (i + 1) as nat));
                }
                i = i + 1;
            }
            status = Status::Unchanged;
        }
        if old_n != n {
            let mut list: Vec<LogicalData> = Vec::new();
            let mut i: usize = 0;
            while i < n
                invariant
                    i <= n,
                    n == s.usages@.len(),
                    list@.len() == i,
                    forall|k: int| 0 <= k < i ==> (#[trigger] list@[k]).usage_percent@ == s.usages@[k]@,
                decreases n - i,
            {
                list.push(LogicalData { usage_percent: s.usages[i].clone() });
                i = i + 1;
            }
            self.data.logical_list = list;
        }
        proof {
            assert(logical_values(self.data) =~= views(s.usages@));
        }
        let now = format_u64(now_s);
        let t = Transition {
            kind: Kind::Update,
            field: path2(ENTRY_LOGICAL, ENTRY_TIMESTAMP),
            old: self.data.logical_timestamp.clone(),
            new: now.clone(),
        };
        let ghost prior_stamp = out@;
        out.push(t);
        proof {
            assert(tviews(out@) =~= tviews(prior_stamp).push(tview(t)));
        }
        self.data.logical_timestamp = now;
        (status, out)
    }

    /// Applies the temperatures of the physical CPUs read at `now_s`
    /// seconds since the epoch. When their number changed, the count is set
    /// with an update transition, the per-CPU entries get fresh
    /// identifiers, and the module reports a change of shape. The list is
    /// replaced by the readings; last, the timestamp is set, with an update
    /// transition.
    pub fn update_physical(&mut self, temperatures: Vec<u8>, now_s: u64, inodes: &mut InodeCounter) -> (r: (Status, Vec<Transition>))
        ensures
            logical_kept(*old(self), *final(self)),
            physical_state(*old(self), *final(self), temperatures@, now_s, old(inodes).last(), final(inodes).last()),
            tviews(r.1@) == physical_transitions(old(self).data, temperatures@, now_s),
            old(self).data.physical_list@.len() != temperatures@.len() ==> r.0 is Changed && r.0->Changed_0@ == MODULE_NAME@,
            old(self).data.physical_list@.len() == temperatures@.len() ==> r.0 is Unchanged,
    {
        let n = temperatures.len();
        let mut out: Vec<Transition> = Vec::new();
        let changed = self.data.physical_list.len() != n;
        if changed {
            let count = format_u64(n as u64);
            out.push(Transition {
                kind: Kind::Update,
                field: path2(ENTRY_PHYSICAL, ENTRY_COUNT),
                old: self.data.physical_count.clone(),
                new: count.clone(),
            });
            self.data.physical_count = count;
        }
        let mut list: Vec<PhysicalData> = Vec::new();
        let mut i: usize = 0;
        while i < n
            invariant
                i <= n,
                n == temperatures@.len(),
                list@.len() == i,
                forall|k: int| 0 <= k < i ==> (#[trigger] list@[k]).temperature@ == decimal(temperatures@[k] as nat),
            decreases n - i,
        {
            list.push(PhysicalData::new(temperatures[i] as i16));
            i = i + 1;
        }
        self.data.physical_list = list;
        proof {
            assert(physical_values(self.data) =~= temperatures@.map_values(|t: u8| decimal(t as nat)));
        }
        if changed {
            self.physical_ids = fresh_ids(n, inodes);
        }
        let now = format_u64(now_s);
        let t = Transition {
            kind: Kind::Update,
            field: path2(ENTRY_PHYSICAL, ENTRY_TIMESTAMP),
            old: self.data.physical_timestamp.clone(),
            new: now.clone(),
        };
        let ghost prior_stamp = out@;
        out.push(t);
        proof {
            assert(tviews(out@) =~= tviews(prior_stamp).push(tview(t)));
        }
        self.data.physical_timestamp = now;
        if changed {
            (Status::Changed(MODULE_NAME.to_owned()), out)
        } else {
            (Status::Unchanged, out)
        }
    }

    /// Applies a logical sample, then, when they could be read, the
    /// physical temperatures: the module changed shape when either side
    /// did, and the transitions of both sides come in that order.
    pub fn update(&mut self, sample: Option<LogicalSample>, temperatures: Option<Vec<u8>>, now_s: u64, inodes: &mut InodeCounter) -> (r: (Status, Vec<Transition>))
        ensures
            (r.0 is Changed) == (old(self).data.logical_list@.len() != (match sample { Some(s) => s.usages@.len(), None => old(self).data.logical_list@.len() })
                || old(self).data.physical_list@.len() != (match temperatures { Some(t) => t@.len(), None => old(self).data.physical_list@.len() })),
            r.0 is Changed ==> r.0->Changed_0@ == MODULE_NAME@,
            tviews(r.1@) == (match sample {
                Some(s) => logical_transitions(old(self).data, s, now_s),
                None => Seq::empty(),
            }) + (match temperatures {
                Some(t) => physical_transitions(old(self).data, t@, now_s),
                None => Seq::empty(),
            }),
            old(inodes).last() + 2 * ((match sample { Some(s) => s.usages@.len(), None => 0nat })
                + (match temperatures { Some(t) => t@.len(), None => 0nat })) <= u64::MAX ==> ({
                let mid = match sample {
                    Some(s) => if old(self).data.logical_list@.len() != s.usages@.len() {
                        old(inodes).last() + 2 * s.usages@.len()
                    } else {
                        old(inodes).last() as int
                    },
                    None => old(inodes).last() as int,
                };
                &&& match sample {
                    Some(s) => logical_state(*old(self), *final(self), s, now_s, old(inodes).last(), mid as u64),
                    None => logical_kept(*old(self), *final(self)),
                }
                &&& match temperatures {
                    Some(t) => physical_state(*old(self), *final(self), t@, now_s, mid as u64, final(inodes).last()),
                    None => physical_kept(*old(self), *final(self)) && final(inodes).last() == mid,
                }
            }),
    {
        let (s1, mut out) = self.update_logical(sample, now_s, inodes);
        let ghost first = out@;
        let changed_physical = match temperatures {
            Some(t) => {
                let (s2, mut more) = self.update_physical(t, now_s, inodes);
                let ghost second = more@;
                out.append(&mut more);
                proof {
                    assert(tviews(out@) =~= tviews(first) + tviews(second));
                }
                matches!(s2, Status::Changed(_))
            },
            None => {
                proof {
                    assert(tviews(out@) =~= tviews(first) + Seq::empty());
                }
                false
            },
        };
        if matches!(s1, Status::Changed(_)) || changed_physical {
            (Status::Changed(MODULE_NAME.to_owned()), out)
        } else {
            (Status::Unchanged, out)
        }
    }

    fn static_value(&self, inode: u64) -> (r: Option<String>)
        ensures
            match r {
                Some(s) => self.spec_static_value(inode) == Some(s@),
                None => self.spec_static_value(inode) is None,
            },
    {
        if inode == self.inode_logical_timestamp {
            Some(self.data.logical_timestamp.clone())
        } else if inode == self.inode_logical_count {
            Some(self.data.logical_count.clone())
        } else if inode == self.inode_physical_timestamp {
            Some(self.data.physical_timestamp.clone())
        } else if inode == self.inode_physical_count {
            Some(self.data.physical_count.clone())
        } else if inode == self.inode_logical_averrage_usage {
            Some(self.data.logical_averrage_usage.clone())
        } else {
            None
        }
    }

    /// The content of a file of fixed identifier: timestamps, counts and
    /// the average usage.
    pub open spec fn spec_static_value(&self, inode: u64) -> Option<Seq<char>> {
        if inode == self.inode_logical_timestamp {
            Some(self.data.logical_timestamp@)
        } else if inode == self.inode_logical_count {
            Some(self.data.logical_count@)
        } else if inode == self.inode_physical_timestamp {
            Some(self.data.physical_timestamp@)
        } else if inode == self.inode_physical_count {
            Some(self.data.physical_count@)
        } else if inode == self.inode_logical_averrage_usage {
            Some(self.data.logical_averrage_usage@)
        } else {
            None
        }
    }

    /// Whether `inode` is one of the identifiers given at construction.
    pub open spec fn static_owns(&self, inode: u64) -> bool {
        inode == self.inode_logical || inode == self.inode_logical_averrage
            || inode == self.inode_logical_averrage_usage || inode == self.inode_logical_count
            || inode == self.inode_logical_timestamp || inode == self.inode_physical
            || inode == self.inode_physical_count || inode == self.inode_physical_timestamp
    }

    fn per_cpu_dirs(ids: &Vec<CpuIds>, entry: &str) -> (r: Vec<FsEntry>)
        ensures
            r@.len() == ids@.len(),
            forall|k: int| 0 <= k < ids@.len() ==> {
                let e = #[trigger] r@[k];
                &&& e.inode == ids@[k].dir && e.file_type == FileType::Directory && e.mode == Mode::ReadOnly
                &&& e.name@ == decimal(k as nat)
                &&& e.fs_entries@.len() == 1
                &&& e.fs_entries@[0].inode == ids@[k].file && e.fs_entries@[0].name@ == entry@
                &&& e.fs_entries@[0].file_type == FileType::RegularFile && e.fs_entries@[0].mode == Mode::ReadOnly
                &&& e.fs_entries@[0].fs_entries@.len() == 0
            },
    {
        let mut v: Vec<FsEntry> = Vec::new();
        let mut i: usize = 0;
        while i < ids.len()
            invariant
                i <= ids@.len(),
                v@.len() == i,
                forall|k: int| 0 <= k < i ==> {
                    let e = #[trigger] v@[k];
                    &&& e.inode == ids@[k].dir && e.file_type == FileType::Directory && e.mode == Mode::ReadOnly
                    &&& e.name@ == decimal(k as nat)
                    &&& e.fs_entries@.len() == 1
                    &&& e.fs_entries@[0].inode == ids@[k].file && e.fs_entries@[0].name@ == entry@
                    &&& e.fs_entries@[0].file_type == FileType::RegularFile && e.fs_entries@[0].mode == Mode::ReadOnly
                    &&& e.fs_entries@[0].fs_entries@.len() == 0
                },
            decreases ids@.len() - i,
        {
            let mut files: Vec<FsEntry> = Vec::new();
            files.push(FsEntry::new(ids[i].file, FileType::RegularFile, entry, Mode::ReadOnly, Vec::new()));
            let name = format_u64(i as u64);
            let ghost prev = v@;
            v.push(FsEntry::new(ids[i].dir, FileType::Directory, name.as_str(), Mode::ReadOnly, files));
            proof {
                assert forall|k: int| 0 <= k < i implies #[trigger] v@[k] == prev[k] by {}
            }
            i = i + 1;
        }
        v
    }
}

/// The per-CPU directories of a side, placed from position `base` of
/// `kids`, hold exactly the per-CPU identifiers.
proof fn lemma_side_owns(kids: Seq<FsEntry>, base: int, ids: Seq<CpuIds>, x: u64)
    requires
        0 <= base,
        kids.len() == base + ids.len(),
        forall|k: int| 0 <= k < ids.len() ==> {
            let e = #[trigger] kids[base + k];
            &&& e.inode == ids[k].dir
            &&& e.fs_entries@.len() == 1 && e.fs_entries@[0].inode == ids[k].file
            &&& e.fs_entries@[0].fs_entries@.len() == 0
        },
    ensures
        ids_own(ids, x) <==> exists|m: int| base <= m < kids.len() && #[trigger] find_spec(kids[m], x) is Some,
{
    if ids_own(ids, x) {
        let k = choose|k: int| 0 <= k < ids.len() && ((#[trigger] ids[k]).dir == x || ids[k].file == x);
        let e = kids[base + k];
        lemma_find_node(e, x);
        lemma_find_leaf(e.fs_entries@[0], x);
        if e.inode != x {
            assert(find_spec(e.fs_entries@[0], x) is Some);
        }
        assert(find_spec(kids[base + k], x) is Some);
    }
    if exists|m: int| base <= m < kids.len() && #[trigger] find_spec(kids[m], x) is Some {
        let m = choose|m: int| base <= m < kids.len() && #[trigger] find_spec(kids[m], x) is Some;
        let k = m - base;
        let e = kids[base + k];
        lemma_find_node(e, x);
        lemma_find_leaf(e.fs_entries@[0], x);
        if e.inode != x {
            let j = choose|j: int| 0 <= j < e.fs_entries@.len() && #[trigger] find_spec(e.fs_entries@[j], x) is Some;
            assert(j == 0);
        }
        assert(ids[k].dir == x || ids[k].file == x);
    }
}

/// The subtree a CPU module grafts holds exactly the identifiers it owns.
proof fn lemma_cpu_entries_own(c: Cpu, r: Seq<FsEntry>, x: u64)
    requires
        c.spec_entries(r),
    ensures
        c.spec_owns(x) == (find_in_spec(r, x) is Some),
{
    let l = r[0].fs_entries@;
    let p = r[1].fs_entries@;
    lemma_find_in_any(r, x);
    lemma_find_node(r[0], x);
    lemma_find_node(r[1], x);
    lemma_find_node(l[0], x);
    lemma_find_leaf(l[0].fs_entries@[0], x);
    lemma_find_leaf(l[1], x);
    lemma_find_leaf(l[2], x);
    lemma_find_leaf(p[0], x);
    lemma_find_leaf(p[1], x);
    lemma_side_owns(l, 3, c.logical_ids@, x);
    lemma_side_owns(p, 2, c.physical_ids@, x);
    if c.spec_owns(x) {
        if x == c.inode_logical || x == c.inode_physical {
        } else if x == c.inode_logical_averrage || x == c.inode_logical_averrage_usage {
            if x == c.inode_logical_averrage_usage {
                assert(find_spec(l[0].fs_entries@[0], x) is Some);
            }
            assert(find_spec(l[0], x) is Some);
            assert(find_spec(r[0], x) is Some);
        } else if x == c.inode_logical_count {
            assert(find_spec(l[1], x) is Some);
            assert(find_spec(r[0], x) is Some);
        } else if x == c.inode_logical_timestamp {
            assert(find_spec(l[2], x) is Some);
            assert(find_spec(r[0], x) is Some);
        } else if x == c.inode_physical_count {
            assert(find_spec(p[0], x) is Some);
            assert(find_spec(r[1], x) is Some);
        } else if x == c.inode_physical_timestamp {
            assert(find_spec(p[1], x) is Some);
            assert(find_spec(r[1], x) is Some);
        } else if ids_own(c.logical_ids@, x) {
            let m = choose|m: int| 3 <= m < l.len() && #[trigger] find_spec(l[m], x) is Some;
            assert(find_spec(r[0], x) is Some);
        } else {
            let m = choose|m: int| 2 <= m < p.len() && #[trigger] find_spec(p[m], x) is Some;
            assert(find_spec(r[1], x) is Some);
        }
        assert(find_spec(r[0], x) is Some || find_spec(r[1], x) is Some);
    }
    if find_in_spec(r, x) is Some {
        let j = choose|j: int| 0 <= j < r.len() && #[trigger] find_spec(r[j], x) is Some;
        if j == 0 {
            if x != r[0].inode {
                let m = choose|m: int| 0 <= m < l.len() && #[trigger] find_spec(l[m], x) is Some;
                if m == 0 {
                    if x != l[0].inode {
                        let q = choose|q: int| 0 <= q < l[0].fs_entries@.len() && #[trigger] find_spec(l[0].fs_entries@[q], x) is Some;
                        assert(q == 0);
                    }
                } else if m >= 3 {
                    assert(ids_own(c.logical_ids@, x));
                }
            }
        } else {
            assert(j == 1);
            if x != r[1].inode {
                let m = choose|m: int| 0 <= m < p.len() && #[trigger] find_spec(p[m], x) is Some;
                if m >= 2 {
                    assert(ids_own(c.physical_ids@, x));
                }
            }
        }
    }
}

impl Module for Cpu {
    open spec fn spec_name(&self) -> Seq<char> {
        MODULE_NAME@
    }

    open spec fn spec_owns(&self, inode: u64) -> bool {
        self.static_owns(inode) || ids_own(self.logical_ids@, inode) || ids_own(self.physical_ids@, inode)
    }

    open spec fn spec_value(&self, inode: u64) -> Seq<char> {
        match self.spec_static_value(inode) {
            Some(v) => v,
            None => match per_cpu_value(self.logical_ids@, logical_values(self.data), inode) {
                Some(v) => v,
                None => match per_cpu_value(self.physical_ids@, physical_values(self.data), inode) {
                    Some(v) => v,
                    None => VALUE_UNKNOWN@,
                },
            },
        }
    }

    open spec fn spec_json(&self) -> Seq<char> {
        json_object(seq![
            json_member("logical_timestamp"@, json_string(self.data.logical_timestamp@)),
            json_member("logical_averrage_usage"@, json_string(self.data.logical_averrage_usage@)),
            json_member("logical_count"@, json_string(self.data.logical_count@)),
            json_member("logical_list"@, json_array(logical_values(self.data).map_values(
                |v: Seq<char>| json_object(seq![json_member(ENTRY_USAGE@, json_string(v))]),
            ))),
            json_member("physical_timestamp"@, json_string(self.data.physical_timestamp@)),
            json_member("physical_count"@, json_string(self.data.physical_count@)),
            json_member("physical_list"@, json_array(physical_values(self.data).map_values(
                |v: Seq<char>| json_object(seq![json_member(ENTRY_TEMPERATURE@, json_string(v))]),
            ))),
        ])
    }

    open spec fn spec_shell(&self) -> Seq<char> {
        "logical_cpu_count="@ + self.data.logical_count@ + " logical_averrage_usage="@
            + self.data.logical_averrage_usage@ + " physical_cpu_count="@ + self.data.physical_count@
            + per_cpu_shell(" logical_cpu_"@, "_usage"@, logical_values(self.data))
            + per_cpu_shell(" physical_cpu_"@, "_temperature"@, physical_values(self.data))
    }

    open spec fn spec_write(&self, inode: u64, data: Seq<u8>) -> WriteAction {
        WriteAction::Nothing
    }

    open spec fn spec_entries(&self, r: Seq<FsEntry>) -> bool {
        let l = r[0].fs_entries@;
        let p = r[1].fs_entries@;
        &&& r.len() == 2
        &&& ro_dir(r[0], self.inode_logical, ENTRY_LOGICAL@)
        &&& ro_dir(r[1], self.inode_physical, ENTRY_PHYSICAL@)
        &&& l.len() == 3 + self.logical_ids@.len()
        &&& ro_dir(l[0], self.inode_logical_averrage, ENTRY_AVERRAGE@)
        &&& l[0].fs_entries@.len() == 1
        &&& ro_file(l[0].fs_entries@[0], self.inode_logical_averrage_usage, ENTRY_USAGE@)
        &&& ro_file(l[1], self.inode_logical_count, ENTRY_COUNT@)
        &&& ro_file(l[2], self.inode_logical_timestamp, ENTRY_TIMESTAMP@)
        &&& forall|k: int| 0 <= k < self.logical_ids@.len() ==> {
            let e = #[trigger] l[3 + k];
            &&& ro_dir(e, self.logical_ids@[k].dir, decimal(k as nat))
            &&& e.fs_entries@.len() == 1
            &&& ro_file(e.fs_entries@[0], self.logical_ids@[k].file, ENTRY_USAGE@)
        }
        &&& p.len() == 2 + self.physical_ids@.len()
        &&& ro_file(p[0], self.inode_physical_count, ENTRY_COUNT@)
        &&& ro_file(p[1], self.inode_physical_timestamp, ENTRY_TIMESTAMP@)
        &&& forall|k: int| 0 <= k < self.physical_ids@.len() ==> {
            let e = #[trigger] p[2 + k];
            &&& ro_dir(e, self.physical_ids@[k].dir, decimal(k as nat))
            &&& e.fs_entries@.len() == 1
            &&& ro_file(e.fs_entries@[0], self.physical_ids@[k].file, ENTRY_TEMPERATURE@)
        }
    }

    fn name(&self) -> (r: &str) {
        MODULE_NAME
    }

    fn owns(&self, inode: u64) -> (r: bool) {
        proof {
            lemma_cpu_slot_owns(self.logical_ids@, inode);
            lemma_cpu_slot_owns(self.physical_ids@, inode);
        }
        inode == self.inode_logical || inode == self.inode_logical_averrage
            || inode == self.inode_logical_averrage_usage || inode == self.inode_logical_count
            || inode == self.inode_logical_timestamp || inode == self.inode_physical
            || inode == self.inode_physical_count || inode == self.inode_physical_timestamp
            || find_cpu(&self.logical_ids, inode).is_some() || find_cpu(&self.physical_ids, inode).is_some()
    }

    fn fs_entries(&self) -> (r: Vec<FsEntry>) {
        let mut averrage: Vec<FsEntry> = Vec::new();
        averrage.push(FsEntry::new(self.inode_logical_averrage_usage, FileType::RegularFile, ENTRY_USAGE, Mode::ReadOnly, Vec::new()));
        let mut logical: Vec<FsEntry> = Vec::new();
        logical.push(FsEntry::new(self.inode_logical_averrage, FileType::Directory, ENTRY_AVERRAGE, Mode::ReadOnly, averrage));
        logical.push(FsEntry::new(self.inode_logical_count, FileType::RegularFile, ENTRY_COUNT, Mode::ReadOnly, Vec::new()));
        logical.push(FsEntry::new(self.inode_logical_timestamp, FileType::RegularFile, ENTRY_TIMESTAMP, Mode::ReadOnly, Vec::new()));
        let mut lcpus = Cpu::per_cpu_dirs(&self.logical_ids, ENTRY_USAGE);
        let ghost lc = lcpus@;
        logical.append(&mut lcpus);
        let mut physical: Vec<FsEntry> = Vec::new();
        physical.push(FsEntry::new(self.inode_physical_count, FileType::RegularFile, ENTRY_COUNT, Mode::ReadOnly, Vec::new()));
        physical.push(FsEntry::new(self.inode_physical_timestamp, FileType::RegularFile, ENTRY_TIMESTAMP, Mode::ReadOnly, Vec::new()));
        let mut pcpus = Cpu::per_cpu_dirs(&self.physical_ids, ENTRY_TEMPERATURE);
        let ghost pc = pcpus@;
        physical.append(&mut pcpus);
        proof {
            assert forall|k: int| 0 <= k < self.logical_ids@.len() implies #[trigger] logical@[3 + k] == lc[k] by {}
            assert forall|k: int| 0 <= k < self.physical_ids@.len() implies #[trigger] physical@[2 + k] == pc[k] by {}
        }
        let mut v: Vec<FsEntry> = Vec::new();
        v.push(FsEntry::new(self.inode_logical, FileType::Directory, ENTRY_LOGICAL, Mode::ReadOnly, logical));
        v.push(FsEntry::new(self.inode_physical, FileType::Directory, ENTRY_PHYSICAL, Mode::ReadOnly, physical));
        proof {
            assert forall|x: u64| #[trigger] self.spec_owns(x) == (find_in_spec(v@, x) is Some) by {
                lemma_cpu_entries_own(*self, v@, x);
            }
        }
        v
    }

    fn value(&self, inode: u64) -> (r: String) {
        match self.static_value(inode) {
            Some(v) => return v,
            None => {},
        }
        match find_cpu(&self.logical_ids, inode) {
            Some((k, is_dir)) => {
                if !is_dir && k < self.data.logical_list.len() {
                    return self.data.logical_list[k].usage_percent.clone();
                }
                return VALUE_UNKNOWN.to_owned();
            },
            None => {},
        }
        match find_cpu(&self.physical_ids, inode) {
            Some((k, is_dir)) => {
                if !is_dir && k < self.data.physical_list.len() {
                    return self.data.physical_list[k].temperature.clone();
                }
                VALUE_UNKNOWN.to_owned()
            },
            None => VALUE_UNKNOWN.to_owned(),
        }
    }

    fn set_value(&self, inode: u64, data: &[u8]) -> (r: WriteAction) {
        WriteAction::Nothing
    }

    fn json(&self) -> (r: String) {
        let mut litems: Vec<String> = Vec::new();
        let mut i: usize = 0;
        while i < self.data.logical_list.len()
            invariant
                i <= self.data.logical_list@.len(),
                views(litems@) == logical_values(self.data).take(i as int).map_values(
                    |v: Seq<char>| json_object(seq![json_member(ENTRY_USAGE@, json_string(v))]),
                ),
            decreases self.data.logical_list@.len() - i,
        {
            let mut m: Vec<String> = Vec::new();
            m.push(string_member(ENTRY_USAGE, self.data.logical_list[i].usage_percent.as_str()));
            let o = object(&m);
            let ghost prev = litems@;
            litems.push(o);
            proof {
                assert(views(m@) =~= seq![json_member(ENTRY_USAGE@, json_string(self.data.logical_list@[i as int].usage_percent@))]);
                assert(views(litems@) =~= views(prev).push(o@));
                assert(logical_values(self.data).take(i + 1) =~= logical_values(self.data).take(i as int).push(
                    self.data.logical_list@[i as int].usage_percent@,
                ));
                assert(views(litems@) =~= logical_values(self.data).take(i + 1).map_values(
                    |v: Seq<char>| json_object(seq![json_member(ENTRY_USAGE@, json_string(v))]),
                ));
            }
            i = i + 1;
        }
        proof {
            assert(logical_values(self.data).take(i as int) =~= logical_values(self.data));
        }
        let mut pitems: Vec<String> = Vec::new();
        let mut i: usize = 0;
        while i < self.data.physical_list.len()
            invariant
                i <= self.data.physical_list@.len(),
                views(pitems@) == physical_values(self.data).take(i as int).map_values(
                    |v: Seq<char>| json_object(seq![json_member(ENTRY_TEMPERATURE@, json_string(v))]),
                ),
            decreases self.data.physical_list@.len() - i,
        {
            let mut m: Vec<String> = Vec::new();
            m.push(string_member(ENTRY_TEMPERATURE, self.data.physical_list[i].temperature.as_str()));
            let o = object(&m);
            let ghost prev = pitems@;
            pitems.push(o);
            proof {
                assert(views(m@) =~= seq![json_member(ENTRY_TEMPERATURE@, json_string(self.data.physical_list@[i as int].temperature@))]);
                assert(views(pitems@) =~= views(prev).push(o@));
                assert(physical_values(self.data).take(i + 1) =~= physical_values(self.data).take(i as int).push(
                    self.data.physical_list@[i as int].temperature@,
                ));
                assert(views(pitems@) =~= physical_values(self.data).take(i + 1).map_values(
                    |v: Seq<char>| json_object(seq![json_member(ENTRY_TEMPERATURE@, json_string(v))]),
                ));
            }
            i = i + 1;
        }
        proof {
            assert(physical_values(self.data).take(i as int) =~= physical_values(self.data));
        }
        let la = array(&litems);
        let pa = array(&pitems);
        let mut members: Vec<String> = Vec::new();
        members.push(string_member("logical_timestamp", self.data.logical_timestamp.as_str()));
        members.push(string_member("logical_averrage_usage", self.data.logical_averrage_usage.as_str()));
        members.push(string_member("logical_count", self.data.logical_count.as_str()));
        members.push(member("logical_list", la.as_str()));
        members.push(string_member("physical_timestamp", self.data.physical_timestamp.as_str()));
        members.push(string_member("physical_count", self.data.physical_count.as_str()));
        members.push(member("physical_list", pa.as_str()));
        let r = object(&members);
        proof {
            assert(views(members@) =~= seq![
                json_member("logical_timestamp"@, json_string(self.data.logical_timestamp@)),
                json_member("logical_averrage_usage"@, json_string(self.data.logical_averrage_usage@)),
                json_member("logical_count"@, json_string(self.data.logical_count@)),
                json_member("logical_list"@, json_array(logical_values(self.data).map_values(
                    |v: Seq<char>| json_object(seq![json_member(ENTRY_USAGE@, json_string(v))]),
                ))),
                json_member("physical_timestamp"@, json_string(self.data.physical_timestamp@)),
                json_member("physical_count"@, json_string(self.data.physical_count@)),
                json_member("physical_list"@, json_array(physical_values(self.data).map_values(
                    |v: Seq<char>| json_object(seq![json_member(ENTRY_TEMPERATURE@, json_string(v))]),
                ))),
            ]);
        }
        r
    }

    fn shell(&self) -> (r: String) {
        let mut out = String::from_str("logical_cpu_count=");
        out.append(self.data.logical_count.as_str());
        out.append(" logical_averrage_usage=");
        out.append(self.data.logical_averrage_usage.as_str());
        out.append(" physical_cpu_count=");
        out.append(self.data.physical_count.as_str());
        let ghost head = out@;
        let eq = "=";
        proof {
            reveal_strlit("=");
        }
        let mut i: usize = 0;
        while i < self.data.logical_list.len()
            invariant
                i <= self.data.logical_list@.len(),
                eq@ == seq!['='],
                out@ == head + per_cpu_shell(" logical_cpu_"@, "_usage"@, logical_values(self.data).take(i as int)),
            decreases self.data.logical_list@.len() - i,
        {
            proof {
                assert(logical_values(self.data).take(i + 1).drop_last() =~= logical_values(self.data).take(i as int));
            }
            out.append(" logical_cpu_");
            out.append(format_u64(i as u64).as_str());
            out.append("_usage");
            out.append(eq);
            out.append(self.data.logical_list[i].usage_percent.as_str());
            proof {
                assert(out@ =~= head + per_cpu_shell(" logical_cpu_"@, "_usage"@, logical_values(self.data).take(i + 1)));
            }
            i = i + 1;
        }
        proof {
            assert(logical_values(self.data).take(i as int) =~= logical_values(self.data));
        }
        let ghost mid = out@;
        let mut i: usize = 0;
        while i < self.data.physical_list.len()
            invariant
                i <= self.data.physical_list@.len(),
                eq@ == seq!['='],
                out@ == mid + per_cpu_shell(" physical_cpu_"@, "_temperature"@, physical_values(self.data).take(i as int)),
            decreases self.data.physical_list@.len() - i,
        {
            proof {
                assert(physical_values(self.data).take(i + 1).drop_last() =~= physical_values(self.data).take(i as int));
            }
            out.append(" physical_cpu_");
            out.append(format_u64(i as u64).as_str());
            out.append("_temperature");
            out.append(eq);
            out.append(self.data.physical_list[i].temperature.as_str());
            proof {
                assert(out@ =~= mid + per_cpu_shell(" physical_cpu_"@, "_temperature"@, physical_values(self.data).take(i + 1)));
            }
            i = i + 1;
        }
        proof {
            assert(physical_values(self.data).take(i as int) =~= physical_values(self.data));
            assert(out@ =~= self.spec_shell());
        }
        out
    }
}


} // verus!
