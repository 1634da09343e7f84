//! What every data source offers to the filesystem, and what a sampling
//! step reports.
use vstd::prelude::*;
use crate::text::str_equal;
use crate::triggers::Kind;

verus! {

/// The outcome of one sampling step.
pub enum Status {
    /// The subtree of the named module changed shape.
    Changed(String),
    Error,
    /// Nothing changed shape.
    Unchanged,
}

/// What a sampling worker does after a step.
#[derive(Debug, Clone, Copy, PartialEq, Eq, Structural)]
pub enum WorkerAction {
    /// Announce that the module changed shape, then stop.
    AnnounceAndStop,
    /// Stop: a stop was requested.
    Stop,
    /// Sleep for the interval, then sample again.
    Sleep,
}

/// The decision a worker takes after a sampling step: a shape change is
/// announced and ends the worker; otherwise a pending stop request ends it;
/// otherwise it sleeps and samples again.
pub fn next_action(status: &Status, stop_requested: bool) -> (r: WorkerAction)
    ensures
        status is Changed ==> r == WorkerAction::AnnounceAndStop,
        !(status is Changed) && stop_requested ==> r == WorkerAction::Stop,
        !(status is Changed) && !stop_requested ==> r == WorkerAction::Sleep,
{
    match status {
        Status::Changed(_) => WorkerAction::AnnounceAndStop,
        _ => if stop_requested {
            WorkerAction::Stop
        } else {
            WorkerAction::Sleep
        },
    }
}

/// What a write to a control file asks the host to do.
#[derive(Debug, Clone, Copy, PartialEq, Eq, Structural)]
pub enum WriteAction {
    Nothing,
    EmptyTrash,
}

/// A value transition of one field of a module, for the trigger engine.
pub struct Transition {
    pub kind: Kind,
    pub field: String,
    pub old: String,
    pub new: String,
}

/// The mathematical content of a transition: kind, field, old and new value.
pub open spec fn tview(t: Transition) -> (Kind, Seq<char>, Seq<char>, Seq<char>) {
    (t.kind, t.field@, t.old@, t.new@)
}

/// The views of a list of transitions.
pub open spec fn tviews(s: Seq<Transition>) -> Seq<(Kind, Seq<char>, Seq<char>, Seq<char>)> {
    s.map_values(|t: Transition| tview(t))
}

/// The transitions recorded when a field holding `old` is set to `new`:
/// one when the value differs, none otherwise.
pub open spec fn change(kind: Kind, field: Seq<char>, old: Seq<char>, new: Seq<char>) -> Seq<
    (Kind, Seq<char>, Seq<char>, Seq<char>),
> {
    if old == new {
        Seq::empty()
    } else {
        seq![(kind, field, old, new)]
    }
}

/// Sets `slot` to `new`, and records the transition in `out` when the value
/// differs.
pub fn record(out: &mut Vec<Transition>, kind: Kind, field: &str, slot: &mut String, new: String)
    ensures
        final(slot)@ == new@,
        tviews(final(out)@) == tviews(old(out)@) + change(kind, field@, old(slot)@, new@),
{
    if !str_equal(slot.as_str(), new.as_str()) {
        let previous = slot.clone();
        let t = Transition {
            kind,
            field: field.to_owned(),
            old: previous,
            new: new.clone(),
        };
        *slot = new;
        out.push(t);
        proof {
            assert(tviews(out@) =~= tviews(old(out)@) + change(kind, field@, old(slot)@, final(slot)@));
        }
    } else {
        proof {
            assert(tviews(out@) =~= tviews(old(out)@) + change(kind, field@, old(slot)@, new@));
        }
        *slot = new;
    }
}

/// A data source: a named subtree of files whose contents it supplies.
pub trait Module {
    spec fn spec_name(&self) -> Seq<char>;

    /// Whether the file with identifier `inode` is one of this module's own.
    spec fn spec_owns(&self, inode: u64) -> bool;

    /// The content of the file with identifier `inode`.
    spec fn spec_value(&self, inode: u64) -> Seq<char>;

    spec fn spec_json(&self) -> Seq<char>;

    spec fn spec_shell(&self) -> Seq<char>;

    /// What writing `data` to the file with identifier `inode` asks for.
    spec fn spec_write(&self, inode: u64, data: Seq<u8>) -> WriteAction;

    /// Whether `s` is the subtree this module grafts under its directory.
    spec fn spec_entries(&self, s: Seq<crate::fstree::FsEntry>) -> bool;

    fn name(&self) -> (r: &str)
        ensures
            r@ == self.spec_name(),
    ;

    fn owns(&self, inode: u64) -> (r: bool)
        ensures
            r == self.spec_owns(inode),
    ;

    /// The subtree to graft under the module's directory.
    fn fs_entries(&self) -> (r: Vec<crate::fstree::FsEntry>)
        ensures
            self.spec_entries(r@),
            forall|i: u64| #[trigger] self.spec_owns(i) == (crate::fstree::find_in_spec(r@, i) is Some),
    ;

    fn value(&self, inode: u64) -> (r: String)
        ensures
            r@ == self.spec_value(inode),
    ;

    fn set_value(&self, inode: u64, data: &[u8]) -> (r: WriteAction)
        ensures
            r == self.spec_write(inode, data@),
    ;

    /// The whole module as a JSON object.
    fn json(&self) -> (r: String)
        ensures
            r@ == self.spec_json(),
    ;

    /// The whole module as `key=value` pairs.
    fn shell(&self) -> (r: String)
        ensures
            r@ == self.spec_shell(),
    ;
}

} // verus!
