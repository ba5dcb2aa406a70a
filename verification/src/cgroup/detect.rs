//! Detection of cgroups.
//!
//! A detector remembers the cgroups that it has reported, so that each of them is
//! reported once. Watching the filesystem is the embedding program's part: it hands in
//! the cgroups that it has seen.

use crate::cgroup::hierarchy::{Cgroup, CgroupView};
use rustc_hash::{FxBuildHasher, FxHashSet};
use std::collections::HashSet;
use vstd::prelude::*;

verus! {

/// The hasher of the set of known cgroups.
#[verifier::external_type_specification]
#[verifier::external_body]
pub struct ExFxBuildHasher(FxBuildHasher);

/// The paths that a set of known cgroups holds.
pub uninterp spec fn known_paths(set: HashSet<String, FxBuildHasher>) -> Set<Seq<char>>;

/// Calls `HashSet::with_capacity_and_hasher` with the hasher `FxBuildHasher` of
/// `rustc_hash`. The set is empty; the capacity only sizes the allocation.
#[verifier::external_body]
fn known_with_capacity(capacity: usize) -> (set: HashSet<String, FxBuildHasher>)
    ensures
        known_paths(set) == Set::<Seq<char>>::empty(),
{
    FxHashSet::with_capacity_and_hasher(capacity, FxBuildHasher)
}

/// Calls `HashSet::insert` on a set hashed by `rustc_hash`. The path is in the set
/// afterwards, nothing else changes, and the result tells whether it was not there.
#[verifier::external_body]
fn known_insert(set: &mut HashSet<String, FxBuildHasher>, path: String) -> (fresh: bool)
    ensures
        known_paths(*final(set)) == known_paths(*old(set)).insert(path@),
        fresh == !known_paths(*old(set)).contains(path@),
{
    set.insert(path)
}

/// Calls `HashSet::contains` on a set hashed by `rustc_hash`.
#[verifier::external_body]
fn known_contains(set: &HashSet<String, FxBuildHasher>, path: &str) -> (b: bool)
    ensures
        b == known_paths(*set).contains(path@),
{
    set.contains(path)
}

/// Calls `HashSet::remove` on a set hashed by `rustc_hash`. The path is not in the set
/// afterwards, nothing else changes, and the result tells whether it was there.
#[verifier::external_body]
fn known_remove(set: &mut HashSet<String, FxBuildHasher>, path: &str) -> (present: bool)
    ensures
        known_paths(*final(set)) == known_paths(*old(set)).remove(path@),
        present == known_paths(*old(set)).contains(path@),
{
    set.remove(path)
}

/// What a detector calls when something happens.
pub trait CgroupCallback: Sized {
    /// What being told of a new cgroup may do to the callback: it turns `self` into
    /// `after`. A callback that does not say more may do anything.
    open spec fn may_report(&self, cgroup: CgroupView, after: &Self) -> bool {
        true
    }

    /// What being told of an error may do to the callback.
    open spec fn may_fail(&self, err: Seq<char>, after: &Self) -> bool {
        true
    }

    /// A cgroup was seen for the first time.
    fn on_new_cgroup(&mut self, cgroup: Cgroup)
        ensures
            old(self).may_report(cgroup@, final(self)),
    ;

    /// The detection met an error.
    fn on_error(&mut self, err: String)
        ensures
            old(self).may_fail(err@, final(self)),
    ;
}

/// The room that a new set of known cgroups is made with.
pub const INITIAL_CAPACITY: usize = 128;

/// The state of a detector: the cgroups that it knows, and whom to tell of new ones.
pub struct DetectorState<C: CgroupCallback> {
    /// A set of known cgroups, to avoid detecting the same group multiple times.
    known_cgroups: HashSet<String, FxBuildHasher>,
    /// Callbacks that handle detection events.
    callbacks: C,
}

/// The known paths after the cgroups with the paths `paths` were registered.
pub open spec fn known_after(known: Set<Seq<char>>, paths: Seq<Seq<char>>) -> Set<Seq<char>>
    decreases paths.len(),
{
    if paths.len() == 0 {
        known
    } else {
        known_after(known, paths.drop_last()).insert(paths.last())
    }
}

/// The number of cgroups among `paths` that are new to `known` when they are
/// registered in their order.
pub open spec fn new_among(known: Set<Seq<char>>, paths: Seq<Seq<char>>) -> nat
    decreases paths.len(),
{
    if paths.len() == 0 {
        0
    } else {
        let before = new_among(known, paths.drop_last());
        if known_after(known, paths.drop_last()).contains(paths.last()) {
            before
        } else {
            before + 1
        }
    }
}

/// The cgroups of a sequence, each by its mathematical value.
pub open spec fn cgroup_views(cgroups: Seq<Cgroup>) -> Seq<CgroupView> {
    Seq::new(cgroups.len(), |i: int| cgroups[i]@)
}

/// The paths of cgroups in their hierarchy.
pub open spec fn cgroup_paths(cgroups: Seq<Cgroup>) -> Seq<Seq<char>> {
    Seq::new(cgroups.len(), |i: int| cgroups[i]@.cgroup_path)
}

/// Whether the first `upto` of the cgroups were registered with a detector that knew
/// `known`: `stages[i]` is the callback before the cgroup at position `i` and
/// `stages[i + 1]` the callback after it. A cgroup that was not known at its turn was
/// reported to the callback; for one that was known the callback was left alone.
pub open spec fn reported_upto<C: CgroupCallback>(
    known: Set<Seq<char>>,
    cgroups: Seq<Cgroup>,
    stages: Seq<C>,
    upto: int,
) -> bool {
    &&& stages.len() == upto + 1
    &&& forall|i: int|
        #![trigger stages[i]]
        0 <= i < upto ==> if known_after(known, cgroup_paths(cgroups).take(i)).contains(
            cgroups[i]@.cgroup_path,
        ) {
            stages[i + 1] == stages[i]
        } else {
            stages[i].may_report(cgroups[i]@, &stages[i + 1])
        }
}

/// A path is known after a registration iff it was known before or is among the paths
/// that were registered.
pub proof fn lemma_known_after(known: Set<Seq<char>>, paths: Seq<Seq<char>>, path: Seq<char>)
    ensures
        known_after(known, paths).contains(path) <==> known.contains(path) || paths.contains(path),
    decreases paths.len(),
{
    if paths.len() > 0 {
        let init = paths.drop_last();
        lemma_known_after(known, init, path);
        if init.contains(path) {
            let i = choose|i: int| 0 <= i < init.len() && init[i] == path;
            assert(paths[i] == path);
        }
        if paths.contains(path) {
            let i = choose|i: int| 0 <= i < paths.len() && paths[i] == path;
            if i < init.len() {
                assert(init[i] == path);
            }
        }
    }
}

impl<C: CgroupCallback> DetectorState<C> {
    /// The paths of the cgroups that the detector knows.
    pub closed spec fn known(&self) -> Set<Seq<char>> {
        known_paths(self.known_cgroups)
    }

    /// The callback of the detector.
    pub closed spec fn callbacks(&self) -> C {
        self.callbacks
    }

    /// A detector that knows no cgroup.
    pub fn new(callbacks: C) -> (s: Self)
        ensures
            s.known() == Set::<Seq<char>>::empty(),
            s.callbacks() == callbacks,
    {
        DetectorState { known_cgroups: known_with_capacity(INITIAL_CAPACITY), callbacks }
    }

    /// Whether the cgroup with this path in its hierarchy is known.
    pub fn is_known(&self, cgroup: &str) -> (b: bool)
        ensures
            b == self.known().contains(cgroup@),
    {
        known_contains(&self.known_cgroups, cgroup)
    }

    /// Forgets a cgroup, so that it is reported again when it is seen again. Tells
    /// whether it was known.
    pub fn forget(&mut self, cgroup: &str) -> (b: bool)
        ensures
            b == old(self).known().contains(cgroup@),
            final(self).known() == old(self).known().remove(cgroup@),
            final(self).callbacks() == old(self).callbacks(),
    {
        known_remove(&mut self.known_cgroups, cgroup)
    }

    /// Registers cgroups that were seen, in their order, and reports those that were
    /// not known to the callback. Gives the number of cgroups reported.
    pub fn register_cgroups(&mut self, cgroups: Vec<Cgroup>) -> (reported: usize)
        ensures
            final(self).known() == known_after(old(self).known(), cgroup_paths(cgroups@)),
            reported == new_among(old(self).known(), cgroup_paths(cgroups@)),
            exists|stages: Seq<C>|
                {
                    &&& #[trigger] reported_upto(
                        old(self).known(),
                        cgroups@,
                        stages,
                        cgroups@.len() as int,
                    )
                    &&& stages[0] == old(self).callbacks()
                    &&& stages[cgroups@.len() as int] == final(self).callbacks()
                },
    {
        let ghost all = cgroups@;
        let ghost paths = cgroup_paths(cgroups@);
        let ghost known = self.known();
        let n = cgroups.len();
        let mut rest = cgroups;
        let mut later: Vec<Cgroup> = Vec::new();
        while rest.len() > 0
            invariant
                rest.len() + later.len() == n,
                n == all.len(),
                forall|k: int| 0 <= k < rest.len() ==> (#[trigger] rest[k])@ == all[k]@,
                forall|k: int| 0 <= k < later.len() ==> (#[trigger] later[k])@ == all[n - 1 - k]@,
            decreases rest.len(),
        {
            let c = rest.pop().unwrap();
            later.push(c);
        }
        let mut reported: usize = 0;
        let mut i: usize = 0;
        let ghost mut stages: Seq<C> = seq![self.callbacks];
        assert(paths.take(0) =~= Seq::<Seq<char>>::empty());
        while i < n
            invariant
                i <= n,
                n == all.len(),
                all == cgroups@,
                paths == cgroup_paths(all),
                known == old(self).known(),
                later.len() == n - i,
                forall|k: int| 0 <= k < later.len() ==> (#[trigger] later[k])@ == all[n - 1 - k]@,
                self.known() == known_after(known, paths.take(i as int)),
                reported == new_among(known, paths.take(i as int)),
                reported <= i,
                reported_upto(known, all, stages, i as int),
                stages[0] == old(self).callbacks(),
                stages[i as int] == self.callbacks(),
            decreases n - i,
        {
            let cgroup = later.pop().unwrap();
            proof {
                assert(paths.take(i + 1).drop_last() =~= paths.take(i as int));
                assert(paths.take(i + 1).last() == paths[i as int]);
                assert(cgroup@ == all[i as int]@);
            }
            let ghost earlier = stages;
            if known_insert(&mut self.known_cgroups, cgroup.cgroup_path().to_owned()) {
                // the set did not contain the value: this is a new cgroup
                self.callbacks.on_new_cgroup(cgroup);
                reported = reported + 1;
            }
            proof {
                stages = stages.push(self.callbacks);
                assert forall|k: int| #![trigger stages[k]] 0 <= k < i + 1 implies if known_after(
                    known,
                    cgroup_paths(all).take(k),
                ).contains(all[k]@.cgroup_path) {
                    stages[k + 1] == stages[k]
                } else {
                    stages[k].may_report(all[k]@, &stages[k + 1])
                } by {
                    if k < i {
                        assert(earlier[k] == stages[k] && earlier[k + 1] == stages[k + 1]);
                    }
                }
            }
            i = i + 1;
        }
        assert(paths.take(n as int) =~= paths);
        reported
    }

    /// Reports an error of the detection to the callback.
    pub fn propagate_error(&mut self, err: String)
        ensures
            final(self).known() == old(self).known(),
            old(self).callbacks().may_fail(err@, &final(self).callbacks()),
    {
        self.callbacks.on_error(err);
    }
}

} // verus!
