//! The debounce tracker: which files have settled and are due for the rules.
//!
//! A file is handed to the rules once it was found unchanged in enough scans in a row,
//! and not again before it changes. A file that is still being written changes from scan
//! to scan and is left alone; so is a file that an action left in place.

use vstd::prelude::*;

verus! {

/// The stability threshold that is used where none is configured: two identical scans
/// in a row.
pub const DEFAULT_STABILITY_THRESHOLD: u64 = 2;

/// After how many scans in a row without a path the tracker forgets it.
pub const MISSED_SCANS_LIMIT: u64 = 2;

/// What a scan sees of a file, and by which a change of the file is noticed.
#[derive(Debug, Clone, Copy, PartialEq, Eq, Structural)]
pub struct Signature {
    pub size: u64,
    pub modified: u64,
}

/// What the tracker knows of one path.
#[derive(Debug, Clone, Copy, PartialEq, Eq, Structural)]
pub struct PathState {
    /// The signature that the last scan found.
    pub signature: Signature,
    /// How many scans in a row, after the one that first found this signature, found it
    /// again.
    pub stable_scans: u64,
    /// When the file was handed to the rules with this signature, if it was.
    pub last_action: Option<u64>,
    /// How many scans in a row did not list the path.
    pub missed_scans: u64,
}

/// One more than `n`, where the counter has room for it.
pub open spec fn bump(n: u64) -> u64 {
    if n < u64::MAX {
        (n + 1) as u64
    } else {
        n
    }
}

/// The state of a path whose signature is new to the tracker.
pub open spec fn fresh(sig: Signature) -> PathState {
    PathState { signature: sig, stable_scans: 0, last_action: None, missed_scans: 0 }
}

/// Whether a scan that finds `sig` again makes the file due for the rules: it was not
/// handed to them with this signature yet, and the scans in a row that found the
/// signature, this one included, reach the threshold.
pub open spec fn becomes_eligible(prev: PathState, threshold: u64) -> bool {
    prev.last_action is None && bump(prev.stable_scans) + 1 >= threshold
}

/// The state of a path after a scan at time `now` found it with signature `sig`, and
/// whether the file is due for the rules.
pub open spec fn observe_spec(prev: Option<PathState>, sig: Signature, threshold: u64, now: u64) -> (
    PathState,
    bool,
) {
    match prev {
        Some(s) => if s.signature == sig {
            let eligible = becomes_eligible(s, threshold);
            (
                PathState {
                    signature: sig,
                    stable_scans: bump(s.stable_scans),
                    last_action: if eligible {
                        Some(now)
                    } else {
                        s.last_action
                    },
                    missed_scans: 0,
                },
                eligible,
            )
        } else {
            (fresh(sig), false)
        },
        None => (fresh(sig), false),
    }
}

/// How often the file is handed to the rules in the course of the given scans, each a
/// signature and the time at which it was found.
pub open spec fn dispatches(prev: Option<PathState>, scans: Seq<(Signature, u64)>, threshold: u64) -> nat
    decreases scans.len(),
{
    if scans.len() == 0 {
        0
    } else {
        let (next, eligible) = observe_spec(prev, scans[0].0, threshold, scans[0].1);
        let rest = dispatches(Some(next), scans.skip(1), threshold);
        if eligible {
            rest + 1
        } else {
            rest
        }
    }
}

/// Whether each scan finds another signature than the scan before it.
pub open spec fn always_changing(prev: Option<PathState>, scans: Seq<(Signature, u64)>) -> bool {
    &&& scans.len() > 0 && prev is Some ==> prev->0.signature != scans[0].0
    &&& forall|i: int| 0 < i < scans.len() ==> (#[trigger] scans[i]).0 != scans[i - 1].0
}

/// Whether every scan finds the signature `sig`.
pub open spec fn all_same(scans: Seq<(Signature, u64)>, sig: Signature) -> bool {
    forall|i: int| 0 <= i < scans.len() ==> (#[trigger] scans[i]).0 == sig
}

/// The state that one scan leaves, and whether the file is due for the rules.
pub fn observe_state(prev: Option<PathState>, sig: Signature, threshold: u64, now: u64) -> (r: (
    PathState,
    bool,
))
    ensures
        r == observe_spec(prev, sig, threshold, now),
{
    match prev {
        Some(s) => {
            if s.signature == sig {
                let stable = if s.stable_scans < u64::MAX {
                    s.stable_scans + 1
                } else {
                    s.stable_scans
                };
                let eligible = s.last_action.is_none() && (threshold == 0 || stable >= threshold
                    - 1);
                let last_action = if eligible {
                    Some(now)
                } else {
                    s.last_action
                };
                (
                    PathState { signature: sig, stable_scans: stable, last_action, missed_scans: 0 },
                    eligible,
                )
            } else {
                (
                    PathState {
                        signature: sig,
                        stable_scans: 0,
                        last_action: None,
                        missed_scans: 0,
                    },
                    false,
                )
            }
        },
        None => (
            PathState { signature: sig, stable_scans: 0, last_action: None, missed_scans: 0 },
            false,
        ),
    }
}

/// The scans that missed a path do not count: a scan finds of the file what it would have
/// found without them.
pub proof fn lemma_missed_scans_do_not_count(
    state: PathState,
    missed: u64,
    sig: Signature,
    threshold: u64,
    now: u64,
)
    ensures
        observe_spec(
            Some(
                PathState {
                    signature: state.signature,
                    stable_scans: state.stable_scans,
                    last_action: state.last_action,
                    missed_scans: missed,
                },
            ),
            sig,
            threshold,
            now,
        ) == observe_spec(Some(state), sig, threshold, now),
{
}

/// A file whose signature changes from every scan to the next is never handed to the
/// rules, whatever the threshold.
pub proof fn lemma_changing_file_never_dispatched(
    prev: Option<PathState>,
    scans: Seq<(Signature, u64)>,
    threshold: u64,
)
    requires
        always_changing(prev, scans),
    ensures
        dispatches(prev, scans, threshold) == 0,
    decreases scans.len(),
{
    if scans.len() > 0 {
        let (next, eligible) = observe_spec(prev, scans[0].0, threshold, scans[0].1);
        let rest = scans.skip(1);
        assert(next.signature == scans[0].0);
        assert forall|i: int| 0 < i < rest.len() implies (#[trigger] rest[i]).0 != rest[i - 1].0 by {
            assert(rest[i] == scans[i + 1]);
            assert(rest[i - 1] == scans[i]);
        }
        if rest.len() > 0 {
            assert(rest[0] == scans[1]);
        }
        lemma_changing_file_never_dispatched(Some(next), rest, threshold);
    }
}

/// A file that was handed to the rules is not handed to them again while its signature
/// stays the same.
pub proof fn lemma_dispatched_file_rests(
    state: PathState,
    scans: Seq<(Signature, u64)>,
    threshold: u64,
)
    requires
        state.last_action is Some,
        all_same(scans, state.signature),
    ensures
        dispatches(Some(state), scans, threshold) == 0,
    decreases scans.len(),
{
    if scans.len() > 0 {
        let (next, eligible) = observe_spec(Some(state), scans[0].0, threshold, scans[0].1);
        let rest = scans.skip(1);
        assert(scans[0].0 == state.signature);
        assert forall|i: int| 0 <= i < rest.len() implies (#[trigger] rest[i]).0
            == next.signature by {
            assert(rest[i] == scans[i + 1]);
        }
        lemma_dispatched_file_rests(next, rest, threshold);
    }
}

/// A file that waits to settle is handed to the rules exactly once in the course of
/// scans that find it unchanged, if they are enough to reach the threshold, and not at all
/// if they are not.
pub proof fn lemma_settling_file_dispatched_once(
    state: PathState,
    scans: Seq<(Signature, u64)>,
    threshold: u64,
)
    requires
        state.last_action is None,
        all_same(scans, state.signature),
    ensures
        dispatches(Some(state), scans, threshold) == (if scans.len() > 0 && state.stable_scans
            + scans.len() + 1 >= threshold {
            1nat
        } else {
            0nat
        }),
    decreases scans.len(),
{
    if scans.len() > 0 {
        let (next, eligible) = observe_spec(Some(state), scans[0].0, threshold, scans[0].1);
        let rest = scans.skip(1);
        assert(scans[0].0 == state.signature);
        assert forall|i: int| 0 <= i < rest.len() implies (#[trigger] rest[i]).0
            == next.signature by {
            assert(rest[i] == scans[i + 1]);
        }
        if eligible {
            lemma_dispatched_file_rests(next, rest, threshold);
        } else {
            lemma_settling_file_dispatched_once(next, rest, threshold);
        }
    }
}

/// A file that is found with a new signature and then unchanged in every scan is handed
/// to the rules exactly once as soon as the scans in a row that found the signature reach
/// the threshold, and at least two; however many scans follow, it is not handed to them
/// again. With the default threshold, two identical scans are enough.
pub proof fn lemma_stable_file_dispatched_once(
    prev: Option<PathState>,
    scans: Seq<(Signature, u64)>,
    sig: Signature,
    threshold: u64,
)
    requires
        prev is Some ==> prev->0.signature != sig,
        all_same(scans, sig),
        scans.len() >= 2,
        scans.len() >= threshold,
    ensures
        dispatches(prev, scans, threshold) == 1,
{
    let (next, eligible) = observe_spec(prev, scans[0].0, threshold, scans[0].1);
    let rest = scans.skip(1);
    assert(scans[0].0 == sig);
    assert(next == fresh(sig));
    assert forall|i: int| 0 <= i < rest.len() implies (#[trigger] rest[i]).0 == next.signature by {
        assert(rest[i] == scans[i + 1]);
    }
    lemma_settling_file_dispatched_once(next, rest, threshold);
}

/// A path and what the tracker knows of it.
#[derive(Debug, Clone)]
pub struct TrackedPath {
    pub path: String,
    pub state: PathState,
}

/// Whether the tracker keeps the path at the end of a scan: it was missed by fewer scans
/// in a row than the limit.
pub open spec fn survives_scan(state: PathState) -> bool {
    state.missed_scans < MISSED_SCANS_LIMIT
}

/// What the start of a scan makes of the state of a path: one more scan that has not
/// listed it. The scan sets the count back to none when it lists the path.
pub open spec fn aged(state: PathState) -> PathState {
    PathState {
        signature: state.signature,
        stable_scans: state.stable_scans,
        last_action: state.last_action,
        missed_scans: bump(state.missed_scans),
    }
}

/// The place of `path` among the tracked paths, if it is tracked.
pub open spec fn place_of(entries: Seq<TrackedPath>, path: Seq<char>) -> Option<int> {
    if exists|i: int| 0 <= i < entries.len() && (#[trigger] entries[i]).path@ == path {
        Some(choose|i: int| 0 <= i < entries.len() && (#[trigger] entries[i]).path@ == path)
    } else {
        None
    }
}

/// Whether no path is tracked twice.
pub open spec fn paths_distinct(entries: Seq<TrackedPath>) -> bool {
    forall|i: int, j: int|
        0 <= i < j < entries.len() ==> (#[trigger] entries[i]).path@ != (#[trigger] entries[j]).path@
}

/// The states of the tracked paths, by path.
pub open spec fn states_of(entries: Seq<TrackedPath>) -> Map<Seq<char>, PathState> {
    Map::new(
        |p: Seq<char>| place_of(entries, p) is Some,
        |p: Seq<char>| entries[place_of(entries, p)->0].state,
    )
}

proof fn lemma_place_of(entries: Seq<TrackedPath>, i: int)
    requires
        paths_distinct(entries),
        0 <= i < entries.len(),
    ensures
        place_of(entries, entries[i].path@) == Some(i),
        states_of(entries).contains_key(entries[i].path@),
        states_of(entries)[entries[i].path@] == entries[i].state,
{
    let p = entries[i].path@;
    let k = choose|k: int| 0 <= k < entries.len() && (#[trigger] entries[k]).path@ == p;
    if k < i {
        assert(entries[k].path@ != entries[i].path@);
    } else if i < k {
        assert(entries[i].path@ != entries[k].path@);
    }
}

/// The files under watch and what the scans found of them.
#[derive(Debug, Clone)]
pub struct Tracker {
    entries: Vec<TrackedPath>,
    threshold: u64,
}

impl View for Tracker {
    type V = Map<Seq<char>, PathState>;

    closed spec fn view(&self) -> Map<Seq<char>, PathState> {
        states_of(self.entries@)
    }
}

impl Tracker {
    /// What holds of every tracker: no path is tracked twice.
    pub closed spec fn wf(&self) -> bool {
        paths_distinct(self.entries@)
    }

    /// How many scans in a row must find a file unchanged before it is due.
    pub closed spec fn threshold(&self) -> u64 {
        self.threshold
    }

    /// A tracker that knows no path yet.
    pub fn new(threshold: u64) -> (t: Tracker)
        ensures
            t.wf(),
            t@ == Map::<Seq<char>, PathState>::empty(),
            t.threshold() == threshold,
    {
        let t = Tracker { entries: Vec::new(), threshold };
        assert(t@ =~= Map::<Seq<char>, PathState>::empty());
        t
    }

    /// The number of tracked paths.
    pub fn len(&self) -> (n: usize)
        requires
            self.wf(),
        ensures
            n == self@.dom().len(),
            self@.dom().finite(),
    {
        proof {
            lemma_domain_size(self.entries@);
        }
        self.entries.len()
    }

    fn find(&self, path: &String) -> (r: Option<usize>)
        requires
            self.wf(),
        ensures
            match r {
                Some(i) => i < self.entries@.len() && place_of(self.entries@, path@) == Some(
                    i as int,
                ),
                None => place_of(self.entries@, path@) is None,
            },
    {
        let mut i: usize = 0;
        while i < self.entries.len()
            invariant
                i <= self.entries@.len(),
                self.wf(),
                forall|k: int| 0 <= k < i ==> (#[trigger] self.entries@[k]).path@ != path@,
            decreases self.entries@.len() - i,
        {
            if self.entries[i].path == *path {
                proof {
                    lemma_place_of(self.entries@, i as int);
                }
                return Some(i);
            }
            i += 1;
        }
        None
    }

    /// What the tracker knows of `path`.
    pub fn state_of(&self, path: &str) -> (r: Option<PathState>)
        requires
            self.wf(),
        ensures
            r == (if self@.contains_key(path@) {
                Some(self@[path@])
            } else {
                None
            }),
    {
        let key = path.to_owned();
        match self.find(&key) {
            Some(i) => Some(self.entries[i].state),
            None => None,
        }
    }

    /// Records that a scan at time `now` found `path` with signature `sig`, and returns
    /// whether the file is now due for the rules. A file that is due is marked as handed
    /// over at `now`, and is not due again before its signature changes.
    pub fn observe(&mut self, path: &str, sig: Signature, now: u64) -> (eligible: bool)
        requires
            old(self).wf(),
        ensures
            final(self).wf(),
            final(self).threshold() == old(self).threshold(),
            final(self)@ == old(self)@.insert(
                path@,
                observe_spec(old(self).state_of_spec(path@), sig, old(self).threshold(), now).0,
            ),
            eligible == observe_spec(
                old(self).state_of_spec(path@),
                sig,
                old(self).threshold(),
                now,
            ).1,
    {
        let key = path.to_owned();
        let ghost before = self.entries@;
        match self.find(&key) {
            Some(i) => {
                let prev = self.entries[i].state;
                let (next, eligible) = observe_state(Some(prev), sig, self.threshold, now);
                self.entries.set(i, TrackedPath { path: key, state: next });
                proof {
                    let after = self.entries@;
                    assert forall|a: int, b: int| 0 <= a < b < after.len() implies (
                    #[trigger] after[a]).path@ != (#[trigger] after[b]).path@ by {
                        assert(after[a].path@ == before[a].path@);
                        assert(after[b].path@ == before[b].path@);
                    }
                    lemma_place_of(before, i as int);
                    assert forall|q: Seq<char>| place_of(after, q) == place_of(before, q) by {
                        if exists|k: int| 0 <= k < before.len() && (#[trigger] before[k]).path@
                            == q {
                            let k = choose|k: int|
                                0 <= k < before.len() && (#[trigger] before[k]).path@ == q;
                            lemma_place_of(before, k);
                            assert(after[k].path@ == q);
                            lemma_place_of(after, k);
                        } else {
                            assert forall|k: int| 0 <= k < after.len() implies (
                            #[trigger] after[k]).path@ != q by {
                                assert(after[k].path@ == before[k].path@);
                            }
                        }
                    }
                    assert(states_of(after) =~= states_of(before).insert(path@, next));
                }
                eligible
            },
            None => {
                let (next, eligible) = observe_state(None, sig, self.threshold, now);
                self.entries.push(TrackedPath { path: key, state: next });
                proof {
                    let after = self.entries@;
                    let last = before.len() as int;
                    assert forall|a: int, b: int| 0 <= a < b < after.len() implies (
                    #[trigger] after[a]).path@ != (#[trigger] after[b]).path@ by {
                        assert(after[a] == before[a]);
                        if b < last {
                            assert(after[b] == before[b]);
                        }
                    }
                    lemma_place_of(after, last);
                    assert forall|q: Seq<char>| q != path@ implies place_of(after, q)
                        == place_of(before, q) by {
                        if exists|k: int| 0 <= k < before.len() && (#[trigger] before[k]).path@
                            == q {
                            let k = choose|k: int|
                                0 <= k < before.len() && (#[trigger] before[k]).path@ == q;
                            lemma_place_of(before, k);
                            assert(after[k] == before[k]);
                            lemma_place_of(after, k);
                        } else {
                            assert forall|k: int| 0 <= k < after.len() implies (
                            #[trigger] after[k]).path@ != q by {
                                if k < last {
                                    assert(after[k] == before[k]);
                                }
                            }
                        }
                    }
                    assert forall|q: Seq<char>| q != path@ && place_of(before, q) is Some implies
                        after[place_of(before, q)->0] == before[place_of(before, q)->0] by {}
                    assert(states_of(after) =~= states_of(before).insert(path@, next));
                }
                eligible
            },
        }
    }

    /// What the tracker knows of a path, if it tracks it.
    pub open spec fn state_of_spec(&self, path: Seq<char>) -> Option<PathState> {
        if self@.contains_key(path) {
            Some(self@[path])
        } else {
            None
        }
    }

    /// Stops tracking `path`, as after an action that took the file away. Returns whether
    /// the path was tracked.
    pub fn forget(&mut self, path: &str) -> (known: bool)
        requires
            old(self).wf(),
        ensures
            final(self).wf(),
            final(self).threshold() == old(self).threshold(),
            final(self)@ == old(self)@.remove(path@),
            known == old(self)@.contains_key(path@),
    {
        let key = path.to_owned();
        let ghost before = self.entries@;
        match self.find(&key) {
            Some(i) => {
                self.entries.remove(i);
                proof {
                    let after = self.entries@;
                    lemma_place_of(before, i as int);
                    assert forall|a: int, b: int| 0 <= a < b < after.len() implies (
                    #[trigger] after[a]).path@ != (#[trigger] after[b]).path@ by {
                        let a0 = if a < i { a } else { a + 1 };
                        let b0 = if b < i { b } else { b + 1 };
                        assert(after[a] == before[a0]);
                        assert(after[b] == before[b0]);
                    }
                    assert forall|q: Seq<char>| q != path@ implies (place_of(after, q) is Some
                        <==> place_of(before, q) is Some) && (place_of(after, q) is Some
                        ==> after[place_of(after, q)->0] == before[place_of(before, q)->0]) by {
                        if exists|k: int| 0 <= k < before.len() && (#[trigger] before[k]).path@
                            == q {
                            let k = choose|k: int|
                                0 <= k < before.len() && (#[trigger] before[k]).path@ == q;
                            lemma_place_of(before, k);
                            let k1 = if k < i { k } else { k - 1 };
                            assert(after[k1] == before[k]);
                            lemma_place_of(after, k1);
                        } else {
                            assert forall|k: int| 0 <= k < after.len() implies (
                            #[trigger] after[k]).path@ != q by {
                                let k0 = if k < i { k } else { k + 1 };
                                assert(after[k] == before[k0]);
                            }
                        }
                    }
                    assert forall|k: int| 0 <= k < after.len() implies (#[trigger] after[k]).path@
                        != path@ by {
                        let k0 = if k < i { k } else { k + 1 };
                        assert(after[k] == before[k0]);
                        assert(before[k0].path@ != before[i as int].path@);
                    }
                    assert(states_of(after) =~= states_of(before).remove(path@));
                }
                true
            },
            None => {
                assert(states_of(before) =~= states_of(before).remove(path@));
                false
            },
        }
    }
}

/// The states of all paths at the start of a scan.
pub open spec fn at_scan_start(states: Map<Seq<char>, PathState>) -> Map<Seq<char>, PathState> {
    Map::new(|p: Seq<char>| states.contains_key(p), |p: Seq<char>| aged(states[p]))
}

/// The states that are left at the end of a scan.
pub open spec fn at_scan_end(states: Map<Seq<char>, PathState>) -> Map<Seq<char>, PathState> {
    Map::new(
        |p: Seq<char>| states.contains_key(p) && survives_scan(states[p]),
        |p: Seq<char>| states[p],
    )
}

proof fn lemma_same_paths(before: Seq<TrackedPath>, after: Seq<TrackedPath>)
    requires
        paths_distinct(before),
        after.len() == before.len(),
        forall|k: int| 0 <= k < before.len() ==> (#[trigger] after[k]).path@ == before[k].path@,
    ensures
        paths_distinct(after),
        forall|q: Seq<char>| place_of(after, q) == place_of(before, q),
{
    assert forall|a: int, b: int| 0 <= a < b < after.len() implies (#[trigger] after[a]).path@ != (
    #[trigger] after[b]).path@ by {
        assert(before[a].path@ != before[b].path@);
    }
    assert forall|q: Seq<char>| place_of(after, q) == place_of(before, q) by {
        if exists|k: int| 0 <= k < before.len() && (#[trigger] before[k]).path@ == q {
            let k = choose|k: int| 0 <= k < before.len() && (#[trigger] before[k]).path@ == q;
            lemma_place_of(before, k);
            assert(after[k].path@ == q);
            lemma_place_of(after, k);
        } else {
            assert forall|k: int| 0 <= k < after.len() implies (#[trigger] after[k]).path@ != q by {
                assert(after[k].path@ == before[k].path@);
            }
        }
    }
}

impl Tracker {
    /// Starts a scan: every path has one more scan against it that has not listed it, until
    /// `observe` finds it.
    pub fn begin_scan(&mut self)
        requires
            old(self).wf(),
        ensures
            final(self).wf(),
            final(self).threshold() == old(self).threshold(),
            final(self)@ == at_scan_start(old(self)@),
    {
        let ghost before = self.entries@;
        let mut i: usize = 0;
        while i < self.entries.len()
            invariant
                i <= self.entries@.len(),
                self.entries@.len() == before.len(),
                self.threshold == old(self).threshold,
                forall|k: int|
                    0 <= k < before.len() ==> (#[trigger] self.entries@[k]).path@ == before[k].path@,
                forall|k: int|
                    0 <= k < i ==> (#[trigger] self.entries@[k]).state == aged(before[k].state),
                forall|k: int|
                    i <= k < before.len() ==> (#[trigger] self.entries@[k]).state == before[k].state,
            decreases self.entries@.len() - i,
        {
            let state = self.entries[i].state;
            let missed = if state.missed_scans < u64::MAX {
                state.missed_scans + 1
            } else {
                state.missed_scans
            };
            let path = self.entries[i].path.clone();
            self.entries.set(
                i,
                TrackedPath {
                    path,
                    state: PathState {
                        signature: state.signature,
                        stable_scans: state.stable_scans,
                        last_action: state.last_action,
                        missed_scans: missed,
                    },
                },
            );
            i += 1;
        }
        proof {
            lemma_same_paths(before, self.entries@);
            assert(states_of(self.entries@) =~= at_scan_start(states_of(before)));
        }
    }

    /// Ends a scan: the paths that the limit of scans in a row did not list are forgotten.
    /// A path that one scan missed is kept as it is, so that a listing that failed once
    /// does not make a settled file new again.
    pub fn finish_scan(&mut self)
        requires
            old(self).wf(),
        ensures
            final(self).wf(),
            final(self).threshold() == old(self).threshold(),
            final(self)@ == at_scan_end(old(self)@),
    {
        let ghost before = self.entries@;
        let mut kept: Vec<TrackedPath> = Vec::new();
        let ghost mut origin: Seq<int> = Seq::empty();
        let mut i: usize = 0;
        while i < self.entries.len()
            invariant
                i <= self.entries@.len(),
                self.entries@ == before,
                origin.len() == kept@.len(),
                forall|j: int|
                    0 <= j < kept@.len() ==> 0 <= (#[trigger] origin[j]) < i && kept@[j].path@
                        == before[origin[j]].path@ && kept@[j].state == before[origin[j]].state
                        && survives_scan(before[origin[j]].state),
                forall|a: int, b: int| 0 <= a < b < origin.len() ==> origin[a] < origin[b],
                forall|k: int|
                    0 <= k < i && survives_scan((#[trigger] before[k]).state) ==> exists|j: int|
                        0 <= j < origin.len() && origin[j] == k,
            decreases self.entries@.len() - i,
        {
            let state = self.entries[i].state;
            if state.missed_scans < MISSED_SCANS_LIMIT {
                let path = self.entries[i].path.clone();
                kept.push(TrackedPath { path, state });
                proof {
                    let ghost earlier = origin;
                    origin = origin.push(i as int);
                    assert forall|k: int|
                        0 <= k < i + 1 && survives_scan((#[trigger] before[k]).state) implies exists|
                        j: int,
                    |
                        0 <= j < origin.len() && origin[j] == k by {
                        if k < i {
                            let j = choose|j: int| 0 <= j < earlier.len() && earlier[j] == k;
                            assert(origin[j] == k);
                        } else {
                            assert(origin[origin.len() - 1] == k);
                        }
                    }
                }
            }
            i += 1;
        }
        proof {
            let after = kept@;
            assert forall|a: int, b: int| 0 <= a < b < after.len() implies (#[trigger] after[a]).path@
                != (#[trigger] after[b]).path@ by {
                assert(origin[a] < origin[b]);
                assert(before[origin[a]].path@ != before[origin[b]].path@);
            }
            assert forall|q: Seq<char>|
                states_of(after).contains_key(q) <==> at_scan_end(states_of(before)).contains_key(
                    q,
                ) by {
                if exists|j: int| 0 <= j < after.len() && (#[trigger] after[j]).path@ == q {
                    let j = choose|j: int| 0 <= j < after.len() && (#[trigger] after[j]).path@ == q;
                    lemma_place_of(before, origin[j]);
                }
                if place_of(before, q) is Some {
                    let k = place_of(before, q)->0;
                    lemma_place_of(before, k);
                    if survives_scan(before[k].state) {
                        let j = choose|j: int| 0 <= j < origin.len() && origin[j] == k;
                        assert(after[j].path@ == q);
                    }
                }
            }
            assert forall|q: Seq<char>| states_of(after).contains_key(q) implies states_of(after)[q]
                == at_scan_end(states_of(before))[q] by {
                let j = place_of(after, q)->0;
                lemma_place_of(before, origin[j]);
            }
            assert(states_of(after) =~= at_scan_end(states_of(before)));
        }
        self.entries = kept;
    }
}

/// The tracked paths are as many as the entries that hold them.
proof fn lemma_domain_size(entries: Seq<TrackedPath>)
    requires
        paths_distinct(entries),
    ensures
        states_of(entries).dom().finite(),
        states_of(entries).dom().len() == entries.len(),
    decreases entries.len(),
{
    if entries.len() == 0 {
        assert(states_of(entries).dom() =~= Set::<Seq<char>>::empty());
    } else {
        let shorter = entries.drop_last();
        let last = entries.last();
        assert forall|a: int, b: int| 0 <= a < b < shorter.len() implies (#[trigger] shorter[a]).path@
            != (#[trigger] shorter[b]).path@ by {
            assert(shorter[a] == entries[a]);
            assert(shorter[b] == entries[b]);
        }
        lemma_domain_size(shorter);
        assert forall|q: Seq<char>|
            states_of(entries).dom().contains(q) <==> states_of(shorter).dom().insert(
                last.path@,
            ).contains(q) by {
            if exists|k: int| 0 <= k < entries.len() && (#[trigger] entries[k]).path@ == q {
                let k = choose|k: int| 0 <= k < entries.len() && (#[trigger] entries[k]).path@ == q;
                if k < shorter.len() {
                    assert(shorter[k] == entries[k]);
                }
            }
            if exists|k: int| 0 <= k < shorter.len() && (#[trigger] shorter[k]).path@ == q {
                let k = choose|k: int| 0 <= k < shorter.len() && (#[trigger] shorter[k]).path@ == q;
                assert(entries[k] == shorter[k]);
            }
            if q == last.path@ {
                assert(entries[entries.len() - 1].path@ == q);
            }
        }
        assert(states_of(entries).dom() =~= states_of(shorter).dom().insert(last.path@));
        assert(!states_of(shorter).dom().contains(last.path@)) by {
            if exists|k: int| 0 <= k < shorter.len() && (#[trigger] shorter[k]).path@ == last.path@ {
                let k = choose|k: int|
                    0 <= k < shorter.len() && (#[trigger] shorter[k]).path@ == last.path@;
                assert(shorter[k] == entries[k]);
                assert(entries[k].path@ != entries[entries.len() - 1].path@);
            }
        }
    }
}

} // verus!
