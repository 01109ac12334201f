//! Failure accounting for the sync loop: a pure state machine fed one signal
//! per sync cycle, deciding whether the process should keep retrying or must
//! terminate.

use vstd::prelude::*;

verus! {

/// One signal handed to the monitor by the sync loop: a cycle either
/// succeeded or failed with a coarse kind used for accounting.
pub enum MonitorSignal {
    Succeeded,
    Failed { kind: Seq<char> },
}

/// Mathematical model of the monitor's counters.
pub struct MonitorState {
    pub max_retries: nat,
    pub consecutive_failures: nat,
    pub total_failures: nat,
    pub failure_counts: Map<Seq<char>, nat>,
}

impl MonitorState {
    /// The state a freshly constructed monitor is in.
    pub open spec fn initial(max_retries: nat) -> MonitorState {
        MonitorState {
            max_retries,
            consecutive_failures: 0,
            total_failures: 0,
            failure_counts: Map::empty(),
        }
    }

    /// How one signal transforms the counters: a success resets the
    /// consecutive count and nothing else; a failure bumps every counter
    /// touched by its kind.
    pub open spec fn step(self, signal: MonitorSignal) -> MonitorState {
        match signal {
            MonitorSignal::Succeeded => MonitorState { consecutive_failures: 0, ..self },
            MonitorSignal::Failed { kind } => MonitorState {
                max_retries: self.max_retries,
                consecutive_failures: self.consecutive_failures + 1,
                total_failures: self.total_failures + 1,
                failure_counts: self.failure_counts.insert(
                    kind,
                    count_for(self.failure_counts, kind) + 1,
                ),
            },
        }
    }

    /// The state after a whole sequence of signals.
    pub open spec fn run(self, signals: Seq<MonitorSignal>) -> MonitorState
        decreases signals.len(),
    {
        if signals.len() == 0 {
            self
        } else {
            self.run(signals.drop_last()).step(signals.last())
        }
    }
}

/// The count recorded for a kind, zero when the kind was never seen.
pub open spec fn count_for(counts: Map<Seq<char>, nat>, kind: Seq<char>) -> nat {
    if counts.contains_key(kind) {
        counts[kind]
    } else {
        0
    }
}

/// The number of failure signals at the end of the sequence, after the most
/// recent success signal (or after the start when no success occurred).
pub open spec fn failures_since_last_success(signals: Seq<MonitorSignal>) -> nat
    decreases signals.len(),
{
    if signals.len() == 0 {
        0
    } else {
        match signals.last() {
            MonitorSignal::Succeeded => 0,
            MonitorSignal::Failed { .. } => 1 + failures_since_last_success(signals.drop_last()),
        }
    }
}

/// For every sequence of signals, the running consecutive-failure counter
/// equals the number of failure signals since the most recent success signal,
/// or since the start of the process when no success occurred.
pub proof fn lemma_consecutive_failures_count_suffix(max_retries: nat, signals: Seq<MonitorSignal>)
    ensures
        MonitorState::initial(max_retries).run(signals).consecutive_failures
            == failures_since_last_success(signals),
    decreases signals.len(),
{
    if signals.len() > 0 {
        lemma_consecutive_failures_count_suffix(max_retries, signals.drop_last());
    }
}

/// Counts consecutive and overall connection failures by kind and reports,
/// on each failure, whether the retry budget is exhausted.
pub struct ConnectionMonitor {
    pub max_retries: usize,
    pub consecutive_failures: usize,
    pub total_failures: usize,
    pub failure_types: Vec<(String, usize)>,
}

/// The map that a list of per-kind counter entries denotes.
pub open spec fn counts_of_entries(entries: Seq<(String, usize)>) -> Map<Seq<char>, nat>
    decreases entries.len(),
{
    if entries.len() == 0 {
        Map::empty()
    } else {
        counts_of_entries(entries.drop_last()).insert(
            entries.last().0@,
            entries.last().1 as nat,
        )
    }
}

impl ConnectionMonitor {
    /// The counters this monitor denotes.
    pub open spec fn view(&self) -> MonitorState {
        MonitorState {
            max_retries: self.max_retries as nat,
            consecutive_failures: self.consecutive_failures as nat,
            total_failures: self.total_failures as nat,
            failure_counts: counts_of_entries(self.failure_types@),
        }
    }

    /// Internal consistency: per-kind entries carry distinct kinds, and no
    /// counter outruns the total, so every increment below fits in usize.
    pub open spec fn wf(&self) -> bool {
        &&& forall|i: int, j: int|
            0 <= i < j < self.failure_types@.len()
                ==> self.failure_types@[i].0@ != self.failure_types@[j].0@
        &&& forall|i: int|
            0 <= i < self.failure_types@.len()
                ==> #[trigger] self.failure_types@[i].1 <= self.total_failures
        &&& self.consecutive_failures <= self.total_failures
    }

    pub fn new(max_retries: usize) -> (monitor: Self)
        ensures
            monitor.wf(),
            monitor@ == MonitorState::initial(max_retries as nat),
    {
        let monitor = ConnectionMonitor {
            max_retries,
            consecutive_failures: 0,
            total_failures: 0,
            failure_types: Vec::new(),
        };
        proof {
            assert(monitor@.failure_counts =~= Map::<Seq<char>, nat>::empty());
        }
        monitor
    }

    /// A successful cycle: the consecutive-failure counter resets, every
    /// other counter is untouched.
    pub fn connection_successful(&mut self)
        requires
            old(self).wf(),
        ensures
            final(self).wf(),
            final(self)@ == old(self)@.step(MonitorSignal::Succeeded),
    {
        self.consecutive_failures = 0;
    }

    /// A failed cycle of the given kind: the total, the consecutive count and
    /// the kind's own count each grow by one, and the call returns true if
    /// and only if the incremented consecutive count has reached the
    /// configured maximum.
    pub fn connection_failed(&mut self, error_type: String) -> (should_exit: bool)
        requires
            old(self).wf(),
            old(self).total_failures < usize::MAX,
        ensures
            final(self).wf(),
            final(self)@ == old(self)@.step(MonitorSignal::Failed { kind: error_type@ }),
            should_exit == (old(self)@.consecutive_failures + 1 >= old(self)@.max_retries),
    {
        self.total_failures = self.total_failures + 1;
        self.consecutive_failures = self.consecutive_failures + 1;

        let ghost pre_entries = self.failure_types@;
        let mut idx: usize = 0;
        let mut found: bool = false;
        while idx < self.failure_types.len() && !found
            invariant
                idx <= self.failure_types@.len(),
                self.failure_types@ == pre_entries,
                found ==> idx < pre_entries.len() && pre_entries[idx as int].0@ == error_type@,
                !found ==> forall|i: int| 0 <= i < idx ==> pre_entries[i].0@ != error_type@,
            decreases pre_entries.len() - idx + (if found { 0int } else { 1int }),
        {
            if self.failure_types[idx].0 == error_type {
                found = true;
            } else {
                idx = idx + 1;
            }
        }

        if found {
            let prior: usize = self.failure_types[idx].1;
            let ghost kind = error_type@;
            self.failure_types[idx] = (error_type, prior + 1);
            proof {
                let updated = self.failure_types@[idx as int];
                assert(self.failure_types@ =~= pre_entries.update(idx as int, updated));
                lemma_counts_update(pre_entries, idx as int, updated);
                lemma_counts_lookup(pre_entries, idx as int);
                assert(self@.failure_counts
                    == counts_of_entries(pre_entries).insert(kind, (prior + 1) as nat));
            }
        } else {
            let ghost kind = error_type@;
            self.failure_types.push((error_type, 1));
            proof {
                lemma_counts_absent(pre_entries, kind);
                assert(self.failure_types@.drop_last() =~= pre_entries);
                assert(self@.failure_counts
                    == counts_of_entries(pre_entries).insert(kind, 1nat));
            }
        }

        self.consecutive_failures >= self.max_retries
    }
}

/// Updating an entry in place, keeping its kind, updates exactly that kind in
/// the denoted map, provided the kinds are distinct.
proof fn lemma_counts_update(entries: Seq<(String, usize)>, i: int, updated: (String, usize))
    requires
        0 <= i < entries.len(),
        updated.0@ == entries[i].0@,
        forall|p: int, q: int|
            0 <= p < q < entries.len() ==> entries[p].0@ != entries[q].0@,
    ensures
        counts_of_entries(entries.update(i, updated))
            == counts_of_entries(entries).insert(entries[i].0@, updated.1 as nat),
    decreases entries.len(),
{
    let upd = entries.update(i, updated);
    if i == entries.len() - 1 {
        assert(upd.drop_last() =~= entries.drop_last());
        assert(counts_of_entries(upd)
            =~= counts_of_entries(entries).insert(entries[i].0@, updated.1 as nat));
    } else {
        assert(upd.drop_last() =~= entries.drop_last().update(i, updated));
        lemma_counts_update(entries.drop_last(), i, updated);
        assert(entries.last().0@ != entries[i].0@);
        assert(counts_of_entries(upd)
            =~= counts_of_entries(entries).insert(entries[i].0@, updated.1 as nat));
    }
}

/// With distinct kinds, the map's count for an entry's kind is that entry's
/// own counter.
proof fn lemma_counts_lookup(entries: Seq<(String, usize)>, i: int)
    requires
        0 <= i < entries.len(),
        forall|p: int, q: int|
            0 <= p < q < entries.len() ==> entries[p].0@ != entries[q].0@,
    ensures
        counts_of_entries(entries).contains_key(entries[i].0@),
        counts_of_entries(entries)[entries[i].0@] == entries[i].1 as nat,
    decreases entries.len(),
{
    if i < entries.len() - 1 {
        lemma_counts_lookup(entries.drop_last(), i);
        assert(entries.last().0@ != entries[i].0@);
    }
}

/// A kind that appears in no entry has no key in the denoted map.
proof fn lemma_counts_absent(entries: Seq<(String, usize)>, kind: Seq<char>)
    requires
        forall|i: int| 0 <= i < entries.len() ==> #[trigger] entries[i].0@ != kind,
    ensures
        !counts_of_entries(entries).contains_key(kind),
    decreases entries.len(),
{
    if entries.len() > 0 {
        lemma_counts_absent(entries.drop_last(), kind);
    }
}

} // verus!
