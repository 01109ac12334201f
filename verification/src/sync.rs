//! The incremental-synchronization loop's decisions.
//!
//! Each cycle the application issues one poll for "changes since the cursor"
//! and hands the outcome to `SyncLoop::step`, which updates the failure
//! accounting, decides between persisting and advancing, backing off and
//! retrying, or terminating, and builds the exact session snapshot to
//! persist. A cursor is only ever persisted after the poll that returned it
//! succeeded, never speculatively.

use vstd::prelude::*;

use crate::monitor::{ConnectionMonitor, MonitorSignal, MonitorState};
use crate::session::{
    ClientStoreConfig, MatrixSessionData, PersistedSession, PersistedSessionView,
};

verus! {

/// The outcome of one poll cycle, as handed in by the application.
pub enum SyncEvent {
    Succeeded { next_cursor: String },
    Failed { kind: String },
}

/// The outcome of one poll cycle, as the model sees it.
pub enum SyncEventView {
    Succeeded { next_cursor: Seq<char> },
    Failed { kind: Seq<char> },
}

impl View for SyncEvent {
    type V = SyncEventView;

    open spec fn view(&self) -> SyncEventView {
        match self {
            SyncEvent::Succeeded { next_cursor } => SyncEventView::Succeeded {
                next_cursor: next_cursor@,
            },
            SyncEvent::Failed { kind } => SyncEventView::Failed { kind: kind@ },
        }
    }
}

/// What the application must do after a cycle: persist the given snapshot and
/// poll again with the advanced cursor; sleep briefly and retry the same
/// cursor; or stop with a fatal error.
pub enum SyncAction {
    PersistAndContinue { snapshot: PersistedSession },
    RetryAfterDelay,
    Terminate,
}

/// The sync loop's own state: the cursor to poll with, the failure
/// accounting, and whether the loop has terminated.
pub struct SyncLoop {
    pub cursor: Option<String>,
    pub monitor: ConnectionMonitor,
    pub terminated: bool,
}

/// Model of the loop state.
pub struct SyncLoopModel {
    pub cursor: Option<Seq<char>>,
    pub monitor: MonitorState,
    pub terminated: bool,
}

impl View for SyncLoop {
    type V = SyncLoopModel;

    open spec fn view(&self) -> SyncLoopModel {
        SyncLoopModel {
            cursor: crate::codec::opt_view(self.cursor),
            monitor: self.monitor@,
            terminated: self.terminated,
        }
    }
}

impl SyncLoopModel {
    /// How one cycle outcome transforms the loop state: a success resets the
    /// failure accounting and advances the cursor; a failure leaves the
    /// cursor alone, counts against the retry budget, and terminates the loop
    /// exactly when the budget is exhausted.
    pub open spec fn step(self, event: SyncEventView) -> SyncLoopModel {
        match event {
            SyncEventView::Succeeded { next_cursor } => SyncLoopModel {
                cursor: Option::Some(next_cursor),
                monitor: self.monitor.step(MonitorSignal::Succeeded),
                terminated: false,
            },
            SyncEventView::Failed { kind } => SyncLoopModel {
                cursor: self.cursor,
                monitor: self.monitor.step(MonitorSignal::Failed { kind }),
                terminated: self.monitor.consecutive_failures + 1 >= self.monitor.max_retries,
            },
        }
    }
}

/// Clones an optional string, keeping the denoted value.
pub fn clone_opt_string(o: &Option<String>) -> (r: Option<String>)
    ensures
        crate::codec::opt_view(r) == crate::codec::opt_view(*o),
{
    match o {
        Option::None => Option::None,
        Option::Some(s) => Option::Some(s.clone()),
    }
}

impl SyncLoop {
    /// A loop about to issue its first poll, with the cursor the acquired
    /// session carried (absent on fresh login).
    pub fn new(initial_cursor: Option<String>, monitor: ConnectionMonitor) -> (r: SyncLoop)
        requires
            monitor.wf(),
        ensures
            r@.cursor == crate::codec::opt_view(initial_cursor),
            r@.monitor == monitor@,
            !r@.terminated,
            r.monitor.wf(),
    {
        SyncLoop { cursor: initial_cursor, monitor, terminated: false }
    }

    /// One cycle. On success the snapshot to persist carries the store
    /// configuration, the current authentication data, and exactly the cursor
    /// the poll returned; the loop then polls from that cursor. On failure
    /// the cursor is untouched and the loop either retries after a delay or,
    /// when the failure exhausted the retry budget, terminates.
    pub fn step(
        &mut self,
        event: SyncEvent,
        store: &ClientStoreConfig,
        auth: &MatrixSessionData,
    ) -> (action: SyncAction)
        requires
            !old(self).terminated,
            old(self).monitor.wf(),
            old(self).monitor.total_failures < usize::MAX,
        ensures
            final(self).monitor.wf(),
            final(self)@ == old(self)@.step(event@),
            match event@ {
                SyncEventView::Succeeded { next_cursor } => action matches
                    SyncAction::PersistAndContinue { snapshot } && snapshot@
                    == (PersistedSessionView {
                    client_store_config: store@,
                    matrix_session: auth@,
                    sync_token: Option::Some(next_cursor),
                }),
                SyncEventView::Failed { .. } => {
                    if old(self)@.monitor.consecutive_failures + 1
                        >= old(self)@.monitor.max_retries {
                        action is Terminate
                    } else {
                        action is RetryAfterDelay
                    }
                },
            },
    {
        match event {
            SyncEvent::Succeeded { next_cursor } => {
                self.monitor.connection_successful();
                let snapshot = PersistedSession {
                    client_store_config: ClientStoreConfig {
                        store_path: store.store_path.clone(),
                        store_passphrase: store.store_passphrase.clone(),
                    },
                    matrix_session: MatrixSessionData {
                        user_id: auth.user_id.clone(),
                        device_id: auth.device_id.clone(),
                        access_token: auth.access_token.clone(),
                        refresh_token: clone_opt_string(&auth.refresh_token),
                    },
                    sync_token: Option::Some(next_cursor.clone()),
                };
                self.cursor = Option::Some(next_cursor);
                self.terminated = false;
                SyncAction::PersistAndContinue { snapshot }
            },
            SyncEvent::Failed { kind } => {
                let should_exit = self.monitor.connection_failed(kind);
                if should_exit {
                    self.terminated = true;
                    SyncAction::Terminate
                } else {
                    SyncAction::RetryAfterDelay
                }
            },
        }
    }
}

/// The cursor values a run of the loop persists, in order: one for each
/// successful cycle reached before termination.
pub open spec fn run_persisted_cursors(
    m: SyncLoopModel,
    events: Seq<SyncEventView>,
) -> Seq<Seq<char>>
    decreases events.len(),
{
    if events.len() == 0 || m.terminated {
        Seq::empty()
    } else {
        match events[0] {
            SyncEventView::Succeeded { next_cursor } => seq![next_cursor]
                + run_persisted_cursors(m.step(events[0]), events.drop_first()),
            SyncEventView::Failed { .. } => run_persisted_cursors(
                m.step(events[0]),
                events.drop_first(),
            ),
        }
    }
}

/// The cursors that some successful poll in the run returned.
pub open spec fn polled_cursors(events: Seq<SyncEventView>) -> Set<Seq<char>> {
    Set::new(
        |c: Seq<char>|
            exists|i: int|
                0 <= i < events.len() && events[i] == (SyncEventView::Succeeded {
                    next_cursor: c,
                }),
    )
}

/// The sync loop never persists a cursor value that was not returned by a
/// poll that itself did not error: every cursor a run persists was the value
/// of some successful poll in that run.
pub proof fn lemma_persisted_cursors_were_polled(m: SyncLoopModel, events: Seq<SyncEventView>)
    ensures
        forall|k: int|
            0 <= k < run_persisted_cursors(m, events).len()
                ==> polled_cursors(events).contains(#[trigger] run_persisted_cursors(m, events)[k]),
    decreases events.len(),
{
    if events.len() == 0 || m.terminated {
    } else {
        let rest = events.drop_first();
        let m1 = m.step(events[0]);
        lemma_persisted_cursors_were_polled(m1, rest);
        assert forall|k: int|
            0 <= k < run_persisted_cursors(m, events).len() implies polled_cursors(
            events,
        ).contains(#[trigger] run_persisted_cursors(m, events)[k]) by {
            let out = run_persisted_cursors(m, events);
            match events[0] {
                SyncEventView::Succeeded { next_cursor } => {
                    if k == 0 {
                        assert(events[0] == (SyncEventView::Succeeded { next_cursor }));
                        assert(polled_cursors(events).contains(next_cursor));
                    } else {
                        let c = run_persisted_cursors(m1, rest)[k - 1];
                        assert(out[k] == c);
                        let i = choose|i: int|
                            0 <= i < rest.len() && rest[i] == (SyncEventView::Succeeded {
                                next_cursor: c,
                            });
                        assert(events[i + 1] == rest[i]);
                        assert(polled_cursors(events).contains(c));
                    }
                },
                SyncEventView::Failed { .. } => {
                    let c = run_persisted_cursors(m1, rest)[k];
                    assert(out[k] == c);
                    let i = choose|i: int|
                        0 <= i < rest.len() && rest[i] == (SyncEventView::Succeeded {
                            next_cursor: c,
                        });
                    assert(events[i + 1] == rest[i]);
                    assert(polled_cursors(events).contains(c));
                },
            }
        }
    }
}

} // verus!
