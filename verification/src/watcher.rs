//! The watcher: the state of the daemon, and what it decides in the course of a scan.
//!
//! The watcher touches no file. Whoever drives it lists the watched folders, hands each
//! entry to `observe`, carries out the action of the rule that `observe` names, and
//! reports how that ended with `record`.

use vstd::prelude::*;
use crate::actions::{
    describe, level_of, level_of_spec, message_of, removes_source, removes_source_spec, Outcome,
};
use crate::config::{Config, Watch};
use crate::event_log::{retained, EventLog, LogEntry, LogLevel};
use crate::rules::{is_first_match, lists_broken_rules, Action, FileMeta, Rule, RuleEngine};
use crate::tracker::{at_scan_end, at_scan_start, observe_spec, PathState, Signature, Tracker};

verus! {

/// The states of the watcher.
#[derive(Debug, Clone, Copy, PartialEq, Eq, Structural)]
pub enum WatcherState {
    Stopped,
    Starting,
    Running,
    Stopping,
}

/// What can happen to the watcher.
#[derive(Debug, Clone, Copy, PartialEq, Eq, Structural)]
pub enum WatcherEvent {
    /// The watcher is asked to start.
    Start,
    /// The watcher is ready to scan.
    Ready,
    /// A scan is due.
    Tick,
    /// The watcher is asked to stop.
    Stop,
    /// Something happened that the watcher cannot run on with.
    Fault,
    /// The scan that was under way when the watcher was stopped has ended.
    Halted,
}

/// The state that an event leads to, or nothing where the event has no place in the
/// state.
pub open spec fn next_state(state: WatcherState, event: WatcherEvent) -> Option<WatcherState> {
    match (state, event) {
        (WatcherState::Stopped, WatcherEvent::Start) => Some(WatcherState::Starting),
        (WatcherState::Starting, WatcherEvent::Ready) => Some(WatcherState::Running),
        (WatcherState::Running, WatcherEvent::Tick) => Some(WatcherState::Running),
        (WatcherState::Running, WatcherEvent::Stop) => Some(WatcherState::Stopping),
        (WatcherState::Running, WatcherEvent::Fault) => Some(WatcherState::Stopping),
        (WatcherState::Stopping, WatcherEvent::Halted) => Some(WatcherState::Stopped),
        _ => None,
    }
}

/// Whether the watcher may go from `from` to `to`: round the cycle of stopped, starting,
/// running and stopping, one state at a time, or from running to running.
pub open spec fn is_step(from: WatcherState, to: WatcherState) -> bool {
    match (from, to) {
        (WatcherState::Stopped, WatcherState::Starting) => true,
        (WatcherState::Starting, WatcherState::Running) => true,
        (WatcherState::Running, WatcherState::Running) => true,
        (WatcherState::Running, WatcherState::Stopping) => true,
        (WatcherState::Stopping, WatcherState::Stopped) => true,
        _ => false,
    }
}

/// The state that an event leads to.
pub fn transition(state: WatcherState, event: WatcherEvent) -> (r: Option<WatcherState>)
    ensures
        r == next_state(state, event),
{
    match (state, event) {
        (WatcherState::Stopped, WatcherEvent::Start) => Some(WatcherState::Starting),
        (WatcherState::Starting, WatcherEvent::Ready) => Some(WatcherState::Running),
        (WatcherState::Running, WatcherEvent::Tick) => Some(WatcherState::Running),
        (WatcherState::Running, WatcherEvent::Stop) => Some(WatcherState::Stopping),
        (WatcherState::Running, WatcherEvent::Fault) => Some(WatcherState::Stopping),
        (WatcherState::Stopping, WatcherEvent::Halted) => Some(WatcherState::Stopped),
        _ => None,
    }
}

/// Every event leads the watcher one step round its cycle, or nowhere.
pub proof fn lemma_events_follow_the_cycle(state: WatcherState, event: WatcherEvent)
    ensures
        next_state(state, event) matches Some(next) ==> is_step(state, next),
{
}

/// From every state some event leads on, and the events lead from stopped back to stopped
/// through all four states.
pub proof fn lemma_cycle_is_closed()
    ensures
        next_state(WatcherState::Stopped, WatcherEvent::Start) == Some(WatcherState::Starting),
        next_state(WatcherState::Starting, WatcherEvent::Ready) == Some(WatcherState::Running),
        next_state(WatcherState::Running, WatcherEvent::Tick) == Some(WatcherState::Running),
        next_state(WatcherState::Running, WatcherEvent::Stop) == Some(WatcherState::Stopping),
        next_state(WatcherState::Stopping, WatcherEvent::Halted) == Some(WatcherState::Stopped),
{
}

/// What the loop that drives the watcher does next.
#[derive(Debug, Clone, Copy, PartialEq, Eq, Structural)]
pub enum LoopStep {
    /// Tell the watcher that it is ready to scan.
    BecomeReady,
    /// Tell the watcher that the last scan has ended.
    Halt,
    /// Scan the watched folders.
    Scan,
    /// Wait for a request, for this many seconds at most.
    Wait(u64),
}

/// What the loop does next at time `now`, where the next scan is due at `next_tick`: a
/// watcher that is starting is made ready, one that is stopping is halted, one that is
/// running scans when the scan is due and waits for it when it is not, and one that is
/// stopped waits for `idle_wait` seconds.
pub open spec fn loop_step_spec(state: WatcherState, now: u64, next_tick: u64, idle_wait: u64) -> LoopStep {
    match state {
        WatcherState::Starting => LoopStep::BecomeReady,
        WatcherState::Stopping => LoopStep::Halt,
        WatcherState::Running => if now >= next_tick {
            LoopStep::Scan
        } else {
            LoopStep::Wait((next_tick - now) as u64)
        },
        WatcherState::Stopped => LoopStep::Wait(idle_wait),
    }
}

/// What `GetStatus` reports.
#[derive(Debug, Clone, Copy, PartialEq, Eq, Structural)]
pub struct Status {
    pub running: bool,
    /// For how many seconds the watcher has been running.
    pub uptime_secs: u64,
    pub watch_count: usize,
    pub rule_count: usize,
}

/// The signature of a file as its metadata show it.
pub open spec fn signature_of(meta: &FileMeta) -> Signature {
    Signature { size: meta.size, modified: meta.modified }
}

/// Whether the entry has the given number, time, level and message.
pub open spec fn entry_holds(entry: LogEntry, id: u64, timestamp: u64, level: LogLevel, message: Seq<char>) -> bool {
    &&& entry.id == id
    &&& entry.timestamp == timestamp
    &&& entry.level == level
    &&& entry.message@ == message
}

/// The watcher: its state, the configuration it runs on, what it knows of the files, and
/// its log.
#[derive(Debug)]
pub struct Watcher {
    state: WatcherState,
    watches: Vec<Watch>,
    interval_secs: u64,
    engine: RuleEngine,
    tracker: Tracker,
    log: EventLog,
    started_at: Option<u64>,
}

impl Watcher {
    /// What holds of every watcher.
    pub closed spec fn wf(&self) -> bool {
        &&& self.tracker.wf()
        &&& self.log.wf()
        &&& self.state == WatcherState::Stopped ==> self.started_at is None
    }

    pub closed spec fn state(&self) -> WatcherState {
        self.state
    }

    /// The watched folders.
    pub closed spec fn watches(&self) -> Seq<Watch> {
        self.watches@
    }

    /// The time between two scans, in seconds.
    pub closed spec fn interval_secs(&self) -> u64 {
        self.interval_secs
    }

    /// The rules, in the order in which they are evaluated.
    pub closed spec fn rules(&self) -> Seq<Rule> {
        self.engine@
    }

    /// What the watcher knows of each path.
    pub closed spec fn path_states(&self) -> Map<Seq<char>, PathState> {
        self.tracker@
    }

    /// How many scans in a row must find a file unchanged before it is due.
    pub closed spec fn threshold(&self) -> u64 {
        self.tracker.threshold()
    }

    /// The entries that the log retains, oldest first.
    pub closed spec fn log_entries(&self) -> Seq<LogEntry> {
        self.log.entries()
    }

    /// How many entries the log retains at most.
    pub closed spec fn log_retention(&self) -> nat {
        self.log.retention()
    }

    /// The number that the next entry of the log gets.
    pub closed spec fn next_log_id(&self) -> u64 {
        self.log.next_id()
    }

    /// Since when the watcher has been running, if it is.
    pub closed spec fn started_at(&self) -> Option<u64> {
        self.started_at
    }

    /// Whether everything but the log and the state is as in `other`.
    pub open spec fn same_setup(&self, other: &Watcher) -> bool {
        &&& self.watches() == other.watches()
        &&& self.interval_secs() == other.interval_secs()
        &&& self.rules() == other.rules()
        &&& self.threshold() == other.threshold()
        &&& self.log_retention() == other.log_retention()
    }

    /// Whether the log is that of `before` with one entry appended, which has the given
    /// time, level and message. Nothing is appended once the log has given out its last
    /// number.
    pub open spec fn logged(&self, before: &Watcher, timestamp: u64, level: LogLevel, message: Seq<
        char,
    >) -> bool {
        &&& self.log_retention() == before.log_retention()
        &&& before.next_log_id() < u64::MAX ==> {
            &&& self.next_log_id() == before.next_log_id() + 1
            &&& exists|entry: LogEntry|
                {
                    &&& #[trigger] entry_holds(entry, before.next_log_id(), timestamp, level, message)
                    &&& self.log_entries() == retained(
                        before.log_entries().push(entry),
                        before.log_retention(),
                    )
                }
        }
        &&& before.next_log_id() == u64::MAX ==> {
            &&& self.next_log_id() == before.next_log_id()
            &&& self.log_entries() == before.log_entries()
        }
    }

    /// Whether the log is as in `before`.
    pub open spec fn same_log(&self, before: &Watcher) -> bool {
        &&& self.log_retention() == before.log_retention()
        &&& self.next_log_id() == before.next_log_id()
        &&& self.log_entries() == before.log_entries()
    }

    /// A stopped watcher for the given configuration, which knows no file yet and has an
    /// empty log.
    pub fn new(config: Config, threshold: u64) -> (w: Watcher)
        ensures
            w.wf(),
            w.state() == WatcherState::Stopped,
            w.watches() == config.watches@,
            w.rules() == config.rules@,
            w.interval_secs() == config.general.polling_interval_secs,
            w.threshold() == threshold,
            w.path_states() == Map::<Seq<char>, PathState>::empty(),
            w.log_entries() == Seq::<LogEntry>::empty(),
            w.log_retention() == config.general.log_retention,
            w.next_log_id() == 0,
            w.started_at() is None,
    {
        Watcher {
            state: WatcherState::Stopped,
            watches: config.watches,
            interval_secs: config.general.polling_interval_secs,
            engine: RuleEngine::new(config.rules),
            tracker: Tracker::new(threshold),
            log: EventLog::new(config.general.log_retention),
            started_at: None,
        }
    }

    /// The state of the watcher.
    pub fn current_state(&self) -> (s: WatcherState)
        ensures
            s == self.state(),
    {
        self.state
    }

    /// Whether the watcher is running.
    pub fn is_running(&self) -> (b: bool)
        ensures
            b == (self.state() == WatcherState::Running),
    {
        self.state == WatcherState::Running
    }

    /// The rules, in the order in which they are evaluated.
    pub fn rule_list(&self) -> (r: &Vec<Rule>)
        ensures
            r@ == self.rules(),
    {
        self.engine.rules()
    }

    /// The watched folders.
    pub fn watch_list(&self) -> (r: &Vec<Watch>)
        ensures
            r@ == self.watches(),
    {
        &self.watches
    }

    /// The log.
    pub fn event_log(&self) -> (r: &EventLog)
        requires
            self.wf(),
        ensures
            r.wf(),
            r.entries() == self.log_entries(),
            r.retention() == self.log_retention(),
            r.next_id() == self.next_log_id(),
    {
        &self.log
    }

    /// What the watcher reports of itself at time `now`.
    pub fn status(&self, now: u64) -> (s: Status)
        ensures
            s.running == (self.state() == WatcherState::Running),
            s.uptime_secs == (match self.started_at() {
                Some(t) => if now >= t {
                    (now - t) as u64
                } else {
                    0
                },
                None => 0,
            }),
            s.watch_count == self.watches().len(),
            s.rule_count == self.rules().len(),
    {
        let uptime_secs = match self.started_at {
            Some(t) => if now >= t {
                now - t
            } else {
                0
            },
            None => 0,
        };
        Status {
            running: self.state == WatcherState::Running,
            uptime_secs,
            watch_count: self.watches.len(),
            rule_count: self.engine.len(),
        }
    }

    /// When the scan after the one at `last` is due.
    pub fn next_tick_at(&self, last: u64) -> (due: u64)
        ensures
            due == (if last + self.interval_secs() > u64::MAX {
                u64::MAX
            } else {
                (last + self.interval_secs()) as u64
            }),
    {
        last.saturating_add(self.interval_secs)
    }

    /// What the loop that drives the watcher does next. Between two scans the loop waits
    /// and does not poll.
    pub fn loop_step(&self, now: u64, next_tick: u64, idle_wait: u64) -> (step: LoopStep)
        ensures
            step == loop_step_spec(self.state(), now, next_tick, idle_wait),
    {
        match self.state {
            WatcherState::Starting => LoopStep::BecomeReady,
            WatcherState::Stopping => LoopStep::Halt,
            WatcherState::Running => {
                if now >= next_tick {
                    LoopStep::Scan
                } else {
                    LoopStep::Wait(next_tick - now)
                }
            },
            WatcherState::Stopped => LoopStep::Wait(idle_wait),
        }
    }

    /// Hands an event to the watcher at time `now`. Where the event has a place in the
    /// state of the watcher, the watcher goes to the state that the event leads to and
    /// `true` is returned; the watcher counts its running time from the moment it became
    /// ready. Where it has none, nothing changes. A fault is logged as an error.
    pub fn handle(&mut self, event: WatcherEvent, now: u64) -> (accepted: bool)
        requires
            old(self).wf(),
        ensures
            final(self).wf(),
            final(self).same_setup(old(self)),
            final(self).path_states() == old(self).path_states(),
            accepted == next_state(old(self).state(), event) is Some,
            accepted ==> final(self).state() == next_state(old(self).state(), event)->0,
            !accepted ==> final(self).state() == old(self).state() && final(self).started_at()
                == old(self).started_at(),
            accepted ==> final(self).started_at() == (match final(self).state() {
                WatcherState::Stopped => None,
                WatcherState::Running => if event == WatcherEvent::Ready {
                    Some(now)
                } else {
                    old(self).started_at()
                },
                _ => old(self).started_at(),
            }),
            accepted && event == WatcherEvent::Fault ==> final(self).logged(
                old(self),
                now,
                LogLevel::Error,
                "watcher stopped after a fault"@,
            ),
            !(accepted && event == WatcherEvent::Fault) ==> final(self).same_log(old(self)),
    {
        match transition(self.state, event) {
            Some(next) => {
                self.state = next;
                match next {
                    WatcherState::Stopped => {
                        self.started_at = None;
                    },
                    WatcherState::Running => {
                        if event == WatcherEvent::Ready {
                            self.started_at = Some(now);
                        }
                    },
                    _ => {},
                }
                if event == WatcherEvent::Fault {
                    let message = "watcher stopped after a fault".to_owned();
                    let ghost entry = LogEntry {
                        id: self.log.next_id(),
                        timestamp: now,
                        level: LogLevel::Error,
                        message,
                    };
                    self.log.append(now, LogLevel::Error, message);
                    assert(entry_holds(entry, old(self).log.next_id(), now, LogLevel::Error, message@));
                    assert(old(self).log.next_id() < u64::MAX ==> self.log.entries() == retained(
                        old(self).log.entries().push(entry),
                        old(self).log.retention(),
                    ));
                }
                true
            },
            None => false,
        }
    }

    /// Starts a scan.
    pub fn begin_tick(&mut self)
        requires
            old(self).wf(),
        ensures
            final(self).wf(),
            final(self).same_setup(old(self)),
            final(self).same_log(old(self)),
            final(self).state() == old(self).state(),
            final(self).started_at() == old(self).started_at(),
            final(self).path_states() == (if old(self).state() == WatcherState::Running {
                at_scan_start(old(self).path_states())
            } else {
                old(self).path_states()
            }),
    {
        if self.state == WatcherState::Running {
            self.tracker.begin_scan();
        }
    }

    /// Ends a scan: the paths that two scans in a row did not list are forgotten.
    pub fn end_tick(&mut self)
        requires
            old(self).wf(),
        ensures
            final(self).wf(),
            final(self).same_setup(old(self)),
            final(self).same_log(old(self)),
            final(self).state() == old(self).state(),
            final(self).started_at() == old(self).started_at(),
            final(self).path_states() == (if old(self).state() == WatcherState::Running {
                at_scan_end(old(self).path_states())
            } else {
                old(self).path_states()
            }),
    {
        if self.state == WatcherState::Running {
            self.tracker.finish_scan();
        }
    }

    /// What the tracker makes of a file that the scan at `now` found.
    pub open spec fn observed(&self, meta: &FileMeta, now: u64) -> (PathState, bool) {
        observe_spec(
            if self.path_states().contains_key(meta.path@) {
                Some(self.path_states()[meta.path@])
            } else {
                None
            },
            signature_of(meta),
            self.threshold(),
            now,
        )
    }

    /// Takes note of a file that the scan at time `now` found, and names the rule whose
    /// action is due for it, if there is one. A file is held against the rules only when
    /// it has settled, and only once until it changes; the rule named is the first
    /// enabled rule that matches. The action is not carried out here, and nothing is
    /// logged. A watcher that is not running takes no note and names no rule.
    pub fn observe(&mut self, meta: &FileMeta, now: u64) -> (due: Option<usize>)
        requires
            old(self).wf(),
        ensures
            final(self).wf(),
            final(self).same_setup(old(self)),
            final(self).same_log(old(self)),
            final(self).state() == old(self).state(),
            final(self).started_at() == old(self).started_at(),
            old(self).state() != WatcherState::Running ==> due is None && final(self).path_states()
                == old(self).path_states(),
            old(self).state() == WatcherState::Running ==> {
                &&& final(self).path_states() == old(self).path_states().insert(
                    meta.path@,
                    old(self).observed(meta, now).0,
                )
                &&& !old(self).observed(meta, now).1 ==> due is None
                &&& old(self).observed(meta, now).1 ==> is_first_match(
                    old(self).rules(),
                    meta,
                    now,
                    match due {
                        Some(i) => Some(i as int),
                        None => None,
                    },
                )
            },
    {
        if self.state != WatcherState::Running {
            return None;
        }
        let sig = Signature { size: meta.size, modified: meta.modified };
        let eligible = self.tracker.observe(meta.path.as_str(), sig, now);
        if !eligible {
            return None;
        }
        match self.engine.evaluate(meta, now) {
            Some((i, _)) => Some(i),
            None => None,
        }
    }

    /// The name of the rule at `index`, or the empty text where there is no such rule.
    pub open spec fn rule_name(&self, index: usize) -> Seq<char> {
        if index < self.rules().len() {
            self.rules()[index as int].name@
        } else {
            Seq::<char>::empty()
        }
    }

    /// Whether the file has left its place: the action was carried out, and it is one that
    /// leaves no file there.
    pub open spec fn file_left(action: &Action, outcome: &Outcome) -> bool {
        outcome is Done && removes_source_spec(action)
    }

    /// Records how the action of the rule at `rule` ended for the file at `source`: the
    /// log gets exactly one entry, an error for a failure, a warning for a skipped action,
    /// a success for an action that was carried out, and information for a rule that does
    /// nothing. A file that has left its place is forgotten, so that a file that comes to
    /// lie there later is new. Where there is no such rule, nothing happens and `false` is
    /// returned.
    pub fn record(&mut self, rule: usize, source: &str, outcome: &Outcome, now: u64) -> (known:
        bool)
        requires
            old(self).wf(),
        ensures
            final(self).wf(),
            final(self).same_setup(old(self)),
            final(self).state() == old(self).state(),
            final(self).started_at() == old(self).started_at(),
            known == (rule < old(self).rules().len()),
            !known ==> final(self).same_log(old(self)) && final(self).path_states() == old(
                self,
            ).path_states(),
            known ==> final(self).logged(
                old(self),
                now,
                level_of_spec(&old(self).rules()[rule as int].action, outcome),
                message_of(old(self).rule_name(rule), source@, outcome),
            ),
            known ==> final(self).path_states() == (if Self::file_left(
                &old(self).rules()[rule as int].action,
                outcome,
            ) {
                old(self).path_states().remove(source@)
            } else {
                old(self).path_states()
            }),
    {
        if rule >= self.engine.len() {
            return false;
        }
        let the_rule = &self.engine.rules()[rule];
        let level = level_of(&the_rule.action, outcome);
        let message = describe(the_rule.name.as_str(), source, outcome);
        let ghost entry = LogEntry { id: self.log.next_id(), timestamp: now, level, message };
        let gone = removes_source(&the_rule.action) && match outcome {
            Outcome::Done(_) => true,
            _ => false,
        };
        self.log.append(now, level, message);
        if gone {
            self.tracker.forget(source);
        }
        assert(entry_holds(entry, old(self).log.next_id(), now, level, message@));
        assert(old(self).log.next_id() < u64::MAX ==> self.log.entries() == retained(
            old(self).log.entries().push(entry),
            old(self).log.retention(),
        ));
        true
    }

    /// The places of the rules whose regular expression does not compile, in rising order.
    /// Such a rule matches no file.
    pub fn broken_rules(&self) -> (broken: Vec<usize>)
        ensures
            lists_broken_rules(self.rules(), broken@),
    {
        self.engine.broken_rules()
    }

    /// Logs a warning for the rule at `index` if its regular expression does not compile,
    /// and returns whether it did. The rule stays in the list and is passed over by every
    /// evaluation; the other rules are evaluated as ever.
    pub fn warn_if_broken(&mut self, index: usize, now: u64) -> (warned: bool)
        requires
            old(self).wf(),
        ensures
            final(self).wf(),
            final(self).same_setup(old(self)),
            final(self).state() == old(self).state(),
            final(self).started_at() == old(self).started_at(),
            final(self).path_states() == old(self).path_states(),
            warned == (index < old(self).rules().len() && !old(self).rules()[index as int].conditions.is_well_formed()),
            warned ==> final(self).logged(
                old(self),
                now,
                LogLevel::Warning,
                old(self).rule_name(index) + ": regular expression does not compile"@,
            ),
            !warned ==> final(self).same_log(old(self)),
    {
        if index >= self.engine.len() {
            return false;
        }
        let the_rule = &self.engine.rules()[index];
        if the_rule.conditions.check() {
            return false;
        }
        let mut message = the_rule.name.clone();
        vstd::string::StringExecFns::append(&mut message, ": regular expression does not compile");
        let ghost entry = LogEntry {
            id: self.log.next_id(),
            timestamp: now,
            level: LogLevel::Warning,
            message,
        };
        self.log.append(now, LogLevel::Warning, message);
        assert(entry_holds(entry, old(self).log.next_id(), now, LogLevel::Warning, message@));
        assert(old(self).log.next_id() < u64::MAX ==> self.log.entries() == retained(
            old(self).log.entries().push(entry),
            old(self).log.retention(),
        ));
        true
    }

    /// Records that a folder or an entry could not be read in the course of a scan: the
    /// log gets a warning, and the scan goes on.
    pub fn scan_error(&mut self, path: &str, detail: &str, now: u64)
        requires
            old(self).wf(),
        ensures
            final(self).wf(),
            final(self).same_setup(old(self)),
            final(self).state() == old(self).state(),
            final(self).started_at() == old(self).started_at(),
            final(self).path_states() == old(self).path_states(),
            final(self).logged(old(self), now, LogLevel::Warning, path@ + ": "@ + detail@),
    {
        let mut message = path.to_owned();
        vstd::string::StringExecFns::append(&mut message, ": ");
        vstd::string::StringExecFns::append(&mut message, detail);
        let ghost entry = LogEntry {
            id: self.log.next_id(),
            timestamp: now,
            level: LogLevel::Warning,
            message,
        };
        self.log.append(now, LogLevel::Warning, message);
        assert(entry_holds(entry, old(self).log.next_id(), now, LogLevel::Warning, message@));
        assert(old(self).log.next_id() < u64::MAX ==> self.log.entries() == retained(
            old(self).log.entries().push(entry),
            old(self).log.retention(),
        ));
    }

    /// Takes a new configuration in place of the one in use, as a whole: the rules in
    /// their order, the watched folders and the settings. The state, the log's entries
    /// within the new retention, and what is known of the files stay.
    pub fn reload(&mut self, config: Config)
        requires
            old(self).wf(),
        ensures
            final(self).wf(),
            final(self).state() == old(self).state(),
            final(self).started_at() == old(self).started_at(),
            final(self).path_states() == old(self).path_states(),
            final(self).threshold() == old(self).threshold(),
            final(self).watches() == config.watches@,
            final(self).rules() == config.rules@,
            final(self).interval_secs() == config.general.polling_interval_secs,
            final(self).log_retention() == config.general.log_retention,
            final(self).next_log_id() == old(self).next_log_id(),
            final(self).log_entries() == retained(
                old(self).log_entries(),
                config.general.log_retention as nat,
            ),
    {
        self.watches = config.watches;
        self.interval_secs = config.general.polling_interval_secs;
        self.engine.reload(config.rules);
        self.log.set_retention(config.general.log_retention);
    }

    /// Switches the rule at `index` on or off. Returns whether there is such a rule.
    pub fn toggle_rule(&mut self, index: usize) -> (done: bool)
        requires
            old(self).wf(),
        ensures
            final(self).wf(),
            final(self).state() == old(self).state(),
            final(self).started_at() == old(self).started_at(),
            final(self).path_states() == old(self).path_states(),
            final(self).threshold() == old(self).threshold(),
            final(self).watches() == old(self).watches(),
            final(self).interval_secs() == old(self).interval_secs(),
            final(self).same_log(old(self)),
            done == (index < old(self).rules().len()),
            done ==> final(self).rules() == old(self).rules().update(
                index as int,
                old(self).rules()[index as int].with_enabled(
                    !old(self).rules()[index as int].enabled,
                ),
            ),
            !done ==> final(self).rules() == old(self).rules(),
    {
        self.engine.toggle_rule(index)
    }
}

} // verus!
