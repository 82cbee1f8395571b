//! The control surface of the daemon: what clients may ask of it, and what it answers.
//!
//! A client that asks for the status or the log is answered from the watcher as it is;
//! such a request changes nothing. A request that changes the watcher is put in a queue
//! and served by the loop that owns the watcher, one at a time, in the order of arrival.

use std::collections::VecDeque;
use vstd::prelude::*;
use crate::config::Config;
use crate::event_log::{entries_after, retained, LogEntry};
use crate::watcher::{Status, Watcher, WatcherEvent, WatcherState};

verus! {

/// What a client may ask of the daemon.
#[derive(Debug, Clone, Copy, PartialEq, Eq, Structural)]
pub enum Request {
    GetStatus,
    Start,
    Stop,
    ReloadConfig,
    /// The entries of the log behind the entry with the number `after`, or all that are
    /// retained.
    TailLog { after: Option<u64> },
    /// Switch the rule at this place on or off.
    ToggleRule(usize),
}

/// Why a request was refused.
#[derive(Debug, Clone)]
pub enum Refusal {
    /// The watcher can be started only when it is stopped.
    NotStopped,
    /// The watcher can be stopped only when it is running.
    NotRunning,
    /// The configuration could not be read, for the reason given.
    ConfigInvalid(String),
    /// The request needs the configuration, and none was handed over.
    ConfigMissing,
    /// There is no rule at that place.
    NoSuchRule,
}

/// What the daemon answers.
#[derive(Debug)]
pub enum Response {
    Status(Status),
    Log(Vec<LogEntry>),
    Accepted,
    Refused(Refusal),
}

impl Request {
    /// Whether the request changes the watcher, and so has to wait its turn in the queue.
    pub open spec fn is_control_spec(&self) -> bool {
        !(*self is GetStatus || *self is TailLog)
    }

    /// Whether the request can be served only with the configuration at hand.
    pub open spec fn needs_config_spec(&self) -> bool {
        *self is Start || *self is ReloadConfig
    }

    /// Whether the request changes the watcher.
    pub fn is_control(&self) -> (b: bool)
        ensures
            b == self.is_control_spec(),
    {
        match self {
            Request::GetStatus => false,
            Request::TailLog { .. } => false,
            _ => true,
        }
    }

    /// Whether the request can be served only with the configuration at hand.
    pub fn needs_config(&self) -> (b: bool)
        ensures
            b == self.needs_config_spec(),
    {
        match self {
            Request::Start => true,
            Request::ReloadConfig => true,
            _ => false,
        }
    }
}

/// The requests that wait to be served, in the order in which they came.
#[derive(Debug)]
pub struct ControlQueue {
    waiting: VecDeque<Request>,
}

impl View for ControlQueue {
    type V = Seq<Request>;

    closed spec fn view(&self) -> Seq<Request> {
        self.waiting@
    }
}

impl ControlQueue {
    /// An empty queue.
    pub fn new() -> (q: ControlQueue)
        ensures
            q@ == Seq::<Request>::empty(),
    {
        ControlQueue { waiting: VecDeque::new() }
    }

    /// The number of requests that wait.
    pub fn len(&self) -> (n: usize)
        ensures
            n == self@.len(),
    {
        self.waiting.len()
    }

    /// Puts a request that changes the watcher behind those that wait. Any other request
    /// is not taken, and `false` is returned.
    pub fn push(&mut self, request: Request) -> (queued: bool)
        ensures
            queued == request.is_control_spec(),
            queued ==> final(self)@ == old(self)@.push(request),
            !queued ==> final(self)@ == old(self)@,
    {
        if request.is_control() {
            self.waiting.push_back(request);
            true
        } else {
            false
        }
    }

    /// Takes the request that has waited longest.
    pub fn pop(&mut self) -> (request: Option<Request>)
        ensures
            old(self)@.len() == 0 ==> request is None && final(self)@ == old(self)@,
            old(self)@.len() > 0 ==> request == Some(old(self)@[0]) && final(self)@ == old(
                self,
            )@.skip(1),
    {
        self.waiting.pop_front()
    }
}

/// The entries that a `TailLog` request is answered with.
pub open spec fn tail_of(entries: Seq<LogEntry>, after: Option<u64>) -> Seq<LogEntry> {
    match after {
        Some(id) => entries_after(entries, id),
        None => entries,
    }
}

/// What the watcher reports of itself at time `now`.
pub open spec fn status_of(watcher: &Watcher, now: u64) -> Status {
    Status {
        running: watcher.state() == WatcherState::Running,
        uptime_secs: match watcher.started_at() {
            Some(t) => if now >= t {
                (now - t) as u64
            } else {
                0
            },
            None => 0,
        },
        watch_count: watcher.watches().len() as usize,
        rule_count: watcher.rules().len() as usize,
    }
}

/// Whether `r` is the answer that a request that changes nothing gets from the watcher
/// at time `now`: the status, or the entries of the log that were asked for.
pub open spec fn is_answer(watcher: &Watcher, request: &Request, now: u64, r: Response) -> bool {
    match request {
        Request::GetStatus => r == Response::Status(status_of(watcher, now)),
        Request::TailLog { after } => (r matches Response::Log(entries) && entries@ == tail_of(
            watcher.log_entries(),
            *after,
        )),
        _ => false,
    }
}

/// Answers a request that changes nothing, from the watcher as it is at time `now`. A
/// request that changes the watcher gets no answer here.
pub fn answer(watcher: &Watcher, request: &Request, now: u64) -> (r: Option<Response>)
    requires
        watcher.wf(),
    ensures
        request.is_control_spec() ==> r is None,
        !request.is_control_spec() ==> r is Some && is_answer(watcher, request, now, r->0),
{
    match request {
        Request::GetStatus => Some(Response::Status(watcher.status(now))),
        Request::TailLog { after } => {
            let log = watcher.event_log();
            match after {
                Some(id) => Some(Response::Log(log.since(*id))),
                None => Some(Response::Log(log.snapshot())),
            }
        },
        _ => None,
    }
}

/// Whether the watcher runs on the configuration, and has kept of its log what the
/// configuration has room for.
pub open spec fn runs_on(after: &Watcher, before: &Watcher, config: &Config) -> bool {
    &&& after.rules() == config.rules@
    &&& after.watches() == config.watches@
    &&& after.interval_secs() == config.general.polling_interval_secs
    &&& after.log_retention() == config.general.log_retention
    &&& after.next_log_id() == before.next_log_id()
    &&& after.log_entries() == retained(
        before.log_entries(),
        config.general.log_retention as nat,
    )
}

/// Whether the watcher is as it was.
pub open spec fn untouched(after: &Watcher, before: &Watcher) -> bool {
    &&& after.state() == before.state()
    &&& after.started_at() == before.started_at()
    &&& after.path_states() == before.path_states()
    &&& after.same_setup(before)
    &&& after.same_log(before)
}

/// Serves one request that changes the watcher, at time `now`. `loaded` is the
/// configuration as it was just read, or the reason why it could not be read; a request
/// that needs none ignores it.
///
/// `Start` is accepted where the watcher is stopped and the configuration could be read:
/// the watcher takes the configuration and goes to starting. `Stop` is accepted where the
/// watcher is running. `ReloadConfig` is accepted where the configuration could be read.
/// `ToggleRule` is accepted where there is such a rule. A request that is refused leaves
/// the watcher as it was, and so does a request that changes nothing.
pub fn serve(watcher: &mut Watcher, request: &Request, loaded: Option<Result<Config, String>>, now: u64) -> (r:
    Response)
    requires
        old(watcher).wf(),
    ensures
        final(watcher).wf(),
        final(watcher).threshold() == old(watcher).threshold(),
        final(watcher).path_states() == old(watcher).path_states(),
        !(r is Accepted) ==> untouched(final(watcher), old(watcher)),
        !request.is_control_spec() ==> is_answer(old(watcher), request, now, r),
        *request is Start ==> (match loaded {
            Some(Ok(config)) => if old(watcher).state() == WatcherState::Stopped {
                &&& r is Accepted
                &&& final(watcher).state() == WatcherState::Starting
                &&& final(watcher).started_at() == old(watcher).started_at()
                &&& runs_on(final(watcher), old(watcher), &config)
            } else {
                r matches Response::Refused(Refusal::NotStopped)
            },
            Some(Err(reason)) => (r matches Response::Refused(Refusal::ConfigInvalid(m)) && m@
                == reason@),
            None => r matches Response::Refused(Refusal::ConfigMissing),
        }),
        *request is Stop ==> (if old(watcher).state() == WatcherState::Running {
            &&& r is Accepted
            &&& final(watcher).state() == WatcherState::Stopping
            &&& final(watcher).started_at() == old(watcher).started_at()
            &&& final(watcher).same_setup(old(watcher))
            &&& final(watcher).same_log(old(watcher))
        } else {
            r matches Response::Refused(Refusal::NotRunning)
        }),
        *request is ReloadConfig ==> (match loaded {
            Some(Ok(config)) => {
                &&& r is Accepted
                &&& final(watcher).state() == old(watcher).state()
                &&& final(watcher).started_at() == old(watcher).started_at()
                &&& runs_on(final(watcher), old(watcher), &config)
            },
            Some(Err(reason)) => (r matches Response::Refused(Refusal::ConfigInvalid(m)) && m@
                == reason@),
            None => r matches Response::Refused(Refusal::ConfigMissing),
        }),
        request matches Request::ToggleRule(index) ==> (if index < old(watcher).rules().len() {
            &&& r is Accepted
            &&& final(watcher).state() == old(watcher).state()
            &&& final(watcher).started_at() == old(watcher).started_at()
            &&& final(watcher).watches() == old(watcher).watches()
            &&& final(watcher).interval_secs() == old(watcher).interval_secs()
            &&& final(watcher).same_log(old(watcher))
            &&& final(watcher).rules() == old(watcher).rules().update(
                index as int,
                old(watcher).rules()[index as int].with_enabled(
                    !old(watcher).rules()[index as int].enabled,
                ),
            )
        } else {
            r matches Response::Refused(Refusal::NoSuchRule)
        }),
{
    match request {
        Request::GetStatus => Response::Status(watcher.status(now)),
        Request::TailLog { after } => {
            let log = watcher.event_log();
            match after {
                Some(id) => Response::Log(log.since(*id)),
                None => Response::Log(log.snapshot()),
            }
        },
        Request::Start => match loaded {
            Some(Ok(config)) => {
                if watcher.current_state() == WatcherState::Stopped {
                    watcher.reload(config);
                    watcher.handle(WatcherEvent::Start, now);
                    Response::Accepted
                } else {
                    Response::Refused(Refusal::NotStopped)
                }
            },
            Some(Err(reason)) => Response::Refused(Refusal::ConfigInvalid(reason)),
            None => Response::Refused(Refusal::ConfigMissing),
        },
        Request::Stop => {
            if watcher.handle(WatcherEvent::Stop, now) {
                Response::Accepted
            } else {
                Response::Refused(Refusal::NotRunning)
            }
        },
        Request::ReloadConfig => match loaded {
            Some(Ok(config)) => {
                watcher.reload(config);
                Response::Accepted
            },
            Some(Err(reason)) => Response::Refused(Refusal::ConfigInvalid(reason)),
            None => Response::Refused(Refusal::ConfigMissing),
        },
        Request::ToggleRule(index) => {
            if watcher.toggle_rule(*index) {
                Response::Accepted
            } else {
                Response::Refused(Refusal::NoSuchRule)
            }
        },
    }
}

} // verus!
