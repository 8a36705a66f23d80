//! The wait engine.
//!
//! A wait sleeps a while, resets its timer, checks each host and then each
//! path until it is available, gives up once the global timeout has passed,
//! and sleeps a while more once everything is ready. The engine makes every
//! decision of that run and leaves the work to a driver: each call of
//! [`WaitEngine::step`] hands it the answer to the last action asked for (a
//! probe's result, whether the timeout has elapsed) and returns the next one.
use crate::config::Config;
use crate::text::{entries, split_list, views};
use vstd::prelude::*;

verus! {

/// One target of a wait: the host or the path at an index of its list.
#[derive(Clone, Copy, Debug, PartialEq, Eq, Structural)]
pub enum Target {
    Host(usize),
    Path(usize),
}

/// What the engine last asked of its driver.
#[derive(Clone, Copy, Debug, PartialEq, Eq, Structural)]
pub enum Stage {
    /// Nothing yet.
    Start,
    /// The sleep before the checks.
    SleepingBefore,
    /// The reset of the timer.
    ResettingTimer,
    /// A probe of the target.
    Probing(Target),
    /// Whether the global timeout has passed, after a failed probe of the
    /// target.
    Checking(Target),
    /// The sleep between two probes of the target.
    Pausing(Target),
    /// The sleep after the checks.
    SleepingAfter,
    /// Nothing more: everything was ready.
    Done,
    /// Nothing more: the time ran out.
    GaveUp,
}

/// What the engine asks its driver to do next.
#[derive(Clone, Copy, Debug, PartialEq, Eq, Structural)]
pub enum Action {
    /// Sleep this long before the first check.
    SleepBefore(u64),
    /// Reset the timer that the global timeout is measured on.
    ResetTimer,
    /// Try to connect to the host at `index`, for at most `timeout`; answer
    /// whether it worked.
    ProbeHost { index: usize, timeout: u64 },
    /// Answer whether the path at `index` exists.
    ProbePath { index: usize },
    /// Answer whether this much time has passed since the timer's reset.
    CheckElapsed(u64),
    /// Sleep this long before the next probe.
    Pause(u64),
    /// Sleep this long once everything is ready.
    SleepAfter(u64),
    /// The time ran out while the target was still unavailable: call the
    /// timeout handler. The wait is over.
    TimeOut(Target),
    /// Everything is ready: run the command, if there is one. The wait is
    /// over.
    Proceed,
}

/// The state of a wait, as the contracts see it.
pub struct WaitModel {
    pub hosts: Seq<Seq<char>>,
    pub paths: Seq<Seq<char>>,
    pub global_timeout: u64,
    pub connect_timeout: u64,
    pub wait_before: u64,
    pub wait_after: u64,
    pub interval: u64,
    pub stage: Stage,
}

/// The state of a wait that has not started yet, for `config`.
pub open spec fn initial(config: Config) -> WaitModel {
    WaitModel {
        hosts: entries(config.hosts@),
        paths: entries(config.paths@),
        global_timeout: config.global_timeout,
        connect_timeout: config.tcp_connection_timeout,
        wait_before: config.wait_before,
        wait_after: config.wait_after,
        interval: config.wait_sleep_interval,
        stage: Stage::Start,
    }
}

/// Whether the wait is over.
pub open spec fn is_over(stage: Stage) -> bool {
    stage is Done || stage is GaveUp
}

/// Whether `t` names an entry of its list.
pub open spec fn is_target(m: WaitModel, t: Target) -> bool {
    match t {
        Target::Host(i) => i < m.hosts.len(),
        Target::Path(i) => i < m.paths.len(),
    }
}

/// Whether both lists can be indexed by a `usize`, and every target that
/// the stage names exists.
pub open spec fn well_formed(m: WaitModel) -> bool {
    &&& m.hosts.len() <= usize::MAX
    &&& m.paths.len() <= usize::MAX
    &&& match m.stage {
        Stage::Probing(t) => is_target(m, t),
        Stage::Checking(t) => is_target(m, t),
        Stage::Pausing(t) => is_target(m, t),
        _ => true,
    }
}

/// The target after `t` in its own list.
pub open spec fn successor(t: Target) -> Target {
    match t {
        Target::Host(i) => Target::Host((i + 1) as usize),
        Target::Path(i) => Target::Path((i + 1) as usize),
    }
}

/// The probe of `t`.
pub open spec fn probe_of(m: WaitModel, t: Target) -> Action {
    match t {
        Target::Host(i) => Action::ProbeHost { index: i, timeout: m.connect_timeout },
        Target::Path(i) => Action::ProbePath { index: i },
    }
}

/// Once every target is ready: the sleep after, where there is one, else
/// the end.
pub open spec fn finish(m: WaitModel) -> (Stage, Action) {
    if m.wait_after > 0 {
        (Stage::SleepingAfter, Action::SleepAfter(m.wait_after))
    } else {
        (Stage::Done, Action::Proceed)
    }
}

/// Moving on to `t`: hosts in order, then paths in order, then the end.
pub open spec fn enter(m: WaitModel, t: Target) -> (Stage, Action) {
    match t {
        Target::Host(i) => if i < m.hosts.len() {
            (Stage::Probing(t), probe_of(m, t))
        } else if m.paths.len() > 0 {
            (Stage::Probing(Target::Path(0)), probe_of(m, Target::Path(0)))
        } else {
            finish(m)
        },
        Target::Path(i) => if i < m.paths.len() {
            (Stage::Probing(t), probe_of(m, t))
        } else {
            finish(m)
        },
    }
}

/// The next stage and action of the wait in state `m`, given the answer to
/// the last action (which only a probe and an elapsed check have).
pub open spec fn next(m: WaitModel, answer: bool) -> (Stage, Action) {
    match m.stage {
        Stage::Start => if m.wait_before > 0 {
            (Stage::SleepingBefore, Action::SleepBefore(m.wait_before))
        } else {
            (Stage::ResettingTimer, Action::ResetTimer)
        },
        Stage::SleepingBefore => (Stage::ResettingTimer, Action::ResetTimer),
        Stage::ResettingTimer => enter(m, Target::Host(0)),
        Stage::Probing(t) => if answer {
            enter(m, successor(t))
        } else {
            (Stage::Checking(t), Action::CheckElapsed(m.global_timeout))
        },
        Stage::Checking(t) => if answer {
            (Stage::GaveUp, Action::TimeOut(t))
        } else {
            (Stage::Pausing(t), Action::Pause(m.interval))
        },
        Stage::Pausing(t) => (Stage::Probing(t), probe_of(m, t)),
        Stage::SleepingAfter => (Stage::Done, Action::Proceed),
        Stage::Done => (Stage::Done, Action::Proceed),
        Stage::GaveUp => (Stage::GaveUp, Action::Proceed),
    }
}

/// `m` moved to `stage`.
pub open spec fn at_stage(m: WaitModel, stage: Stage) -> WaitModel {
    WaitModel { stage, ..m }
}

/// The actions of a wait from state `m` on, when its driver gives the
/// answers in order: `answers[0]` answers the action before the first, and
/// each later one the action before it. It ends where the wait is over or
/// the answers run out.
pub open spec fn trace(m: WaitModel, answers: Seq<bool>) -> Seq<Action>
    decreases answers.len(),
{
    if answers.len() == 0 || is_over(m.stage) {
        Seq::empty()
    } else {
        let (stage, action) = next(m, answers[0]);
        seq![action] + trace(at_stage(m, stage), answers.drop_first())
    }
}

/// The state of one wait.
pub struct WaitEngine {
    hosts: Vec<String>,
    paths: Vec<String>,
    global_timeout: u64,
    connect_timeout: u64,
    wait_before: u64,
    wait_after: u64,
    interval: u64,
    stage: Stage,
}

impl View for WaitEngine {
    type V = WaitModel;

    closed spec fn view(&self) -> WaitModel {
        WaitModel {
            hosts: views(self.hosts@),
            paths: views(self.paths@),
            global_timeout: self.global_timeout,
            connect_timeout: self.connect_timeout,
            wait_before: self.wait_before,
            wait_after: self.wait_after,
            interval: self.interval,
            stage: self.stage,
        }
    }
}

impl WaitEngine {
    /// A wait for `config` that has not started yet.
    pub fn new(config: &Config) -> (e: WaitEngine)
        ensures
            e@ == initial(*config),
            well_formed(e@),
    {
        let hosts = split_list(config.hosts.as_str());
        let paths = split_list(config.paths.as_str());
        // The length of each list is a `usize`.
        assert(hosts.len() <= usize::MAX && paths.len() <= usize::MAX);
        WaitEngine {
            hosts,
            paths,
            global_timeout: config.global_timeout,
            connect_timeout: config.tcp_connection_timeout,
            wait_before: config.wait_before,
            wait_after: config.wait_after,
            interval: config.wait_sleep_interval,
            stage: Stage::Start,
        }
    }

    /// The host at `index`, trimmed.
    pub fn host(&self, index: usize) -> (r: &String)
        requires
            index < self@.hosts.len(),
        ensures
            r@ == self@.hosts[index as int],
    {
        &self.hosts[index]
    }

    /// The path at `index`, trimmed.
    pub fn path(&self, index: usize) -> (r: &String)
        requires
            index < self@.paths.len(),
        ensures
            r@ == self@.paths[index as int],
    {
        &self.paths[index]
    }

    /// What the engine last asked for.
    pub fn stage(&self) -> (r: Stage)
        ensures
            r == self@.stage,
    {
        self.stage
    }

    /// Whether the wait is over.
    pub fn is_over(&self) -> (r: bool)
        ensures
            r == is_over(self@.stage),
    {
        matches!(self.stage, Stage::Done | Stage::GaveUp)
    }

    fn probe(&self, t: Target) -> (a: Action)
        ensures
            a == probe_of(self@, t),
    {
        match t {
            Target::Host(i) => Action::ProbeHost { index: i, timeout: self.connect_timeout },
            Target::Path(i) => Action::ProbePath { index: i },
        }
    }

    fn finish(&self) -> (r: (Stage, Action))
        ensures
            r == finish(self@),
    {
        if self.wait_after > 0 {
            (Stage::SleepingAfter, Action::SleepAfter(self.wait_after))
        } else {
            (Stage::Done, Action::Proceed)
        }
    }

    fn enter(&self, t: Target) -> (r: (Stage, Action))
        ensures
            r == enter(self@, t),
    {
        match t {
            Target::Host(i) => if i < self.hosts.len() {
                (Stage::Probing(t), self.probe(t))
            } else if self.paths.len() > 0 {
                (Stage::Probing(Target::Path(0)), self.probe(Target::Path(0)))
            } else {
                self.finish()
            },
            Target::Path(i) => if i < self.paths.len() {
                (Stage::Probing(t), self.probe(t))
            } else {
                self.finish()
            },
        }
    }

    /// Takes the answer to the last action (a probe's result, or whether the
    /// timeout has elapsed; ignored after any other action) and returns the
    /// next action.
    pub fn step(&mut self, answer: bool) -> (a: Action)
        requires
            well_formed(old(self)@),
            !is_over(old(self)@.stage),
        ensures
            (final(self)@.stage, a) == next(old(self)@, answer),
            final(self)@ == at_stage(old(self)@, final(self)@.stage),
            well_formed(final(self)@),
    {
        assert(self@.hosts.len() == self.hosts@.len() && self@.paths.len() == self.paths@.len());
        let (stage, action) = match self.stage {
            Stage::Start => if self.wait_before > 0 {
                (Stage::SleepingBefore, Action::SleepBefore(self.wait_before))
            } else {
                (Stage::ResettingTimer, Action::ResetTimer)
            },
            Stage::SleepingBefore => (Stage::ResettingTimer, Action::ResetTimer),
            Stage::ResettingTimer => self.enter(Target::Host(0)),
            Stage::Probing(t) => if answer {
                let after = match t {
                    Target::Host(i) => {
                        let n = self.hosts.len();
                        assert(i < n);
                        Target::Host(i + 1)
                    },
                    Target::Path(i) => {
                        let n = self.paths.len();
                        assert(i < n);
                        Target::Path(i + 1)
                    },
                };
                self.enter(after)
            } else {
                (Stage::Checking(t), Action::CheckElapsed(self.global_timeout))
            },
            Stage::Checking(t) => if answer {
                (Stage::GaveUp, Action::TimeOut(t))
            } else {
                (Stage::Pausing(t), Action::Pause(self.interval))
            },
            Stage::Pausing(t) => (Stage::Probing(t), self.probe(t)),
            Stage::SleepingAfter => (Stage::Done, Action::Proceed),
            Stage::Done => (Stage::Done, Action::Proceed),
            Stage::GaveUp => (Stage::GaveUp, Action::Proceed),
        };
        self.stage = stage;
        action
    }
}

} // verus!
