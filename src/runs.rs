//! What holds of every run of the wait engine, whatever its driver answers.
use crate::config::Config;
use crate::engine::{
    at_stage, initial, is_over, next, probe_of, trace, well_formed, Action, Stage, Target,
    WaitModel,
};
use crate::text::{lemma_blank_list_has_no_entries, trimmed};
use vstd::prelude::*;

verus! {

/// The state of a wait started in `m` after `k` steps with these answers.
pub open spec fn state_at(m: WaitModel, answers: Seq<bool>, k: nat) -> WaitModel
    decreases k,
{
    if k == 0 || answers.len() == 0 {
        m
    } else {
        state_at(at_stage(m, next(m, answers[0]).0), answers.drop_first(), (k - 1) as nat)
    }
}

/// The target that an action probes, if it is a probe.
pub open spec fn probed(a: Action) -> Option<Target> {
    match a {
        Action::ProbeHost { index, .. } => Some(Target::Host(index)),
        Action::ProbePath { index } => Some(Target::Path(index)),
        _ => None,
    }
}

/// Where `t` comes in the order of checks: all hosts, then all paths.
pub open spec fn position(m: WaitModel, t: Target) -> int {
    match t {
        Target::Host(i) => i as int,
        Target::Path(i) => m.hosts.len() + i,
    }
}

/// How far the checks have got at `stage`.
pub open spec fn progress(m: WaitModel, stage: Stage) -> int {
    match stage {
        Stage::Start | Stage::SleepingBefore | Stage::ResettingTimer => 0,
        Stage::Probing(t) | Stage::Checking(t) | Stage::Pausing(t) => position(m, t),
        _ => m.hosts.len() + m.paths.len() as int,
    }
}

/// The total of the sleeps that a sequence of actions asks for.
pub open spec fn slept(actions: Seq<Action>) -> int
    decreases actions.len(),
{
    if actions.len() == 0 {
        0
    } else {
        let rest = slept(actions.drop_first());
        match actions[0] {
            Action::SleepBefore(n) => n + rest,
            Action::Pause(n) => n + rest,
            Action::SleepAfter(n) => n + rest,
            _ => rest,
        }
    }
}

/// The run of a wait with no targets: the sleep before (where there is
/// one), the reset of the timer, the sleep after (where there is one), and
/// the end.
pub open spec fn run_without_targets(before: u64, after: u64) -> Seq<Action> {
    (if before > 0 {
        seq![Action::SleepBefore(before)]
    } else {
        Seq::empty()
    }) + seq![Action::ResetTimer] + (if after > 0 {
        seq![Action::SleepAfter(after)]
    } else {
        Seq::empty()
    }) + seq![Action::Proceed]
}

proof fn lemma_fields_kept(m: WaitModel, answers: Seq<bool>, k: nat)
    ensures
        state_at(m, answers, k) == at_stage(m, state_at(m, answers, k).stage),
    decreases k,
{
    if k > 0 && answers.len() > 0 {
        let m1 = at_stage(m, next(m, answers[0]).0);
        lemma_fields_kept(m1, answers.drop_first(), (k - 1) as nat);
    }
}

proof fn lemma_trace_steps(m: WaitModel, answers: Seq<bool>)
    ensures
        trace(m, answers).len() <= answers.len(),
        trace(m, answers).len() < answers.len() ==> is_over(
            state_at(m, answers, trace(m, answers).len()).stage,
        ),
        forall|k: int|
            0 <= k < trace(m, answers).len() ==> {
                &&& !is_over(#[trigger] state_at(m, answers, k as nat).stage)
                &&& trace(m, answers)[k] == next(state_at(m, answers, k as nat), answers[k]).1
                &&& state_at(m, answers, (k + 1) as nat) == at_stage(
                    state_at(m, answers, k as nat),
                    next(state_at(m, answers, k as nat), answers[k]).0,
                )
            },
    decreases answers.len(),
{
    if answers.len() > 0 && !is_over(m.stage) {
        let m1 = at_stage(m, next(m, answers[0]).0);
        let rest = answers.drop_first();
        lemma_trace_steps(m1, rest);
        let tr = trace(m, answers);
        assert(tr == seq![next(m, answers[0]).1] + trace(m1, rest));
        assert forall|k: int| 0 <= k < tr.len() implies {
            &&& !is_over(#[trigger] state_at(m, answers, k as nat).stage)
            &&& tr[k] == next(state_at(m, answers, k as nat), answers[k]).1
            &&& state_at(m, answers, (k + 1) as nat) == at_stage(
                state_at(m, answers, k as nat),
                next(state_at(m, answers, k as nat), answers[k]).0,
            )
        } by {
            if k > 0 {
                assert(state_at(m, answers, k as nat) == state_at(m1, rest, (k - 1) as nat));
                assert(state_at(m, answers, (k + 1) as nat) == state_at(m1, rest, k as nat));
                assert(tr[k] == trace(m1, rest)[k - 1]);
                assert(answers[k] == rest[k - 1]);
            } else {
                assert(state_at(m, answers, 1) == state_at(m1, rest, 0));
            }
        }
        if tr.len() < answers.len() {
            assert(state_at(m, answers, tr.len()) == state_at(m1, rest, trace(m1, rest).len()));
        }
    }
}

proof fn lemma_next_facts(m: WaitModel, answer: bool)
    requires
        well_formed(m),
        !is_over(m.stage),
    ensures
        ({
            let (s, a) = next(m, answer);
            &&& well_formed(at_stage(m, s))
            &&& !(s is Start)
            &&& (s is SleepingBefore ==> m.stage is Start)
            &&& (a is ResetTimer ==> (m.stage is Start && m.wait_before == 0)
                || m.stage is SleepingBefore)
            &&& (a is SleepBefore ==> m.stage is Start && a == Action::SleepBefore(m.wait_before)
                && m.wait_before > 0)
            &&& (m.stage is Start && m.wait_before > 0 ==> a is SleepBefore)
            &&& (s matches Stage::Probing(t) ==> a == probe_of(m, t))
            &&& (probed(a) matches Some(t) ==> s == Stage::Probing(t))
            &&& (s matches Stage::Checking(t) ==> a == Action::CheckElapsed(m.global_timeout)
                && m.stage == Stage::Probing(t) && !answer)
            &&& (a matches Action::TimeOut(t) ==> s is GaveUp && m.stage == Stage::Checking(t)
                && answer)
            &&& (s is GaveUp ==> a is TimeOut)
            &&& (a is SleepAfter ==> s is SleepingAfter)
            &&& (s is SleepingAfter ==> a == Action::SleepAfter(m.wait_after) && m.wait_after > 0)
            &&& (a is Proceed ==> s is Done && (m.stage is SleepingAfter || m.wait_after == 0))
            &&& (s is Done ==> a is Proceed)
            &&& (m.stage is SleepingAfter ==> a is Proceed)
            &&& progress(m, m.stage) <= progress(m, s)
            &&& (answer ==> (m.stage matches Stage::Probing(t) ==> position(m, t) < progress(m, s)))
            &&& (!answer ==> (m.stage matches Stage::Probing(t) ==> s == Stage::Checking(t)))
            &&& (m.stage matches Stage::Checking(t) ==> s == Stage::Pausing(t) || s is GaveUp)
            &&& (m.stage matches Stage::Pausing(t) ==> s == Stage::Probing(t))
        }),
{
}

proof fn lemma_run_invariant(m: WaitModel, answers: Seq<bool>, k: nat)
    requires
        m.stage is Start,
        well_formed(m),
        k <= trace(m, answers).len(),
    ensures
        well_formed(state_at(m, answers, k)),
        k >= 1 ==> !(state_at(m, answers, k).stage is Start),
        state_at(m, answers, k).stage is SleepingBefore ==> k == 1,
        forall|j: nat|
            j <= k ==> progress(m, #[trigger] state_at(m, answers, j).stage) <= progress(
                m,
                state_at(m, answers, k).stage,
            ),
    decreases k,
{
    lemma_trace_steps(m, answers);
    lemma_fields_kept(m, answers, k);
    if k > 0 {
        let p = (k - 1) as nat;
        lemma_run_invariant(m, answers, p);
        lemma_fields_kept(m, answers, p);
        let mp = state_at(m, answers, p);
        assert(!is_over(mp.stage));
        lemma_next_facts(mp, answers[p as int]);
        assert(state_at(m, answers, k) == at_stage(mp, next(mp, answers[p as int]).0));
        assert(progress(mp, mp.stage) == progress(m, mp.stage));
    }
}

/// A wait whose host and path lists are empty or all whitespace never times
/// out: it sleeps before, resets its timer, sleeps after and ends, and all it
/// sleeps is the sleep before and the sleep after.
pub proof fn lemma_no_targets(config: Config, answers: Seq<bool>)
    requires
        trimmed(config.hosts@).len() == 0,
        trimmed(config.paths@).len() == 0,
        answers.len() >= 4,
    ensures
        trace(initial(config), answers) == run_without_targets(
            config.wait_before,
            config.wait_after,
        ),
        slept(trace(initial(config), answers)) == config.wait_before + config.wait_after,
        forall|k: int|
            0 <= k < trace(initial(config), answers).len() ==> !(trace(
                initial(config),
                answers,
            )[k] is TimeOut),
{
    let m = initial(config);
    let tr = trace(m, answers);
    lemma_blank_list_has_no_entries(config.hosts@);
    lemma_blank_list_has_no_entries(config.paths@);
    reveal_with_fuel(trace, 5);
    reveal_with_fuel(slept, 5);
    assert(tr =~= run_without_targets(config.wait_before, config.wait_after));
}

proof fn lemma_at(m: WaitModel, answers: Seq<bool>, k: int)
    requires
        m.stage is Start,
        well_formed(m),
        0 <= k < trace(m, answers).len(),
    ensures
        k < answers.len(),
        well_formed(state_at(m, answers, k as nat)),
        !is_over(state_at(m, answers, k as nat).stage),
        trace(m, answers)[k] == next(state_at(m, answers, k as nat), answers[k]).1,
        state_at(m, answers, (k + 1) as nat) == at_stage(
            state_at(m, answers, k as nat),
            next(state_at(m, answers, k as nat), answers[k]).0,
        ),
        state_at(m, answers, k as nat) == at_stage(m, state_at(m, answers, k as nat).stage),
        k == 0 <==> state_at(m, answers, k as nat).stage is Start,
        state_at(m, answers, k as nat).stage is SleepingBefore ==> k == 1,
{
    lemma_trace_steps(m, answers);
    lemma_run_invariant(m, answers, k as nat);
    lemma_fields_kept(m, answers, k as nat);
    assert(state_at(m, answers, k as nat) == state_at(m, answers, k as nat));
}

/// A timeout comes at most once, and last: it follows a failed probe of the
/// target it names and a check of the global timeout that came back true,
/// and a wait that times out never sleeps after.
pub proof fn lemma_timeout_is_last(m: WaitModel, answers: Seq<bool>)
    requires
        m.stage is Start,
        well_formed(m),
    ensures
        forall|k: int|
            0 <= k < trace(m, answers).len() && #[trigger] trace(m, answers)[k] is TimeOut ==> {
                &&& k == trace(m, answers).len() - 1
                &&& k >= 2
                &&& trace(m, answers)[k - 1] == Action::CheckElapsed(m.global_timeout)
                &&& answers[k]
                &&& probed(trace(m, answers)[k - 2]) == Some(trace(m, answers)[k]->TimeOut_0)
                &&& forall|j: int|
                    0 <= j < trace(m, answers).len() ==> !(#[trigger] trace(m, answers)[j] is SleepAfter)
            },
{
    let tr = trace(m, answers);
    lemma_trace_steps(m, answers);
    assert forall|k: int| 0 <= k < tr.len() && #[trigger] tr[k] is TimeOut implies {
        &&& k == tr.len() - 1
        &&& k >= 2
        &&& tr[k - 1] == Action::CheckElapsed(m.global_timeout)
        &&& answers[k]
        &&& probed(tr[k - 2]) == Some(tr[k]->TimeOut_0)
        &&& forall|j: int| 0 <= j < tr.len() ==> !(#[trigger] tr[j] is SleepAfter)
    } by {
        let t = tr[k]->TimeOut_0;
        lemma_at(m, answers, k);
        let sk = state_at(m, answers, k as nat);
        lemma_next_facts(sk, answers[k]);
        if k + 1 < tr.len() {
            lemma_at(m, answers, k + 1);
        }
        lemma_at(m, answers, k - 1);
        let s1 = state_at(m, answers, (k - 1) as nat);
        lemma_next_facts(s1, answers[k - 1]);
        lemma_at(m, answers, k - 2);
        let s2 = state_at(m, answers, (k - 2) as nat);
        lemma_next_facts(s2, answers[k - 2]);
        assert forall|j: int| 0 <= j < tr.len() implies !(#[trigger] tr[j] is SleepAfter) by {
            if tr[j] is SleepAfter {
                lemma_at(m, answers, j);
                lemma_next_facts(state_at(m, answers, j as nat), answers[j]);
                lemma_at(m, answers, j + 1);
                lemma_next_facts(state_at(m, answers, (j + 1) as nat), answers[j + 1]);
                if j + 2 < tr.len() {
                    lemma_at(m, answers, j + 2);
                }
            }
        }
    }
}

/// The timer is reset once, right after the sleep before (or first, where
/// there is none), and never again: the global timeout covers all hosts and
/// paths together, measured from that one reset.
pub proof fn lemma_single_reset(m: WaitModel, answers: Seq<bool>)
    requires
        m.stage is Start,
        well_formed(m),
    ensures
        ({
            let tr = trace(m, answers);
            let r = if m.wait_before > 0 {
                1int
            } else {
                0int
            };
            &&& forall|k: int| 0 <= k < tr.len() ==> (#[trigger] tr[k] is ResetTimer <==> k == r)
            &&& forall|k: int|
                0 <= k < tr.len() && k < r ==> #[trigger] tr[k] == Action::SleepBefore(
                    m.wait_before,
                )
        }),
{
    let tr = trace(m, answers);
    let r = if m.wait_before > 0 {
        1int
    } else {
        0int
    };
    assert forall|k: int| 0 <= k < tr.len() implies (#[trigger] tr[k] is ResetTimer <==> k == r)
        && (k < r ==> tr[k] == Action::SleepBefore(m.wait_before)) by {
        lemma_at(m, answers, k);
        lemma_next_facts(state_at(m, answers, k as nat), answers[k]);
        if k >= 1 {
            lemma_at(m, answers, k - 1);
            lemma_next_facts(state_at(m, answers, (k - 1) as nat), answers[k - 1]);
        }
    }
}

/// Where every check of the global timeout comes back false (every target
/// became ready in time), the wait never times out, and where it ends it
/// ends ready, right after the sleep after where there is one.
pub proof fn lemma_ready_in_time(m: WaitModel, answers: Seq<bool>)
    requires
        m.stage is Start,
        well_formed(m),
        forall|k: int|
            0 <= k < trace(m, answers).len() && #[trigger] trace(m, answers)[k] is CheckElapsed
                && k + 1 < answers.len() ==> !answers[k + 1],
    ensures
        forall|k: int|
            0 <= k < trace(m, answers).len() ==> !(#[trigger] trace(m, answers)[k] is TimeOut),
        forall|k: int|
            0 <= k < trace(m, answers).len() && #[trigger] trace(m, answers)[k] is Proceed ==> {
                &&& k == trace(m, answers).len() - 1
                &&& m.wait_after > 0 ==> k >= 1 && trace(m, answers)[k - 1] == Action::SleepAfter(
                    m.wait_after,
                )
            },
        trace(m, answers).len() < answers.len() ==> trace(m, answers).len() > 0 && trace(
            m,
            answers,
        ).last() is Proceed,
{
    let tr = trace(m, answers);
    lemma_trace_steps(m, answers);
    lemma_timeout_is_last(m, answers);
    assert forall|k: int| 0 <= k < tr.len() implies !(#[trigger] tr[k] is TimeOut) by {
        if tr[k] is TimeOut {
            assert(tr[k - 1] is CheckElapsed);
        }
    }
    assert forall|k: int| 0 <= k < tr.len() && #[trigger] tr[k] is Proceed implies {
        &&& k == tr.len() - 1
        &&& m.wait_after > 0 ==> k >= 1 && tr[k - 1] == Action::SleepAfter(m.wait_after)
    } by {
        lemma_at(m, answers, k);
        lemma_next_facts(state_at(m, answers, k as nat), answers[k]);
        if k + 1 < tr.len() {
            lemma_at(m, answers, k + 1);
        }
        if k >= 1 {
            lemma_at(m, answers, k - 1);
            lemma_next_facts(state_at(m, answers, (k - 1) as nat), answers[k - 1]);
        }
    }
    if tr.len() < answers.len() {
        if tr.len() == 0 {
            assert(state_at(m, answers, 0) == m);
        } else {
            let k = tr.len() - 1;
            lemma_at(m, answers, k);
            lemma_next_facts(state_at(m, answers, k as nat), answers[k]);
        }
    }
}

/// Targets are checked in order, hosts before paths, and a target that was
/// found ready is never checked again.
pub proof fn lemma_targets_in_order(m: WaitModel, answers: Seq<bool>)
    requires
        m.stage is Start,
        well_formed(m),
    ensures
        forall|j: int, k: int|
            0 <= j < k < trace(m, answers).len() && #[trigger] probed(trace(m, answers)[j]) is Some
                && #[trigger] probed(trace(m, answers)[k]) is Some ==> {
                &&& position(m, probed(trace(m, answers)[j])->0) <= position(
                    m,
                    probed(trace(m, answers)[k])->0,
                )
                &&& answers[j + 1] ==> position(m, probed(trace(m, answers)[j])->0) < position(
                    m,
                    probed(trace(m, answers)[k])->0,
                )
            },
{
    let tr = trace(m, answers);
    assert forall|j: int, k: int|
        0 <= j < k < tr.len() && #[trigger] probed(tr[j]) is Some && #[trigger] probed(
            tr[k],
        ) is Some implies {
        &&& position(m, probed(tr[j])->0) <= position(m, probed(tr[k])->0)
        &&& answers[j + 1] ==> position(m, probed(tr[j])->0) < position(m, probed(tr[k])->0)
    } by {
        lemma_at(m, answers, j);
        lemma_next_facts(state_at(m, answers, j as nat), answers[j]);
        lemma_at(m, answers, j + 1);
        let sj1 = state_at(m, answers, (j + 1) as nat);
        lemma_next_facts(sj1, answers[j + 1]);
        lemma_at(m, answers, k);
        lemma_next_facts(state_at(m, answers, k as nat), answers[k]);
        lemma_trace_steps(m, answers);
        lemma_run_invariant(m, answers, (k + 1) as nat);
        lemma_fields_kept(m, answers, (k + 1) as nat);
        lemma_fields_kept(m, answers, (j + 2) as nat);
        assert(progress(m, state_at(m, answers, (j + 2) as nat).stage) <= progress(
            m,
            state_at(m, answers, (k + 1) as nat).stage,
        ));
        assert(progress(m, state_at(m, answers, (j + 1) as nat).stage) <= progress(
            m,
            state_at(m, answers, (k + 1) as nat).stage,
        ));
    }
}

proof fn lemma_stuck_stages(m: WaitModel, answers: Seq<bool>, j: int, t: Target, k: int)
    requires
        m.stage is Start,
        well_formed(m),
        0 <= j < trace(m, answers).len(),
        probed(trace(m, answers)[j]) == Some(t),
        forall|i: int|
            j <= i < trace(m, answers).len() && #[trigger] probed(trace(m, answers)[i]) == Some(t)
                && i + 1 < answers.len() ==> !answers[i + 1],
        j < k <= trace(m, answers).len(),
    ensures
        ({
            let s = state_at(m, answers, k as nat).stage;
            ||| s == Stage::Probing(t) && probed(trace(m, answers)[k - 1]) == Some(t)
            ||| s == Stage::Checking(t)
            ||| s == Stage::Pausing(t)
            ||| s is GaveUp
        }),
    decreases k - j,
{
    let tr = trace(m, answers);
    lemma_at(m, answers, k - 1);
    let sp = state_at(m, answers, (k - 1) as nat);
    lemma_next_facts(sp, answers[k - 1]);
    if k - 1 > j {
        lemma_stuck_stages(m, answers, j, t, k - 1);
        if sp.stage == Stage::Probing(t) {
            assert(probed(tr[k - 2]) == Some(t));
            assert(!answers[k - 1]);
        }
    }
}

/// A target whose probes all fail is never left but by a timeout that names
/// it: after its first failed probe the wait only checks the timer, pauses,
/// and probes it again, and where the wait ends it ends by that one timeout.
pub proof fn lemma_unreachable_target(m: WaitModel, answers: Seq<bool>, j: int)
    requires
        m.stage is Start,
        well_formed(m),
        0 <= j < trace(m, answers).len(),
        probed(trace(m, answers)[j]) is Some,
        forall|i: int|
            j <= i < trace(m, answers).len() && #[trigger] probed(trace(m, answers)[i]) == probed(
                trace(m, answers)[j],
            ) && i + 1 < answers.len() ==> !answers[i + 1],
    ensures
        forall|k: int|
            j < k < trace(m, answers).len() ==> {
                ||| #[trigger] trace(m, answers)[k] == Action::CheckElapsed(m.global_timeout)
                ||| trace(m, answers)[k] == Action::Pause(m.interval)
                ||| probed(trace(m, answers)[k]) == probed(trace(m, answers)[j])
                ||| trace(m, answers)[k] == Action::TimeOut(probed(trace(m, answers)[j])->0)
            },
        trace(m, answers).len() < answers.len() ==> trace(m, answers).last() == Action::TimeOut(
            probed(trace(m, answers)[j])->0,
        ),
{
    let tr = trace(m, answers);
    let t = probed(tr[j])->0;
    assert forall|k: int| j < k < tr.len() implies {
        ||| #[trigger] tr[k] == Action::CheckElapsed(m.global_timeout)
        ||| tr[k] == Action::Pause(m.interval)
        ||| probed(tr[k]) == probed(tr[j])
        ||| tr[k] == Action::TimeOut(t)
    } by {
        lemma_stuck_stages(m, answers, j, t, k);
        lemma_at(m, answers, k);
        let sk = state_at(m, answers, k as nat);
        lemma_next_facts(sk, answers[k]);
        if sk.stage == Stage::Probing(t) {
            assert(!answers[k]);
        }
        if sk.stage == Stage::Pausing(t) {
            assert(probed(probe_of(sk, t)) == Some(t));
        }
    }
    if tr.len() < answers.len() {
        let k = tr.len() - 1;
        lemma_trace_steps(m, answers);
        lemma_at(m, answers, k);
        let sk = state_at(m, answers, k as nat);
        lemma_next_facts(sk, answers[k]);
        if k > j {
            lemma_stuck_stages(m, answers, j, t, k);
            if sk.stage == Stage::Probing(t) {
                assert(!answers[k]);
            }
        }
    }
}

} // verus!
