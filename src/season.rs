use vstd::prelude::*;

use crate::tipping::SquiggleMatch;

verus! {

/// Where a round of the season stands.
#[derive(Debug, Clone, Copy, PartialEq, Eq, Structural)]
pub enum RoundState {
    /// No match of the round has a status yet.
    NotStarted,
    /// Some match has a status, but not every match is at full time.
    InProgress,
    /// Some match has a status and every match is at full time.
    Complete,
}

/// The status a record carries once its result is final.
pub open spec fn full_time_label() -> Seq<char> {
    "Full Time"@
}

/// Whether a record's result is final.
pub open spec fn is_full_time(m: SquiggleMatch) -> bool {
    m.timestr matches Some(s) && s@ == full_time_label()
}

/// Whether some match of round `r` has a status.
pub open spec fn round_started(ms: Seq<SquiggleMatch>, r: int) -> bool {
    exists|i: int| 0 <= i < ms.len() && ms[i].round == r && #[trigger] ms[i].timestr is Some
}

/// Whether every match of round `r` is at full time.
pub open spec fn round_finished(ms: Seq<SquiggleMatch>, r: int) -> bool {
    forall|i: int| 0 <= i < ms.len() && ms[i].round == r ==> #[trigger] is_full_time(ms[i])
}

/// The state of round `r` within the season `ms`.
pub open spec fn round_state_of(ms: Seq<SquiggleMatch>, r: int) -> RoundState {
    if !round_started(ms, r) {
        RoundState::NotStarted
    } else if round_finished(ms, r) {
        RoundState::Complete
    } else {
        RoundState::InProgress
    }
}

/// The highest round number of the season, or -1 where there is none of at
/// least -1.
pub open spec fn last_round(ms: Seq<SquiggleMatch>) -> int
    decreases ms.len(),
{
    if ms.len() == 0 {
        -1
    } else {
        let rest = last_round(ms.drop_last());
        if ms.last().round > rest {
            ms.last().round as int
        } else {
            rest
        }
    }
}

proof fn lemma_last_round_floor(ms: Seq<SquiggleMatch>)
    ensures
        last_round(ms) >= -1,
        last_round(ms) <= i32::MAX,
    decreases ms.len(),
{
    if ms.len() > 0 {
        lemma_last_round_floor(ms.drop_last());
    }
}

/// Whether `s` is the text that marks a final result.
fn is_full_time_status(s: &String) -> (r: bool)
    ensures
        r == (s@ == full_time_label()),
{
    let label = "Full Time".to_string();
    *s == label
}

/// The state of round `r`, read from every record of the season.
pub fn round_state(ms: &Vec<SquiggleMatch>, r: i64) -> (st: RoundState)
    ensures
        st == round_state_of(ms@, r as int),
{
    let mut started = false;
    let mut finished = true;
    let mut i: usize = 0;
    while i < ms.len()
        invariant
            i <= ms@.len(),
            started == exists|j: int|
                0 <= j < i && ms@[j].round == r && #[trigger] ms@[j].timestr is Some,
            finished == forall|j: int|
                0 <= j < i && ms@[j].round == r ==> #[trigger] is_full_time(ms@[j]),
        decreases ms@.len() - i,
    {
        let m = &ms[i];
        if m.round as i64 == r {
            match &m.timestr {
                Some(s) => {
                    started = true;
                    if !is_full_time_status(s) {
                        finished = false;
                    }
                },
                None => {
                    finished = false;
                },
            }
        }
        assert(finished == forall|j: int|
            0 <= j < i + 1 && ms@[j].round == r ==> #[trigger] is_full_time(ms@[j])) by {
            if m.round as i64 == r && !is_full_time(ms@[i as int]) {
                assert(!finished);
            }
        }
        i += 1;
    }
    if !started {
        RoundState::NotStarted
    } else if finished {
        RoundState::Complete
    } else {
        RoundState::InProgress
    }
}

/// The highest round number of the season (see `last_round`).
pub fn season_last_round(ms: &Vec<SquiggleMatch>) -> (r: i64)
    ensures
        r == last_round(ms@),
{
    let mut best: i64 = -1;
    let mut i: usize = 0;
    while i < ms.len()
        invariant
            i <= ms@.len(),
            best == last_round(ms@.take(i as int)),
        decreases ms@.len() - i,
    {
        assert(ms@.take(i as int + 1).drop_last() == ms@.take(i as int));
        if ms[i].round as i64 > best {
            best = ms[i].round as i64;
        }
        i += 1;
    }
    assert(ms@.take(ms@.len() as int) == ms@);
    best
}

/// What the season run does with one match record.
#[derive(Debug, Clone, Copy, PartialEq, Eq, Structural)]
pub struct Step {
    /// Position of the record in the season's list.
    pub index: usize,
    /// The rating engine learns the result and the margin calibrator records it.
    pub update: bool,
    /// The prediction counts towards the season's performance.
    pub score: bool,
    /// The prediction is handed out as a tip.
    pub tip: bool,
    /// The match opens its round, so its margin error is also the headline error.
    pub headline: bool,
}

/// How many of the first `n` records belong to round `r`.
pub open spec fn count_in_round(ms: Seq<SquiggleMatch>, r: int, n: int) -> nat
    decreases n,
{
    if n <= 0 {
        0
    } else if ms[n - 1].round == r {
        count_in_round(ms, r, n - 1) + 1
    } else {
        count_in_round(ms, r, n - 1)
    }
}

/// The step for record `i`, a match of round `r`.
pub open spec fn step_for(ms: Seq<SquiggleMatch>, r: int, i: int) -> Step {
    let st = round_state_of(ms, r);
    Step {
        index: i as usize,
        update: is_full_time(ms[i]),
        score: st == RoundState::Complete,
        tip: st == RoundState::InProgress,
        headline: st == RoundState::Complete && count_in_round(ms, r, i) == 0,
    }
}

/// The steps for the matches of round `r` among the first `n` records, in
/// the order of the records.
pub open spec fn round_steps(ms: Seq<SquiggleMatch>, r: int, n: int) -> Seq<Step>
    decreases n,
{
    if n <= 0 {
        seq![]
    } else if ms[n - 1].round == r {
        round_steps(ms, r, n - 1).push(step_for(ms, r, n - 1))
    } else {
        round_steps(ms, r, n - 1)
    }
}

/// The steps from round `r` on: rounds in increasing order up to `last`,
/// stopping before a round that has not started and after one in progress.
pub open spec fn plan_from(ms: Seq<SquiggleMatch>, r: int, last: int) -> Seq<Step>
    decreases last + 1 - r,
{
    if r > last {
        seq![]
    } else {
        match round_state_of(ms, r) {
            RoundState::NotStarted => seq![],
            RoundState::InProgress => round_steps(ms, r, ms.len() as int),
            RoundState::Complete => round_steps(ms, r, ms.len() as int) + plan_from(
                ms,
                r + 1,
                last,
            ),
        }
    }
}

/// The steps of a season run, from round 0 to the last round.
pub open spec fn planned(ms: Seq<SquiggleMatch>) -> Seq<Step> {
    plan_from(ms, 0, last_round(ms))
}

/// Appends to `steps` the steps for the matches of round `r`, whose state is `st`.
fn push_round_steps(ms: &Vec<SquiggleMatch>, r: i64, st: RoundState, steps: &mut Vec<Step>)
    requires
        st == round_state_of(ms@, r as int),
    ensures
        final(steps)@ == old(steps)@ + round_steps(ms@, r as int, ms@.len() as int),
{
    let mut seen: usize = 0;
    let mut i: usize = 0;
    while i < ms.len()
        invariant
            i <= ms@.len(),
            st == round_state_of(ms@, r as int),
            seen == count_in_round(ms@, r as int, i as int),
            seen <= i,
            steps@ == old(steps)@ + round_steps(ms@, r as int, i as int),
        decreases ms@.len() - i,
    {
        if ms[i].round as i64 == r {
            let update = match &ms[i].timestr {
                Some(s) => is_full_time_status(s),
                None => false,
            };
            let step = Step {
                index: i,
                update,
                score: st == RoundState::Complete,
                tip: st == RoundState::InProgress,
                headline: st == RoundState::Complete && seen == 0,
            };
            steps.push(step);
            seen += 1;
        }
        i += 1;
    }
}

/// The steps of a season run over `ms`: rounds are taken from 0 upwards,
/// each round's records in their order. The run stops at the first round
/// that has not started, and after the first round in progress.
pub fn plan_season(ms: &Vec<SquiggleMatch>) -> (steps: Vec<Step>)
    ensures
        steps@ == planned(ms@),
{
    let last = season_last_round(ms);
    proof {
        lemma_last_round_floor(ms@);
    }
    let mut steps: Vec<Step> = Vec::new();
    let mut r: i64 = 0;
    while r <= last
        invariant_except_break
            0 <= r <= last + 1,
            last == last_round(ms@),
            steps@ + plan_from(ms@, r as int, last as int) == planned(ms@),
        ensures
            steps@ == planned(ms@),
        decreases last + 1 - r,
    {
        let st = round_state(ms, r);
        let ghost before = steps@;
        if st == RoundState::NotStarted {
            assert(plan_from(ms@, r as int, last as int) =~= seq![]);
            assert(steps@ =~= steps@ + plan_from(ms@, r as int, last as int));
            break;
        }
        push_round_steps(ms, r, st, &mut steps);
        if st == RoundState::InProgress {
            assert(steps@ =~= before + plan_from(ms@, r as int, last as int));
            break;
        }
        assert(steps@ + plan_from(ms@, r + 1, last as int) =~= before + plan_from(
            ms@,
            r as int,
            last as int,
        ));
        r += 1;
    }
    proof {
        if r > last {
            assert(steps@ =~= steps@ + plan_from(ms@, r as int, last as int));
        }
    }
    steps
}

proof fn lemma_round_steps_shape(ms: Seq<SquiggleMatch>, r: int, n: int)
    requires
        0 <= n <= ms.len() <= usize::MAX,
    ensures
        forall|k: int|
            0 <= k < round_steps(ms, r, n).len() ==> {
                let s = #[trigger] round_steps(ms, r, n)[k];
                &&& 0 <= s.index < n
                &&& ms[s.index as int].round == r
                &&& s == step_for(ms, r, s.index as int)
            },
    decreases n,
{
    if n > 0 {
        lemma_round_steps_shape(ms, r, n - 1);
        let prev = round_steps(ms, r, n - 1);
        if ms[n - 1].round == r {
            assert forall|k: int| 0 <= k < round_steps(ms, r, n).len() implies {
                let s = #[trigger] round_steps(ms, r, n)[k];
                &&& 0 <= s.index < n
                &&& ms[s.index as int].round == r
                &&& s == step_for(ms, r, s.index as int)
            } by {
                if k < prev.len() {
                    assert(round_steps(ms, r, n)[k] == prev[k]);
                }
            }
        }
    }
}

proof fn lemma_plan_from_shape(ms: Seq<SquiggleMatch>, r: int, last: int)
    requires
        ms.len() <= usize::MAX,
    ensures
        forall|k: int|
            0 <= k < plan_from(ms, r, last).len() ==> {
                let s = #[trigger] plan_from(ms, r, last)[k];
                let rr = ms[s.index as int].round as int;
                &&& 0 <= s.index < ms.len()
                &&& r <= rr <= last
                &&& s == step_for(ms, rr, s.index as int)
                &&& round_state_of(ms, rr) != RoundState::NotStarted
                &&& forall|r2: int| r <= r2 < rr ==> #[trigger] round_state_of(ms, r2) == RoundState::Complete
            },
    decreases last + 1 - r,
{
    if r <= last {
        let n = ms.len() as int;
        lemma_round_steps_shape(ms, r, n);
        match round_state_of(ms, r) {
            RoundState::NotStarted => {},
            RoundState::InProgress => {},
            RoundState::Complete => {
                lemma_plan_from_shape(ms, r + 1, last);
                let head = round_steps(ms, r, n);
                let tail = plan_from(ms, r + 1, last);
                assert forall|k: int| 0 <= k < plan_from(ms, r, last).len() implies {
                    let s = #[trigger] plan_from(ms, r, last)[k];
                    let rr = ms[s.index as int].round as int;
                    &&& 0 <= s.index < ms.len()
                    &&& r <= rr <= last
                    &&& s == step_for(ms, rr, s.index as int)
                    &&& round_state_of(ms, rr) != RoundState::NotStarted
                    &&& forall|r2: int| r <= r2 < rr ==> #[trigger] round_state_of(ms, r2) == RoundState::Complete
                } by {
                    if k >= head.len() {
                        assert(plan_from(ms, r, last)[k] == tail[k - head.len()]);
                    } else {
                        assert(plan_from(ms, r, last)[k] == head[k]);
                    }
                }
            },
        }
    }
}

/// A season run updates the rating engine only with matches whose status is
/// "Full Time", and with every such match it takes up.
pub proof fn lemma_updates_only_full_time(ms: Seq<SquiggleMatch>)
    requires
        ms.len() <= usize::MAX,
    ensures
        forall|k: int|
            0 <= k < planned(ms).len() ==> (#[trigger] planned(ms)[k]).update == is_full_time(
                ms[planned(ms)[k].index as int],
            ),
{
    lemma_plan_from_shape(ms, 0, last_round(ms));
}

/// A season run halts at the first round that has not started: every step
/// belongs to a round that has started, all rounds before it are complete,
/// and a step hands out a tip exactly when its round has started but is not
/// complete.
pub proof fn lemma_halts_at_first_unstarted_round(ms: Seq<SquiggleMatch>)
    requires
        ms.len() <= usize::MAX,
    ensures
        forall|k: int|
            0 <= k < planned(ms).len() ==> {
                let s = #[trigger] planned(ms)[k];
                let rr = ms[s.index as int].round as int;
                &&& round_state_of(ms, rr) != RoundState::NotStarted
                &&& forall|r2: int| 0 <= r2 < rr ==> #[trigger] round_state_of(ms, r2) == RoundState::Complete
                &&& s.tip == (round_state_of(ms, rr) == RoundState::InProgress)
                &&& s.score == (round_state_of(ms, rr) == RoundState::Complete)
            },
{
    lemma_plan_from_shape(ms, 0, last_round(ms));
}

} // verus!
