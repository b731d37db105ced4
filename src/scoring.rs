use vstd::prelude::*;

verus! {

/// Largest margin error a single match can add: a predicted margin plus an
/// observed one, each a `u32`.
pub const MAX_MATCH_ERROR: i64 = 0x1_ffff_fffe;

/// Size of the margin calibrator's log beyond which the season run refits it.
pub const REFIT_THRESHOLD: usize = 25;

/// Margin error of one scored match: the predicted margin against a draw, the
/// gap to the observed margin after a correct pick, and the two margins added
/// after a wrong one.
pub open spec fn match_error(draw: bool, correct: bool, predicted: u32, actual: u32) -> int {
    if draw {
        predicted as int
    } else if correct {
        if predicted >= actual {
            predicted - actual
        } else {
            actual - predicted
        }
    } else {
        predicted + actual
    }
}

/// The integer part of a season's performance.
#[derive(Debug, Clone, Copy, PartialEq, Eq, Structural)]
pub struct SeasonTally {
    /// Matches whose pick was correct; a draw counts as correct.
    pub total: u32,
    /// Matches scored.
    pub num_games: u32,
    /// Margin error summed over the first match of each scored round.
    pub error_margin: i64,
    /// Margin error summed over every scored match.
    pub mae: i64,
}

impl SeasonTally {
    /// A tally with nothing scored.
    pub fn new() -> (r: SeasonTally)
        ensures
            r == (SeasonTally { total: 0, num_games: 0, error_margin: 0, mae: 0 }),
    {
        SeasonTally { total: 0, num_games: 0, error_margin: 0, mae: 0 }
    }

    /// Whether one more match can be scored without leaving the counters' types.
    pub open spec fn can_record(&self) -> bool {
        &&& self.num_games < u32::MAX
        &&& self.total < u32::MAX
        &&& self.mae <= i64::MAX - MAX_MATCH_ERROR
        &&& self.error_margin <= i64::MAX - MAX_MATCH_ERROR
    }

    /// Whether one more match can be scored (see `can_record`).
    pub fn has_room(&self) -> (r: bool)
        ensures
            r == self.can_record(),
    {
        self.num_games < u32::MAX && self.total < u32::MAX && self.mae <= i64::MAX
            - MAX_MATCH_ERROR && self.error_margin <= i64::MAX - MAX_MATCH_ERROR
    }

    /// Scores one match of a completed round and returns its margin error.
    /// `headline` marks the first match of the round.
    pub fn record(
        &mut self,
        draw: bool,
        correct: bool,
        predicted_margin: u32,
        actual_margin: u32,
        headline: bool,
    ) -> (err: i64)
        requires
            old(self).can_record(),
        ensures
            err == match_error(draw, correct, predicted_margin, actual_margin),
            final(self).num_games == old(self).num_games + 1,
            final(self).total == old(self).total + if draw || correct {
                1int
            } else {
                0int
            },
            final(self).mae == old(self).mae + err,
            final(self).error_margin == old(self).error_margin + if headline {
                err as int
            } else {
                0int
            },
    {
        let p = predicted_margin as i64;
        let a = actual_margin as i64;
        let err: i64 = if draw {
            p
        } else if correct {
            if p >= a {
                p - a
            } else {
                a - p
            }
        } else {
            p + a
        };
        self.num_games = self.num_games + 1;
        if draw || correct {
            self.total = self.total + 1;
        }
        self.mae = self.mae + err;
        if headline {
            self.error_margin = self.error_margin + err;
        }
        err
    }
}

/// Whether a margin calibrator whose log holds `observations` entries is due
/// to be refitted.
pub fn refit_due(observations: usize) -> (r: bool)
    ensures
        r == (observations > REFIT_THRESHOLD),
{
    observations > REFIT_THRESHOLD
}

/// Margin error of one logged observation, given the margin that the
/// calibrator predicts for it: the gap to the observed margin when the pick was
/// correct, the two added when it was not.
pub open spec fn observation_error(predicted: i32, margin: u32, correct: bool) -> int {
    let d = if correct {
        predicted - margin
    } else {
        predicted + margin
    };
    if d >= 0 {
        d
    } else {
        -d
    }
}

/// Margin error summed over the first `n` observations.
pub open spec fn total_margin_error(
    predicted: Seq<i32>,
    margins: Seq<u32>,
    correct: Seq<bool>,
    n: int,
) -> int
    decreases n,
{
    if n <= 0 {
        0
    } else {
        total_margin_error(predicted, margins, correct, n - 1) + observation_error(
            predicted[n - 1],
            margins[n - 1],
            correct[n - 1],
        )
    }
}

/// Number of observations of a log held as three parallel lists.
pub open spec fn log_len(predicted: Seq<i32>, margins: Seq<u32>, correct: Seq<bool>) -> int {
    let n = if predicted.len() <= margins.len() {
        predicted.len()
    } else {
        margins.len()
    };
    if n <= correct.len() {
        n as int
    } else {
        correct.len() as int
    }
}

proof fn lemma_total_margin_error_bounds(
    predicted: Seq<i32>,
    margins: Seq<u32>,
    correct: Seq<bool>,
    n: int,
)
    requires
        0 <= n <= predicted.len(),
        n <= margins.len(),
        n <= correct.len(),
    ensures
        0 <= total_margin_error(predicted, margins, correct, n) <= n * 0x2_0000_0000,
    decreases n,
{
    if n > 0 {
        lemma_total_margin_error_bounds(predicted, margins, correct, n - 1);
    }
}

/// Total L1 margin error of a calibrator's log, given the margin that the
/// calibrator predicts for each observation. Observations are taken while all
/// three lists have one.
pub fn calculate_margin_error(predicted: &Vec<i32>, margins: &Vec<u32>, correct: &Vec<bool>) -> (r:
    u128)
    ensures
        r == total_margin_error(
            predicted@,
            margins@,
            correct@,
            log_len(predicted@, margins@, correct@),
        ),
{
    let mut n = predicted.len();
    if margins.len() < n {
        n = margins.len();
    }
    if correct.len() < n {
        n = correct.len();
    }
    let mut error: u128 = 0;
    let mut i: usize = 0;
    while i < n
        invariant
            n == log_len(predicted@, margins@, correct@),
            i <= n,
            n <= predicted@.len(),
            n <= margins@.len(),
            n <= correct@.len(),
            error == total_margin_error(predicted@, margins@, correct@, i as int),
        decreases n - i,
    {
        proof {
            lemma_total_margin_error_bounds(predicted@, margins@, correct@, i as int + 1);
            assert((i as int + 1) * 0x2_0000_0000 <= 0x1_0000_0000_0000_0000 * 0x2_0000_0000)
                by (nonlinear_arith)
                requires
                    i < n,
                    n <= usize::MAX,
            ;
        }
        let p = predicted[i] as i64;
        let m = margins[i] as i64;
        let d: i64 = if correct[i] {
            p - m
        } else {
            p + m
        };
        let e: u64 = if d >= 0 {
            d as u64
        } else {
            (-d) as u64
        };
        error = error + e as u128;
        i += 1;
    }
    error
}

} // verus!
