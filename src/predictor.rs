use vstd::prelude::*;
use crate::grouping::{labels_in_order, Grouping};
use crate::ranking::{find_optimal_study_times, ranks_first};
use crate::session::{total_retention, valid_sessions, StudySession};
use crate::trend::sum_range;

verus! {

/// Why a predictor could not be trained.
#[derive(Clone, Copy, PartialEq, Eq, Structural, Debug)]
pub enum TrainingError {
    /// There were no sessions to learn from.
    NoSessions,
}

/// The rule-of-thumb what-if predictor: a baseline mean retention and the
/// time of day with the best mean retention.
#[derive(Debug, PartialEq, Eq)]
pub struct StudyPredictor {
    /// Mean retention over the training sessions, in hundredths.
    pub avg_retention: u64,
    pub best_time: String,
}

/// The what-if forecast, in hundredths: the baseline, +10 for more than two
/// hours, -5 for under one hour, +5 at the best time of day, plus
/// `(understanding - 70) / 5`, clamped to 30..=95.
pub open spec fn what_if_score(baseline: int, hours_x100: int, at_best_time: bool, understanding: int) -> int {
    let hours_adj = if hours_x100 > 200 {
        1000int
    } else if hours_x100 < 100 {
        -500int
    } else {
        0int
    };
    let time_adj = if at_best_time {
        500int
    } else {
        0int
    };
    let raw = baseline + hours_adj + time_adj + 20 * (understanding - 70);
    if raw < 3000 {
        3000
    } else if raw > 9500 {
        9500
    } else {
        raw
    }
}

impl StudyPredictor {
    /// The baseline is a retention score.
    pub open spec fn wf(&self) -> bool {
        self.avg_retention <= 10000
    }

    /// Learns the baseline and the best time of day from `sessions`.
    pub fn train(sessions: &Vec<StudySession>) -> (r: Result<StudyPredictor, TrainingError>)
        requires
            valid_sessions(sessions@),
        ensures
            sessions.len() == 0 <==> r is Err,
            r matches Ok(p) ==> {
                &&& p.wf()
                &&& p.avg_retention == 100 * total_retention(sessions@) / (sessions.len() as int)
                &&& exists|i: int|
                    #[trigger] ranks_first(sessions@, i) && p.best_time@ == labels_in_order(
                        sessions@,
                        Grouping::TimeOfDay,
                    )[i]
            },
    {
        let n = sessions.len();
        if n == 0 {
            return Err(TrainingError::NoSessions);
        }
        let (_, retention, _) = sum_range(sessions, 0, n);
        assert(sessions@.subrange(0, n as int) =~= sessions@);
        let avg = 100 * retention / (n as u64);
        proof {
            crate::arith::lemma_div_le_bound((100 * retention) as int, n as int, 10000);
        }
        let best = find_optimal_study_times(sessions);
        assert(best@.len() >= 1 ==> exists|i: int|
            #[trigger] ranks_first(sessions@, i) && best@[0]@ == labels_in_order(
                sessions@,
                Grouping::TimeOfDay,
            )[i]);
        proof {
            crate::grouping::lemma_labels_nonempty(sessions@, Grouping::TimeOfDay);
        }
        Ok(StudyPredictor { avg_retention: avg, best_time: best[0].clone() })
    }

    /// Forecast retention, in hundredths, for a session of `hours_x100`
    /// hundredths of an hour at `time_of_day` with the given understanding.
    pub fn predict_retention(&self, hours_x100: u32, time_of_day: &str, understanding: u32) -> (r: u64)
        requires
            self.wf(),
        ensures
            r == what_if_score(
                self.avg_retention as int,
                hours_x100 as int,
                time_of_day@ == self.best_time@,
                understanding as int,
            ),
            3000 <= r <= 9500,
    {
        let mut score: i64 = self.avg_retention as i64;
        if hours_x100 > 200 {
            score = score + 1000;
        } else if hours_x100 < 100 {
            score = score - 500;
        }
        if time_of_day.to_string() == self.best_time {
            score = score + 500;
        }
        score = score + 20 * (understanding as i64 - 70);
        if score < 3000 {
            3000
        } else if score > 9500 {
            9500
        } else {
            score as u64
        }
    }
}

} // verus!
