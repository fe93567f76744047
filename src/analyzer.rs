use vstd::prelude::*;
use crate::performance::{analyze_subject_performance, capped_forecast, per_subject, predict_future_scores};
use crate::ranking::{bucket_count, find_optimal_study_times, lemma_rank_unique, top_times};
use crate::recommend::{advice_for, advises, generate_recommendations, Advice, Recommendation};
use crate::session::{total_retention, total_understanding, valid_sessions, StudySession};
use crate::trend::{
    calculate_weekly_trend, consistency_of, correlation, correlation_of, efficiency_of,
    improvement_rate_of, weekly_hours_of, StudyTrend,
};

verus! {

/// Why an analysis produced no report.
#[derive(Clone, Copy, PartialEq, Eq, Structural, Debug)]
pub enum AnalysisError {
    /// The session snapshot was empty.
    EmptyDataset,
}

/// The report of one analysis run. Scores and hours are in hundredths.
#[derive(Debug, PartialEq, Eq)]
pub struct StudyAnalysis {
    pub student_id: String,
    pub weekly_trend: StudyTrend,
    /// Mean retention per subject, in order of first appearance.
    pub subject_performance: Vec<(String, u64)>,
    /// Up to two time-of-day labels, best first.
    pub optimal_times: Vec<String>,
    /// Forecast score per subject, in order of first appearance.
    pub predicted_scores: Vec<(String, u64)>,
    pub recommendations: Vec<Recommendation>,
}

/// The rules that fire for snapshot `s`.
pub open spec fn advice_of(s: Seq<StudySession>) -> Seq<Advice> {
    advice_for(weekly_hours_of(s), efficiency_of(s), consistency_of(s), correlation_of(s))
}

/// `a` is the report on snapshot `s` for student `id`.
pub open spec fn is_analysis_of(a: StudyAnalysis, id: Seq<char>, s: Seq<StudySession>) -> bool {
    &&& a.student_id@ == id
    &&& a.weekly_trend.weekly_hours == weekly_hours_of(s)
    &&& a.weekly_trend.efficiency_score == efficiency_of(s)
    &&& a.weekly_trend.consistency_score == consistency_of(s)
    &&& a.weekly_trend.improvement_rate == improvement_rate_of(s)
    &&& per_subject(a.subject_performance@, s, |m: int| m)
    &&& top_times(a.optimal_times@, s)
    &&& per_subject(a.predicted_scores@, s, |m: int| capped_forecast(m))
    &&& advises(a.recommendations@, advice_of(s))
}

/// Two reports agree field for field.
pub open spec fn same_report(a: StudyAnalysis, b: StudyAnalysis) -> bool {
    &&& a.student_id@ == b.student_id@
    &&& a.weekly_trend == b.weekly_trend
    &&& a.subject_performance.deep_view() == b.subject_performance.deep_view()
    &&& a.optimal_times.deep_view() == b.optimal_times.deep_view()
    &&& a.predicted_scores.deep_view() == b.predicted_scores.deep_view()
    &&& a.recommendations.len() == b.recommendations.len()
    &&& forall|i: int|
        0 <= i < a.recommendations.len() ==> {
            &&& (#[trigger] a.recommendations[i]).category@ == b.recommendations[i].category@
            &&& a.recommendations[i].message@ == b.recommendations[i].message@
            &&& a.recommendations[i].confidence == b.recommendations[i].confidence
            &&& a.recommendations[i].impact_score == b.recommendations[i].impact_score
        }
}

/// Analysis is deterministic: two reports on the same snapshot for the same
/// student are identical.
pub proof fn lemma_analysis_deterministic(
    a: StudyAnalysis,
    b: StudyAnalysis,
    id: Seq<char>,
    s: Seq<StudySession>,
)
    requires
        is_analysis_of(a, id, s),
        is_analysis_of(b, id, s),
    ensures
        same_report(a, b),
{
    assert(a.subject_performance.deep_view() =~= b.subject_performance.deep_view());
    assert(a.predicted_scores.deep_view() =~= b.predicted_scores.deep_view());
    if a.optimal_times.len() >= 1 {
        let i = choose|i: int|
            #[trigger] crate::ranking::ranks_first(s, i) && a.optimal_times@[0]@
                == crate::grouping::labels_in_order(s, crate::grouping::Grouping::TimeOfDay)[i];
        let j = choose|i: int|
            #[trigger] crate::ranking::ranks_first(s, i) && b.optimal_times@[0]@
                == crate::grouping::labels_in_order(s, crate::grouping::Grouping::TimeOfDay)[i];
        lemma_rank_unique(s, i, j);
    }
    if a.optimal_times.len() >= 2 {
        let i = choose|i: int|
            #[trigger] crate::ranking::ranks_second(s, i) && a.optimal_times@[1]@
                == crate::grouping::labels_in_order(s, crate::grouping::Grouping::TimeOfDay)[i];
        let j = choose|i: int|
            #[trigger] crate::ranking::ranks_second(s, i) && b.optimal_times@[1]@
                == crate::grouping::labels_in_order(s, crate::grouping::Grouping::TimeOfDay)[i];
        lemma_rank_unique(s, i, j);
    }
    assert(a.optimal_times.deep_view() =~= b.optimal_times.deep_view());
}

/// Every report keeps its bounds: consistency within 0..=100, forecasts at
/// most 95, at most two optimal times and no more than the buckets seen,
/// confidence within 0..=1 and impact within 0..=10.
pub proof fn lemma_report_bounds(a: StudyAnalysis, id: Seq<char>, s: Seq<StudySession>)
    requires
        is_analysis_of(a, id, s),
        valid_sessions(s),
        s.len() >= 1,
    ensures
        a.weekly_trend.consistency_score <= 10000,
        forall|i: int| 0 <= i < a.predicted_scores.len() ==> #[trigger] a.predicted_scores[i].1 <= 9500,
        a.optimal_times.len() <= 2,
        a.optimal_times.len() <= bucket_count(s),
        forall|i: int|
            0 <= i < a.recommendations.len() ==> (#[trigger] a.recommendations[i]).confidence <= 100
                && a.recommendations[i].impact_score <= 1000,
{
    crate::trend::lemma_trend_bounds(s);
    assert forall|i: int| 0 <= i < a.recommendations.len() implies (#[trigger] a.recommendations[i]).confidence <= 100
        && a.recommendations[i].impact_score <= 1000 by {
        assert(crate::recommend::is_advice(a.recommendations[i], advice_of(s)[i]));
    }
    assert forall|i: int| 0 <= i < a.predicted_scores.len() implies #[trigger] a.predicted_scores[i].1 <= 9500 by {
        assert(a.predicted_scores@[i] == a.predicted_scores[i]);
    }
}

/// When weekly hours, efficiency, consistency and correlation all meet
/// their thresholds, the report carries no recommendation.
pub proof fn lemma_no_recommendations_above_thresholds(
    a: StudyAnalysis,
    id: Seq<char>,
    s: Seq<StudySession>,
)
    requires
        is_analysis_of(a, id, s),
        weekly_hours_of(s) >= 1000,
        efficiency_of(s) >= 3000,
        consistency_of(s) >= 7000,
        correlation_of(s) >= 8000,
    ensures
        a.recommendations.len() == 0,
{
    crate::recommend::lemma_no_advice_above_thresholds(
        weekly_hours_of(s),
        efficiency_of(s),
        consistency_of(s),
        correlation_of(s),
    );
}

/// When mean understanding equals mean retention, the learning rule does
/// not fire.
pub proof fn lemma_equal_means_no_learning_advice(s: Seq<StudySession>)
    requires
        s.len() >= 1,
        total_understanding(s) == total_retention(s),
    ensures
        correlation_of(s) == 10000,
        forall|i: int| 0 <= i < advice_of(s).len() ==> advice_of(s)[i] != Advice::Learning,
{
    crate::trend::lemma_equal_means_full_correlation(s);
    let a = if weekly_hours_of(s) < 1000 { seq![Advice::Duration] } else { Seq::empty() };
    let b = if efficiency_of(s) < 3000 { seq![Advice::Efficiency] } else { Seq::empty() };
    let c = if consistency_of(s) < 7000 { seq![Advice::Consistency] } else { Seq::empty() };
    assert(advice_of(s) =~= a + b + c);
}

/// Analyses one student's sessions.
pub struct SmartAnalyzer {
    pub student_data: Vec<StudySession>,
}

impl SmartAnalyzer {
    pub fn new(sessions: Vec<StudySession>) -> (r: Self)
        ensures
            r.student_data@ == sessions@,
    {
        SmartAnalyzer { student_data: sessions }
    }

    /// The full report on the held sessions for `student_id`; fails on an
    /// empty snapshot.
    pub fn generate_comprehensive_analysis(&self, student_id: &str) -> (r: Result<StudyAnalysis, AnalysisError>)
        requires
            valid_sessions(self.student_data@),
        ensures
            self.student_data.len() == 0 <==> r is Err,
            r matches Ok(a) ==> is_analysis_of(a, student_id@, self.student_data@),
    {
        let sessions = &self.student_data;
        if sessions.len() == 0 {
            return Err(AnalysisError::EmptyDataset);
        }
        let weekly_trend = calculate_weekly_trend(sessions);
        let understanding_correlation = correlation(sessions);
        let recommendations = generate_recommendations(
            weekly_trend.weekly_hours,
            weekly_trend.efficiency_score,
            weekly_trend.consistency_score,
            understanding_correlation,
        );
        Ok(StudyAnalysis {
            student_id: student_id.to_string(),
            weekly_trend,
            subject_performance: analyze_subject_performance(sessions),
            optimal_times: find_optimal_study_times(sessions),
            predicted_scores: predict_future_scores(sessions),
            recommendations,
        })
    }
}

} // verus!
