use smart_study::analyzer::{AnalysisError, SmartAnalyzer};
use smart_study::performance::{analyze_subject_performance, predict_future_scores};
use smart_study::ranking::find_optimal_study_times;
use smart_study::recommend::generate_recommendations;
use smart_study::session::StudySession;
use smart_study::trend::{
    calculate_weekly_trend, consistency_score, correlation, efficiency_score, group_by_day,
    improvement_rate, weekly_hours,
};

fn session(subject: &str, hours_x100: u32, time_of_day: &str, understanding: u32, retention: u32) -> StudySession {
    StudySession {
        subject: subject.to_string(),
        hours_studied_x100: hours_x100,
        time_of_day: time_of_day.to_string(),
        understanding_score: understanding,
        retention_score: retention,
    }
}

fn retention_only(scores: &[u32]) -> Vec<StudySession> {
    scores.iter().map(|&r| session("s", 100, "morning", r, r)).collect()
}

#[test]
fn scenario_two_math_sessions() {
    let sessions = vec![
        session("math", 200, "morning", 85, 90),
        session("math", 100, "morning", 85, 90),
    ];
    let report = SmartAnalyzer::new(sessions).generate_comprehensive_analysis("student-1").unwrap();
    assert_eq!(report.student_id, "student-1");
    assert_eq!(report.subject_performance, vec![("math".to_string(), 9000)]);
    assert_eq!(report.weekly_trend.weekly_hours, 300);
    assert_eq!(report.weekly_trend.efficiency_score, 6000);
    assert_eq!(report.weekly_trend.consistency_score, 10000);
    assert_eq!(report.weekly_trend.improvement_rate, 0);
    assert_eq!(report.optimal_times, vec!["morning".to_string()]);
    assert_eq!(report.predicted_scores, vec![("math".to_string(), 9500)]);
    assert_eq!(report.recommendations.len(), 1);
    assert_eq!(report.recommendations[0].category, "duration");
}

#[test]
fn scenario_single_history_session() {
    let sessions = vec![session("hist", 50, "evening", 60, 60)];
    let report = SmartAnalyzer::new(sessions).generate_comprehensive_analysis("s").unwrap();
    assert_eq!(report.weekly_trend.improvement_rate, 0);
    assert_eq!(report.optimal_times, vec!["evening".to_string()]);
}

#[test]
fn scenario_empty_sessions_fail() {
    let analyzer = SmartAnalyzer::new(Vec::new());
    assert!(matches!(
        analyzer.generate_comprehensive_analysis("s"),
        Err(AnalysisError::EmptyDataset)
    ));
}

#[test]
fn scenario_matching_means_full_correlation() {
    let sessions = vec![
        session("art", 100, "morning", 50, 50),
        session("bio", 100, "morning", 90, 90),
    ];
    assert_eq!(correlation(&sessions), 10000);
    let report = SmartAnalyzer::new(sessions).generate_comprehensive_analysis("s").unwrap();
    assert_eq!(
        report.subject_performance,
        vec![("art".to_string(), 5000), ("bio".to_string(), 9000)]
    );
    assert!(report.recommendations.iter().all(|r| r.category != "learning"));
}

#[test]
fn trend_values_stay_in_range() {
    let sessions = vec![
        session("a", 300, "morning", 70, 80),
        session("b", 0, "evening", 60, 40),
        session("c", 1250, "night", 90, 100),
    ];
    let trend = calculate_weekly_trend(&sessions);
    assert!(trend.consistency_score <= 10000);
    assert_eq!(trend.weekly_hours, 1550);
}

#[test]
fn consistency_of_two_buckets_one_hour_apart() {
    // Bucket totals of 3 h and 1 h: sigma is 1 h, so 100 / 2 = 50.
    let sessions = vec![
        session("a", 200, "morning", 50, 50),
        session("a", 100, "morning", 50, 50),
        session("a", 100, "evening", 50, 50),
    ];
    assert_eq!(consistency_score(&sessions), 5000);
}

#[test]
fn consistency_rounds_down() {
    // Totals of 2 h and 0 h: sigma 1 h again; totals 1.5 h and 0.5 h: sigma 0.5 h, 100 / 1.5.
    let sessions = vec![session("a", 150, "morning", 50, 50), session("a", 50, "evening", 50, 50)];
    assert_eq!(consistency_score(&sessions), 6666);
}

#[test]
fn consistency_of_one_bucket_is_full() {
    let sessions = vec![session("a", 700, "noon", 50, 50), session("b", 10, "noon", 50, 50)];
    assert_eq!(consistency_score(&sessions), 10000);
}

#[test]
fn weekly_hours_spread_over_weeks() {
    let sessions: Vec<StudySession> = (0..14).map(|_| session("a", 100, "morning", 50, 50)).collect();
    assert_eq!(weekly_hours(&sessions), 700);
}

#[test]
fn efficiency_floors_hours_at_one() {
    let sessions = vec![session("a", 50, "morning", 50, 60)];
    assert_eq!(efficiency_score(&sessions), 6000);
    let more = vec![session("a", 300, "morning", 50, 100)];
    assert_eq!(efficiency_score(&more), 3333);
}

#[test]
fn improvement_rate_positive() {
    assert_eq!(improvement_rate(&retention_only(&[60, 80, 90, 70])), 1428);
}

#[test]
fn improvement_rate_negative_rounds_down() {
    assert_eq!(improvement_rate(&retention_only(&[80, 60])), -2500);
    assert_eq!(improvement_rate(&retention_only(&[70, 60])), -1429);
}

#[test]
fn improvement_rate_odd_count_uses_true_means() {
    assert_eq!(improvement_rate(&retention_only(&[60, 80, 90])), 4166);
}

#[test]
fn improvement_rate_small_first_mean() {
    // First mean 0 is floored to 1: (50 - 0) / 1 * 100 = 5000 percent.
    assert_eq!(improvement_rate(&retention_only(&[0, 50])), 500000);
}

#[test]
fn correlation_of_gap() {
    let sessions = vec![session("a", 100, "morning", 80, 60)];
    assert_eq!(correlation(&sessions), 8000);
    let uneven = vec![session("a", 100, "morning", 80, 60), session("a", 100, "morning", 81, 60)];
    assert_eq!(correlation(&uneven), 7950);
    let thirds = vec![
        session("a", 100, "morning", 1, 0),
        session("a", 100, "morning", 0, 0),
        session("a", 100, "morning", 0, 0),
    ];
    assert_eq!(correlation(&thirds), 9966);
}

#[test]
fn subject_means_in_first_appearance_order() {
    let sessions = vec![
        session("zoo", 100, "morning", 50, 85),
        session("art", 100, "morning", 50, 70),
        session("zoo", 100, "morning", 50, 90),
        session("zoo", 100, "morning", 50, 90),
    ];
    assert_eq!(
        analyze_subject_performance(&sessions),
        vec![("zoo".to_string(), 8833), ("art".to_string(), 7000)]
    );
}

#[test]
fn subjects_are_case_sensitive() {
    let sessions = vec![session("Math", 100, "morning", 50, 40), session("math", 100, "morning", 50, 60)];
    assert_eq!(analyze_subject_performance(&sessions).len(), 2);
}

#[test]
fn forecasts_are_capped() {
    let sessions = vec![
        session("a", 100, "morning", 50, 93),
        session("b", 100, "morning", 50, 80),
        session("c", 100, "morning", 50, 100),
    ];
    let forecasts = predict_future_scores(&sessions);
    assert_eq!(
        forecasts,
        vec![("a".to_string(), 9500), ("b".to_string(), 8500), ("c".to_string(), 9500)]
    );
    assert!(forecasts.iter().all(|f| f.1 <= 9500));
}

#[test]
fn optimal_times_take_best_two() {
    let sessions = vec![
        session("a", 100, "morning", 50, 60),
        session("a", 100, "afternoon", 50, 90),
        session("a", 100, "evening", 50, 75),
        session("a", 100, "morning", 50, 100),
    ];
    assert_eq!(
        find_optimal_study_times(&sessions),
        vec!["afternoon".to_string(), "morning".to_string()]
    );
}

#[test]
fn optimal_times_ties_go_to_first_seen() {
    let sessions = vec![
        session("a", 100, "evening", 50, 80),
        session("a", 100, "afternoon", 50, 60),
        session("a", 100, "morning", 50, 80),
    ];
    assert_eq!(
        find_optimal_study_times(&sessions),
        vec!["evening".to_string(), "morning".to_string()]
    );
}

#[test]
fn optimal_times_bounded_by_buckets() {
    assert!(find_optimal_study_times(&Vec::new()).is_empty());
    let two = vec![session("a", 100, "x", 50, 10), session("a", 100, "y", 50, 20)];
    assert_eq!(find_optimal_study_times(&two), vec!["y".to_string(), "x".to_string()]);
}

#[test]
fn no_recommendations_when_thresholds_met() {
    let sessions: Vec<StudySession> = (0..4).map(|_| session("a", 250, "morning", 100, 100)).collect();
    let report = SmartAnalyzer::new(sessions).generate_comprehensive_analysis("s").unwrap();
    assert_eq!(report.weekly_trend.weekly_hours, 1000);
    assert_eq!(report.weekly_trend.efficiency_score, 4000);
    assert!(report.recommendations.is_empty());
}

#[test]
fn all_four_rules_fire_in_order() {
    let sessions = vec![session("a", 200, "morning", 100, 10), session("a", 0, "evening", 100, 10)];
    let report = SmartAnalyzer::new(sessions).generate_comprehensive_analysis("s").unwrap();
    let categories: Vec<&str> = report.recommendations.iter().map(|r| r.category.as_str()).collect();
    assert_eq!(categories, vec!["duration", "efficiency", "consistency", "learning"]);
    let confidence: Vec<u64> = report.recommendations.iter().map(|r| r.confidence).collect();
    assert_eq!(confidence, vec![80, 70, 90, 75]);
    let impact: Vec<u64> = report.recommendations.iter().map(|r| r.impact_score).collect();
    assert_eq!(impact, vec![750, 800, 650, 700]);
    assert_eq!(
        report.recommendations[3].message,
        "Work on converting understanding to long-term retention through spaced repetition"
    );
}

#[test]
fn rule_thresholds_are_strict() {
    assert!(generate_recommendations(1000, 3000, 7000, 8000).is_empty());
    let r = generate_recommendations(999, 3000, 6999, 8000);
    assert_eq!(r.len(), 2);
    assert_eq!(r[0].category, "duration");
    assert_eq!(r[1].category, "consistency");
}

#[test]
fn analysis_is_deterministic() {
    let sessions = vec![
        session("a", 120, "evening", 70, 65),
        session("b", 80, "morning", 90, 95),
        session("a", 300, "night", 40, 55),
    ];
    let analyzer = SmartAnalyzer::new(sessions);
    let first = analyzer.generate_comprehensive_analysis("id").unwrap();
    let second = analyzer.generate_comprehensive_analysis("id").unwrap();
    assert_eq!(first.subject_performance, second.subject_performance);
    assert_eq!(first.optimal_times, second.optimal_times);
    assert_eq!(first.predicted_scores, second.predicted_scores);
    assert_eq!(first.weekly_trend.consistency_score, second.weekly_trend.consistency_score);
    assert_eq!(first.weekly_trend.improvement_rate, second.weekly_trend.improvement_rate);
    assert_eq!(first.recommendations.len(), second.recommendations.len());
}

#[test]
fn groups_by_time_of_day() {
    let sessions = vec![
        session("a", 100, "morning", 50, 50),
        session("b", 250, "evening", 50, 70),
        session("c", 50, "morning", 50, 90),
    ];
    let groups = group_by_day(&sessions);
    assert_eq!(groups.len(), 2);
    assert_eq!(groups[0].label, "morning");
    assert_eq!(groups[0].count, 2);
    assert_eq!(groups[0].hours_total, 150);
    assert_eq!(groups[0].retention_total, 140);
    assert_eq!(groups[1].hours_total, 250);
}

#[test]
fn effectiveness_combines_scores() {
    assert_eq!(session("a", 100, "morning", 85, 90).effectiveness_score(), 8800);
}
