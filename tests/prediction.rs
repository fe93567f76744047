use smart_study::planner::StudyPlanner;
use smart_study::predictor::{StudyPredictor, TrainingError};
use smart_study::session::StudySession;

fn session(subject: &str, hours_x100: u32, time_of_day: &str, understanding: u32, retention: u32) -> StudySession {
    StudySession {
        subject: subject.to_string(),
        hours_studied_x100: hours_x100,
        time_of_day: time_of_day.to_string(),
        understanding_score: understanding,
        retention_score: retention,
    }
}

fn trained() -> StudyPredictor {
    let sessions = vec![
        session("m", 100, "evening", 70, 60),
        session("m", 100, "morning", 70, 80),
    ];
    StudyPredictor::train(&sessions).unwrap()
}

#[test]
fn train_learns_baseline_and_best_time() {
    let p = trained();
    assert_eq!(p.avg_retention, 7000);
    assert_eq!(p.best_time, "morning");
}

#[test]
fn train_on_nothing_fails() {
    assert!(matches!(StudyPredictor::train(&Vec::new()), Err(TrainingError::NoSessions)));
}

#[test]
fn what_if_adjustments() {
    let p = trained();
    assert_eq!(p.predict_retention(250, "morning", 80), 8700);
    assert_eq!(p.predict_retention(50, "evening", 70), 6500);
    assert_eq!(p.predict_retention(150, "evening", 72), 7040);
    assert_eq!(p.predict_retention(200, "evening", 70), 7000);
}

#[test]
fn what_if_is_clamped() {
    let p = trained();
    assert_eq!(p.predict_retention(300, "morning", 200), 9500);
    let low = StudyPredictor::train(&vec![session("m", 100, "evening", 20, 20)]).unwrap();
    assert_eq!(low.predict_retention(50, "morning", 0), 3000);
}

#[test]
fn weekly_plan_slots() {
    let planner = StudyPlanner::new(trained());
    let plan = planner.generate_weekly_plan();
    assert_eq!(plan.len(), 35);
    assert_eq!(plan[0].day, 1);
    assert_eq!(plan[0].subject, "Math");
    assert_eq!(plan[0].time_of_day, "afternoon");
    assert_eq!(plan[0].hours_x100, 150);
    assert_eq!(plan[0].predicted_retention, 7100);
    assert_eq!(plan[2].subject, "Programming");
    assert_eq!(plan[2].time_of_day, "morning");
    assert_eq!(plan[2].predicted_retention, 8600);
    assert_eq!(plan[34].day, 7);
    assert_eq!(plan[34].subject, "English");
    assert_eq!(plan[34].hours_x100, 350);
}
