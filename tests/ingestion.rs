use smart_study::csv_input::{parse_hours_field, parse_score_field, CsvError};
use smart_study::session::StudySession;
use smart_study::models::{LoginRequest, RegisterRequest};
use smart_study::validation::Validation;

const HEADER: &str = "subject,hours_studied,time_of_day,understanding_score,retention_score\n";

#[test]
fn csv_reads_sessions() {
    let text = format!("{}math,2.5,morning,80,90\nhistory,1,evening,60,70\n", HEADER);
    let sessions = StudySession::load_from_csv_content(&text).unwrap();
    assert_eq!(sessions.len(), 2);
    assert_eq!(sessions[0].subject, "math");
    assert_eq!(sessions[0].hours_studied_x100, 250);
    assert_eq!(sessions[0].time_of_day, "morning");
    assert_eq!(sessions[0].understanding_score, 80);
    assert_eq!(sessions[0].retention_score, 90);
    assert_eq!(sessions[1].hours_studied_x100, 100);
}

#[test]
fn csv_columns_in_any_order() {
    let text = "retention_score,extra,subject,time_of_day,hours_studied,understanding_score\n75,x,art,night,0.5,65\n";
    let sessions = StudySession::load_from_csv_content(text).unwrap();
    assert_eq!(sessions[0].subject, "art");
    assert_eq!(sessions[0].retention_score, 75);
    assert_eq!(sessions[0].hours_studied_x100, 50);
}

#[test]
fn csv_without_records_has_no_data() {
    assert_eq!(StudySession::load_from_csv_content(HEADER), Err(CsvError::NoData));
    assert_eq!(StudySession::load_from_csv_content(""), Err(CsvError::NoData));
}

#[test]
fn csv_missing_column() {
    let text = "subject,hours_studied,time_of_day,understanding_score\nmath,1,morning,80\n";
    assert_eq!(
        StudySession::load_from_csv_content(text),
        Err(CsvError::MissingColumn("retention_score".to_string()))
    );
}

#[test]
fn csv_bad_record() {
    let text = format!("{}math,1,morning,80,90\nmath,abc,morning,80,90\n", HEADER);
    assert_eq!(StudySession::load_from_csv_content(&text), Err(CsvError::BadRecord(1)));
    let high = format!("{}math,1,morning,80,101\n", HEADER);
    assert_eq!(StudySession::load_from_csv_content(&high), Err(CsvError::BadRecord(0)));
}

#[test]
fn csv_unreadable() {
    let text = format!("{}math,1,morning\n", HEADER);
    assert_eq!(StudySession::load_from_csv_content(&text), Err(CsvError::Unreadable));
}

#[test]
fn hours_field_grammar() {
    assert_eq!(parse_hours_field("2"), Some(200));
    assert_eq!(parse_hours_field("1.234"), Some(123));
    assert_eq!(parse_hours_field(".5"), Some(50));
    assert_eq!(parse_hours_field("3."), Some(300));
    assert_eq!(parse_hours_field("0.05"), Some(5));
    assert_eq!(parse_hours_field("."), None);
    assert_eq!(parse_hours_field(""), None);
    assert_eq!(parse_hours_field("1.2.3"), None);
    assert_eq!(parse_hours_field("-1"), None);
    assert_eq!(parse_hours_field("42949672.95"), Some(4294967295));
    assert_eq!(parse_hours_field("42949673"), None);
}

#[test]
fn score_field_grammar() {
    assert_eq!(parse_score_field("0"), Some(0));
    assert_eq!(parse_score_field("100"), Some(100));
    assert_eq!(parse_score_field("0100"), Some(100));
    assert_eq!(parse_score_field("101"), None);
    assert_eq!(parse_score_field(""), None);
    assert_eq!(parse_score_field("9x"), None);
}

#[test]
fn email_validation() {
    assert!(Validation::validate_email("user.name+tag@example.co").is_ok());
    assert_eq!(
        Validation::validate_email("user@example"),
        Err("Invalid email format".to_string())
    );
    assert!(Validation::validate_email("@example.com").is_err());
    assert!(Validation::validate_email("a@b.c").is_err());
}

#[test]
fn username_validation() {
    assert!(Validation::validate_username("good_name-1").is_ok());
    assert!(Validation::validate_username("ab").is_err());
    assert!(Validation::validate_username("abcdefghijklmnopqrstu").is_err());
    assert!(Validation::validate_username("bad name").is_err());
}

#[test]
fn password_strength() {
    assert!(Validation::validate_password_strength("Abcdefg1").is_ok());
    assert!(Validation::validate_password_strength("abcdef1!").is_ok());
    assert_eq!(
        Validation::validate_password_strength("abcdefgh"),
        Err("Password must contain at least 3 of: uppercase, lowercase, digits, special characters".to_string())
    );
    assert_eq!(
        Validation::validate_password_strength("Ab1!"),
        Err("Password must be at least 8 characters long".to_string())
    );
}

#[test]
fn password_length_counts_bytes_and_unicode_case() {
    // Six two-byte letters and a digit: 13 bytes, upper, lower and digit.
    assert!(Validation::validate_password_strength("ÄÖÜäöü1").is_ok());
    // Seven characters but eight bytes.
    assert!(Validation::validate_password_strength("Äbcdef1").is_ok());
    assert!(Validation::validate_password_strength("Abcde1").is_err());
}

#[test]
fn password_hash_has_bcrypt_shape() {
    let h = Validation::hash_password("Secret123").unwrap();
    assert_eq!(h.len(), 60);
    assert!(h.starts_with("$2b$12$"));
}

#[test]
fn request_types_hold_fields() {
    let login = LoginRequest { username: "u".to_string(), password: "p".to_string(), remember_me: true };
    assert!(login.remember_me);
    let reg = RegisterRequest { username: "u".to_string(), email: "e@x.io".to_string(), password: "p".to_string() };
    assert!(Validation::validate_email(&reg.email).is_ok());
}
