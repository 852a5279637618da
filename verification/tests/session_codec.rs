use identity_core::session::{
    check_subject, decode_session, issue_session, InvalidReason, SessionOutcome,
};

const SECRET: &str = "test-signing-secret";

#[test]
fn decode_absent_test() {
    assert_eq!(decode_session(SECRET, 0, None), SessionOutcome::Absent);
}

#[test]
fn issue_round_trip_test() {
    let cred = issue_session(SECRET, "TEST_SUB", 2_000);
    let outcome = decode_session(SECRET, 1_000, Some(cred.as_str()));
    assert_eq!(outcome, SessionOutcome::ValidCurrent("TEST_SUB".to_string()));
}

#[test]
fn issue_round_trip_at_expiry_test() {
    // the credential is still good at the very moment it expires
    let cred = issue_session(SECRET, "TEST_SUB", 2_000);
    let outcome = decode_session(SECRET, 2_000, Some(cred.as_str()));
    assert_eq!(outcome, SessionOutcome::ValidCurrent("TEST_SUB".to_string()));
}

#[test]
fn expired_session_test() {
    let cred = issue_session(SECRET, "TEST_SUB", 2_000);
    let outcome = decode_session(SECRET, 2_001, Some(cred.as_str()));
    assert_eq!(
        outcome,
        SessionOutcome::InvalidCurrent(InvalidReason::Expired)
    );
}

#[test]
fn tampered_tag_test() {
    let cred = issue_session(SECRET, "TEST_SUB", 2_000);
    let mut chars: Vec<char> = cred.chars().collect();
    let last = chars.len() - 1;
    chars[last] = if chars[last] == '0' { '1' } else { '0' };
    let tampered: String = chars.into_iter().collect();
    let outcome = decode_session(SECRET, 1_000, Some(tampered.as_str()));
    assert_eq!(
        outcome,
        SessionOutcome::InvalidCurrent(InvalidReason::BadSignature)
    );
}

#[test]
fn tampered_subject_test() {
    let cred = issue_session(SECRET, "TEST_SUB", 2_000);
    let tampered = cred.replacen("TEST_SUB", "TEST_SUC", 1);
    let outcome = decode_session(SECRET, 1_000, Some(tampered.as_str()));
    assert_eq!(
        outcome,
        SessionOutcome::InvalidCurrent(InvalidReason::BadSignature)
    );
}

#[test]
fn wrong_secret_test() {
    let cred = issue_session(SECRET, "TEST_SUB", 2_000);
    let outcome = decode_session("another-secret", 1_000, Some(cred.as_str()));
    assert_eq!(
        outcome,
        SessionOutcome::InvalidCurrent(InvalidReason::BadSignature)
    );
}

#[test]
fn legacy_prefix_test() {
    let outcome = decode_session(SECRET, 1_000, Some("v1.TEST_SUB"));
    assert_eq!(outcome, SessionOutcome::LegacyRejected);
}

#[test]
fn legacy_bare_subject_test() {
    let outcome = decode_session(SECRET, 1_000, Some("TEST_SUB"));
    assert_eq!(outcome, SessionOutcome::LegacyRejected);
}

#[test]
fn malformed_short_test() {
    let outcome = decode_session(SECRET, 1_000, Some("v2.not-a-real-credential"));
    assert_eq!(
        outcome,
        SessionOutcome::InvalidCurrent(InvalidReason::Malformed)
    );
}

#[test]
fn malformed_empty_test() {
    let outcome = decode_session(SECRET, 1_000, Some(""));
    assert_eq!(
        outcome,
        SessionOutcome::InvalidCurrent(InvalidReason::Malformed)
    );
}

#[test]
fn malformed_bad_hex_test() {
    // right separators and length, but the numeric fields are not hex
    let cred = format!("v2.SUB.{}.{}", "z".repeat(16), "z".repeat(8));
    let outcome = decode_session(SECRET, 1_000, Some(cred.as_str()));
    assert_eq!(
        outcome,
        SessionOutcome::InvalidCurrent(InvalidReason::Malformed)
    );
}

#[test]
fn malformed_dotted_garbage_test() {
    let outcome = decode_session(SECRET, 1_000, Some("a.b"));
    assert_eq!(
        outcome,
        SessionOutcome::InvalidCurrent(InvalidReason::Malformed)
    );
}

#[test]
fn check_subject_test() {
    assert!(check_subject("TEST_SUB"));
    assert!(!check_subject(""));
    assert!(!check_subject("a.b"));
}
