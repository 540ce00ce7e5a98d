use patch_prep::reset::{reset_outcome, ResetError};

#[test]
fn successful_reset_reports_success() {
    assert_eq!(reset_outcome(true), Ok(()));
}

#[test]
fn failed_reset_reports_the_fatal_error() {
    assert_eq!(reset_outcome(false), Err(ResetError::ResetFailed));
}
