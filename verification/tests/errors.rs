use court_admin::error::{internal_error, CourtError};

#[test]
fn business_error_codes_are_negative_one() {
    assert_eq!(CourtError::DuplicateName.code(), -1);
    assert_eq!(CourtError::PendingOrders.code(), -1);
    assert_eq!(CourtError::NotFound.code(), -1);
}

#[test]
fn business_error_messages() {
    assert_eq!(CourtError::DuplicateName.message(), "duplicate court name");
    assert_eq!(CourtError::PendingOrders.message(), "court has pending orders");
    assert_eq!(CourtError::NotFound.message(), "court does not exist");
}

#[test]
fn business_errors_are_flagged_as_business() {
    assert!(CourtError::DuplicateName.is_business());
    assert!(CourtError::PendingOrders.is_business());
    assert!(CourtError::NotFound.is_business());
}

#[test]
fn internal_error_carries_a_correlation_id_only() {
    let e = internal_error();
    assert_eq!(e.code(), -2);
    assert!(!e.is_business());
    match &e {
        CourtError::Internal(id) => {
            assert_eq!(id.len(), 36);
            assert_eq!(id.chars().filter(|c| *c == '-').count(), 4);
            assert_eq!(e.message(), *id);
        }
        other => panic!("expected an internal error, got {:?}", other),
    }
}

#[test]
fn correlation_ids_are_fresh_per_failure() {
    let a = internal_error();
    let b = internal_error();
    match (a, b) {
        (CourtError::Internal(ida), CourtError::Internal(idb)) => assert_ne!(ida, idb),
        _ => panic!("expected internal errors"),
    }
}
