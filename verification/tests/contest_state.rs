use werewolf::error::AppError;
use werewolf::models::attempt::{Attempt, AttemptStatus, LiftType};
use werewolf::models::contest_state::{ContestState, ContestStatus};
use werewolf::tracker::{
    attempt_set_current, contest_state_update, get_current_attempt,
    validate_contest_state_transition,
};

fn state(status: ContestStatus) -> ContestState {
    ContestState {
        contest_id: "c1".to_string(),
        status,
        current_lift: Some(LiftType::Squat),
        current_round: 1,
        current_attempt_id: None,
    }
}

fn attempt(id: &str) -> Attempt {
    Attempt {
        id: id.to_string(),
        registration_id: "r1".to_string(),
        lift_type: LiftType::Squat,
        attempt_number: 1,
        weight: 100_000,
        status: AttemptStatus::Pending,
    }
}

#[test]
fn test_valid_contest_state_transitions() {
    // Valid forward transitions
    assert!(validate_contest_state_transition(&ContestStatus::Setup, &ContestStatus::Registration).is_ok());
    assert!(validate_contest_state_transition(&ContestStatus::Registration, &ContestStatus::InProgress).is_ok());
    assert!(validate_contest_state_transition(&ContestStatus::InProgress, &ContestStatus::Paused).is_ok());
    assert!(validate_contest_state_transition(&ContestStatus::InProgress, &ContestStatus::Complete).is_ok());
    assert!(validate_contest_state_transition(&ContestStatus::Paused, &ContestStatus::InProgress).is_ok());

    // Same state transitions (idempotent)
    assert!(validate_contest_state_transition(&ContestStatus::Setup, &ContestStatus::Setup).is_ok());
    assert!(validate_contest_state_transition(&ContestStatus::Registration, &ContestStatus::Registration).is_ok());
    assert!(validate_contest_state_transition(&ContestStatus::InProgress, &ContestStatus::InProgress).is_ok());
    assert!(validate_contest_state_transition(&ContestStatus::Paused, &ContestStatus::Paused).is_ok());
    assert!(validate_contest_state_transition(&ContestStatus::Complete, &ContestStatus::Complete).is_ok());
}

#[test]
fn test_invalid_contest_state_transitions() {
    // Invalid backward transitions
    assert!(validate_contest_state_transition(&ContestStatus::Registration, &ContestStatus::Setup).is_err());
    assert!(validate_contest_state_transition(&ContestStatus::InProgress, &ContestStatus::Registration).is_err());
    assert!(validate_contest_state_transition(&ContestStatus::Complete, &ContestStatus::InProgress).is_err());
    assert!(validate_contest_state_transition(&ContestStatus::Complete, &ContestStatus::Setup).is_err());

    // Invalid skip transitions
    assert!(validate_contest_state_transition(&ContestStatus::Setup, &ContestStatus::InProgress).is_err());
    assert!(validate_contest_state_transition(&ContestStatus::Setup, &ContestStatus::Complete).is_err());
    assert!(validate_contest_state_transition(&ContestStatus::Registration, &ContestStatus::Paused).is_err());
    assert!(validate_contest_state_transition(&ContestStatus::Registration, &ContestStatus::Complete).is_err());
}

#[test]
fn test_contest_state_transition_error_messages() {
    let result = validate_contest_state_transition(&ContestStatus::Complete, &ContestStatus::Setup);
    assert!(result.is_err());

    match result.unwrap_err() {
        AppError::InvalidInput { field, reason } => {
            assert_eq!(field, "status");
            assert!(reason.contains("Cannot transition from Complete to Setup"));
        }
        _ => panic!("Expected InvalidInput error"),
    }
}

#[test]
fn refused_transition_text_is_exact() {
    let err = validate_contest_state_transition(&ContestStatus::Paused, &ContestStatus::Complete)
        .unwrap_err();
    assert_eq!(
        err.to_string(),
        "Invalid input: status - Cannot transition from Paused to Complete"
    );
}

#[test]
fn every_pair_follows_the_state_machine() {
    let all = [
        ContestStatus::Setup,
        ContestStatus::Registration,
        ContestStatus::InProgress,
        ContestStatus::Paused,
        ContestStatus::Complete,
    ];
    let mut allowed = 0;
    for a in all {
        for b in all {
            if validate_contest_state_transition(&a, &b).is_ok() {
                allowed += 1;
            }
        }
    }
    assert_eq!(allowed, 10);
}

#[test]
fn first_state_of_a_contest_is_stored_unchecked() {
    let stored = contest_state_update(None, state(ContestStatus::Complete)).unwrap();
    assert_eq!(stored.status, ContestStatus::Complete);
}

#[test]
fn state_update_is_held_against_the_stored_state() {
    let current = state(ContestStatus::Complete);
    assert!(contest_state_update(Some(&current), state(ContestStatus::Setup)).is_err());
    let current = state(ContestStatus::Setup);
    let stored = contest_state_update(Some(&current), state(ContestStatus::Registration)).unwrap();
    assert_eq!(stored.status, ContestStatus::Registration);
    assert_eq!(stored.contest_id, "c1");
}

#[test]
fn current_attempt_needs_a_contest_in_progress() {
    let attempts = vec![attempt("a1")];
    for status in [
        ContestStatus::Setup,
        ContestStatus::Registration,
        ContestStatus::Paused,
        ContestStatus::Complete,
    ] {
        let r = attempt_set_current(Some(state(status)), &attempts, "c1", "a1");
        assert!(matches!(r, Err(AppError::ContestNotInProgress)));
    }
}

#[test]
fn current_attempt_needs_a_contest_state() {
    let attempts = vec![attempt("a1")];
    match attempt_set_current(None, &attempts, "c9", "a1") {
        Err(AppError::ContestStateNotFound { contest_id }) => assert_eq!(contest_id, "c9"),
        other => panic!("unexpected: {:?}", other),
    }
}

#[test]
fn current_attempt_must_exist() {
    let attempts = vec![attempt("a1")];
    match attempt_set_current(Some(state(ContestStatus::InProgress)), &attempts, "c1", "a2") {
        Err(AppError::AttemptNotFound { id }) => assert_eq!(id, "a2"),
        other => panic!("unexpected: {:?}", other),
    }
}

#[test]
fn current_attempt_is_set_and_read_back() {
    let attempts = vec![attempt("a1"), attempt("a2")];
    let s = attempt_set_current(Some(state(ContestStatus::InProgress)), &attempts, "c1", "a2")
        .unwrap();
    assert_eq!(s.current_attempt_id.as_deref(), Some("a2"));
    assert_eq!(s.status, ContestStatus::InProgress);
    assert_eq!(s.current_lift, Some(LiftType::Squat));
    assert_eq!(s.current_round, 1);
    let on_deck = get_current_attempt(&s, &attempts).unwrap();
    assert_eq!(on_deck.id, "a2");
    assert!(get_current_attempt(&state(ContestStatus::InProgress), &attempts).is_none());
}
