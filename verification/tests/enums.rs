use werewolf::models::attempt::{AttemptStatus, LiftType, ParseError};
use werewolf::models::contest::{Contest, ContestStatus as ListedStatus, DbContest, Discipline};
use werewolf::models::contest_state::{ContestState, ContestStatus, DbContestState};
use werewolf::results::RankingType;

#[test]
fn test_lift_type_to_string() {
    assert_eq!(LiftType::Squat.to_string(), "Squat");
    assert_eq!(LiftType::Bench.to_string(), "Bench");
    assert_eq!(LiftType::Deadlift.to_string(), "Deadlift");
}

#[test]
fn test_lift_type_from_str_valid() {
    assert_eq!(LiftType::from_str("Squat"), Ok(LiftType::Squat));
    assert_eq!(LiftType::from_str("Bench"), Ok(LiftType::Bench));
    assert_eq!(LiftType::from_str("Deadlift"), Ok(LiftType::Deadlift));
}

#[test]
fn test_lift_type_from_str_invalid() {
    assert!(LiftType::from_str("invalid").is_err());
    assert!(LiftType::from_str("squat").is_err()); // Case sensitive
    assert!(LiftType::from_str("SQUAT").is_err());
    assert!(LiftType::from_str("").is_err());
}

#[test]
fn test_attempt_status_to_string() {
    assert_eq!(AttemptStatus::Pending.to_string(), "Pending");
    assert_eq!(AttemptStatus::Successful.to_string(), "Successful");
    assert_eq!(AttemptStatus::Failed.to_string(), "Failed");
}

#[test]
fn test_attempt_status_from_str_valid() {
    assert_eq!(AttemptStatus::from_str("Pending"), Ok(AttemptStatus::Pending));
    assert_eq!(AttemptStatus::from_str("Successful"), Ok(AttemptStatus::Successful));
    assert_eq!(AttemptStatus::from_str("Failed"), Ok(AttemptStatus::Failed));
}

#[test]
fn test_attempt_status_from_str_invalid() {
    assert!(AttemptStatus::from_str("invalid").is_err());
    assert!(AttemptStatus::from_str("pending").is_err()); // Case sensitive
    assert!(AttemptStatus::from_str("SUCCESSFUL").is_err());
    assert!(AttemptStatus::from_str("").is_err());
}

#[test]
fn skipped_status_round_trips() {
    assert_eq!(AttemptStatus::Skipped.to_string(), "Skipped");
    assert_eq!(AttemptStatus::from_str("Skipped"), Ok(AttemptStatus::Skipped));
    assert_eq!(AttemptStatus::from_str("Good"), Err(ParseError::VariantNotFound));
}

#[test]
fn every_contest_status_round_trips() {
    let all = [
        ContestStatus::Setup,
        ContestStatus::Registration,
        ContestStatus::InProgress,
        ContestStatus::Paused,
        ContestStatus::Complete,
    ];
    for s in all {
        assert_eq!(ContestStatus::from_str(&s.to_string()), Ok(s));
    }
    assert_eq!(ContestStatus::InProgress.to_string(), "InProgress");
    assert_eq!(ContestStatus::from_str("Completed"), Err(()));
    assert_eq!(ContestStatus::from_str("setup"), Err(()));
}

#[test]
fn listed_contest_names_round_trip() {
    for d in [Discipline::Bench, Discipline::Squat, Discipline::Deadlift, Discipline::Powerlifting] {
        assert_eq!(Discipline::from_str(&d.to_string()), Ok(d));
    }
    for s in [
        ListedStatus::Setup,
        ListedStatus::InProgress,
        ListedStatus::Paused,
        ListedStatus::Completed,
    ] {
        assert_eq!(ListedStatus::from_str(&s.to_string()), Ok(s));
    }
    assert_eq!(Discipline::from_stored("Curling"), Discipline::Powerlifting);
    assert_eq!(Discipline::from_stored("Bench"), Discipline::Bench);
    assert_eq!(ListedStatus::from_stored("Complete"), ListedStatus::Setup);
    assert_eq!(ListedStatus::from_stored("Paused"), ListedStatus::Paused);
}

#[test]
fn ranking_type_names() {
    assert_eq!(RankingType::Open.to_string(), "open");
    assert_eq!(RankingType::Age.to_string(), "age");
    assert_eq!(RankingType::Weight.to_string(), "weight");
}

#[test]
fn stored_contest_state_is_read() {
    let row = DbContestState {
        contest_id: "c1".to_string(),
        status: "InProgress".to_string(),
        current_lift: Some("Bench".to_string()),
        current_round: 2,
    };
    let state = ContestState::try_from(row).unwrap();
    assert_eq!(state.contest_id, "c1");
    assert_eq!(state.status, ContestStatus::InProgress);
    assert_eq!(state.current_lift, Some(LiftType::Bench));
    assert_eq!(state.current_round, 2);
    assert_eq!(state.current_attempt_id, None);
}

#[test]
fn stored_contest_state_with_unknown_lift_has_no_lift() {
    let row = DbContestState {
        contest_id: "c1".to_string(),
        status: "Setup".to_string(),
        current_lift: Some("Curl".to_string()),
        current_round: 1,
    };
    let state = ContestState::try_from(row).unwrap();
    assert_eq!(state.current_lift, None);
}

#[test]
fn stored_contest_state_with_unknown_status_is_refused() {
    let row = DbContestState {
        contest_id: "c1".to_string(),
        status: "Running".to_string(),
        current_lift: None,
        current_round: 1,
    };
    assert!(ContestState::try_from(row).is_err());
}

#[test]
fn stored_contest_row_is_read_with_defaults() {
    let row = |date: &str, discipline: &str, status: &str| DbContest {
        id: "c1".to_string(),
        name: "Open".to_string(),
        date: date.to_string(),
        location: "Gym".to_string(),
        discipline: discipline.to_string(),
        status: status.to_string(),
        federation_rules: Some("IPF".to_string()),
        competition_type: None,
        organizer: None,
        notes: None,
        is_archived: true,
        created_at: "t0".to_string(),
        updated_at: "t1".to_string(),
    };
    let c = Contest::from(row("2024-12-15", "Bench", "Paused"));
    assert_eq!(c.id, "c1");
    assert_eq!(c.name, "Open");
    assert_eq!(c.date, (2024, 12, 15));
    assert_eq!(c.location, "Gym");
    assert_eq!(c.discipline, Discipline::Bench);
    assert_eq!(c.status, ListedStatus::Paused);
    assert_eq!(c.federation_rules.as_deref(), Some("IPF"));
    assert!(c.is_archived);
    assert_eq!(c.created_at, "t0");
    assert_eq!(c.updated_at, "t1");

    let c = Contest::from(row("15.12.2024", "Curling", "Complete"));
    assert_eq!(c.date, (1900, 1, 1));
    assert_eq!(c.discipline, Discipline::Powerlifting);
    assert_eq!(c.status, ListedStatus::Setup);
}
