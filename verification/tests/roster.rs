use werewolf::competitors::{
    competitor_create, competitor_move_order, create_competitor, create_competitor_with_id,
    get_all_competitors, move_competitor_order,
};
use werewolf::error::AppError;
use werewolf::models::competitor::{Competitor, CompetitorCreate, CreateCompetitorRequest};
use werewolf::models::registration::{Registration, RegistrationCreate};
use werewolf::registrations::{
    get_registrations_by_contest, registration_create, registration_from_parts,
};

fn request(name: &str) -> CreateCompetitorRequest {
    CreateCompetitorRequest {
        first_name: name.to_string(),
        last_name: "Test".to_string(),
        birth_date: "1990-01-01".to_string(),
        gender: "Male".to_string(),
        club: None,
        city: Some("Lublin".to_string()),
        notes: None,
        photo_base64: None,
        photo_filename: None,
    }
}

fn list(count: usize) -> Vec<Competitor> {
    let mut competitors = Vec::new();
    for i in 1..=count {
        create_competitor_with_id(&mut competitors, format!("id{}", i), request(&format!("C{}", i)));
    }
    competitors
}

fn orders(competitors: &Vec<Competitor>) -> Vec<i64> {
    competitors.iter().map(|c| c.competition_order).collect()
}

#[test]
fn new_competitors_are_put_at_the_end() {
    let competitors = list(3);
    assert_eq!(orders(&competitors), vec![1, 2, 3]);
    assert_eq!(competitors[1].id, "id2");
    assert_eq!(competitors[1].first_name, "C2");
    assert_eq!(competitors[1].last_name, "Test");
    assert_eq!(competitors[1].birth_date, "1990-01-01");
    assert_eq!(competitors[1].gender, "Male");
    assert_eq!(competitors[1].club, None);
    assert_eq!(competitors[1].city.as_deref(), Some("Lublin"));
}

#[test]
fn new_competitor_follows_the_highest_order() {
    let mut competitors = list(2);
    competitors[0].competition_order = 40;
    assert!(create_competitor(&mut competitors, request("late")));
    assert_eq!(orders(&competitors), vec![40, 2, 41]);
    assert!(!competitors[2].id.is_empty());

    let mut negative = list(1);
    negative[0].competition_order = -7;
    assert!(create_competitor(&mut negative, request("x")));
    assert_eq!(orders(&negative), vec![-7, -6]);
}

#[test]
fn no_competitor_is_added_past_the_last_order() {
    let mut competitors = list(1);
    competitors[0].competition_order = i64::MAX;
    assert!(!create_competitor(&mut competitors, request("x")));
    assert_eq!(competitors.len(), 1);
}

#[test]
fn moving_first_to_last() {
    let mut competitors = list(5);
    move_competitor_order(&mut competitors, "id1", 5).unwrap();
    assert_eq!(orders(&competitors), vec![5, 1, 2, 3, 4]);
    let sorted: Vec<String> = get_all_competitors(&competitors).into_iter().map(|c| c.id).collect();
    assert_eq!(sorted, vec!["id2", "id3", "id4", "id5", "id1"]);
}

#[test]
fn moving_last_to_first() {
    let mut competitors = list(5);
    move_competitor_order(&mut competitors, "id5", 1).unwrap();
    assert_eq!(orders(&competitors), vec![2, 3, 4, 5, 1]);
}

#[test]
fn moving_within_the_middle() {
    let mut competitors = list(5);
    move_competitor_order(&mut competitors, "id3", 2).unwrap();
    assert_eq!(orders(&competitors), vec![1, 3, 2, 4, 5]);
    assert_eq!(competitors[2].first_name, "C3");
}

#[test]
fn moving_to_the_same_place_changes_nothing() {
    let mut competitors = list(3);
    move_competitor_order(&mut competitors, "id2", 2).unwrap();
    assert_eq!(orders(&competitors), vec![1, 2, 3]);
}

#[test]
fn moving_outside_the_list_is_refused() {
    let mut competitors = list(3);
    let text = |r: Result<(), AppError>| match r {
        Err(AppError::ValidationError(t)) => t,
        other => panic!("unexpected: {:?}", other),
    };
    for bad in [0, -1, i64::MIN] {
        assert_eq!(
            text(competitor_move_order(&mut competitors, "id2", bad)),
            "Order must be greater than 0"
        );
    }
    assert_eq!(
        text(competitor_move_order(&mut competitors, "id2", 4)),
        "Order 4 exceeds total number of competitors (3)"
    );
    assert_eq!(
        text(competitor_move_order(&mut competitors, "id2", i64::MAX)),
        "Order 9223372036854775807 exceeds total number of competitors (3)"
    );
    assert_eq!(orders(&competitors), vec![1, 2, 3]);
    // the place is looked at before the competitor is
    assert_eq!(
        text(competitor_move_order(&mut competitors, "id9", 0)),
        "Order must be greater than 0"
    );
    assert_eq!(
        text(competitor_move_order(&mut Vec::new(), "id9", 1)),
        "Order 1 exceeds total number of competitors (0)"
    );
}

#[test]
fn moving_on_request_within_the_list() {
    let mut competitors = list(3);
    competitor_move_order(&mut competitors, "id1", 3).unwrap();
    assert_eq!(orders(&competitors), vec![3, 1, 2]);
    competitor_move_order(&mut competitors, "id1", 1).unwrap();
    assert_eq!(orders(&competitors), vec![1, 2, 3]);
}

#[test]
fn moving_an_unknown_competitor_is_refused() {
    let mut competitors = list(3);
    match move_competitor_order(&mut competitors, "id9", 2) {
        Err(AppError::CompetitorNotFound { id }) => assert_eq!(id, "id9"),
        other => panic!("unexpected: {:?}", other),
    }
    assert!(matches!(
        competitor_move_order(&mut competitors, "id9", 2),
        Err(AppError::CompetitorNotFound { .. })
    ));
    assert_eq!(orders(&competitors), vec![1, 2, 3]);
}

#[test]
fn moving_without_a_check_accepts_any_place() {
    let mut competitors = list(3);
    move_competitor_order(&mut competitors, "id1", 10).unwrap();
    assert_eq!(orders(&competitors), vec![10, 1, 2]);
    move_competitor_order(&mut competitors, "id1", -4).unwrap();
    assert_eq!(orders(&competitors), vec![-4, 2, 3]);
}

#[test]
fn desk_entry_leaves_club_city_and_notes_empty() {
    let mut competitors = list(2);
    let added = competitor_create(
        &mut competitors,
        CompetitorCreate {
            first_name: "Jan".to_string(),
            last_name: "Kowalski".to_string(),
            birth_date: "1999-04-03".to_string(),
            gender: "Male".to_string(),
            photo_base64: Some("AAAA".to_string()),
            photo_filename: Some("jan.png".to_string()),
        },
    );
    assert!(added);
    let c = &competitors[2];
    assert_eq!(c.first_name, "Jan");
    assert_eq!(c.last_name, "Kowalski");
    assert_eq!(c.birth_date, "1999-04-03");
    assert_eq!(c.gender, "Male");
    assert_eq!((c.club.clone(), c.city.clone(), c.notes.clone()), (None, None, None));
    assert_eq!(c.photo_base64.as_deref(), Some("AAAA"));
    assert_eq!(c.competition_order, 3);
}

fn entry(age: Option<&str>, class: Option<&str>) -> RegistrationCreate {
    RegistrationCreate {
        contest_id: "c1".to_string(),
        competitor_id: "id1".to_string(),
        bodyweight: 82_600,
        age_category_id: age.map(|s| s.to_string()),
        weight_class_id: class.map(|s| s.to_string()),
        equipment_m: Some(true),
        equipment_sm: None,
        equipment_t: Some(false),
        lot_number: Some(7),
        personal_record_at_entry: Some(500_000),
        rack_height_squat: Some(12),
        rack_height_bench: None,
    }
}

#[test]
fn registration_derives_categories_and_age_factor() {
    let mut competitor = list(1).remove(0);
    competitor.birth_date = "1985-09-01".to_string();
    competitor.gender = "Male".to_string();
    let r = registration_create(entry(None, None), &competitor, "2025-09-01", 654_321);
    assert!(!r.id.is_empty());
    assert_eq!(r.contest_id, "c1");
    assert_eq!(r.competitor_id, "id1");
    assert_eq!(r.bodyweight, 82_600);
    assert_eq!(r.age_category_id, "VETERAN40");
    assert_eq!(r.weight_class_id, "M_90");
    assert_eq!(r.mccullough_coefficient, Some(101));
    assert_eq!(r.reshel_coefficient, Some(654_321));
    assert!(r.equipment_m);
    assert!(!r.equipment_sm);
    assert!(!r.equipment_t);
    assert_eq!(r.lot_number, Some(7));
    assert_eq!(r.personal_record_at_entry, Some(500_000));
    assert_eq!(r.rack_height_squat, Some(12));
    assert_eq!(r.rack_height_bench, None);
}

#[test]
fn entered_categories_take_precedence() {
    let competitor = list(1).remove(0);
    let r = registration_create(entry(Some("OPEN"), Some("F_52")), &competitor, "2025-09-01", 1);
    assert_eq!(r.age_category_id, "OPEN");
    assert_eq!(r.weight_class_id, "F_52");
    assert_eq!(r.mccullough_coefficient, Some(100)); // 35 years old
    let r = registration_from_parts(
        "r9".to_string(),
        entry(None, Some("F_52")),
        "JUNIOR19".to_string(),
        "M_90".to_string(),
        5,
        106,
    );
    assert_eq!(r.id, "r9");
    assert_eq!(r.age_category_id, "JUNIOR19");
    assert_eq!(r.weight_class_id, "F_52");
    assert_eq!(r.reshel_coefficient, Some(5));
    assert_eq!(r.mccullough_coefficient, Some(106));
}

#[test]
fn roster_goes_by_lot_number_then_body_weight() {
    let make = |id: &str, contest: &str, lot: Option<u32>, bodyweight: u32| -> Registration {
        let mut e = entry(None, None);
        e.contest_id = contest.to_string();
        e.lot_number = lot;
        e.bodyweight = bodyweight;
        registration_from_parts(id.to_string(), e, "SENIOR".to_string(), "M_75".to_string(), 1, 100)
    };
    let regs = vec![
        make("a", "c1", Some(2), 70_000),
        make("b", "c1", Some(1), 90_000),
        make("x", "c2", Some(0), 60_000),
        make("c", "c1", Some(1), 80_000),
        make("d", "c1", None, 100_000),
        make("e", "c1", Some(u32::MAX), u32::MAX),
    ];
    let roster: Vec<String> =
        get_registrations_by_contest(&regs, "c1").into_iter().map(|r| r.id).collect();
    assert_eq!(roster, vec!["d", "c", "b", "a", "e"]);
}

#[test]
fn test_create_competitor_auto_assigns_order() {
    let competitors = list(3);
    for (index, competitor) in competitors.iter().enumerate() {
        assert_eq!(competitor.competition_order, (index as i64) + 1);
    }
}

#[test]
fn test_move_competitor_first_to_last() {
    let mut competitors = list(5);
    move_competitor_order(&mut competitors, "id1", 5).expect("Failed to move competitor");
    let competitors = get_all_competitors(&competitors);
    assert_eq!(competitors[0].competition_order, 1); // Was 2nd, now 1st
    assert_eq!(competitors[1].competition_order, 2); // Was 3rd, now 2nd
    assert_eq!(competitors[2].competition_order, 3); // Was 4th, now 3rd
    assert_eq!(competitors[3].competition_order, 4); // Was 5th, now 4th
    assert_eq!(competitors[4].competition_order, 5); // Was 1st, now 5th
    assert_eq!(competitors[0].id, "id2");
    assert_eq!(competitors[4].id, "id1");
}

#[test]
fn test_move_competitor_last_to_first() {
    let mut competitors = list(5);
    move_competitor_order(&mut competitors, "id5", 1).expect("Failed to move competitor");
    let competitors = get_all_competitors(&competitors);
    assert_eq!(competitors[0].competition_order, 1); // Was 5th, now 1st
    assert_eq!(competitors[1].competition_order, 2); // Was 1st, now 2nd
    assert_eq!(competitors[2].competition_order, 3); // Was 2nd, now 3rd
    assert_eq!(competitors[3].competition_order, 4); // Was 3rd, now 4th
    assert_eq!(competitors[4].competition_order, 5); // Was 4th, now 5th
    assert_eq!(competitors[0].id, "id5");
    assert_eq!(competitors[1].id, "id1");
}

#[test]
fn test_move_competitor_middle_position() {
    let mut competitors = list(5);
    move_competitor_order(&mut competitors, "id3", 2).expect("Failed to move competitor");
    let competitors = get_all_competitors(&competitors);
    assert_eq!(competitors[0].competition_order, 1); // Was 1st, still 1st
    assert_eq!(competitors[1].competition_order, 2); // Was 3rd, now 2nd
    assert_eq!(competitors[2].competition_order, 3); // Was 2nd, now 3rd
    assert_eq!(competitors[3].competition_order, 4); // Was 4th, still 4th
    assert_eq!(competitors[4].competition_order, 5); // Was 5th, still 5th
    assert_eq!(competitors[1].id, "id3");
    assert_eq!(competitors[2].id, "id2");
}

#[test]
fn test_move_competitor_same_position() {
    let mut competitors = list(3);
    move_competitor_order(&mut competitors, "id2", 2).expect("Failed to move competitor");
    let competitors = get_all_competitors(&competitors);
    assert_eq!(competitors[0].competition_order, 1);
    assert_eq!(competitors[1].competition_order, 2);
    assert_eq!(competitors[2].competition_order, 3);
}

#[test]
fn test_competitors_ordered_correctly() {
    let mut competitors = list(5);
    competitors.reverse();
    let competitors = get_all_competitors(&competitors);
    for (index, competitor) in competitors.iter().enumerate() {
        assert_eq!(competitor.competition_order, (index as i64) + 1);
    }
}
