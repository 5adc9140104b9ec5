use werewolf::error::AppError;
use werewolf::models::plate_set::{ContestBarWeights, CreatePlateSet, PlateSet};
use werewolf::plates::{
    calculate_increment, calculate_plates, calculate_plates_and_increment,
    calculate_plates_and_increment_with_gender, create_default_plate_sets_for_contest,
    create_plate_set, create_plate_set_with_id, delete_plate_set, get_contest_bar_weight,
    get_contest_bar_weights, get_plate_colors_for_contest,
    get_contest_bar_weight_by_gender, get_plate_sets_by_contest, sort_plates_descending,
    update_contest_bar_weights, update_plate_set_quantity,
};

fn plate(weight: u32, quantity: i32) -> PlateSet {
    PlateSet {
        id: format!("p-{}", weight),
        contest_id: "c1".to_string(),
        plate_weight: weight,
        quantity,
        color: "#DC2626".to_string(),
    }
}

fn no_bars() -> ContestBarWeights {
    ContestBarWeights { mens_bar_weight: None, bar_weight: None, womens_bar_weight: None }
}

#[test]
fn exact_loading_uses_the_heaviest_plates_first() {
    let plates = vec![plate(25_000, 4), plate(10_000, 4), plate(5_000, 4), plate(2_500, 4)];
    let result = calculate_plates(&plates, 20_000, 100_000);
    assert!(result.exact);
    assert_eq!(result.total, 100_000);
    assert_eq!(result.increment, 5_000);
    assert_eq!(result.plates, vec![(25_000, 1), (10_000, 1), (5_000, 1)]);
    let per_side: u64 = result.plates.iter().map(|(w, c)| *w as u64 * *c as u64).sum();
    assert_eq!(per_side, 40_000);
    assert_eq!(result.target_weight, 100_000);
    assert_eq!(result.bar_weight, 20_000);
}

#[test]
fn shortfall_stays_below_the_target() {
    let plates = vec![plate(25_000, 2)];
    let result = calculate_plates(&plates, 20_000, 101_000);
    assert!(!result.exact);
    assert!(result.total < 101_000);
    // one 25 kg plate per side fits into 40.5 kg; a second does not
    assert_eq!(result.plates, vec![(25_000, 1)]);
    assert_eq!(result.total, 70_000);
}

#[test]
fn stock_limits_the_number_of_plates() {
    let plates = vec![plate(25_000, 2), plate(5_000, 1)];
    let result = calculate_plates(&plates, 20_000, 200_000);
    assert_eq!(result.plates, vec![(25_000, 2), (5_000, 1)]);
    assert_eq!(result.total, 130_000);
    assert!(!result.exact);
}

#[test]
fn increment_is_twice_the_lightest_plate_in_stock() {
    let plates = vec![plate(25_000, 2), plate(1_250, 4)];
    assert_eq!(calculate_plates(&plates, 20_000, 50_000).increment, 2_500);
    let plates = vec![plate(25_000, 2), plate(1_250, 0), plate(500, -1)];
    assert_eq!(calculate_increment(&plates), 50_000);
    assert_eq!(calculate_increment(&Vec::new()), 5_000);
    assert_eq!(calculate_increment(&vec![plate(u32::MAX, 1)]), 2 * u32::MAX as u64);
}

#[test]
fn target_at_or_below_the_bar_needs_no_plates() {
    let plates = vec![plate(25_000, 2)];
    for target in [0, 19_999, 20_000] {
        let result = calculate_plates(&plates, 20_000, target);
        assert!(result.exact);
        assert_eq!(result.total, 20_000);
        assert!(result.plates.is_empty());
        assert_eq!(result.increment, 50_000);
        assert_eq!(result.target_weight, target);
    }
}

#[test]
fn greedy_loading_is_kept_even_where_it_falls_short() {
    let plates = vec![plate(20_000, 2), plate(10_000, 2), plate(5_000, 2)];
    let result = calculate_plates(&plates, 20_000, 85_000);
    assert!(!result.exact);
    assert_eq!(result.plates, vec![(20_000, 1), (10_000, 1)]);
    assert_eq!(result.total, 80_000);

    // 30 kg per side: greedy takes 25 and stops, although 3 x 10 would fit
    let plates = vec![plate(25_000, 1), plate(10_000, 3)];
    let result = calculate_plates(&plates, 20_000, 80_000);
    assert_eq!(result.plates, vec![(25_000, 1)]);
    assert_eq!(result.total, 70_000);
    assert!(!result.exact);
}

#[test]
fn inventory_order_does_not_matter() {
    let plates = vec![plate(2_500, 4), plate(25_000, 4), plate(5_000, 4), plate(10_000, 4)];
    let result = calculate_plates(&plates, 20_000, 100_000);
    assert_eq!(result.plates, vec![(25_000, 1), (10_000, 1), (5_000, 1)]);
    let sorted: Vec<u32> = sort_plates_descending(&plates).iter().map(|p| p.plate_weight).collect();
    assert_eq!(sorted, vec![25_000, 10_000, 5_000, 2_500]);
}

#[test]
fn odd_gram_targets_are_never_exact() {
    let plates = vec![plate(250, 10)];
    let result = calculate_plates(&plates, 20_000, 21_001);
    assert_eq!(result.plates, vec![(250, 2)]);
    assert_eq!(result.total, 21_000);
    assert!(!result.exact);
}

#[test]
fn plates_without_stock_or_weight_are_passed_over() {
    let plates = vec![plate(25_000, 0), plate(20_000, -3), plate(0, 5), plate(10_000, 1)];
    let result = calculate_plates(&plates, 20_000, 100_000);
    assert_eq!(result.plates, vec![(10_000, 1)]);
    assert_eq!(result.total, 40_000);
}

#[test]
fn extreme_weights_do_not_overflow() {
    let plates = vec![plate(u32::MAX, i32::MAX), plate(1, i32::MAX)];
    let result = calculate_plates(&plates, 0, u32::MAX);
    assert_eq!(result.plates, vec![(1, (u32::MAX / 2) as usize)]);
    assert_eq!(result.total, u32::MAX - 1);
    assert!(!result.exact);
}

#[test]
fn bar_weight_depends_on_gender_and_configuration() {
    let bars = no_bars();
    assert_eq!(get_contest_bar_weight_by_gender(Some(&bars), "c1", Some("Male")).unwrap(), 20_000);
    assert_eq!(get_contest_bar_weight_by_gender(Some(&bars), "c1", Some("Female")).unwrap(), 15_000);
    assert_eq!(get_contest_bar_weight_by_gender(Some(&bars), "c1", Some("female")).unwrap(), 20_000);
    assert_eq!(get_contest_bar_weight_by_gender(Some(&bars), "c1", None).unwrap(), 20_000);
    assert_eq!(get_contest_bar_weight(Some(&bars), "c1").unwrap(), 20_000);

    let bars = ContestBarWeights {
        mens_bar_weight: None,
        bar_weight: Some(25_000),
        womens_bar_weight: Some(10_000),
    };
    assert_eq!(get_contest_bar_weight_by_gender(Some(&bars), "c1", Some("Male")).unwrap(), 25_000);
    assert_eq!(get_contest_bar_weight_by_gender(Some(&bars), "c1", Some("Female")).unwrap(), 10_000);

    let bars = ContestBarWeights {
        mens_bar_weight: Some(22_500),
        bar_weight: Some(25_000),
        womens_bar_weight: None,
    };
    assert_eq!(get_contest_bar_weight(Some(&bars), "c1").unwrap(), 22_500);
}

#[test]
fn unknown_contest_has_no_bar() {
    match get_contest_bar_weight_by_gender(None, "c7", Some("Male")) {
        Err(AppError::ContestNotFound { id }) => assert_eq!(id, "c7"),
        other => panic!("unexpected: {:?}", other),
    }
    assert!(calculate_plates_and_increment(&Vec::new(), None, "c7", 100_000).is_err());
}

#[test]
fn loading_uses_the_bar_of_the_gender() {
    let plates = vec![plate(25_000, 4), plate(10_000, 4), plate(5_000, 4), plate(2_500, 4)];
    let bars = no_bars();
    let men = calculate_plates_and_increment(&plates, Some(&bars), "c1", 100_000).unwrap();
    assert_eq!(men.bar_weight, 20_000);
    assert_eq!(men.plates, vec![(25_000, 1), (10_000, 1), (5_000, 1)]);
    let women = calculate_plates_and_increment_with_gender(
        &plates,
        Some(&bars),
        "c1",
        100_000,
        Some("Female"),
    )
    .unwrap();
    assert_eq!(women.bar_weight, 15_000);
    assert_eq!(women.plates, vec![(25_000, 1), (10_000, 1), (5_000, 1), (2_500, 1)]);
    assert!(women.exact);
    assert_eq!(women.total, 100_000);
}

#[test]
fn bar_weights_are_checked_before_they_are_stored() {
    let bars = ContestBarWeights {
        mens_bar_weight: None,
        bar_weight: Some(21_000),
        womens_bar_weight: None,
    };
    let stored = update_contest_bar_weights(Some(bars), "c1", 20_000, 15_000).unwrap();
    assert_eq!(
        stored,
        ContestBarWeights {
            mens_bar_weight: Some(20_000),
            bar_weight: Some(21_000),
            womens_bar_weight: Some(15_000),
        }
    );
    assert!(update_contest_bar_weights(Some(bars), "c1", 100_000, 250).is_ok());

    let text = |r: Result<ContestBarWeights, AppError>| match r {
        Err(AppError::ValidationError(t)) => t,
        other => panic!("unexpected: {:?}", other),
    };
    assert_eq!(
        text(update_contest_bar_weights(Some(bars), "c1", 0, 15_000)),
        "Bar weights must be positive"
    );
    assert_eq!(
        text(update_contest_bar_weights(Some(bars), "c1", 20_000, 0)),
        "Bar weights must be positive"
    );
    assert_eq!(
        text(update_contest_bar_weights(Some(bars), "c1", 100_250, 15_000)),
        "Bar weights cannot exceed 100kg"
    );
    assert_eq!(
        text(update_contest_bar_weights(Some(bars), "c1", 20_000, 15_100)),
        "Bar weights must be in 0.25kg increments"
    );
    // the weights are looked at before the contest is
    assert_eq!(
        text(update_contest_bar_weights(None, "c1", 0, 15_000)),
        "Bar weights must be positive"
    );
    match update_contest_bar_weights(None, "c1", 20_000, 15_000) {
        Err(AppError::ContestNotFound { id }) => assert_eq!(id, "c1"),
        other => panic!("unexpected: {:?}", other),
    }
}

#[test]
fn plate_sets_are_created_restocked_and_deleted() {
    let request = |weight: u32, quantity: i32| CreatePlateSet {
        contest_id: "c1".to_string(),
        plate_weight: weight,
        quantity,
        color: "#2563EB".to_string(),
    };
    let mut inventory: Vec<PlateSet> = Vec::new();
    assert!(create_plate_set_with_id(&mut inventory, "plate-a".to_string(), request(20_000, 4)).is_ok());
    assert!(create_plate_set(&mut inventory, request(10_000, 2)).is_ok());
    assert_eq!(inventory.len(), 2);
    assert_eq!(inventory[0].id, "plate-a");
    assert_eq!(inventory[0].plate_weight, 20_000);
    assert_eq!(inventory[0].quantity, 4);
    assert_eq!(inventory[0].color, "#2563EB");
    assert_eq!(inventory[0].contest_id, "c1");
    assert_eq!(inventory[1].plate_weight, 10_000);
    assert!(!inventory[1].id.is_empty());

    for bad in [0, -1] {
        match create_plate_set(&mut inventory, request(5_000, bad)) {
            Err(AppError::ValidationError(t)) => assert_eq!(t, "Plate quantity must be positive"),
            other => panic!("unexpected: {:?}", other),
        }
        match update_plate_set_quantity(&mut inventory, "plate-a", bad) {
            Err(AppError::ValidationError(t)) => assert_eq!(t, "Plate quantity must be positive"),
            other => panic!("unexpected: {:?}", other),
        }
    }
    assert_eq!(inventory.len(), 2);
    assert_eq!(inventory[0].quantity, 4);

    assert!(update_plate_set_quantity(&mut inventory, "plate-a", 6).is_ok());
    assert_eq!(inventory[0].quantity, 6);
    assert_eq!(inventory[1].quantity, 2);
    match update_plate_set_quantity(&mut inventory, "nope", 6) {
        Err(AppError::ValidationError(t)) => assert_eq!(t, "Plate set with id nope not found"),
        other => panic!("unexpected: {:?}", other),
    }

    match delete_plate_set(&mut inventory, "nope") {
        Err(AppError::ValidationError(t)) => assert_eq!(t, "Plate set with id nope not found"),
        other => panic!("unexpected: {:?}", other),
    }
    assert_eq!(inventory.len(), 2);
    assert!(delete_plate_set(&mut inventory, "plate-a").is_ok());
    assert_eq!(inventory.len(), 1);
    assert_eq!(inventory[0].plate_weight, 10_000);
}

#[test]
fn default_plate_sets() {
    let mut inventory = vec![plate(50_000, 1)];
    assert_eq!(create_default_plate_sets_for_contest(&mut inventory, "c5"), 9);
    assert_eq!(inventory.len(), 10);
    assert_eq!(inventory[0].plate_weight, 50_000);
    let added: Vec<(u32, i32)> =
        inventory[1..].iter().map(|p| (p.plate_weight, p.quantity)).collect();
    assert_eq!(
        added,
        vec![
            (25_000, 10),
            (20_000, 10),
            (15_000, 10),
            (10_000, 10),
            (5_000, 10),
            (2_500, 10),
            (1_250, 5),
            (500, 5),
            (250, 5),
        ]
    );
    assert!(inventory[1..].iter().all(|p| p.contest_id == "c5" && p.color == "#DC2626"));
    assert_eq!(calculate_increment(&inventory), 500);
}

#[test]
fn plate_sets_of_a_contest_come_heaviest_first() {
    let mut other = plate(50_000, 1);
    other.contest_id = "c2".to_string();
    let all = vec![plate(5_000, 1), other, plate(25_000, 1), plate(10_000, 1)];
    let weights: Vec<u32> =
        get_plate_sets_by_contest(&all, "c1").iter().map(|p| p.plate_weight).collect();
    assert_eq!(weights, vec![25_000, 10_000, 5_000]);
    assert!(get_plate_sets_by_contest(&all, "c3").is_empty());
}

#[test]
fn test_plate_calculation_exact_weight() {
    let plates = vec![plate(25_000, 4), plate(10_000, 4), plate(5_000, 4), plate(2_500, 4)];
    let bars = no_bars();

    // 100 kg total (40 kg per side with the 20 kg bar)
    let result = calculate_plates_and_increment(&plates, Some(&bars), "c1", 100_000).unwrap();

    assert!(result.exact, "Should achieve exact weight");
    assert_eq!(result.total, 100_000, "Total should be 100kg");
    assert_eq!(result.increment, 5_000, "Increment should be 2.5kg * 2 = 5kg");
    assert!(!result.plates.is_empty(), "Should have plates");

    let total_weight: u64 = result.plates.iter().map(|(w, c)| *w as u64 * *c as u64).sum();
    assert_eq!(total_weight, 40_000, "Plates should sum to 40kg per side");
}

#[test]
fn test_increment_calculation() {
    let plates = vec![plate(25_000, 2), plate(1_250, 4)];
    let bars = no_bars();
    let result = calculate_plates_and_increment(&plates, Some(&bars), "c1", 50_000).unwrap();
    assert_eq!(result.increment, 2_500, "Increment should be 1.25kg * 2 = 2.5kg");
}

#[test]
fn test_zero_weight_handling() {
    let plates = vec![plate(25_000, 2)];
    let bars = no_bars();
    let result = calculate_plates_and_increment(&plates, Some(&bars), "c1", 0).unwrap();
    assert!(result.exact, "Zero weight should be exact (just the bar)");
    assert_eq!(result.total, 20_000, "Should equal bar weight");
    assert!(result.plates.is_empty(), "Should have no plates");
}

#[test]
fn test_greedy_algorithm() {
    let plates = vec![plate(20_000, 2), plate(10_000, 2), plate(5_000, 2)];
    let bars = no_bars();
    let result = calculate_plates_and_increment(&plates, Some(&bars), "c1", 85_000).unwrap();
    assert!(!result.exact, "85kg not possible with these plates");
    assert!(
        result.plates.iter().any(|(w, _)| *w == 20_000),
        "Should use 20kg plates first"
    );
}

#[test]
fn both_bar_weights_of_a_contest() {
    assert_eq!(get_contest_bar_weights(Some(&no_bars()), "c1").unwrap(), (20_000, 15_000));
    let bars = ContestBarWeights {
        mens_bar_weight: Some(22_500),
        bar_weight: Some(25_000),
        womens_bar_weight: Some(12_500),
    };
    assert_eq!(get_contest_bar_weights(Some(&bars), "c1").unwrap(), (22_500, 12_500));
    assert!(matches!(
        get_contest_bar_weights(None, "c1"),
        Err(AppError::ContestNotFound { .. })
    ));
}

#[test]
fn plate_colours_of_a_contest() {
    let mut blue = plate(20_000, 2);
    blue.color = "#2563EB".to_string();
    let mut other = plate(50_000, 1);
    other.contest_id = "c2".to_string();
    let all = vec![plate(2_500, 1), other, blue, plate(25_000, 0)];
    assert_eq!(
        get_plate_colors_for_contest(&all, "c1"),
        vec![
            (25_000, "#DC2626".to_string()),
            (20_000, "#2563EB".to_string()),
            (2_500, "#DC2626".to_string()),
        ]
    );
}
