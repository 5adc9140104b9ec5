//! Creating registrations: categories and coefficients are settled once,
//! when the competitor registers, and are kept from then on.

use vstd::prelude::*;
use vstd::string::*;
use crate::coefficients::{
    calculate_mccullough_coefficient, category_for_dates, determine_age_category,
    determine_weight_class, factor_for_dates, gender_of, parsed_ymd, weight_class_label,
};
use crate::models::competitor::Competitor;
use crate::models::registration::{Registration, RegistrationCreate};
use crate::sorting::{insert_stable, select_sorted};
use crate::text::{fresh_id, lowercased, str_eq};

verus! {

pub open spec fn flag_or_off(flag: Option<bool>) -> bool {
    match flag {
        Some(b) => b,
        None => false,
    }
}

/// Whether `r` carries what was entered in `entry`, apart from the
/// categories and coefficients.
pub open spec fn entered_as(r: Registration, entry: RegistrationCreate) -> bool {
    &&& r.contest_id == entry.contest_id
    &&& r.competitor_id == entry.competitor_id
    &&& r.bodyweight == entry.bodyweight
    &&& r.equipment_m == flag_or_off(entry.equipment_m)
    &&& r.equipment_sm == flag_or_off(entry.equipment_sm)
    &&& r.equipment_t == flag_or_off(entry.equipment_t)
    &&& r.lot_number == entry.lot_number
    &&& r.personal_record_at_entry == entry.personal_record_at_entry
    &&& r.rack_height_squat == entry.rack_height_squat
    &&& r.rack_height_bench == entry.rack_height_bench
}

/// Builds the registration from an entry and the categories and
/// coefficients that were settled for it. A category that was entered
/// takes precedence over the derived one.
pub fn registration_from_parts(
    id: String,
    registration: RegistrationCreate,
    derived_age_category: String,
    derived_weight_class: String,
    reshel_coefficient: u32,
    mccullough_coefficient: u32,
) -> (r: Registration)
    ensures
        r.id == id,
        entered_as(r, registration),
        r.age_category_id == (match registration.age_category_id {
            Some(a) => a,
            None => derived_age_category,
        }),
        r.weight_class_id == (match registration.weight_class_id {
            Some(w) => w,
            None => derived_weight_class,
        }),
        r.reshel_coefficient == Some(reshel_coefficient),
        r.mccullough_coefficient == Some(mccullough_coefficient),
{
    let age_category_id = match registration.age_category_id {
        Some(a) => a,
        None => derived_age_category,
    };
    let weight_class_id = match registration.weight_class_id {
        Some(w) => w,
        None => derived_weight_class,
    };
    Registration {
        id,
        contest_id: registration.contest_id,
        competitor_id: registration.competitor_id,
        age_category_id,
        weight_class_id,
        equipment_m: match registration.equipment_m {
            Some(b) => b,
            None => false,
        },
        equipment_sm: match registration.equipment_sm {
            Some(b) => b,
            None => false,
        },
        equipment_t: match registration.equipment_t {
            Some(b) => b,
            None => false,
        },
        bodyweight: registration.bodyweight,
        lot_number: registration.lot_number,
        personal_record_at_entry: registration.personal_record_at_entry,
        reshel_coefficient: Some(reshel_coefficient),
        mccullough_coefficient: Some(mccullough_coefficient),
        rack_height_squat: registration.rack_height_squat,
        rack_height_bench: registration.rack_height_bench,
    }
}

/// Registers a competitor for a contest held on `contest_date`
/// (`YYYY-MM-DD`). The age factor and, where the entry leaves them out, the
/// age category and weight class are derived from the competitor's birth
/// date and gender and the weigh-in body weight. `reshel_coefficient` is the
/// body-weight factor in millionths. The registration gets a fresh random
/// identifier.
pub fn registration_create(
    registration: RegistrationCreate,
    competitor: &Competitor,
    contest_date: &str,
    reshel_coefficient: u32,
) -> (r: Registration)
    ensures
        entered_as(r, registration),
        r.reshel_coefficient == Some(reshel_coefficient),
        r.mccullough_coefficient matches Some(m) && {
            &&& parsed_ymd(contest_date@) matches Some(c) ==> m == factor_for_dates(
                parsed_ymd(competitor.birth_date@),
                c,
            )
            &&& parsed_ymd(competitor.birth_date@) is None ==> m == 100
            &&& exists|day: (i32, u32, u32)|
                m == factor_for_dates(parsed_ymd(competitor.birth_date@), day)
        },
        registration.age_category_id matches Some(a) ==> r.age_category_id == a,
        registration.age_category_id is None ==> {
            &&& parsed_ymd(contest_date@) matches Some(c) ==> r.age_category_id@
                == category_for_dates(parsed_ymd(competitor.birth_date@), c)
            &&& parsed_ymd(competitor.birth_date@) is None ==> r.age_category_id@ == "SENIOR"@
            &&& exists|day: (i32, u32, u32)|
                r.age_category_id@ == category_for_dates(parsed_ymd(competitor.birth_date@), day)
        },
        registration.weight_class_id matches Some(w) ==> r.weight_class_id == w,
        registration.weight_class_id is None ==> r.weight_class_id@ == weight_class_label(
            registration.bodyweight,
            gender_of(lowercased(competitor.gender@)),
        ),
{
    let mccullough = calculate_mccullough_coefficient(competitor.birth_date.as_str(), contest_date);
    let age_category = determine_age_category(competitor.birth_date.as_str(), contest_date);
    let weight_class = determine_weight_class(registration.bodyweight, competitor.gender.as_str());
    registration_from_parts(
        fresh_id(),
        registration,
        age_category,
        weight_class,
        reshel_coefficient,
        mccullough,
    )
}

pub open spec fn in_contest(contest_id: Seq<char>) -> spec_fn(Registration) -> bool {
    |r: Registration| r.contest_id@ == contest_id
}

/// The key of a registration in the contest's list: by lot number (a
/// missing one first), then by body weight.
pub open spec fn roster_key(r: Registration) -> int {
    (match r.lot_number {
        Some(n) => n + 1,
        None => 0,
    }) * 0x1_0000_0000 + r.bodyweight
}

pub open spec fn roster_order() -> spec_fn(Registration) -> int {
    |r: Registration| roster_key(r)
}

/// The registrations of a contest, by lot number and then body weight.
pub fn get_registrations_by_contest(registrations: &Vec<Registration>, contest_id: &str) -> (r: Vec<
    Registration,
>)
    ensures
        r@ == select_sorted(registrations@, in_contest(contest_id@), roster_order()),
{
    let ghost keep = in_contest(contest_id@);
    let ghost key = roster_order();
    let mut out: Vec<Registration> = Vec::new();
    let mut keys: Vec<u128> = Vec::new();
    let mut i: usize = 0;
    proof {
        assert(registrations@.take(0) =~= Seq::<Registration>::empty());
    }
    while i < registrations.len()
        invariant
            i <= registrations@.len(),
            keep == in_contest(contest_id@),
            key == roster_order(),
            out@ == select_sorted(registrations@.take(i as int), keep, key),
            out@.len() == keys@.len(),
            forall|k: int| 0 <= k < keys@.len() ==> keys@[k] as int == key(out@[k]),
        decreases registrations@.len() - i,
    {
        proof {
            assert(registrations@.take(i as int + 1).drop_last() =~= registrations@.take(i as int));
            assert(registrations@.take(i as int + 1).last() == registrations@[i as int]);
        }
        let r = &registrations[i];
        if str_eq(r.contest_id.as_str(), contest_id) {
            let lot: u128 = match r.lot_number {
                Some(n) => n as u128 + 1,
                None => 0,
            };
            let k: u128 = lot * 0x1_0000_0000u128 + r.bodyweight as u128;
            insert_stable(&mut out, &mut keys, r.duplicate(), k, Ghost(key));
        }
        i += 1;
    }
    proof {
        assert(registrations@.take(i as int) =~= registrations@);
    }
    out
}

} // verus!
