//! Age and body-weight categories and the age adjustment factor.
//!
//! Body weights are in grams. The age factor is in hundredths (`103` is
//! 1.03), the body-weight factor in millionths, and coefficient points are
//! the plain product of a total in grams with both factors.

use vstd::prelude::*;
use vstd::string::*;
use crate::text::{lowercased, owned, str_eq, to_lowercase};

verus! {

/// How a competitor's gender entry is read.
#[derive(Clone, Copy, Debug, PartialEq, Eq, Structural)]
pub enum Gender {
    Male,
    Female,
    Unknown,
}

/// The gender that a lower-case entry denotes.
pub open spec fn gender_of(lower: Seq<char>) -> Gender {
    if lower == "male"@ || lower == "m"@ {
        Gender::Male
    } else if lower == "female"@ || lower == "f"@ {
        Gender::Female
    } else {
        Gender::Unknown
    }
}

/// Reads a gender entry that is already in lower case.
pub fn classify_gender(lower: &str) -> (r: Gender)
    ensures
        r == gender_of(lower@),
{
    if str_eq(lower, "male") || str_eq(lower, "m") {
        Gender::Male
    } else if str_eq(lower, "female") || str_eq(lower, "f") {
        Gender::Female
    } else {
        Gender::Unknown
    }
}

/// The weight class of a body weight in grams. Every class includes its
/// upper limit; above the last limit comes the open class. An unknown
/// gender is put into the men's 75 kg class.
pub open spec fn weight_class_label(bodyweight: u32, gender: Gender) -> Seq<char> {
    match gender {
        Gender::Male => {
            if bodyweight <= 52_000 {
                "M_52"@
            } else if bodyweight <= 56_000 {
                "M_56"@
            } else if bodyweight <= 60_000 {
                "M_60"@
            } else if bodyweight <= 67_500 {
                "M_67_5"@
            } else if bodyweight <= 75_000 {
                "M_75"@
            } else if bodyweight <= 82_500 {
                "M_82_5"@
            } else if bodyweight <= 90_000 {
                "M_90"@
            } else if bodyweight <= 100_000 {
                "M_100"@
            } else if bodyweight <= 110_000 {
                "M_110"@
            } else if bodyweight <= 125_000 {
                "M_125"@
            } else if bodyweight <= 140_000 {
                "M_140"@
            } else {
                "M_140_PLUS"@
            }
        },
        Gender::Female => {
            if bodyweight <= 47_000 {
                "F_47"@
            } else if bodyweight <= 52_000 {
                "F_52"@
            } else if bodyweight <= 57_000 {
                "F_57"@
            } else if bodyweight <= 63_000 {
                "F_63"@
            } else if bodyweight <= 72_000 {
                "F_72"@
            } else if bodyweight <= 84_000 {
                "F_84"@
            } else {
                "F_84_PLUS"@
            }
        },
        Gender::Unknown => "M_75"@,
    }
}

/// The weight class of a body weight in grams for a gender already read.
pub fn weight_class_for(bodyweight: u32, gender: Gender) -> (r: String)
    ensures
        r@ == weight_class_label(bodyweight, gender),
{
    match gender {
        Gender::Male => {
            if bodyweight <= 52_000 {
                owned("M_52")
            } else if bodyweight <= 56_000 {
                owned("M_56")
            } else if bodyweight <= 60_000 {
                owned("M_60")
            } else if bodyweight <= 67_500 {
                owned("M_67_5")
            } else if bodyweight <= 75_000 {
                owned("M_75")
            } else if bodyweight <= 82_500 {
                owned("M_82_5")
            } else if bodyweight <= 90_000 {
                owned("M_90")
            } else if bodyweight <= 100_000 {
                owned("M_100")
            } else if bodyweight <= 110_000 {
                owned("M_110")
            } else if bodyweight <= 125_000 {
                owned("M_125")
            } else if bodyweight <= 140_000 {
                owned("M_140")
            } else {
                owned("M_140_PLUS")
            }
        },
        Gender::Female => {
            if bodyweight <= 47_000 {
                owned("F_47")
            } else if bodyweight <= 52_000 {
                owned("F_52")
            } else if bodyweight <= 57_000 {
                owned("F_57")
            } else if bodyweight <= 63_000 {
                owned("F_63")
            } else if bodyweight <= 72_000 {
                owned("F_72")
            } else if bodyweight <= 84_000 {
                owned("F_84")
            } else {
                owned("F_84_PLUS")
            }
        },
        Gender::Unknown => owned("M_75"),
    }
}

/// The weight class of a body weight in grams. The gender entry is read
/// without regard to case.
pub fn determine_weight_class(bodyweight: u32, gender: &str) -> (r: String)
    ensures
        r@ == weight_class_label(bodyweight, gender_of(lowercased(gender@))),
{
    let lower = to_lowercase(gender);
    weight_class_for(bodyweight, classify_gender(lower.as_str()))
}

/// The calendar date (year, month, day) that `NaiveDate::parse_from_str`
/// reads from a text under the format `%Y-%m-%d`, if it reads one.
pub uninterp spec fn parsed_ymd(s: Seq<char>) -> Option<(i32, u32, u32)>;

/// Calls `chrono::NaiveDate::parse_from_str` with the format `%Y-%m-%d`
/// and hands out year, month and day of the date it returns. What the
/// parser accepts is a function of the text alone; the contract only gives
/// it its name.
#[verifier::external_body]
pub(crate) fn parse_ymd(s: &str) -> (r: Option<(i32, u32, u32)>)
    ensures
        r == parsed_ymd(s@),
{
    match chrono::NaiveDate::parse_from_str(s, "%Y-%m-%d") {
        Ok(d) => Some(
            (chrono::Datelike::year(&d), chrono::Datelike::month(&d), chrono::Datelike::day(&d)),
        ),
        Err(_) => None,
    }
}

/// Calls `chrono::Utc::now` and `DateTime::date_naive` and hands out
/// year, month and day of the current UTC date. It depends on the clock,
/// so nothing is promised of it.
#[verifier::external_body]
fn today_ymd() -> (i32, u32, u32) {
    let d = chrono::Utc::now().date_naive();
    (chrono::Datelike::year(&d), chrono::Datelike::month(&d), chrono::Datelike::day(&d))
}

/// Whole years from `birth` until `on`; none if `on` lies before `birth`.
pub open spec fn whole_years(birth: (i32, u32, u32), on: (i32, u32, u32)) -> Option<u32> {
    let before_birthday = on.1 < birth.1 || (on.1 == birth.1 && on.2 < birth.2);
    let years = on.0 - birth.0 - (if before_birthday {
        1int
    } else {
        0int
    });
    if years >= 0 {
        Some(years as u32)
    } else {
        None
    }
}

/// The age in whole years on a day; 0 if the day lies before the birth.
pub open spec fn age_on(birth: (i32, u32, u32), on: (i32, u32, u32)) -> u32 {
    match whole_years(birth, on) {
        Some(y) => y,
        None => 0,
    }
}

/// Whole years from `birth` until `on`.
pub fn years_since(on: (i32, u32, u32), birth: (i32, u32, u32)) -> (r: Option<u32>)
    ensures
        r == whole_years(birth, on),
{
    let mut years: i64 = on.0 as i64 - birth.0 as i64;
    if on.1 < birth.1 || (on.1 == birth.1 && on.2 < birth.2) {
        years -= 1;
    }
    if years >= 0 {
        Some(years as u32)
    } else {
        None
    }
}

/// The age adjustment factor for an age, in hundredths.
pub open spec fn mccullough_factor(age: u32) -> u32 {
    if 13 <= age <= 15 {
        113
    } else if 16 <= age <= 18 {
        108
    } else if age == 19 {
        106
    } else if 20 <= age <= 23 {
        103
    } else if 24 <= age <= 39 {
        100
    } else if 40 <= age <= 44 {
        101
    } else if 45 <= age <= 49 {
        102
    } else if 50 <= age <= 54 {
        104
    } else if 55 <= age <= 59 {
        106
    } else if 60 <= age <= 64 {
        109
    } else if 65 <= age <= 69 {
        112
    } else if 70 <= age <= 74 {
        116
    } else if 75 <= age <= 79 {
        121
    } else if 80 <= age {
        127
    } else {
        100
    }
}

/// The age category of an age.
pub open spec fn age_category_label(age: u32) -> Seq<char> {
    if 13 <= age <= 15 {
        "JUNIOR13"@
    } else if 16 <= age <= 18 {
        "JUNIOR16"@
    } else if age == 19 {
        "JUNIOR19"@
    } else if 20 <= age <= 23 {
        "JUNIOR23"@
    } else if 24 <= age <= 39 {
        "SENIOR"@
    } else if 40 <= age <= 49 {
        "VETERAN40"@
    } else if 50 <= age <= 59 {
        "VETERAN50"@
    } else if 60 <= age <= 69 {
        "VETERAN60"@
    } else if 70 <= age {
        "VETERAN70"@
    } else {
        "SENIOR"@
    }
}

/// The age adjustment factor for an age, in hundredths.
pub fn mccullough_for_age(age: u32) -> (r: u32)
    ensures
        r == mccullough_factor(age),
{
    if age < 13 {
        100
    } else if age <= 15 {
        113
    } else if age <= 18 {
        108
    } else if age == 19 {
        106
    } else if age <= 23 {
        103
    } else if age <= 39 {
        100
    } else if age <= 44 {
        101
    } else if age <= 49 {
        102
    } else if age <= 54 {
        104
    } else if age <= 59 {
        106
    } else if age <= 64 {
        109
    } else if age <= 69 {
        112
    } else if age <= 74 {
        116
    } else if age <= 79 {
        121
    } else {
        127
    }
}

/// The age category of an age.
pub fn age_category_for_age(age: u32) -> (r: String)
    ensures
        r@ == age_category_label(age),
{
    if age < 13 {
        owned("SENIOR")
    } else if age <= 15 {
        owned("JUNIOR13")
    } else if age <= 18 {
        owned("JUNIOR16")
    } else if age == 19 {
        owned("JUNIOR19")
    } else if age <= 23 {
        owned("JUNIOR23")
    } else if age <= 39 {
        owned("SENIOR")
    } else if age <= 49 {
        owned("VETERAN40")
    } else if age <= 59 {
        owned("VETERAN50")
    } else if age <= 69 {
        owned("VETERAN60")
    } else {
        owned("VETERAN70")
    }
}

/// The age factor of a competitor on the contest day, in hundredths. A
/// birth date that could not be read gives the neutral factor.
pub open spec fn factor_for_dates(birth: Option<(i32, u32, u32)>, contest: (i32, u32, u32)) -> u32 {
    match birth {
        Some(b) => mccullough_factor(age_on(b, contest)),
        None => 100,
    }
}

/// The age category of a competitor on the contest day. A birth date that
/// could not be read gives the senior category.
pub open spec fn category_for_dates(birth: Option<(i32, u32, u32)>, contest: (i32, u32, u32)) -> Seq<
    char,
> {
    match birth {
        Some(b) => age_category_label(age_on(b, contest)),
        None => "SENIOR"@,
    }
}

/// The age factor for dates that were already read.
pub fn mccullough_for_dates(birth: Option<(i32, u32, u32)>, contest: (i32, u32, u32)) -> (r: u32)
    ensures
        r == factor_for_dates(birth, contest),
{
    match birth {
        Some(b) => {
            let age: u32 = match years_since(contest, b) {
                Some(y) => y,
                None => 0,
            };
            mccullough_for_age(age)
        },
        None => 100,
    }
}

/// The age category for dates that were already read.
pub fn age_category_for_dates(birth: Option<(i32, u32, u32)>, contest: (i32, u32, u32)) -> (r:
    String)
    ensures
        r@ == category_for_dates(birth, contest),
{
    match birth {
        Some(b) => {
            let age: u32 = match years_since(contest, b) {
                Some(y) => y,
                None => 0,
            };
            age_category_for_age(age)
        },
        None => owned("SENIOR"),
    }
}

/// The age adjustment factor, in hundredths, from two dates written as
/// `YYYY-MM-DD`. An unreadable birth date gives the neutral factor `100`;
/// an unreadable contest date is replaced by the current date.
pub fn calculate_mccullough_coefficient(birth_date: &str, contest_date: &str) -> (r: u32)
    ensures
        parsed_ymd(contest_date@) matches Some(c) ==> r == factor_for_dates(
            parsed_ymd(birth_date@),
            c,
        ),
        parsed_ymd(birth_date@) is None ==> r == 100,
        exists|day: (i32, u32, u32)| r == factor_for_dates(parsed_ymd(birth_date@), day),
{
    let birth = parse_ymd(birth_date);
    let contest = match parse_ymd(contest_date) {
        Some(c) => c,
        None => today_ymd(),
    };
    mccullough_for_dates(birth, contest)
}

/// The age category from two dates written as `YYYY-MM-DD`. An unreadable
/// birth date gives `SENIOR`; an unreadable contest date is replaced by the
/// current date.
pub fn determine_age_category(birth_date: &str, contest_date: &str) -> (r: String)
    ensures
        parsed_ymd(contest_date@) matches Some(c) ==> r@ == category_for_dates(
            parsed_ymd(birth_date@),
            c,
        ),
        parsed_ymd(birth_date@) is None ==> r@ == "SENIOR"@,
        exists|day: (i32, u32, u32)| r@ == category_for_dates(parsed_ymd(birth_date@), day),
{
    let birth = parse_ymd(birth_date);
    let contest = match parse_ymd(contest_date) {
        Some(c) => c,
        None => today_ymd(),
    };
    age_category_for_dates(birth, contest)
}

/// Coefficient points: the total (grams) times the body-weight factor
/// (millionths) times the age factor (hundredths), with no rounding.
pub open spec fn points_of(total_weight: u64, reshel: u32, mccullough: u32) -> int {
    total_weight * reshel * mccullough
}

/// Coefficient points of a total.
pub fn calculate_points(total_weight: u64, reshel: u32, mccullough: u32) -> (r: u128)
    ensures
        r == points_of(total_weight, reshel, mccullough),
{
    proof {
        assert(total_weight * reshel <= 0xffff_ffff_ffff_ffff * 0xffff_ffff) by (nonlinear_arith)
            requires
                total_weight <= 0xffff_ffff_ffff_ffff,
                reshel <= 0xffff_ffff,
        ;
        assert(total_weight * reshel * mccullough <= 0xffff_ffff_ffff_ffff * 0xffff_ffff
            * 0xffff_ffff) by (nonlinear_arith)
            requires
                0 <= total_weight * reshel <= 0xffff_ffff_ffff_ffff * 0xffff_ffff,
                mccullough <= 0xffff_ffff,
        ;
    }
    (total_weight as u128) * (reshel as u128) * (mccullough as u128)
}

} // verus!
