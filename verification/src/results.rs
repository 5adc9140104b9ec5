//! Results: best lifts, totals, coefficient points, and the three
//! rankings (open, by age category, by weight class).
//!
//! Equal coefficient points share a place, and the places behind them are
//! skipped; no second criterion breaks a tie.

use vstd::prelude::*;
use vstd::string::*;
use crate::coefficients::{calculate_points, points_of};
use crate::models::attempt::{Attempt, AttemptStatus, LiftType};
use crate::error::AppError;
use crate::models::registration::{find_registration, registration_of, Registration};
use crate::sorting::{insert_stable, select_sorted};
use crate::text::{clone_text, fresh_id, owned, str_eq};

verus! {

/// Which of the three rankings is meant.
#[derive(Clone, Copy, Debug, PartialEq, Eq, Structural)]
pub enum RankingType {
    Open,
    Age,
    Weight,
}

impl RankingType {
    pub open spec fn name(self) -> Seq<char> {
        match self {
            RankingType::Open => "open"@,
            RankingType::Age => "age"@,
            RankingType::Weight => "weight"@,
        }
    }

    pub fn to_string(&self) -> (r: String)
        ensures
            r@ == self.name(),
    {
        match self {
            RankingType::Open => owned("open"),
            RankingType::Age => owned("age"),
            RankingType::Weight => owned("weight"),
        }
    }
}

/// The derived record of one registration. Lifts and the total are in
/// grams. The age category and weight class are those of the registration at
/// the time of calculation.
#[derive(Debug)]
pub struct CompetitionResult {
    pub id: String,
    pub registration_id: String,
    pub contest_id: String,
    pub age_category_id: String,
    pub weight_class_id: String,
    pub best_bench: Option<u32>,
    pub best_squat: Option<u32>,
    pub best_deadlift: Option<u32>,
    pub total_weight: u64,
    pub coefficient_points: u128,
    pub place_open: Option<u64>,
    pub place_in_age_class: Option<u64>,
    pub place_in_weight_class: Option<u64>,
    pub is_disqualified: bool,
    pub disqualification_reason: Option<String>,
    pub broke_record: bool,
    pub record_type: Option<String>,
}

impl CompetitionResult {
    /// A copy that agrees with `self` in every field.
    pub fn duplicate(&self) -> (r: CompetitionResult)
        ensures
            r == *self,
    {
        CompetitionResult {
            id: self.id.clone(),
            registration_id: self.registration_id.clone(),
            contest_id: self.contest_id.clone(),
            age_category_id: self.age_category_id.clone(),
            weight_class_id: self.weight_class_id.clone(),
            best_bench: self.best_bench,
            best_squat: self.best_squat,
            best_deadlift: self.best_deadlift,
            total_weight: self.total_weight,
            coefficient_points: self.coefficient_points,
            place_open: self.place_open,
            place_in_age_class: self.place_in_age_class,
            place_in_weight_class: self.place_in_weight_class,
            is_disqualified: self.is_disqualified,
            disqualification_reason: clone_text(&self.disqualification_reason),
            broke_record: self.broke_record,
            record_type: clone_text(&self.record_type),
        }
    }
}

/// Whether `a` is a successful attempt of the registration at the lift.
pub open spec fn counts_for(a: Attempt, registration_id: Seq<char>, lift: LiftType) -> bool {
    a.registration_id@ == registration_id && a.lift_type == lift && a.status
        == AttemptStatus::Successful
}

/// The heaviest successful attempt of a registration at a lift, if it has
/// one.
pub open spec fn best_lift(s: Seq<Attempt>, registration_id: Seq<char>, lift: LiftType) -> Option<
    u32,
>
    decreases s.len(),
{
    if s.len() == 0 {
        None
    } else {
        let rest = best_lift(s.drop_last(), registration_id, lift);
        if counts_for(s.last(), registration_id, lift) {
            match rest {
                Some(w) => Some(
                    if s.last().weight > w {
                        s.last().weight
                    } else {
                        w
                    },
                ),
                None => Some(s.last().weight),
            }
        } else {
            rest
        }
    }
}

/// `best_lift` is the maximum over the successful attempts: it is the
/// weight of one of them, none of them is heavier, and it is absent exactly
/// when there is none.
pub proof fn lemma_best_lift_is_max(s: Seq<Attempt>, registration_id: Seq<char>, lift: LiftType)
    ensures
        best_lift(s, registration_id, lift) is None <==> forall|i: int|
            0 <= i < s.len() ==> !counts_for(#[trigger] s[i], registration_id, lift),
        best_lift(s, registration_id, lift) matches Some(w) ==> {
            &&& exists|i: int|
                0 <= i < s.len() && counts_for(#[trigger] s[i], registration_id, lift) && s[i].weight
                    == w
            &&& forall|i: int|
                0 <= i < s.len() && counts_for(#[trigger] s[i], registration_id, lift)
                    ==> s[i].weight <= w
        },
    decreases s.len(),
{
    if s.len() > 0 {
        let front = s.drop_last();
        lemma_best_lift_is_max(front, registration_id, lift);
        assert forall|i: int| 0 <= i < front.len() implies front[i] == s[i] by {}
        let last = s.len() - 1;
        match best_lift(front, registration_id, lift) {
            Some(w) => {
                let k = choose|k: int|
                    0 <= k < front.len() && counts_for(#[trigger] front[k], registration_id, lift)
                        && front[k].weight == w;
                assert(counts_for(s[k], registration_id, lift) && s[k].weight == w);
                if counts_for(s.last(), registration_id, lift) {
                    assert(counts_for(s[last], registration_id, lift));
                }
                assert forall|i: int|
                    0 <= i < s.len() && counts_for(
                        #[trigger] s[i],
                        registration_id,
                        lift,
                    ) implies s[i].weight <= best_lift(s, registration_id, lift)->Some_0 by {
                    if i < front.len() {
                        assert(counts_for(front[i], registration_id, lift));
                    }
                }
            },
            None => {
                if counts_for(s.last(), registration_id, lift) {
                    assert(counts_for(s[last], registration_id, lift));
                } else {
                    assert forall|i: int| 0 <= i < s.len() implies !counts_for(
                        #[trigger] s[i],
                        registration_id,
                        lift,
                    ) by {
                        if i < front.len() {
                            assert(!counts_for(front[i], registration_id, lift));
                        }
                    }
                }
                assert forall|i: int|
                    0 <= i < s.len() && counts_for(
                        #[trigger] s[i],
                        registration_id,
                        lift,
                    ) && best_lift(s, registration_id, lift) is Some implies s[i].weight
                    <= best_lift(s, registration_id, lift)->Some_0 by {
                    if i < front.len() {
                        assert(!counts_for(front[i], registration_id, lift));
                    }
                }
            },
        }
    }
}

/// The heaviest successful attempt (grams) of a registration at a lift.
pub fn get_best_attempt(attempts: &Vec<Attempt>, registration_id: &str, lift_type: LiftType) -> (r:
    Option<u32>)
    ensures
        r == best_lift(attempts@, registration_id@, lift_type),
{
    let mut best: Option<u32> = None;
    let mut i: usize = 0;
    proof {
        assert(attempts@.take(0) =~= Seq::<Attempt>::empty());
    }
    while i < attempts.len()
        invariant
            i <= attempts@.len(),
            best == best_lift(attempts@.take(i as int), registration_id@, lift_type),
        decreases attempts@.len() - i,
    {
        proof {
            assert(attempts@.take(i as int + 1).drop_last() =~= attempts@.take(i as int));
            assert(attempts@.take(i as int + 1).last() == attempts@[i as int]);
        }
        let a = &attempts[i];
        if a.lift_type == lift_type && a.status == AttemptStatus::Successful && str_eq(
            a.registration_id.as_str(),
            registration_id,
        ) {
            best =
            match best {
                Some(w) => Some(
                    if a.weight > w {
                        a.weight
                    } else {
                        w
                    },
                ),
                None => Some(a.weight),
            };
        }
        i += 1;
    }
    proof {
        assert(attempts@.take(i as int) =~= attempts@);
    }
    best
}

/// A best lift as a summand of the total: a lift without a success adds
/// nothing.
pub open spec fn lift_or_zero(w: Option<u32>) -> int {
    match w {
        Some(x) => x as int,
        None => 0,
    }
}

pub open spec fn factor_or(c: Option<u32>, neutral: u32) -> u32 {
    match c {
        Some(x) => x,
        None => neutral,
    }
}

/// Whether `res` is the freshly calculated record of `reg` under the
/// ledger `attempts`: best lifts, their sum, and the sum times both stored
/// factors (a missing factor counts as 1). A fresh record has no places and
/// no flags. Only its identifier is left open.
pub open spec fn is_result_of(res: CompetitionResult, reg: Registration, attempts: Seq<Attempt>) -> bool {
    &&& res.registration_id@ == reg.id@
    &&& res.contest_id@ == reg.contest_id@
    &&& res.age_category_id@ == reg.age_category_id@
    &&& res.weight_class_id@ == reg.weight_class_id@
    &&& res.best_bench == best_lift(attempts, reg.id@, LiftType::Bench)
    &&& res.best_squat == best_lift(attempts, reg.id@, LiftType::Squat)
    &&& res.best_deadlift == best_lift(attempts, reg.id@, LiftType::Deadlift)
    &&& res.total_weight == lift_or_zero(res.best_bench) + lift_or_zero(res.best_squat)
        + lift_or_zero(res.best_deadlift)
    &&& res.coefficient_points == points_of(
        res.total_weight,
        factor_or(reg.reshel_coefficient, 1_000_000),
        factor_or(reg.mccullough_coefficient, 100),
    )
    &&& res.place_open is None
    &&& res.place_in_age_class is None
    &&& res.place_in_weight_class is None
    &&& !res.is_disqualified
    &&& res.disqualification_reason is None
    &&& !res.broke_record
    &&& res.record_type is None
}

/// Calculates the record of a registration from the ledger, under the
/// given identifier.
pub fn calculate_results_with_id(id: String, registration: &Registration, attempts: &Vec<Attempt>) -> (r:
    CompetitionResult)
    ensures
        is_result_of(r, *registration, attempts@),
        r.id == id,
{
    let reg_id = registration.id.as_str();
    let best_bench = get_best_attempt(attempts, reg_id, LiftType::Bench);
    let best_squat = get_best_attempt(attempts, reg_id, LiftType::Squat);
    let best_deadlift = get_best_attempt(attempts, reg_id, LiftType::Deadlift);
    let b: u64 = match best_bench {
        Some(w) => w as u64,
        None => 0,
    };
    let s: u64 = match best_squat {
        Some(w) => w as u64,
        None => 0,
    };
    let d: u64 = match best_deadlift {
        Some(w) => w as u64,
        None => 0,
    };
    let total: u64 = b + s + d;
    let reshel: u32 = match registration.reshel_coefficient {
        Some(c) => c,
        None => 1_000_000,
    };
    let mccullough: u32 = match registration.mccullough_coefficient {
        Some(c) => c,
        None => 100,
    };
    CompetitionResult {
        id,
        registration_id: registration.id.clone(),
        contest_id: registration.contest_id.clone(),
        age_category_id: registration.age_category_id.clone(),
        weight_class_id: registration.weight_class_id.clone(),
        best_bench,
        best_squat,
        best_deadlift,
        total_weight: total,
        coefficient_points: calculate_points(total, reshel, mccullough),
        place_open: None,
        place_in_age_class: None,
        place_in_weight_class: None,
        is_disqualified: false,
        disqualification_reason: None,
        broke_record: false,
        record_type: None,
    }
}

/// Calculates the record of a registration from the ledger. The record
/// replaces any earlier one entirely and gets a fresh random identifier.
pub fn calculate_results(registration: &Registration, attempts: &Vec<Attempt>) -> (r:
    CompetitionResult)
    ensures
        is_result_of(r, *registration, attempts@),
{
    calculate_results_with_id(fresh_id(), registration, attempts)
}

/// Whether `x` stands ahead of `r` in a ranking: `x` is not disqualified,
/// has strictly more coefficient points and, in a category ranking, shares
/// the category of `r`.
pub open spec fn ahead(x: CompetitionResult, r: CompetitionResult, kind: RankingType) -> bool {
    &&& !x.is_disqualified
    &&& x.coefficient_points > r.coefficient_points
    &&& same_group(x, r, kind)
}

/// How many records of `all` stand ahead of `r`.
pub open spec fn count_ahead(all: Seq<CompetitionResult>, r: CompetitionResult, kind: RankingType) -> nat
    decreases all.len(),
{
    if all.len() == 0 {
        0
    } else {
        count_ahead(all.drop_last(), r, kind) + (if ahead(all.last(), r, kind) {
            1nat
        } else {
            0nat
        })
    }
}

/// The place of `r` among `all`: one more than the number of records
/// ahead of it.
pub open spec fn place_of(all: Seq<CompetitionResult>, r: CompetitionResult, kind: RankingType) -> nat {
    1 + count_ahead(all, r, kind)
}

/// `r` with its three places set from the result set `all`. A
/// disqualified record takes part in no ranking and carries no place.
pub open spec fn with_places(r: CompetitionResult, all: Seq<CompetitionResult>) -> CompetitionResult {
    if r.is_disqualified {
        CompetitionResult {
            place_open: None,
            place_in_age_class: None,
            place_in_weight_class: None,
            ..r
        }
    } else {
        CompetitionResult {
            place_open: Some(place_of(all, r, RankingType::Open) as u64),
            place_in_age_class: Some(place_of(all, r, RankingType::Age) as u64),
            place_in_weight_class: Some(place_of(all, r, RankingType::Weight) as u64),
            ..r
        }
    }
}

/// The result set of a contest with every record's places set.
pub open spec fn ranked(all: Seq<CompetitionResult>) -> Seq<CompetitionResult> {
    Seq::new(all.len(), |i: int| with_places(all[i], all))
}

/// Whether two records compete in the same group of a ranking: always
/// in the open ranking, else when they share the category.
pub open spec fn same_group(x: CompetitionResult, y: CompetitionResult, kind: RankingType) -> bool {
    match kind {
        RankingType::Open => true,
        RankingType::Age => x.age_category_id@ == y.age_category_id@,
        RankingType::Weight => x.weight_class_id@ == y.weight_class_id@,
    }
}

/// Records of one group with equal coefficient points share a place.
pub proof fn lemma_equal_points_share_place(
    all: Seq<CompetitionResult>,
    x: CompetitionResult,
    y: CompetitionResult,
    kind: RankingType,
)
    requires
        x.coefficient_points == y.coefficient_points,
        same_group(x, y, kind),
    ensures
        place_of(all, x, kind) == place_of(all, y, kind),
    decreases all.len(),
{
    if all.len() > 0 {
        lemma_equal_points_share_place(all.drop_last(), x, y, kind);
    }
}

/// A record that is ranked and has more coefficient points than another
/// of its group stands at a strictly better place.
pub proof fn lemma_more_points_better_place(
    all: Seq<CompetitionResult>,
    i: int,
    y: CompetitionResult,
    kind: RankingType,
)
    requires
        0 <= i < all.len(),
        !all[i].is_disqualified,
        all[i].coefficient_points > y.coefficient_points,
        same_group(all[i], y, kind),
    ensures
        place_of(all, all[i], kind) < place_of(all, y, kind),
    decreases all.len(),
{
    let x = all[i];
    let front = all.drop_last();
    if i == all.len() - 1 {
        lemma_ahead_of_better_is_ahead(front, x, y, kind);
        assert(ahead(all.last(), y, kind));
        assert(!ahead(all.last(), x, kind));
    } else {
        assert(front[i] == all[i]);
        lemma_more_points_better_place(front, i, y, kind);
    }
}

/// Whoever stands ahead of a record stands ahead of every record of its
/// group that has no more points.
pub proof fn lemma_ahead_of_better_is_ahead(
    all: Seq<CompetitionResult>,
    x: CompetitionResult,
    y: CompetitionResult,
    kind: RankingType,
)
    requires
        x.coefficient_points >= y.coefficient_points,
        same_group(x, y, kind),
    ensures
        count_ahead(all, x, kind) <= count_ahead(all, y, kind),
    decreases all.len(),
{
    if all.len() > 0 {
        lemma_ahead_of_better_is_ahead(all.drop_last(), x, y, kind);
    }
}

/// A ranked record that no ranked record of its group beats in points
/// stands at place 1.
pub proof fn lemma_leader_has_place_one(all: Seq<CompetitionResult>, x: CompetitionResult, kind: RankingType)
    requires
        forall|j: int|
            0 <= j < all.len() && !(#[trigger] all[j]).is_disqualified && same_group(all[j], x, kind)
                ==> all[j].coefficient_points <= x.coefficient_points,
    ensures
        place_of(all, x, kind) == 1,
    decreases all.len(),
{
    if all.len() > 0 {
        let front = all.drop_last();
        assert forall|j: int|
            0 <= j < front.len() && !(#[trigger] front[j]).is_disqualified && same_group(
                front[j],
                x,
                kind,
            ) implies front[j].coefficient_points <= x.coefficient_points by {
            assert(front[j] == all[j]);
        }
        lemma_leader_has_place_one(front, x, kind);
        assert(all[all.len() - 1] == all.last());
    }
}

fn is_ahead(x: &CompetitionResult, r: &CompetitionResult, kind: RankingType) -> (b: bool)
    ensures
        b == ahead(*x, *r, kind),
{
    !x.is_disqualified && x.coefficient_points > r.coefficient_points && match kind {
        RankingType::Open => true,
        RankingType::Age => str_eq(x.age_category_id.as_str(), r.age_category_id.as_str()),
        RankingType::Weight => str_eq(x.weight_class_id.as_str(), r.weight_class_id.as_str()),
    }
}

/// The place of the record at position `i` in one of the rankings.
pub fn place_among(results: &Vec<CompetitionResult>, i: usize, kind: RankingType) -> (r: u64)
    requires
        i < results@.len(),
    ensures
        r == place_of(results@, results@[i as int], kind),
{
    let mut count: usize = 0;
    let mut j: usize = 0;
    proof {
        assert(results@.take(0) =~= Seq::<CompetitionResult>::empty());
    }
    while j < results.len()
        invariant
            j <= results@.len(),
            i < results@.len(),
            count == count_ahead(results@.take(j as int), results@[i as int], kind),
            count <= j,
            j > i ==> count < j,
        decreases results@.len() - j,
    {
        proof {
            assert(results@.take(j as int + 1).drop_last() =~= results@.take(j as int));
            assert(results@.take(j as int + 1).last() == results@[j as int]);
        }
        if is_ahead(&results[j], &results[i], kind) {
            count += 1;
        }
        j += 1;
    }
    proof {
        assert(results@.take(j as int) =~= results@);
    }
    count as u64 + 1
}

/// Sets the three places of every record of a contest's result set.
pub fn update_all_rankings(results: &mut Vec<CompetitionResult>)
    ensures
        final(results)@ == ranked(old(results)@),
{
    let ghost before = results@;
    let mut out: Vec<CompetitionResult> = Vec::new();
    let mut i: usize = 0;
    while i < results.len()
        invariant
            i <= results@.len(),
            results@ == before,
            out@.len() == i,
            forall|k: int| 0 <= k < i ==> out@[k] == with_places(before[k], before),
        decreases results@.len() - i,
    {
        let r = &results[i];
        let (open, age, weight) = if r.is_disqualified {
            (None, None, None)
        } else {
            (
                Some(place_among(results, i, RankingType::Open)),
                Some(place_among(results, i, RankingType::Age)),
                Some(place_among(results, i, RankingType::Weight)),
            )
        };
        let mut n = r.duplicate();
        n.place_open = open;
        n.place_in_age_class = age;
        n.place_in_weight_class = weight;
        out.push(n);
        i += 1;
    }
    proof {
        assert(out@ =~= ranked(before));
    }
    *results = out;
}

/// Two records agree in what a ranking looks at.
pub open spec fn same_standing(a: CompetitionResult, b: CompetitionResult) -> bool {
    &&& a.is_disqualified == b.is_disqualified
    &&& a.coefficient_points == b.coefficient_points
    &&& a.age_category_id@ == b.age_category_id@
    &&& a.weight_class_id@ == b.weight_class_id@
}

/// Places depend only on what a ranking looks at: points, categories and
/// disqualification.
pub proof fn lemma_count_ahead_same_standing(
    a: Seq<CompetitionResult>,
    b: Seq<CompetitionResult>,
    x: CompetitionResult,
    y: CompetitionResult,
    kind: RankingType,
)
    requires
        a.len() == b.len(),
        forall|i: int| 0 <= i < a.len() ==> same_standing(#[trigger] a[i], b[i]),
        same_standing(x, y),
    ensures
        count_ahead(a, x, kind) == count_ahead(b, y, kind),
    decreases a.len(),
{
    if a.len() > 0 {
        assert(same_standing(a[a.len() - 1], b[a.len() - 1]));
        assert forall|i: int| 0 <= i < a.drop_last().len() implies same_standing(
            #[trigger] a.drop_last()[i],
            b.drop_last()[i],
        ) by {
            assert(same_standing(a[i], b[i]));
        }
        lemma_count_ahead_same_standing(a.drop_last(), b.drop_last(), x, y, kind);
    }
}

/// Ranking a result set that is already ranked changes nothing.
pub proof fn lemma_ranking_idempotent(all: Seq<CompetitionResult>)
    ensures
        ranked(ranked(all)) == ranked(all),
{
    let once = ranked(all);
    assert forall|i: int| 0 <= i < all.len() implies #[trigger] ranked(once)[i] == once[i] by {
        assert forall|k: int| 0 <= k < all.len() implies same_standing(#[trigger] once[k], all[k]) by {}
        lemma_count_ahead_same_standing(once, all, once[i], all[i], RankingType::Open);
        lemma_count_ahead_same_standing(once, all, once[i], all[i], RankingType::Age);
        lemma_count_ahead_same_standing(once, all, once[i], all[i], RankingType::Weight);
    }
    assert(ranked(once) =~= once);
}

/// Two records agree in everything that is derived; only the identifier
/// of the row may differ.
pub open spec fn same_row(a: CompetitionResult, b: CompetitionResult) -> bool {
    &&& same_standing(a, b)
    &&& a.registration_id@ == b.registration_id@
    &&& a.contest_id@ == b.contest_id@
    &&& a.best_bench == b.best_bench
    &&& a.best_squat == b.best_squat
    &&& a.best_deadlift == b.best_deadlift
    &&& a.total_weight == b.total_weight
    &&& a.place_open == b.place_open
    &&& a.place_in_age_class == b.place_in_age_class
    &&& a.place_in_weight_class == b.place_in_weight_class
    &&& a.disqualification_reason == b.disqualification_reason
    &&& a.broke_record == b.broke_record
    &&& a.record_type == b.record_type
}

/// Whether `results` is what a full recalculation yields for the
/// registrations `regs` under the ledger `attempts`: one freshly calculated
/// record per registration, in order, and then ranked.
pub open spec fn is_recalculation_of(
    results: Seq<CompetitionResult>,
    regs: Seq<Registration>,
    attempts: Seq<Attempt>,
) -> bool {
    exists|fresh: Seq<CompetitionResult>|
        {
            &&& fresh.len() == regs.len()
            &&& forall|k: int| 0 <= k < regs.len() ==> is_result_of(#[trigger] fresh[k], regs[k], attempts)
            &&& results == ranked(fresh)
        }
}

/// Recalculating twice with no change to registrations or attempts yields
/// the same rows: every derived column agrees, places included.
pub proof fn lemma_recalculation_repeats(
    first: Seq<CompetitionResult>,
    second: Seq<CompetitionResult>,
    regs: Seq<Registration>,
    attempts: Seq<Attempt>,
)
    requires
        is_recalculation_of(first, regs, attempts),
        is_recalculation_of(second, regs, attempts),
    ensures
        first.len() == second.len(),
        forall|k: int| 0 <= k < first.len() ==> same_row(#[trigger] first[k], second[k]),
{
    let f1 = choose|fresh: Seq<CompetitionResult>|
        {
            &&& fresh.len() == regs.len()
            &&& forall|k: int| 0 <= k < regs.len() ==> is_result_of(#[trigger] fresh[k], regs[k], attempts)
            &&& first == ranked(fresh)
        };
    let f2 = choose|fresh: Seq<CompetitionResult>|
        {
            &&& fresh.len() == regs.len()
            &&& forall|k: int| 0 <= k < regs.len() ==> is_result_of(#[trigger] fresh[k], regs[k], attempts)
            &&& second == ranked(fresh)
        };
    assert forall|k: int| 0 <= k < first.len() implies same_row(#[trigger] first[k], second[k]) by {
        assert forall|i: int| 0 <= i < f1.len() implies same_standing(#[trigger] f1[i], f2[i]) by {
            assert(is_result_of(f1[i], regs[i], attempts));
            assert(is_result_of(f2[i], regs[i], attempts));
        }
        assert(is_result_of(f1[k], regs[k], attempts));
        assert(is_result_of(f2[k], regs[k], attempts));
        lemma_count_ahead_same_standing(f1, f2, f1[k], f2[k], RankingType::Open);
        lemma_count_ahead_same_standing(f1, f2, f1[k], f2[k], RankingType::Age);
        lemma_count_ahead_same_standing(f1, f2, f1[k], f2[k], RankingType::Weight);
    }
}

/// The registrations of a contest, in stored order.
pub open spec fn registrations_of_contest(regs: Seq<Registration>, contest_id: Seq<char>) -> Seq<
    Registration,
> {
    regs.filter(|r: Registration| r.contest_id@ == contest_id)
}

/// Recalculates the whole contest: a fresh record for each of its
/// registrations, then all three rankings over the new result set.
pub fn result_calculate(
    registrations: &Vec<Registration>,
    attempts: &Vec<Attempt>,
    contest_id: &str,
) -> (r: Vec<CompetitionResult>)
    ensures
        is_recalculation_of(r@, registrations_of_contest(registrations@, contest_id@), attempts@),
{
    let ghost keep = |r: Registration| r.contest_id@ == contest_id@;
    let ghost mut chosen: Seq<Registration> = Seq::empty();
    let mut out: Vec<CompetitionResult> = Vec::new();
    let mut i: usize = 0;
    proof {
        assert(registrations@.take(0) =~= Seq::<Registration>::empty());
        registrations@.take(0).lemma_filter_len(keep);
        assert(registrations@.take(0).filter(keep) =~= Seq::<Registration>::empty());
    }
    while i < registrations.len()
        invariant
            i <= registrations@.len(),
            keep == (|r: Registration| r.contest_id@ == contest_id@),
            chosen == registrations@.take(i as int).filter(keep),
            out@.len() == chosen.len(),
            forall|k: int| 0 <= k < out@.len() ==> is_result_of(#[trigger] out@[k], chosen[k], attempts@),
        decreases registrations@.len() - i,
    {
        proof {
            assert(registrations@.take(i as int + 1) =~= registrations@.take(i as int).push(
                registrations@[i as int],
            ));
            registrations@.take(i as int).lemma_filter_push(registrations@[i as int], keep);
        }
        let reg = &registrations[i];
        if str_eq(reg.contest_id.as_str(), contest_id) {
            let res = calculate_results(reg, attempts);
            out.push(res);
            proof {
                chosen = chosen.push(*reg);
            }
        }
        i += 1;
    }
    proof {
        assert(registrations@.take(i as int) =~= registrations@);
    }
    let ghost fresh = out@;
    update_all_rankings(&mut out);
    out
}

/// The sort key of a place: a record without a place comes first.
pub open spec fn place_key(r: CompetitionResult, kind: RankingType) -> int {
    let place = match kind {
        RankingType::Open => r.place_open,
        RankingType::Age => r.place_in_age_class,
        RankingType::Weight => r.place_in_weight_class,
    };
    match place {
        Some(p) => p + 1,
        None => 0,
    }
}

pub open spec fn not_disqualified() -> spec_fn(CompetitionResult) -> bool {
    |r: CompetitionResult| !r.is_disqualified
}

pub open spec fn by_place(kind: RankingType) -> spec_fn(CompetitionResult) -> int {
    |r: CompetitionResult| place_key(r, kind)
}

/// One of the three ranking tables: the records that are not
/// disqualified, by ascending place; records that share a place keep their
/// stored order.
pub open spec fn ranking_table(all: Seq<CompetitionResult>, kind: RankingType) -> Seq<
    CompetitionResult,
> {
    select_sorted(all, not_disqualified(), by_place(kind))
}

/// A ranking table holds exactly the records that are not disqualified,
/// and places never decrease along it.
pub proof fn lemma_ranking_table(all: Seq<CompetitionResult>, kind: RankingType)
    ensures
        ranking_table(all, kind).to_multiset() == all.filter(not_disqualified()).to_multiset(),
        forall|i: int, j: int|
            0 <= i < j < ranking_table(all, kind).len() ==> place_key(
                #[trigger] ranking_table(all, kind)[i],
                kind,
            ) <= place_key(#[trigger] ranking_table(all, kind)[j], kind),
{
    let q = ranking_table(all, kind);
    crate::sorting::lemma_select_sorted_members(all, not_disqualified(), by_place(kind));
    crate::sorting::lemma_select_sorted_is_sorted(all, not_disqualified(), by_place(kind));
    assert forall|i: int, j: int| 0 <= i < j < q.len() implies place_key(#[trigger] q[i], kind)
        <= place_key(#[trigger] q[j], kind) by {
        assert(by_place(kind)(q[i]) <= by_place(kind)(q[j]));
    }
}

/// The requested ranking table of a contest's result set.
pub fn result_get_rankings(results: &Vec<CompetitionResult>, ranking_type: RankingType) -> (r: Vec<
    CompetitionResult,
>)
    ensures
        r@ == ranking_table(results@, ranking_type),
{
    let ghost keep = not_disqualified();
    let ghost key = by_place(ranking_type);
    let mut out: Vec<CompetitionResult> = Vec::new();
    let mut keys: Vec<u128> = Vec::new();
    let mut i: usize = 0;
    proof {
        assert(results@.take(0) =~= Seq::<CompetitionResult>::empty());
    }
    while i < results.len()
        invariant
            i <= results@.len(),
            keep == not_disqualified(),
            key == by_place(ranking_type),
            out@ == select_sorted(results@.take(i as int), keep, key),
            out@.len() == keys@.len(),
            forall|k: int| 0 <= k < keys@.len() ==> keys@[k] as int == key(out@[k]),
        decreases results@.len() - i,
    {
        proof {
            assert(results@.take(i as int + 1).drop_last() =~= results@.take(i as int));
            assert(results@.take(i as int + 1).last() == results@[i as int]);
        }
        let r = &results[i];
        if !r.is_disqualified {
            let place = match ranking_type {
                RankingType::Open => r.place_open,
                RankingType::Age => r.place_in_age_class,
                RankingType::Weight => r.place_in_weight_class,
            };
            let k: u128 = match place {
                Some(p) => p as u128 + 1,
                None => 0,
            };
            insert_stable(&mut out, &mut keys, r.duplicate(), k, Ghost(key));
        }
        i += 1;
    }
    proof {
        assert(results@.take(i as int) =~= results@);
    }
    out
}

/// The open ranking table.
pub fn get_open_ranking(results: &Vec<CompetitionResult>) -> (r: Vec<CompetitionResult>)
    ensures
        r@ == ranking_table(results@, RankingType::Open),
{
    result_get_rankings(results, RankingType::Open)
}

/// The ranking table by age category.
pub fn get_age_class_ranking(results: &Vec<CompetitionResult>) -> (r: Vec<CompetitionResult>)
    ensures
        r@ == ranking_table(results@, RankingType::Age),
{
    result_get_rankings(results, RankingType::Age)
}

/// The ranking table by weight class.
pub fn get_weight_class_ranking(results: &Vec<CompetitionResult>) -> (r: Vec<CompetitionResult>)
    ensures
        r@ == ranking_table(results@, RankingType::Weight),
{
    result_get_rankings(results, RankingType::Weight)
}

/// The result table without the record of a registration.
pub open spec fn without_registration(s: Seq<CompetitionResult>, registration_id: Seq<char>) -> Seq<
    CompetitionResult,
> {
    s.filter(of_other_registrations(registration_id))
}

pub open spec fn of_other_registrations(registration_id: Seq<char>) -> spec_fn(
    CompetitionResult,
) -> bool {
    |r: CompetitionResult| r.registration_id@ != registration_id
}

/// No two records of the table belong to the same registration.
pub open spec fn one_per_registration(s: Seq<CompetitionResult>) -> bool {
    forall|i: int, j: int|
        0 <= i < s.len() && 0 <= j < s.len() && i != j ==> (#[trigger] s[i]).registration_id@ != (
        #[trigger] s[j]).registration_id@
}

/// Stores a record in the result table. It replaces the record that the
/// registration had before entirely, so a table with one record per
/// registration stays one.
pub fn upsert_result(results: &mut Vec<CompetitionResult>, result: CompetitionResult)
    ensures
        final(results)@ == without_registration(old(results)@, result.registration_id@).push(result),
        one_per_registration(old(results)@) ==> one_per_registration(final(results)@),
{
    let ghost before = results@;
    let ghost keep = of_other_registrations(result.registration_id@);
    let mut kept: Vec<CompetitionResult> = Vec::new();
    let mut i: usize = 0;
    proof {
        assert(before.take(0) =~= Seq::<CompetitionResult>::empty());
        before.take(0).lemma_filter_len(keep);
        assert(before.take(0).filter(keep) =~= Seq::<CompetitionResult>::empty());
    }
    while i < results.len()
        invariant
            i <= results@.len(),
            results@ == before,
            keep == of_other_registrations(result.registration_id@),
            kept@ == before.take(i as int).filter(keep),
        decreases results@.len() - i,
    {
        proof {
            assert(before.take(i as int + 1) =~= before.take(i as int).push(before[i as int]));
            before.take(i as int).lemma_filter_push(before[i as int], keep);
        }
        if !str_eq(results[i].registration_id.as_str(), result.registration_id.as_str()) {
            kept.push(results[i].duplicate());
        }
        i += 1;
    }
    proof {
        assert(before.take(i as int) =~= before);
        if one_per_registration(before) {
            lemma_filter_keeps_one_per_registration(before, result.registration_id@);
            let rest = without_registration(before, result.registration_id@);
            let after = rest.push(result);
            assert forall|a: int, b: int|
                0 <= a < after.len() && 0 <= b < after.len() && a != b implies (
            #[trigger] after[a]).registration_id@ != (#[trigger] after[b]).registration_id@ by {
                if a < rest.len() && b < rest.len() {
                    assert(rest[a].registration_id@ != rest[b].registration_id@);
                } else if a < rest.len() {
                    assert(rest[a].registration_id@ != result.registration_id@);
                } else {
                    assert(rest[b].registration_id@ != result.registration_id@);
                }
            }
        }
    }
    kept.push(result);
    *results = kept;
}

/// Leaving a registration out of a table with one record per registration
/// leaves such a table, and none of its records belongs to that
/// registration.
pub proof fn lemma_filter_keeps_one_per_registration(s: Seq<CompetitionResult>, registration_id: Seq<char>)
    requires
        one_per_registration(s),
    ensures
        one_per_registration(without_registration(s, registration_id)),
        forall|i: int|
            0 <= i < without_registration(s, registration_id).len() ==> (
            #[trigger] without_registration(s, registration_id)[i]).registration_id@
                != registration_id,
        forall|i: int|
            0 <= i < without_registration(s, registration_id).len() ==> s.contains(
                #[trigger] without_registration(s, registration_id)[i],
            ),
    decreases s.len(),
{
    let keep = of_other_registrations(registration_id);
    let out = s.filter(keep);
    if s.len() == 0 {
        s.lemma_filter_len(keep);
    } else {
        let front = s.drop_last();
        assert forall|i: int, j: int|
            0 <= i < front.len() && 0 <= j < front.len() && i != j implies (
        #[trigger] front[i]).registration_id@ != (#[trigger] front[j]).registration_id@ by {
            assert(front[i] == s[i] && front[j] == s[j]);
        }
        lemma_filter_keeps_one_per_registration(front, registration_id);
        assert(s =~= front.push(s.last()));
        front.lemma_filter_push(s.last(), keep);
        let inner = front.filter(keep);
        assert forall|i: int| 0 <= i < out.len() implies s.contains(#[trigger] out[i]) by {
            if i < inner.len() {
                assert(out[i] == inner[i]);
                assert(front.contains(inner[i]));
                let k = choose|k: int| 0 <= k < front.len() && front[k] == inner[i];
                assert(s[k] == inner[i]);
            } else {
                assert(out[i] == s[s.len() - 1]);
            }
        }
        assert forall|i: int| 0 <= i < out.len() implies (#[trigger] out[i]).registration_id@
            != registration_id by {
            if i < inner.len() {
                assert(out[i] == inner[i]);
            }
        }
        assert forall|i: int, j: int|
            0 <= i < out.len() && 0 <= j < out.len() && i != j implies (
        #[trigger] out[i]).registration_id@ != (#[trigger] out[j]).registration_id@ by {
            if i < inner.len() && j < inner.len() {
                assert(out[i] == inner[i] && out[j] == inner[j]);
            } else if i < inner.len() {
                assert(out[i] == inner[i]);
                assert(front.contains(inner[i]));
                let k = choose|k: int| 0 <= k < front.len() && front[k] == inner[i];
                assert(s[k] == inner[i]);
                assert(s[s.len() - 1] == out[j]);
            } else {
                assert(out[j] == inner[j]);
                assert(front.contains(inner[j]));
                let k = choose|k: int| 0 <= k < front.len() && front[k] == inner[j];
                assert(s[k] == inner[j]);
                assert(s[s.len() - 1] == out[i]);
            }
        }
    }
}

/// Calculates the record of the registration `registration_id`. A
/// registration that does not exist is an error.
pub fn calculate_results_by_id(
    registrations: &Vec<Registration>,
    attempts: &Vec<Attempt>,
    registration_id: &str,
) -> (r: Result<CompetitionResult, AppError>)
    ensures
        r is Ok <==> registration_of(registrations@, registration_id@) is Some,
        r matches Ok(res) ==> is_result_of(
            res,
            registration_of(registrations@, registration_id@)->Some_0,
            attempts@,
        ),
        r matches Err(e) ==> (e matches AppError::RegistrationNotFound { id } && id@
            == registration_id@),
{
    match find_registration(registrations, registration_id) {
        Some(i) => Ok(calculate_results(&registrations[i], attempts)),
        None => Err(AppError::RegistrationNotFound { id: owned(registration_id) }),
    }
}

/// The first record of the table that belongs to the registration.
pub open spec fn result_of_registration(s: Seq<CompetitionResult>, registration_id: Seq<char>) -> Option<
    CompetitionResult,
>
    decreases s.len(),
{
    if s.len() == 0 {
        None
    } else if s[0].registration_id@ == registration_id {
        Some(s[0])
    } else {
        result_of_registration(s.drop_first(), registration_id)
    }
}

/// The stored record of a registration, if it has one.
pub fn get_result_by_registration(results: &Vec<CompetitionResult>, registration_id: &str) -> (r:
    Option<CompetitionResult>)
    ensures
        r == result_of_registration(results@, registration_id@),
{
    let mut i: usize = 0;
    proof {
        assert(results@.subrange(0, results@.len() as int) =~= results@);
    }
    while i < results.len()
        invariant
            i <= results@.len(),
            result_of_registration(results@, registration_id@) == result_of_registration(
                results@.subrange(i as int, results@.len() as int),
                registration_id@,
            ),
        decreases results@.len() - i,
    {
        proof {
            let rest = results@.subrange(i as int, results@.len() as int);
            assert(rest[0] == results@[i as int]);
            assert(rest.drop_first() =~= results@.subrange(i as int + 1, results@.len() as int));
        }
        if str_eq(results[i].registration_id.as_str(), registration_id) {
            return Some(results[i].duplicate());
        }
        i += 1;
    }
    proof {
        assert(results@.subrange(i as int, results@.len() as int).len() == 0);
    }
    None
}

/// The record of a registration: the stored one if there is one, else a
/// freshly calculated one.
pub fn result_get_competitor_results(
    results: &Vec<CompetitionResult>,
    registrations: &Vec<Registration>,
    attempts: &Vec<Attempt>,
    registration_id: &str,
) -> (r: Result<CompetitionResult, AppError>)
    ensures
        result_of_registration(results@, registration_id@) matches Some(stored) ==> r matches Ok(
            res,
        ) && res == stored,
        result_of_registration(results@, registration_id@) is None ==> {
            &&& r is Ok <==> registration_of(registrations@, registration_id@) is Some
            &&& r matches Ok(res) ==> is_result_of(
                res,
                registration_of(registrations@, registration_id@)->Some_0,
                attempts@,
            )
            &&& r matches Err(e) ==> (e matches AppError::RegistrationNotFound { id } && id@
                == registration_id@)
        },
{
    match get_result_by_registration(results, registration_id) {
        Some(stored) => Ok(stored),
        None => calculate_results_by_id(registrations, attempts, registration_id),
    }
}

/// The formats a ranking can be exported in.
#[derive(Clone, Copy, Debug, PartialEq, Eq, Structural)]
pub enum ExportFormat {
    Csv,
    Json,
}

/// The text that refuses an export format.
pub open spec fn unsupported_format(format: Seq<char>) -> Seq<char> {
    "Unsupported export format: "@ + format + ". Supported formats: csv, json"@
}

/// Reads the name of an export format: `csv` or `json`. Any other name
/// is invalid input on the field `format`.
pub fn export_format(format: &str) -> (r: Result<ExportFormat, AppError>)
    ensures
        format@ == "csv"@ ==> r == Ok::<ExportFormat, AppError>(ExportFormat::Csv),
        (format@ != "csv"@ && format@ == "json"@) ==> r == Ok::<ExportFormat, AppError>(
            ExportFormat::Json,
        ),
        (format@ != "csv"@ && format@ != "json"@) ==> (r matches Err(
            AppError::InvalidInput { field, reason },
        ) && field@ == "format"@ && reason@ == unsupported_format(format@)),
{
    if str_eq(format, "csv") {
        Ok(ExportFormat::Csv)
    } else if str_eq(format, "json") {
        Ok(ExportFormat::Json)
    } else {
        Err(
            AppError::InvalidInput {
                field: owned("format"),
                reason: owned("Unsupported export format: ").concat(format).concat(
                    ". Supported formats: csv, json",
                ),
            },
        )
    }
}

pub open spec fn of_contest(contest_id: Seq<char>) -> spec_fn(CompetitionResult) -> bool {
    |r: CompetitionResult| r.contest_id@ == contest_id
}

pub open spec fn most_points_first() -> spec_fn(CompetitionResult) -> int {
    |r: CompetitionResult| u128::MAX - r.coefficient_points
}

/// All records of a contest, the most coefficient points first; records
/// with equal points keep their stored order.
pub fn get_contest_results(results: &Vec<CompetitionResult>, contest_id: &str) -> (r: Vec<
    CompetitionResult,
>)
    ensures
        r@ == select_sorted(results@, of_contest(contest_id@), most_points_first()),
{
    let ghost keep = of_contest(contest_id@);
    let ghost key = most_points_first();
    let mut out: Vec<CompetitionResult> = Vec::new();
    let mut keys: Vec<u128> = Vec::new();
    let mut i: usize = 0;
    proof {
        assert(results@.take(0) =~= Seq::<CompetitionResult>::empty());
    }
    while i < results.len()
        invariant
            i <= results@.len(),
            keep == of_contest(contest_id@),
            key == most_points_first(),
            out@ == select_sorted(results@.take(i as int), keep, key),
            out@.len() == keys@.len(),
            forall|k: int| 0 <= k < keys@.len() ==> keys@[k] as int == key(out@[k]),
        decreases results@.len() - i,
    {
        proof {
            assert(results@.take(i as int + 1).drop_last() =~= results@.take(i as int));
            assert(results@.take(i as int + 1).last() == results@[i as int]);
        }
        let r = &results[i];
        if str_eq(r.contest_id.as_str(), contest_id) {
            let k: u128 = u128::MAX - r.coefficient_points;
            insert_stable(&mut out, &mut keys, r.duplicate(), k, Ghost(key));
        }
        i += 1;
    }
    proof {
        assert(results@.take(i as int) =~= results@);
    }
    out
}

/// What the scoreboard shows: the open ranking, how many competitors it
/// holds, the contest's name if it is known, and when it was drawn up.
#[derive(Debug)]
pub struct ScoreboardData {
    pub rankings: Vec<CompetitionResult>,
    pub total_competitors: usize,
    pub contest_name: Option<String>,
    pub updated_at: String,
}

/// Draws up the scoreboard of a contest from its result set.
pub fn result_get_scoreboard(
    results: &Vec<CompetitionResult>,
    contest_name: Option<String>,
    updated_at: String,
) -> (r: ScoreboardData)
    ensures
        r.rankings@ == ranking_table(results@, RankingType::Open),
        r.total_competitors == r.rankings@.len(),
        r.contest_name == contest_name,
        r.updated_at == updated_at,
{
    let rankings = get_open_ranking(results);
    let total_competitors = rankings.len();
    ScoreboardData { rankings, total_competitors, contest_name, updated_at }
}

} // verus!
