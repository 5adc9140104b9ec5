//! Plate loading: which plates to put on each side of the bar for a
//! target weight.
//!
//! Plates are taken greedily from the heaviest kind down. The loading that
//! results is reproducible, not necessarily the closest possible one.

use vstd::prelude::*;
use vstd::string::*;
use crate::error::AppError;
use crate::models::plate_set::{ContestBarWeights, CreatePlateSet, PlateCalculation, PlateSet};
use crate::sorting::{insert_stable, select_sorted};
use crate::text::{fresh_id, owned, str_eq};

verus! {

pub open spec fn every_plate() -> spec_fn(PlateSet) -> bool {
    |p: PlateSet| true
}

pub open spec fn heavier_first() -> spec_fn(PlateSet) -> int {
    |p: PlateSet| u32::MAX - p.plate_weight
}

/// The inventory from the heaviest kind of plate down; kinds of equal
/// weight keep their stored order.
pub open spec fn by_weight_descending(plates: Seq<PlateSet>) -> Seq<PlateSet> {
    select_sorted(plates, every_plate(), heavier_first())
}

/// The descending inventory holds every kind of plate once, and weights
/// never increase along it.
pub proof fn lemma_by_weight_descending(plates: Seq<PlateSet>)
    ensures
        by_weight_descending(plates).to_multiset() == plates.to_multiset(),
        forall|i: int, j: int|
            0 <= i < j < by_weight_descending(plates).len() ==> (#[trigger] by_weight_descending(
                plates,
            )[i]).plate_weight >= (#[trigger] by_weight_descending(plates)[j]).plate_weight,
{
    let q = by_weight_descending(plates);
    crate::sorting::lemma_select_sorted_members(plates, every_plate(), heavier_first());
    crate::sorting::lemma_select_sorted_is_sorted(plates, every_plate(), heavier_first());
    assert(plates.filter(every_plate()) =~= plates) by {
        plates.lemma_filter_len(every_plate());
        lemma_filter_all(plates);
    }
    assert forall|i: int, j: int| 0 <= i < j < q.len() implies (#[trigger] q[i]).plate_weight >= (
    #[trigger] q[j]).plate_weight by {
        assert(heavier_first()(q[i]) <= heavier_first()(q[j]));
    }
}

proof fn lemma_filter_all(plates: Seq<PlateSet>)
    ensures
        plates.filter(every_plate()) == plates,
    decreases plates.len(),
{
    reveal(Seq::filter);
    if plates.len() > 0 {
        lemma_filter_all(plates.drop_last());
        assert(plates.drop_last().push(plates.last()) =~= plates);
    }
}

/// How many plates of kind `p` go on each side when `left` grams are
/// still missing on the whole bar: as many as fit, as far as the kind has
/// them. A kind without plates or without weight is passed over.
pub open spec fn plate_count(p: PlateSet, left: int) -> int {
    if p.quantity > 0 && p.plate_weight > 0 && 2 * p.plate_weight <= left {
        if left / (2 * p.plate_weight) < p.quantity {
            left / (2 * p.plate_weight)
        } else {
            p.quantity as int
        }
    } else {
        0
    }
}

/// What is still missing on the whole bar after the kinds of `sorted`
/// have been used in turn, starting from `start` grams.
pub open spec fn left_after(sorted: Seq<PlateSet>, start: int) -> int
    decreases sorted.len(),
{
    if sorted.len() == 0 {
        start
    } else {
        let left = left_after(sorted.drop_last(), start);
        left - 2 * sorted.last().plate_weight * plate_count(sorted.last(), left)
    }
}

/// The plates per side after the kinds of `sorted` have been used in
/// turn; kinds of which none is used are left out.
pub open spec fn plates_after(sorted: Seq<PlateSet>, start: int) -> Seq<(u32, usize)>
    decreases sorted.len(),
{
    if sorted.len() == 0 {
        Seq::empty()
    } else {
        let left = left_after(sorted.drop_last(), start);
        let count = plate_count(sorted.last(), left);
        if count > 0 {
            plates_after(sorted.drop_last(), start).push(
                (sorted.last().plate_weight, count as usize),
            )
        } else {
            plates_after(sorted.drop_last(), start)
        }
    }
}

/// Plates of one kind never weigh more than what is missing.
pub proof fn lemma_plate_count_fits(p: PlateSet, left: int)
    requires
        left >= 0,
    ensures
        0 <= plate_count(p, left) <= p.quantity || plate_count(p, left) == 0,
        0 <= 2 * p.plate_weight * plate_count(p, left) <= left,
{
    let d = 2 * p.plate_weight;
    if p.quantity > 0 && p.plate_weight > 0 && d <= left {
        let c = plate_count(p, left);
        assert(0 <= (left / d) * d <= left) by (nonlinear_arith)
            requires
                d > 0,
                left >= 0,
        ;
        assert(0 <= d * c <= (left / d) * d) by (nonlinear_arith)
            requires
                d > 0,
                0 <= c <= left / d,
        ;
    }
}

/// Greedy loading never overshoots: what is missing stays between 0 and
/// the amount that was missing at the start.
pub proof fn lemma_left_after_bounds(sorted: Seq<PlateSet>, start: int)
    requires
        start >= 0,
    ensures
        0 <= left_after(sorted, start) <= start,
    decreases sorted.len(),
{
    if sorted.len() > 0 {
        lemma_left_after_bounds(sorted.drop_last(), start);
        lemma_plate_count_fits(sorted.last(), left_after(sorted.drop_last(), start));
    }
}

/// The weight of the plates on one side of the bar.
pub open spec fn side_weight(plates: Seq<(u32, usize)>) -> int
    decreases plates.len(),
{
    if plates.len() == 0 {
        0
    } else {
        side_weight(plates.drop_last()) + plates.last().0 * plates.last().1
    }
}

/// The plates account for the weight that is loaded: twice the weight on
/// one side is what was missing at the start less what is still missing.
pub proof fn lemma_plates_account_for_load(sorted: Seq<PlateSet>, start: int)
    requires
        start >= 0,
    ensures
        2 * side_weight(plates_after(sorted, start)) == start - left_after(sorted, start),
    decreases sorted.len(),
{
    if sorted.len() > 0 {
        let front = sorted.drop_last();
        lemma_plates_account_for_load(front, start);
        lemma_left_after_bounds(front, start);
        let left = left_after(front, start);
        let count = plate_count(sorted.last(), left);
        lemma_plate_count_fits(sorted.last(), left);
        let w = sorted.last().plate_weight as int;
        if count > 0 {
            let used = plates_after(front, start).push((sorted.last().plate_weight, count as usize));
            assert(used.drop_last() =~= plates_after(front, start));
            assert(count <= sorted.last().quantity);
            assert(2 * (w * count) == 2 * w * count) by (nonlinear_arith);
        } else {
            assert(2 * w * count == 0) by (nonlinear_arith)
                requires
                    count == 0,
            ;
        }
    }
}

/// The lightest kind of plate that the contest has at least one of.
pub open spec fn smallest_available(plates: Seq<PlateSet>) -> Option<u32>
    decreases plates.len(),
{
    if plates.len() == 0 {
        None
    } else {
        let rest = smallest_available(plates.drop_last());
        if plates.last().quantity > 0 {
            match rest {
                Some(w) => Some(
                    if plates.last().plate_weight < w {
                        plates.last().plate_weight
                    } else {
                        w
                    },
                ),
                None => Some(plates.last().plate_weight),
            }
        } else {
            rest
        }
    }
}

/// `smallest_available` is the minimum over the kinds in stock.
pub proof fn lemma_smallest_available(plates: Seq<PlateSet>)
    ensures
        smallest_available(plates) is None <==> forall|i: int|
            0 <= i < plates.len() ==> (#[trigger] plates[i]).quantity <= 0,
        smallest_available(plates) matches Some(w) ==> {
            &&& exists|i: int|
                0 <= i < plates.len() && (#[trigger] plates[i]).quantity > 0 && plates[i].plate_weight
                    == w
            &&& forall|i: int|
                0 <= i < plates.len() && (#[trigger] plates[i]).quantity > 0
                    ==> plates[i].plate_weight >= w
        },
    decreases plates.len(),
{
    if plates.len() > 0 {
        let front = plates.drop_last();
        let last = plates.len() - 1;
        lemma_smallest_available(front);
        assert forall|i: int| 0 <= i < front.len() implies front[i] == plates[i] by {}
        match smallest_available(front) {
            Some(w) => {
                let k = choose|k: int|
                    0 <= k < front.len() && (#[trigger] front[k]).quantity > 0
                        && front[k].plate_weight == w;
                assert(plates[k].quantity > 0 && plates[k].plate_weight == w);
                assert(plates[last] == plates.last());
                assert forall|i: int|
                    0 <= i < plates.len() && (#[trigger] plates[i]).quantity
                        > 0 implies plates[i].plate_weight >= smallest_available(
                    plates,
                )->Some_0 by {
                    if i < front.len() {
                        assert(front[i].quantity > 0);
                    }
                }
            },
            None => {
                assert(plates[last] == plates.last());
                assert forall|i: int|
                    0 <= i < plates.len() && (#[trigger] plates[i]).quantity > 0
                        && smallest_available(plates) is Some implies plates[i].plate_weight
                    >= smallest_available(plates)->Some_0 by {
                    if i < front.len() {
                        assert(front[i].quantity <= 0);
                    }
                }
                if plates.last().quantity <= 0 {
                    assert forall|i: int| 0 <= i < plates.len() implies (
                    #[trigger] plates[i]).quantity <= 0 by {
                        if i < front.len() {
                            assert(front[i].quantity <= 0);
                        }
                    }
                }
            },
        }
    }
}

/// The smallest step between loadable weights: one more of the lightest
/// plate in stock on each side. Without any plate in stock it is that of a
/// 2.5 kg plate.
pub open spec fn increment_of(plates: Seq<PlateSet>) -> int {
    2 * (match smallest_available(plates) {
        Some(w) => w as int,
        None => 2_500,
    })
}

/// The smallest step between loadable weights, in grams.
pub fn calculate_increment(plate_sets: &Vec<PlateSet>) -> (r: u64)
    ensures
        r == increment_of(plate_sets@),
{
    let mut smallest: Option<u32> = None;
    let mut i: usize = 0;
    proof {
        assert(plate_sets@.take(0) =~= Seq::<PlateSet>::empty());
    }
    while i < plate_sets.len()
        invariant
            i <= plate_sets@.len(),
            smallest == smallest_available(plate_sets@.take(i as int)),
        decreases plate_sets@.len() - i,
    {
        proof {
            assert(plate_sets@.take(i as int + 1).drop_last() =~= plate_sets@.take(i as int));
            assert(plate_sets@.take(i as int + 1).last() == plate_sets@[i as int]);
        }
        let p = &plate_sets[i];
        if p.quantity > 0 {
            smallest =
            match smallest {
                Some(w) => Some(
                    if p.plate_weight < w {
                        p.plate_weight
                    } else {
                        w
                    },
                ),
                None => Some(p.plate_weight),
            };
        }
        i += 1;
    }
    proof {
        assert(plate_sets@.take(i as int) =~= plate_sets@);
    }
    match smallest {
        Some(w) => 2 * (w as u64),
        None => 5_000,
    }
}

/// Orders an inventory from the heaviest kind of plate down.
pub fn sort_plates_descending(plate_sets: &Vec<PlateSet>) -> (r: Vec<PlateSet>)
    ensures
        r@ == by_weight_descending(plate_sets@),
{
    let ghost keep = every_plate();
    let ghost key = heavier_first();
    let mut out: Vec<PlateSet> = Vec::new();
    let mut keys: Vec<u128> = Vec::new();
    let mut i: usize = 0;
    proof {
        assert(plate_sets@.take(0) =~= Seq::<PlateSet>::empty());
    }
    while i < plate_sets.len()
        invariant
            i <= plate_sets@.len(),
            keep == every_plate(),
            key == heavier_first(),
            out@ == select_sorted(plate_sets@.take(i as int), keep, key),
            out@.len() == keys@.len(),
            forall|k: int| 0 <= k < keys@.len() ==> keys@[k] as int == key(out@[k]),
        decreases plate_sets@.len() - i,
    {
        proof {
            assert(plate_sets@.take(i as int + 1).drop_last() =~= plate_sets@.take(i as int));
            assert(plate_sets@.take(i as int + 1).last() == plate_sets@[i as int]);
        }
        let p = &plate_sets[i];
        let k: u128 = (u32::MAX - p.plate_weight) as u128;
        insert_stable(&mut out, &mut keys, p.duplicate(), k, Ghost(key));
        i += 1;
    }
    proof {
        assert(plate_sets@.take(i as int) =~= plate_sets@);
    }
    out
}

/// Computes the loading for `target_weight` on a bar of `bar_weight`
/// (grams). A target that does not exceed the bar is met by the bare bar.
/// Otherwise plates are taken greedily from the heaviest kind down; the
/// weight reached never exceeds the target, and the loading is exact when
/// nothing is left missing.
pub fn calculate_plates(plate_sets: &Vec<PlateSet>, bar_weight: u32, target_weight: u32) -> (r:
    PlateCalculation)
    ensures
        r.target_weight == target_weight,
        r.bar_weight == bar_weight,
        r.increment == increment_of(plate_sets@),
        target_weight <= bar_weight ==> r.plates@.len() == 0 && r.exact && r.total == bar_weight,
        target_weight > bar_weight ==> {
            let sorted = by_weight_descending(plate_sets@);
            let left = left_after(sorted, target_weight - bar_weight);
            &&& r.plates@ == plates_after(sorted, target_weight - bar_weight)
            &&& r.total == target_weight - left
            &&& r.exact == (left == 0)
            &&& r.exact == (r.total == target_weight)
            &&& bar_weight <= r.total <= target_weight
            &&& r.total == bar_weight + 2 * side_weight(r.plates@)
        },
{
    let increment = calculate_increment(plate_sets);
    if target_weight <= bar_weight {
        return PlateCalculation {
            plates: Vec::new(),
            exact: true,
            total: bar_weight,
            increment,
            target_weight,
            bar_weight,
        };
    }
    let sorted = sort_plates_descending(plate_sets);
    let start: u32 = target_weight - bar_weight;
    let mut left: u32 = start;
    let mut used: Vec<(u32, usize)> = Vec::new();
    let mut i: usize = 0;
    proof {
        assert(sorted@.take(0) =~= Seq::<PlateSet>::empty());
    }
    while i < sorted.len()
        invariant
            i <= sorted@.len(),
            left <= start,
            left == left_after(sorted@.take(i as int), start as int),
            used@ == plates_after(sorted@.take(i as int), start as int),
        decreases sorted@.len() - i,
    {
        proof {
            assert(sorted@.take(i as int + 1).drop_last() =~= sorted@.take(i as int));
            assert(sorted@.take(i as int + 1).last() == sorted@[i as int]);
            lemma_plate_count_fits(sorted@[i as int], left as int);
        }
        let p = &sorted[i];
        let both: u64 = 2 * (p.plate_weight as u64);
        if p.quantity > 0 && p.plate_weight > 0 && both <= left as u64 {
            let fit: u64 = left as u64 / both;
            let count: u64 = if fit < p.quantity as u64 {
                fit
            } else {
                p.quantity as u64
            };
            assert(count == plate_count(*p, left as int));
            assert(both * count <= left) by (nonlinear_arith)
                requires
                    both * count == 2 * p.plate_weight * plate_count(*p, left as int),
                    0 <= 2 * p.plate_weight * plate_count(*p, left as int) <= left,
            ;
            assert(fit >= 1) by (nonlinear_arith)
                requires
                    fit == left as u64 / both,
                    0 < both <= left,
            ;
            used.push((p.plate_weight, count as usize));
            left = left - (both * count) as u32;
        }
        i += 1;
    }
    proof {
        assert(sorted@.take(i as int) =~= sorted@);
        lemma_plates_account_for_load(sorted@, start as int);
    }
    PlateCalculation {
        plates: used,
        exact: left == 0,
        total: target_weight - left,
        increment,
        target_weight,
        bar_weight,
    }
}

/// The bar a lifter of the given gender uses: the women's bar (15 kg
/// unless configured) for `Female`, else the men's bar (the men's setting,
/// else the general setting, else 20 kg).
pub open spec fn bar_weight_for(bars: ContestBarWeights, gender: Option<Seq<char>>) -> u32 {
    if gender == Some("Female"@) {
        match bars.womens_bar_weight {
            Some(w) => w,
            None => 15_000,
        }
    } else {
        match bars.mens_bar_weight {
            Some(w) => w,
            None => match bars.bar_weight {
                Some(w) => w,
                None => 20_000,
            },
        }
    }
}

pub open spec fn text_of(s: Option<&str>) -> Option<Seq<char>> {
    match s {
        Some(t) => Some(t@),
        None => None,
    }
}

/// The bar weight (grams) for a lifter of the given gender. A contest that
/// does not exist is an error.
pub fn get_contest_bar_weight_by_gender(
    bars: Option<&ContestBarWeights>,
    contest_id: &str,
    gender: Option<&str>,
) -> (r: Result<u32, AppError>)
    ensures
        bars matches Some(b) ==> r == Ok::<u32, AppError>(bar_weight_for(*b, text_of(gender))),
        bars is None ==> (r matches Err(AppError::ContestNotFound { id }) && id@ == contest_id@),
{
    match bars {
        Some(b) => {
            let female = match gender {
                Some(g) => str_eq(g, "Female"),
                None => false,
            };
            if female {
                Ok(
                    match b.womens_bar_weight {
                        Some(w) => w,
                        None => 15_000,
                    },
                )
            } else {
                Ok(
                    match b.mens_bar_weight {
                        Some(w) => w,
                        None => match b.bar_weight {
                            Some(w) => w,
                            None => 20_000,
                        },
                    },
                )
            }
        },
        None => Err(AppError::ContestNotFound { id: owned(contest_id) }),
    }
}

/// The men's bar weight of a contest.
pub fn get_contest_bar_weight(bars: Option<&ContestBarWeights>, contest_id: &str) -> (r: Result<
    u32,
    AppError,
>)
    ensures
        bars matches Some(b) ==> r == Ok::<u32, AppError>(bar_weight_for(*b, Some("Male"@))),
        bars is None ==> (r matches Err(AppError::ContestNotFound { id }) && id@ == contest_id@),
{
    proof {
        reveal_strlit("Male");
        reveal_strlit("Female");
        assert("Male"@.len() != "Female"@.len());
    }
    get_contest_bar_weight_by_gender(bars, contest_id, Some("Male"))
}

/// Both bar weights (grams) of a contest: the men's and the women's.
pub fn get_contest_bar_weights(bars: Option<&ContestBarWeights>, contest_id: &str) -> (r: Result<
    (u32, u32),
    AppError,
>)
    ensures
        bars matches Some(b) ==> r == Ok::<(u32, u32), AppError>(
            (bar_weight_for(*b, None), bar_weight_for(*b, Some("Female"@))),
        ),
        bars is None ==> (r matches Err(AppError::ContestNotFound { id }) && id@ == contest_id@),
{
    let mens = match get_contest_bar_weight_by_gender(bars, contest_id, None) {
        Ok(w) => w,
        Err(e) => {
            return Err(e);
        },
    };
    match get_contest_bar_weight_by_gender(bars, contest_id, Some("Female")) {
        Ok(womens) => Ok((mens, womens)),
        Err(e) => Err(e),
    }
}

/// The loading for a target weight on the bar of the given gender.
pub fn calculate_plates_and_increment_with_gender(
    plate_sets: &Vec<PlateSet>,
    bars: Option<&ContestBarWeights>,
    contest_id: &str,
    target_weight: u32,
    gender: Option<&str>,
) -> (r: Result<PlateCalculation, AppError>)
    ensures
        r is Ok <==> bars is Some,
        bars is None ==> (r matches Err(AppError::ContestNotFound { id }) && id@ == contest_id@),
        r matches Ok(c) ==> {
            let bar = bar_weight_for(*bars->Some_0, text_of(gender));
            let sorted = by_weight_descending(plate_sets@);
            let left = left_after(sorted, target_weight - bar);
            &&& c.target_weight == target_weight
            &&& c.bar_weight == bar
            &&& c.increment == increment_of(plate_sets@)
            &&& target_weight <= bar ==> c.plates@.len() == 0 && c.exact && c.total == bar
            &&& target_weight > bar ==> {
                &&& c.plates@ == plates_after(sorted, target_weight - bar)
                &&& c.total == target_weight - left
                &&& c.exact == (left == 0)
                &&& c.exact == (c.total == target_weight)
                &&& bar <= c.total <= target_weight
                &&& c.total == bar + 2 * side_weight(c.plates@)
            }
        },
{
    match get_contest_bar_weight_by_gender(bars, contest_id, gender) {
        Ok(bar) => Ok(calculate_plates(plate_sets, bar, target_weight)),
        Err(e) => Err(e),
    }
}

/// The loading for a target weight on the men's bar.
pub fn calculate_plates_and_increment(
    plate_sets: &Vec<PlateSet>,
    bars: Option<&ContestBarWeights>,
    contest_id: &str,
    target_weight: u32,
) -> (r: Result<PlateCalculation, AppError>)
    ensures
        r is Ok <==> bars is Some,
        bars is None ==> (r matches Err(AppError::ContestNotFound { id }) && id@ == contest_id@),
        r matches Ok(c) ==> {
            let bar = bar_weight_for(*bars->Some_0, Some("Male"@));
            let sorted = by_weight_descending(plate_sets@);
            let left = left_after(sorted, target_weight - bar);
            &&& c.target_weight == target_weight
            &&& c.bar_weight == bar
            &&& c.increment == increment_of(plate_sets@)
            &&& target_weight <= bar ==> c.plates@.len() == 0 && c.exact && c.total == bar
            &&& target_weight > bar ==> {
                &&& c.plates@ == plates_after(sorted, target_weight - bar)
                &&& c.total == target_weight - left
                &&& c.exact == (left == 0)
                &&& c.exact == (c.total == target_weight)
                &&& bar <= c.total <= target_weight
                &&& c.total == bar + 2 * side_weight(c.plates@)
            }
        },
{
    calculate_plates_and_increment_with_gender(
        plate_sets,
        bars,
        contest_id,
        target_weight,
        Some("Male"),
    )
}

/// Heaviest bar that may be configured, in grams.
pub const MAX_BAR_WEIGHT: u32 = 100_000;

/// Bar weights must be multiples of this many grams.
pub const WEIGHT_INCREMENT: u32 = 250;

/// What is wrong with a pair of bar weights, if anything: both must be
/// positive, neither may exceed `MAX_BAR_WEIGHT`, and both must be
/// multiples of `WEIGHT_INCREMENT`. The first rule that is broken decides.
pub open spec fn bar_weights_fault(mens: u32, womens: u32) -> Option<Seq<char>> {
    if mens == 0 || womens == 0 {
        Some("Bar weights must be positive"@)
    } else if mens > MAX_BAR_WEIGHT || womens > MAX_BAR_WEIGHT {
        Some("Bar weights cannot exceed 100kg"@)
    } else if mens % WEIGHT_INCREMENT != 0 || womens % WEIGHT_INCREMENT != 0 {
        Some("Bar weights must be in 0.25kg increments"@)
    } else {
        None
    }
}

/// Sets the men's and women's bar weights (grams) of a contest. The
/// weights are checked first; then the contest must exist.
pub fn update_contest_bar_weights(
    bars: Option<ContestBarWeights>,
    contest_id: &str,
    mens_bar_weight: u32,
    womens_bar_weight: u32,
) -> (r: Result<ContestBarWeights, AppError>)
    ensures
        r is Ok <==> (bar_weights_fault(mens_bar_weight, womens_bar_weight) is None && bars is Some),
        r matches Ok(b) ==> b == (ContestBarWeights {
            mens_bar_weight: Some(mens_bar_weight),
            womens_bar_weight: Some(womens_bar_weight),
            bar_weight: bars->Some_0.bar_weight,
        }),
        bar_weights_fault(mens_bar_weight, womens_bar_weight) matches Some(m) ==> (r matches Err(
            AppError::ValidationError(text),
        ) && text@ == m),
        (bar_weights_fault(mens_bar_weight, womens_bar_weight) is None && bars is None) ==> (
        r matches Err(AppError::ContestNotFound { id }) && id@ == contest_id@),
{
    if mens_bar_weight == 0 || womens_bar_weight == 0 {
        return Err(AppError::ValidationError(owned("Bar weights must be positive")));
    }
    if mens_bar_weight > MAX_BAR_WEIGHT || womens_bar_weight > MAX_BAR_WEIGHT {
        return Err(AppError::ValidationError(owned("Bar weights cannot exceed 100kg")));
    }
    if mens_bar_weight % WEIGHT_INCREMENT != 0 || womens_bar_weight % WEIGHT_INCREMENT != 0 {
        return Err(
            AppError::ValidationError(owned("Bar weights must be in 0.25kg increments")),
        );
    }
    match bars {
        Some(b) => Ok(
            ContestBarWeights {
                mens_bar_weight: Some(mens_bar_weight),
                womens_bar_weight: Some(womens_bar_weight),
                bar_weight: b.bar_weight,
            },
        ),
        None => Err(AppError::ContestNotFound { id: owned(contest_id) }),
    }
}

/// Whether `p` is the kind of plate that `request` asks for.
pub open spec fn made_from(p: PlateSet, request: CreatePlateSet) -> bool {
    &&& p.contest_id == request.contest_id
    &&& p.plate_weight == request.plate_weight
    &&& p.quantity == request.quantity
    &&& p.color == request.color
}

/// Adds a kind of plate to the inventory under the given identifier. A
/// quantity that is not positive is refused and leaves the inventory as it
/// was.
pub fn create_plate_set_with_id(plate_sets: &mut Vec<PlateSet>, id: String, request: CreatePlateSet) -> (r:
    Result<(), AppError>)
    ensures
        r is Ok <==> request.quantity > 0,
        r is Ok ==> final(plate_sets)@.len() == old(plate_sets)@.len() + 1 && final(plate_sets)@.drop_last() == old(plate_sets)@ && made_from(final(plate_sets)@.last(), request)
            && final(plate_sets)@.last().id == id,
        r matches Err(e) ==> final(plate_sets)@ == old(plate_sets)@ && (e matches AppError::ValidationError(
            text,
        ) && text@ == "Plate quantity must be positive"@),
{
    if request.quantity <= 0 {
        return Err(AppError::ValidationError(owned("Plate quantity must be positive")));
    }
    let ghost before = plate_sets@;
    plate_sets.push(
        PlateSet {
            id,
            contest_id: request.contest_id,
            plate_weight: request.plate_weight,
            quantity: request.quantity,
            color: request.color,
        },
    );
    proof {
        assert(plate_sets@.drop_last() =~= before);
    }
    Ok(())
}

/// Adds a kind of plate to the inventory under a fresh random identifier.
pub fn create_plate_set(plate_sets: &mut Vec<PlateSet>, request: CreatePlateSet) -> (r: Result<
    (),
    AppError,
>)
    ensures
        r is Ok <==> request.quantity > 0,
        r is Ok ==> final(plate_sets)@.len() == old(plate_sets)@.len() + 1 && final(plate_sets)@.drop_last() == old(plate_sets)@ && made_from(final(plate_sets)@.last(), request),
        r matches Err(e) ==> final(plate_sets)@ == old(plate_sets)@ && (e matches AppError::ValidationError(
            text,
        ) && text@ == "Plate quantity must be positive"@),
{
    create_plate_set_with_id(plate_sets, fresh_id(), request)
}

/// Whether the inventory has a kind of plate with the identifier.
pub open spec fn has_plate_set(s: Seq<PlateSet>, id: Seq<char>) -> bool {
    exists|i: int| 0 <= i < s.len() && (#[trigger] s[i]).id@ == id
}

/// `p` after the stock of the kind `id` was set to `quantity`.
pub open spec fn restocked(p: PlateSet, id: Seq<char>, quantity: i32) -> PlateSet {
    if p.id@ == id {
        PlateSet { quantity, ..p }
    } else {
        p
    }
}

/// The text that reports a kind of plate that is not in the inventory.
pub open spec fn plate_set_missing(id: Seq<char>) -> Seq<char> {
    "Plate set with id "@ + id + " not found"@
}

fn find_plate_set(plate_sets: &Vec<PlateSet>, id: &str) -> (r: bool)
    ensures
        r == has_plate_set(plate_sets@, id@),
{
    let mut i: usize = 0;
    while i < plate_sets.len()
        invariant
            i <= plate_sets@.len(),
            forall|k: int| 0 <= k < i ==> (#[trigger] plate_sets@[k]).id@ != id@,
        decreases plate_sets@.len() - i,
    {
        if str_eq(plate_sets[i].id.as_str(), id) {
            return true;
        }
        i += 1;
    }
    false
}

/// Sets the stock of a kind of plate. A quantity that is not positive is
/// refused, and so is an identifier that the inventory does not have; both
/// leave the inventory as it was.
pub fn update_plate_set_quantity(plate_sets: &mut Vec<PlateSet>, id: &str, quantity: i32) -> (r:
    Result<(), AppError>)
    ensures
        r is Ok <==> (quantity > 0 && has_plate_set(old(plate_sets)@, id@)),
        r is Ok ==> final(plate_sets)@.len() == old(plate_sets)@.len() && forall|i: int|
            0 <= i < old(plate_sets)@.len() ==> final(plate_sets)@[i] == restocked(
                #[trigger] old(plate_sets)@[i],
                id@,
                quantity,
            ),
        r is Err ==> final(plate_sets)@ == old(plate_sets)@,
        quantity <= 0 ==> (r matches Err(AppError::ValidationError(text)) && text@
            == "Plate quantity must be positive"@),
        (quantity > 0 && !has_plate_set(old(plate_sets)@, id@)) ==> (r matches Err(
            AppError::ValidationError(text),
        ) && text@ == plate_set_missing(id@)),
{
    if quantity <= 0 {
        return Err(AppError::ValidationError(owned("Plate quantity must be positive")));
    }
    if !find_plate_set(plate_sets, id) {
        return Err(
            AppError::ValidationError(owned("Plate set with id ").concat(id).concat(" not found")),
        );
    }
    let ghost before = plate_sets@;
    let mut i: usize = 0;
    while i < plate_sets.len()
        invariant
            i <= plate_sets@.len(),
            plate_sets@.len() == before.len(),
            forall|k: int| 0 <= k < i ==> plate_sets@[k] == restocked(#[trigger] before[k], id@, quantity),
            forall|k: int| i <= k < before.len() ==> plate_sets@[k] == before[k],
        decreases plate_sets@.len() - i,
    {
        let p = &plate_sets[i];
        if str_eq(p.id.as_str(), id) {
            let n = PlateSet {
                id: p.id.clone(),
                contest_id: p.contest_id.clone(),
                plate_weight: p.plate_weight,
                quantity,
                color: p.color.clone(),
            };
            plate_sets.set(i, n);
        }
        i += 1;
    }
    Ok(())
}

/// The inventory without the kind of plate `id`.
pub open spec fn without_plate_set(s: Seq<PlateSet>, id: Seq<char>) -> Seq<PlateSet> {
    s.filter(|p: PlateSet| p.id@ != id)
}

/// Removes a kind of plate from the inventory. An identifier that the
/// inventory does not have is refused.
pub fn delete_plate_set(plate_sets: &mut Vec<PlateSet>, id: &str) -> (r: Result<(), AppError>)
    ensures
        r is Ok <==> has_plate_set(old(plate_sets)@, id@),
        final(plate_sets)@ == without_plate_set(old(plate_sets)@, id@),
        r matches Err(e) ==> final(plate_sets)@ == old(plate_sets)@ && (e matches AppError::ValidationError(
            text,
        ) && text@ == plate_set_missing(id@)),
{
    let ghost before = plate_sets@;
    let ghost keep = |p: PlateSet| p.id@ != id@;
    let mut kept: Vec<PlateSet> = Vec::new();
    let mut found = false;
    let mut i: usize = 0;
    proof {
        assert(before.take(0) =~= Seq::<PlateSet>::empty());
        before.take(0).lemma_filter_len(keep);
        assert(before.take(0).filter(keep) =~= Seq::<PlateSet>::empty());
    }
    while i < plate_sets.len()
        invariant
            i <= plate_sets@.len(),
            plate_sets@ == before,
            keep == (|p: PlateSet| p.id@ != id@),
            kept@ == before.take(i as int).filter(keep),
            found ==> has_plate_set(before, id@),
            !found ==> kept@ == before.take(i as int),
            !found ==> forall|k: int| 0 <= k < i ==> (#[trigger] before[k]).id@ != id@,
        decreases plate_sets@.len() - i,
    {
        proof {
            assert(before.take(i as int + 1) =~= before.take(i as int).push(before[i as int]));
            before.take(i as int).lemma_filter_push(before[i as int], keep);
        }
        if str_eq(plate_sets[i].id.as_str(), id) {
            found = true;
        } else {
            kept.push(plate_sets[i].duplicate());
        }
        i += 1;
    }
    proof {
        assert(before.take(i as int) =~= before);
    }
    *plate_sets = kept;
    if found {
        Ok(())
    } else {
        Err(AppError::ValidationError(owned("Plate set with id ").concat(id).concat(" not found")))
    }
}

/// The kinds of plate that a new contest is given: weight in grams and
/// plates per side.
pub open spec fn default_plate_table() -> Seq<(u32, i32)> {
    seq![
        (25_000u32, 10i32),
        (20_000u32, 10i32),
        (15_000u32, 10i32),
        (10_000u32, 10i32),
        (5_000u32, 10i32),
        (2_500u32, 10i32),
        (1_250u32, 5i32),
        (500u32, 5i32),
        (250u32, 5i32),
    ]
}

/// Gives a contest the default kinds of plate, all in the colour
/// `#DC2626`, and returns how many were added.
pub fn create_default_plate_sets_for_contest(plate_sets: &mut Vec<PlateSet>, contest_id: &str) -> (r:
    usize)
    ensures
        r == default_plate_table().len(),
        final(plate_sets)@.len() == old(plate_sets)@.len() + default_plate_table().len(),
        final(plate_sets)@.take(old(plate_sets)@.len() as int) == old(plate_sets)@,
        forall|k: int|
            0 <= k < default_plate_table().len() ==> {
                let p = #[trigger] final(plate_sets)@[old(plate_sets)@.len() + k];
                &&& p.contest_id@ == contest_id@
                &&& p.plate_weight == default_plate_table()[k].0
                &&& p.quantity == default_plate_table()[k].1
                &&& p.color@ == "#DC2626"@
            },
{
    let ghost before = plate_sets@;
    let table: [(u32, i32); 9] = [
        (25_000, 10),
        (20_000, 10),
        (15_000, 10),
        (10_000, 10),
        (5_000, 10),
        (2_500, 10),
        (1_250, 5),
        (500, 5),
        (250, 5),
    ];
    proof {
        assert(table@ =~= default_plate_table());
    }
    let mut k: usize = 0;
    while k < 9
        invariant
            k <= 9,
            table@ == default_plate_table(),
            plate_sets@.len() == before.len() + k,
            plate_sets@.take(before.len() as int) == before,
            forall|j: int|
                0 <= j < k ==> {
                    let p = #[trigger] plate_sets@[before.len() + j];
                    &&& p.contest_id@ == contest_id@
                    &&& p.plate_weight == default_plate_table()[j].0
                    &&& p.quantity == default_plate_table()[j].1
                    &&& p.color@ == "#DC2626"@
                },
        decreases 9 - k,
    {
        let ghost prev = plate_sets@;
        let (weight, quantity) = table[k];
        plate_sets.push(
            PlateSet {
                id: fresh_id(),
                contest_id: owned(contest_id),
                plate_weight: weight,
                quantity,
                color: owned("#DC2626"),
            },
        );
        proof {
            assert(plate_sets@.take(before.len() as int) =~= prev.take(before.len() as int));
            assert forall|j: int| 0 <= j < k + 1 implies {
                let p = #[trigger] plate_sets@[before.len() + j];
                &&& p.contest_id@ == contest_id@
                &&& p.plate_weight == default_plate_table()[j].0
                &&& p.quantity == default_plate_table()[j].1
                &&& p.color@ == "#DC2626"@
            } by {
                if j < k {
                    assert(plate_sets@[before.len() + j] == prev[before.len() + j]);
                }
            }
        }
        k += 1;
    }
    9
}

pub open spec fn of_contest(contest_id: Seq<char>) -> spec_fn(PlateSet) -> bool {
    |p: PlateSet| p.contest_id@ == contest_id
}

/// The inventory of one contest from the heaviest kind of plate down.
pub open spec fn plate_sets_of_contest(all: Seq<PlateSet>, contest_id: Seq<char>) -> Seq<PlateSet> {
    select_sorted(all, of_contest(contest_id), heavier_first())
}

/// The inventory of one contest from the heaviest kind of plate down.
pub fn get_plate_sets_by_contest(all: &Vec<PlateSet>, contest_id: &str) -> (r: Vec<PlateSet>)
    ensures
        r@ == plate_sets_of_contest(all@, contest_id@),
{
    let ghost keep = of_contest(contest_id@);
    let ghost key = heavier_first();
    let mut out: Vec<PlateSet> = Vec::new();
    let mut keys: Vec<u128> = Vec::new();
    let mut i: usize = 0;
    proof {
        assert(all@.take(0) =~= Seq::<PlateSet>::empty());
    }
    while i < all.len()
        invariant
            i <= all@.len(),
            keep == of_contest(contest_id@),
            key == heavier_first(),
            out@ == select_sorted(all@.take(i as int), keep, key),
            out@.len() == keys@.len(),
            forall|k: int| 0 <= k < keys@.len() ==> keys@[k] as int == key(out@[k]),
        decreases all@.len() - i,
    {
        proof {
            assert(all@.take(i as int + 1).drop_last() =~= all@.take(i as int));
            assert(all@.take(i as int + 1).last() == all@[i as int]);
        }
        let p = &all[i];
        if str_eq(p.contest_id.as_str(), contest_id) {
            let k: u128 = (u32::MAX - p.plate_weight) as u128;
            insert_stable(&mut out, &mut keys, p.duplicate(), k, Ghost(key));
        }
        i += 1;
    }
    proof {
        assert(all@.take(i as int) =~= all@);
    }
    out
}

/// Whether `colors` lists weight and colour of each kind of plate in
/// `plates`, in the same order.
pub open spec fn colors_of(colors: Seq<(u32, String)>, plates: Seq<PlateSet>) -> bool {
    &&& colors.len() == plates.len()
    &&& forall|i: int|
        0 <= i < plates.len() ==> (#[trigger] colors[i]).0 == plates[i].plate_weight && colors[i].1
            == plates[i].color
}

/// Weight (grams) and colour of each kind of plate of a contest, from
/// the heaviest kind down.
pub fn get_plate_colors_for_contest(all: &Vec<PlateSet>, contest_id: &str) -> (r: Vec<(u32, String)>)
    ensures
        colors_of(r@, plate_sets_of_contest(all@, contest_id@)),
{
    let plates = get_plate_sets_by_contest(all, contest_id);
    let mut colors: Vec<(u32, String)> = Vec::new();
    let mut i: usize = 0;
    while i < plates.len()
        invariant
            i <= plates@.len(),
            colors@.len() == i,
            forall|k: int|
                0 <= k < i ==> (#[trigger] colors@[k]).0 == plates@[k].plate_weight && colors@[k].1
                    == plates@[k].color,
        decreases plates@.len() - i,
    {
        colors.push((plates[i].plate_weight, plates[i].color.clone()));
        i += 1;
    }
    colors
}

} // verus!
