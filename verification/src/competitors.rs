//! The competitor list and the order of its entries.

use vstd::prelude::*;
use vstd::string::*;
use crate::error::AppError;
use crate::models::competitor::{Competitor, CompetitorCreate, CreateCompetitorRequest};
use crate::sorting::{insert_stable, select_sorted};
use crate::text::{decimal, decimal_of, fresh_id, owned, str_eq};

verus! {

/// The highest order in the list; 0 for an empty list.
pub open spec fn highest_order(s: Seq<Competitor>) -> int
    decreases s.len(),
{
    if s.len() == 0 {
        0
    } else if s.len() == 1 {
        s.last().competition_order as int
    } else {
        let rest = highest_order(s.drop_last());
        if s.last().competition_order > rest {
            s.last().competition_order as int
        } else {
            rest
        }
    }
}

/// `highest_order` of a list that is not empty is the order of one of its
/// entries, and no entry has a higher one.
pub proof fn lemma_highest_order(s: Seq<Competitor>)
    requires
        s.len() > 0,
    ensures
        exists|i: int| 0 <= i < s.len() && (#[trigger] s[i]).competition_order == highest_order(s),
        forall|i: int| 0 <= i < s.len() ==> (#[trigger] s[i]).competition_order <= highest_order(s),
    decreases s.len(),
{
    let last = s.len() - 1;
    if s.len() == 1 {
        assert(s[last].competition_order == highest_order(s));
    } else {
        let front = s.drop_last();
        lemma_highest_order(front);
        let k = choose|k: int|
            0 <= k < front.len() && (#[trigger] front[k]).competition_order == highest_order(front);
        assert(s[k] == front[k]);
        assert(s[last] == s.last());
        assert forall|i: int| 0 <= i < s.len() implies (#[trigger] s[i]).competition_order
            <= highest_order(s) by {
            if i < front.len() {
                assert(front[i] == s[i]);
            }
        }
    }
}

/// Whether `c` is the entry that `request` asks for.
pub open spec fn entered_from(c: Competitor, request: CreateCompetitorRequest) -> bool {
    &&& c.first_name == request.first_name
    &&& c.last_name == request.last_name
    &&& c.birth_date == request.birth_date
    &&& c.gender == request.gender
    &&& c.club == request.club
    &&& c.city == request.city
    &&& c.notes == request.notes
    &&& c.photo_base64 == request.photo_base64
}

fn highest_order_of(competitors: &Vec<Competitor>) -> (r: i64)
    ensures
        r == highest_order(competitors@),
{
    if competitors.len() == 0 {
        return 0;
    }
    let mut best: i64 = competitors[0].competition_order;
    let mut i: usize = 1;
    proof {
        assert(competitors@.take(1).last() == competitors@[0]);
    }
    while i < competitors.len()
        invariant
            1 <= i <= competitors@.len(),
            best == highest_order(competitors@.take(i as int)),
        decreases competitors@.len() - i,
    {
        proof {
            assert(competitors@.take(i as int + 1).drop_last() =~= competitors@.take(i as int));
            assert(competitors@.take(i as int + 1).last() == competitors@[i as int]);
        }
        if competitors[i].competition_order > best {
            best = competitors[i].competition_order;
        }
        i += 1;
    }
    proof {
        assert(competitors@.take(i as int) =~= competitors@);
    }
    best
}

/// Adds a competitor at the end of the list, under the given identifier:
/// its order is one more than the highest order so far.
pub fn create_competitor_with_id(
    competitors: &mut Vec<Competitor>,
    id: String,
    request: CreateCompetitorRequest,
)
    requires
        highest_order(old(competitors)@) < i64::MAX,
    ensures
        final(competitors)@.len() == old(competitors)@.len() + 1,
        final(competitors)@.drop_last() == old(competitors)@,
        final(competitors)@.last().id == id,
        entered_from(final(competitors)@.last(), request),
        final(competitors)@.last().competition_order == highest_order(old(competitors)@) + 1,
{
    let ghost before = competitors@;
    let next: i64 = highest_order_of(competitors) + 1;
    competitors.push(
        Competitor {
            id,
            first_name: request.first_name,
            last_name: request.last_name,
            birth_date: request.birth_date,
            gender: request.gender,
            club: request.club,
            city: request.city,
            notes: request.notes,
            competition_order: next,
            photo_base64: request.photo_base64,
        },
    );
    proof {
        assert(competitors@.drop_last() =~= before);
    }
}

/// Adds a competitor at the end of the list under a fresh random
/// identifier. Nothing is added to a list whose highest order cannot be
/// exceeded.
pub fn create_competitor(competitors: &mut Vec<Competitor>, request: CreateCompetitorRequest) -> (r:
    bool)
    ensures
        r == (highest_order(old(competitors)@) < i64::MAX),
        !r ==> final(competitors)@ == old(competitors)@,
        r ==> {
            &&& final(competitors)@.len() == old(competitors)@.len() + 1
            &&& final(competitors)@.drop_last() == old(competitors)@
            &&& entered_from(final(competitors)@.last(), request)
            &&& final(competitors)@.last().competition_order == highest_order(old(competitors)@) + 1
        },
{
    if highest_order_of(competitors) == i64::MAX {
        return false;
    }
    create_competitor_with_id(competitors, fresh_id(), request);
    true
}

/// Whether the list has a competitor with the identifier.
pub open spec fn has_competitor(s: Seq<Competitor>, id: Seq<char>) -> bool {
    exists|i: int| 0 <= i < s.len() && (#[trigger] s[i]).id@ == id
}

/// The order of the first competitor with the identifier.
pub open spec fn order_of(s: Seq<Competitor>, id: Seq<char>) -> Option<i64>
    decreases s.len(),
{
    if s.len() == 0 {
        None
    } else if s[0].id@ == id {
        Some(s[0].competition_order)
    } else {
        order_of(s.drop_first(), id)
    }
}

/// `order_of` finds an order exactly for the identifiers in the list,
/// and it is the order of an entry with that identifier.
pub proof fn lemma_order_of(s: Seq<Competitor>, id: Seq<char>)
    ensures
        order_of(s, id) is Some <==> has_competitor(s, id),
        order_of(s, id) matches Some(o) ==> exists|i: int|
            0 <= i < s.len() && (#[trigger] s[i]).id@ == id && s[i].competition_order == o,
    decreases s.len(),
{
    if s.len() > 0 {
        let rest = s.drop_first();
        lemma_order_of(rest, id);
        if s[0].id@ != id {
            if has_competitor(s, id) {
                let i = choose|i: int| 0 <= i < s.len() && (#[trigger] s[i]).id@ == id;
                assert(rest[i - 1] == s[i]);
            }
            if has_competitor(rest, id) {
                let i = choose|i: int| 0 <= i < rest.len() && (#[trigger] rest[i]).id@ == id;
                assert(s[i + 1] == rest[i]);
            }
            if order_of(rest, id) is Some {
                let i = choose|i: int|
                    0 <= i < rest.len() && (#[trigger] rest[i]).id@ == id
                        && rest[i].competition_order == order_of(rest, id)->Some_0;
                assert(s[i + 1] == rest[i]);
            }
        } else {
            assert(s[0].id@ == id);
        }
    }
}

/// No two entries share an identifier.
pub open spec fn ids_distinct(s: Seq<Competitor>) -> bool {
    forall|i: int, j: int|
        0 <= i < s.len() && 0 <= j < s.len() && i != j ==> (#[trigger] s[i]).id@ != (
        #[trigger] s[j]).id@
}

/// The entries occupy the places `1..=n` of a list of `n`, each place
/// once.
pub open spec fn places_filled(s: Seq<Competitor>) -> bool {
    &&& forall|i: int| 0 <= i < s.len() ==> 1 <= (#[trigger] s[i]).competition_order <= s.len()
    &&& forall|i: int, j: int|
        0 <= i < s.len() && 0 <= j < s.len() && i != j ==> (#[trigger] s[i]).competition_order != (
        #[trigger] s[j]).competition_order
}

/// Whether `after` is `before` with the competitor `id` moved to
/// `new_order`.
pub open spec fn is_move_of(
    after: Seq<Competitor>,
    before: Seq<Competitor>,
    id: Seq<char>,
    new_order: i64,
) -> bool {
    &&& after.len() == before.len()
    &&& order_of(before, id) is Some
    &&& forall|i: int|
        0 <= i < before.len() ==> (#[trigger] after[i]).competition_order == moved_order(
            before[i],
            id,
            order_of(before, id)->Some_0,
            new_order,
        )
}

/// Moving a competitor within a list whose entries fill the places
/// `1..=n` leaves a list whose entries fill the places `1..=n`.
pub proof fn lemma_move_keeps_places_filled(
    after: Seq<Competitor>,
    before: Seq<Competitor>,
    id: Seq<char>,
    new_order: i64,
)
    requires
        ids_distinct(before),
        places_filled(before),
        1 <= new_order <= before.len(),
        is_move_of(after, before, id, new_order),
    ensures
        places_filled(after),
{
    lemma_order_of(before, id);
    let current = order_of(before, id)->Some_0;
    let m = choose|m: int|
        0 <= m < before.len() && (#[trigger] before[m]).id@ == id && before[m].competition_order
            == current;
    assert forall|i: int| 0 <= i < after.len() implies 1 <= (#[trigger] after[i]).competition_order
        <= after.len() by {
        assert(1 <= before[i].competition_order <= before.len());
        assert(1 <= before[m].competition_order <= before.len());
    }
    assert forall|i: int, j: int|
        0 <= i < after.len() && 0 <= j < after.len() && i != j implies (
    #[trigger] after[i]).competition_order != (#[trigger] after[j]).competition_order by {
        assert(before[i].competition_order != before[j].competition_order);
        assert(before[i].id@ != before[j].id@);
        if i != m {
            assert(before[i].id@ != before[m].id@);
            assert(before[i].competition_order != before[m].competition_order);
        }
        if j != m {
            assert(before[j].id@ != before[m].id@);
            assert(before[j].competition_order != before[m].competition_order);
        }
    }
}

fn find_order(competitors: &Vec<Competitor>, id: &str) -> (r: Option<i64>)
    ensures
        r == order_of(competitors@, id@),
{
    let mut i: usize = 0;
    proof {
        assert(competitors@.subrange(0, competitors@.len() as int) =~= competitors@);
    }
    while i < competitors.len()
        invariant
            i <= competitors@.len(),
            order_of(competitors@, id@) == order_of(
                competitors@.subrange(i as int, competitors@.len() as int),
                id@,
            ),
        decreases competitors@.len() - i,
    {
        proof {
            let rest = competitors@.subrange(i as int, competitors@.len() as int);
            assert(rest[0] == competitors@[i as int]);
            assert(rest.drop_first() =~= competitors@.subrange(
                i as int + 1,
                competitors@.len() as int,
            ));
        }
        if str_eq(competitors[i].id.as_str(), id) {
            return Some(competitors[i].competition_order);
        }
        i += 1;
    }
    proof {
        assert(competitors@.subrange(i as int, competitors@.len() as int).len() == 0);
    }
    None
}

/// The order of an entry after the competitor `id` was moved from
/// `current` to `new_order`: the moved entry takes `new_order`, and the
/// entries between the two places close the gap by one step.
pub open spec fn moved_order(c: Competitor, id: Seq<char>, current: i64, new_order: i64) -> int {
    if c.id@ == id {
        new_order as int
    } else if current < new_order && current < c.competition_order <= new_order {
        c.competition_order - 1
    } else if new_order < current && new_order <= c.competition_order < current {
        c.competition_order + 1
    } else {
        c.competition_order as int
    }
}

/// Moves a competitor to another place of the list: the competitor
/// takes the new order and the entries in between close the gap. Fails,
/// leaving the list as it was, exactly when the competitor is not in it.
pub fn move_competitor_order(competitors: &mut Vec<Competitor>, competitor_id: &str, new_order: i64) -> (r:
    Result<(), AppError>)
    ensures
        r is Ok <==> has_competitor(old(competitors)@, competitor_id@),
        final(competitors)@.len() == old(competitors)@.len(),
        r is Err ==> final(competitors)@ == old(competitors)@,
        r is Ok ==> forall|i: int|
            0 <= i < old(competitors)@.len() ==> {
                let before = #[trigger] old(competitors)@[i];
                &&& final(competitors)@[i] == (Competitor {
                    competition_order: final(competitors)@[i].competition_order,
                    ..before
                })
                &&& final(competitors)@[i].competition_order == moved_order(
                    before,
                    competitor_id@,
                    order_of(old(competitors)@, competitor_id@)->Some_0,
                    new_order,
                )
            },
        r matches Err(e) ==> (e matches AppError::CompetitorNotFound { id } && id@
            == competitor_id@),
{
    let ghost before = competitors@;
    proof {
        lemma_order_of(before, competitor_id@);
    }
    let current: i64 = match find_order(competitors, competitor_id) {
        Some(c) => c,
        None => {
            return Err(AppError::CompetitorNotFound { id: owned(competitor_id) });
        },
    };
    let mut k: usize = 0;
    while k < competitors.len()
        invariant
            k <= competitors@.len(),
            competitors@.len() == before.len(),
            forall|j: int|
                0 <= j < k ==> {
                    &&& competitors@[j] == (Competitor {
                        competition_order: competitors@[j].competition_order,
                        ..#[trigger] before[j]
                    })
                    &&& competitors@[j].competition_order == moved_order(
                        before[j],
                        competitor_id@,
                        current,
                        new_order,
                    )
                },
            forall|j: int| k <= j < before.len() ==> competitors@[j] == before[j],
        decreases competitors@.len() - k,
    {
        let c = &competitors[k];
        let order: i64 = if str_eq(c.id.as_str(), competitor_id) {
            new_order
        } else if current < new_order && current < c.competition_order && c.competition_order
            <= new_order {
            c.competition_order - 1
        } else if new_order < current && new_order <= c.competition_order && c.competition_order
            < current {
            c.competition_order + 1
        } else {
            c.competition_order
        };
        let mut n = c.duplicate();
        n.competition_order = order;
        competitors.set(k, n);
        k += 1;
    }
    Ok(())
}

/// What is wrong with a place asked for in a list of `total` entries, if
/// anything: places count from 1 and end with the last entry.
pub open spec fn place_fault(new_order: i64, total: nat) -> Option<Seq<char>> {
    if new_order < 1 {
        Some("Order must be greater than 0"@)
    } else if new_order > total {
        Some(
            "Order "@ + decimal_of(new_order as int) + " exceeds total number of competitors ("@
                + decimal_of(total as int) + ")"@,
        )
    } else {
        None
    }
}

/// Moves a competitor to another place of the list on request. The place
/// is checked first; then the competitor must be in the list. A refused
/// request leaves the list as it was.
pub fn competitor_move_order(competitors: &mut Vec<Competitor>, competitor_id: &str, new_order: i64) -> (r:
    Result<(), AppError>)
    ensures
        r is Ok <==> (place_fault(new_order, old(competitors)@.len()) is None && has_competitor(
            old(competitors)@,
            competitor_id@,
        )),
        final(competitors)@.len() == old(competitors)@.len(),
        r is Err ==> final(competitors)@ == old(competitors)@,
        r is Ok ==> forall|i: int|
            0 <= i < old(competitors)@.len() ==> {
                let before = #[trigger] old(competitors)@[i];
                &&& final(competitors)@[i] == (Competitor {
                    competition_order: final(competitors)@[i].competition_order,
                    ..before
                })
                &&& final(competitors)@[i].competition_order == moved_order(
                    before,
                    competitor_id@,
                    order_of(old(competitors)@, competitor_id@)->Some_0,
                    new_order,
                )
            },
        place_fault(new_order, old(competitors)@.len()) matches Some(m) ==> (r matches Err(
            AppError::ValidationError(text),
        ) && text@ == m),
        (place_fault(new_order, old(competitors)@.len()) is None && !has_competitor(
            old(competitors)@,
            competitor_id@,
        )) ==> (r matches Err(AppError::CompetitorNotFound { id }) && id@ == competitor_id@),
{
    if new_order < 1 {
        return Err(AppError::ValidationError(owned("Order must be greater than 0")));
    }
    if new_order as u64 > competitors.len() as u64 {
        let text = owned("Order ").concat(decimal(new_order as i128).as_str()).concat(
            " exceeds total number of competitors (",
        ).concat(decimal(competitors.len() as i128).as_str()).concat(")");
        return Err(AppError::ValidationError(text));
    }
    move_competitor_order(competitors, competitor_id, new_order)
}

pub open spec fn everyone() -> spec_fn(Competitor) -> bool {
    |c: Competitor| true
}

pub open spec fn by_order() -> spec_fn(Competitor) -> int {
    |c: Competitor| c.competition_order - i64::MIN
}

/// The competitor list in the order of its entries.
pub fn get_all_competitors(competitors: &Vec<Competitor>) -> (r: Vec<Competitor>)
    ensures
        r@ == select_sorted(competitors@, everyone(), by_order()),
{
    let ghost keep = everyone();
    let ghost key = by_order();
    let mut out: Vec<Competitor> = Vec::new();
    let mut keys: Vec<u128> = Vec::new();
    let mut i: usize = 0;
    proof {
        assert(competitors@.take(0) =~= Seq::<Competitor>::empty());
    }
    while i < competitors.len()
        invariant
            i <= competitors@.len(),
            keep == everyone(),
            key == by_order(),
            out@ == select_sorted(competitors@.take(i as int), keep, key),
            out@.len() == keys@.len(),
            forall|k: int| 0 <= k < keys@.len() ==> keys@[k] as int == key(out@[k]),
        decreases competitors@.len() - i,
    {
        proof {
            assert(competitors@.take(i as int + 1).drop_last() =~= competitors@.take(i as int));
            assert(competitors@.take(i as int + 1).last() == competitors@[i as int]);
        }
        let c = &competitors[i];
        let k: u128 = (c.competition_order as i128 - i64::MIN as i128) as u128;
        insert_stable(&mut out, &mut keys, c.duplicate(), k, Ghost(key));
        i += 1;
    }
    proof {
        assert(competitors@.take(i as int) =~= competitors@);
    }
    out
}

/// Adds the competitor that the registration desk entered. Club, city
/// and notes are left empty.
pub fn competitor_create(competitors: &mut Vec<Competitor>, competitor: CompetitorCreate) -> (r: bool)
    ensures
        r == (highest_order(old(competitors)@) < i64::MAX),
        !r ==> final(competitors)@ == old(competitors)@,
        r ==> {
            let c = final(competitors)@.last();
            &&& final(competitors)@.len() == old(competitors)@.len() + 1
            &&& final(competitors)@.drop_last() == old(competitors)@
            &&& c.first_name == competitor.first_name
            &&& c.last_name == competitor.last_name
            &&& c.birth_date == competitor.birth_date
            &&& c.gender == competitor.gender
            &&& c.club is None
            &&& c.city is None
            &&& c.notes is None
            &&& c.photo_base64 == competitor.photo_base64
            &&& c.competition_order == highest_order(old(competitors)@) + 1
        },
{
    create_competitor(
        competitors,
        CreateCompetitorRequest {
            first_name: competitor.first_name,
            last_name: competitor.last_name,
            birth_date: competitor.birth_date,
            gender: competitor.gender,
            club: None,
            city: None,
            notes: None,
            photo_base64: competitor.photo_base64,
            photo_filename: competitor.photo_filename,
        },
    )
}

} // verus!
