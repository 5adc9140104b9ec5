//! Attempt tracking: the attempt ledger, the contest status state machine,
//! the on-deck attempt and the lifting order.

use vstd::prelude::*;
use vstd::string::*;
use crate::error::AppError;
use crate::models::attempt::{
    Attempt, AttemptStatus, AttemptUpdateResult, AttemptUpsert, CreateAttemptRequest, DbAttempt,
    LiftType,
};
use crate::models::contest_state::{ContestState, ContestStatus};
use crate::models::registration::{find_registration, registration_of, Registration};
use crate::sorting::{insert_stable, select_sorted};
use crate::text::{fresh_id, owned, str_eq};

verus! {

/// The text that explains a refused status change.
pub open spec fn transition_refusal(current: ContestStatus, new: ContestStatus) -> Seq<char> {
    "Cannot transition from "@ + current.name() + " to "@ + new.name()
}

/// Checks a status change against the state machine. A refused change is
/// reported as invalid input on the field `status`, naming both statuses.
pub fn validate_contest_state_transition(current: &ContestStatus, new: &ContestStatus) -> (r:
    Result<(), AppError>)
    ensures
        r is Ok <==> current.can_become(*new),
        r matches Err(e) ==> (e matches AppError::InvalidInput { field, reason } && field@
            == "status"@ && reason@ == transition_refusal(*current, *new)),
{
    let valid = match (*current, *new) {
        (ContestStatus::Setup, ContestStatus::Registration) => true,
        (ContestStatus::Registration, ContestStatus::InProgress) => true,
        (ContestStatus::InProgress, ContestStatus::Paused) => true,
        (ContestStatus::InProgress, ContestStatus::Complete) => true,
        (ContestStatus::Paused, ContestStatus::InProgress) => true,
        (a, b) => a == b,
    };
    if !valid {
        let reason = owned("Cannot transition from ").concat(current.to_string().as_str()).concat(
            " to ",
        ).concat(new.to_string().as_str());
        return Err(AppError::InvalidInput { field: owned("status"), reason });
    }
    Ok(())
}

/// Decides what to store when an official submits a contest state: the
/// submitted state, unless a state is already stored and the state machine
/// refuses the change of status.
pub fn contest_state_update(current: Option<&ContestState>, contest_state: ContestState) -> (r:
    Result<ContestState, AppError>)
    ensures
        r is Ok <==> (current matches Some(c) ==> c.status.can_become(contest_state.status)),
        r matches Ok(s) ==> s == contest_state,
        r matches Err(e) ==> (e matches AppError::InvalidInput { field, reason } && field@
            == "status"@ && reason@ == transition_refusal(
            current->Some_0.status,
            contest_state.status,
        )),
{
    match current {
        Some(c) => match validate_contest_state_transition(&c.status, &contest_state.status) {
            Ok(()) => Ok(contest_state),
            Err(e) => Err(e),
        },
        None => Ok(contest_state),
    }
}

/// Whether `a` occupies the slot (registration, lift, attempt number).
pub open spec fn same_slot(a: Attempt, registration_id: Seq<char>, lift: LiftType, n: i32) -> bool {
    a.registration_id@ == registration_id && a.lift_type == lift && a.attempt_number == n
}

/// Whether the ledger has a record for the slot.
pub open spec fn has_slot(s: Seq<Attempt>, registration_id: Seq<char>, lift: LiftType, n: i32) -> bool {
    exists|i: int| 0 <= i < s.len() && same_slot(#[trigger] s[i], registration_id, lift, n)
}

/// No two records of the ledger occupy the same slot.
pub open spec fn slots_unique(s: Seq<Attempt>) -> bool {
    forall|i: int, j: int|
        0 <= i < s.len() && 0 <= j < s.len() && i != j ==> !same_slot(
            #[trigger] s[j],
            (#[trigger] s[i]).registration_id@,
            s[i].lift_type,
            s[i].attempt_number,
        )
}

/// `a` after a weight was declared for the slot: records of that slot take
/// the weight and keep everything else, the status included; other records
/// are untouched.
pub open spec fn reweighed(
    a: Attempt,
    registration_id: Seq<char>,
    lift: LiftType,
    n: i32,
    weight: u32,
) -> Attempt {
    if same_slot(a, registration_id, lift, n) {
        Attempt { weight, ..a }
    } else {
        a
    }
}

/// Declares `weight` (grams) for a slot, with `id` as the identifier of the
/// record should one have to be created. An existing record of the slot is
/// overwritten in place, whatever its status; no record is ever added beside
/// it. Weights are not held against the other attempts of the lifter.
pub fn upsert_attempt_weight_with_id(
    attempts: &mut Vec<Attempt>,
    id: String,
    registration_id: &str,
    lift_type: LiftType,
    attempt_number: i32,
    weight: u32,
)
    ensures
        has_slot(old(attempts)@, registration_id@, lift_type, attempt_number) ==> {
            &&& final(attempts)@.len() == old(attempts)@.len()
            &&& forall|i: int|
                0 <= i < old(attempts)@.len() ==> final(attempts)@[i] == reweighed(
                    #[trigger] old(attempts)@[i],
                    registration_id@,
                    lift_type,
                    attempt_number,
                    weight,
                )
        },
        !has_slot(old(attempts)@, registration_id@, lift_type, attempt_number) ==> {
            &&& final(attempts)@.len() == old(attempts)@.len() + 1
            &&& final(attempts)@.drop_last() == old(attempts)@
            &&& final(attempts)@.last().id == id
            &&& same_slot(final(attempts)@.last(), registration_id@, lift_type, attempt_number)
            &&& final(attempts)@.last().weight == weight
            &&& final(attempts)@.last().status == AttemptStatus::Pending
        },
        slots_unique(old(attempts)@) ==> slots_unique(final(attempts)@),
{
    let ghost before = attempts@;
    let mut found = false;
    let mut i: usize = 0;
    while i < attempts.len()
        invariant
            i <= attempts@.len(),
            attempts@.len() == before.len(),
            forall|k: int|
                0 <= k < i ==> attempts@[k] == reweighed(
                    #[trigger] before[k],
                    registration_id@,
                    lift_type,
                    attempt_number,
                    weight,
                ),
            forall|k: int| i <= k < before.len() ==> attempts@[k] == before[k],
            found <==> exists|k: int|
                0 <= k < i && same_slot(#[trigger] before[k], registration_id@, lift_type, attempt_number),
        decreases attempts@.len() - i,
    {
        let a = &attempts[i];
        let hit = a.lift_type == lift_type && a.attempt_number == attempt_number && str_eq(
            a.registration_id.as_str(),
            registration_id,
        );
        proof {
            assert(hit == same_slot(before[i as int], registration_id@, lift_type, attempt_number));
            if !hit && found {
                let k = choose|k: int|
                    0 <= k < i && same_slot(
                        #[trigger] before[k],
                        registration_id@,
                        lift_type,
                        attempt_number,
                    );
                assert(0 <= k < i + 1);
            }
        }
        if hit {
            let b = Attempt {
                id: a.id.clone(),
                registration_id: a.registration_id.clone(),
                lift_type: a.lift_type,
                attempt_number: a.attempt_number,
                weight,
                status: a.status,
            };
            attempts.set(i, b);
            found = true;
        }
        i += 1;
    }
    if !found {
        attempts.push(
            Attempt {
                id,
                registration_id: owned(registration_id),
                lift_type,
                attempt_number,
                weight,
                status: AttemptStatus::Pending,
            },
        );
        proof {
            assert(attempts@.drop_last() =~= before);
        }
    }
    proof {
        if slots_unique(before) {
            let after = attempts@;
            assert forall|i: int, j: int|
                0 <= i < after.len() && 0 <= j < after.len() && i != j implies !same_slot(
                #[trigger] after[j],
                (#[trigger] after[i]).registration_id@,
                after[i].lift_type,
                after[i].attempt_number,
            ) by {
                if i < before.len() && j < before.len() {
                    assert(!same_slot(
                        before[j],
                        before[i].registration_id@,
                        before[i].lift_type,
                        before[i].attempt_number,
                    ));
                } else if i < before.len() {
                    assert(!same_slot(before[i], registration_id@, lift_type, attempt_number));
                } else if j < before.len() {
                    assert(!same_slot(before[j], registration_id@, lift_type, attempt_number));
                }
            }
        }
    }
}

/// Declares `weight` (grams) for a slot. A record is created as `Pending`
/// under a fresh random identifier if the slot is empty; otherwise the
/// weight of the existing record is overwritten in place.
pub fn upsert_attempt_weight(
    attempts: &mut Vec<Attempt>,
    registration_id: &str,
    lift_type: LiftType,
    attempt_number: i32,
    weight: u32,
)
    ensures
        has_slot(old(attempts)@, registration_id@, lift_type, attempt_number) ==> {
            &&& final(attempts)@.len() == old(attempts)@.len()
            &&& forall|i: int|
                0 <= i < old(attempts)@.len() ==> final(attempts)@[i] == reweighed(
                    #[trigger] old(attempts)@[i],
                    registration_id@,
                    lift_type,
                    attempt_number,
                    weight,
                )
        },
        !has_slot(old(attempts)@, registration_id@, lift_type, attempt_number) ==> {
            &&& final(attempts)@.len() == old(attempts)@.len() + 1
            &&& final(attempts)@.drop_last() == old(attempts)@
            &&& same_slot(final(attempts)@.last(), registration_id@, lift_type, attempt_number)
            &&& final(attempts)@.last().weight == weight
            &&& final(attempts)@.last().status == AttemptStatus::Pending
        },
        slots_unique(old(attempts)@) ==> slots_unique(final(attempts)@),
{
    let id = fresh_id();
    upsert_attempt_weight_with_id(attempts, id, registration_id, lift_type, attempt_number, weight)
}

/// Whether some record of the ledger carries the identifier.
pub open spec fn has_id(s: Seq<Attempt>, id: Seq<char>) -> bool {
    exists|i: int| 0 <= i < s.len() && (#[trigger] s[i]).id@ == id
}

/// `a` after the attempt `id` was judged.
pub open spec fn judged(a: Attempt, id: Seq<char>, status: AttemptStatus) -> Attempt {
    if a.id@ == id {
        Attempt { status, ..a }
    } else {
        a
    }
}

/// Records the judges' decision on an attempt. Fails, leaving the ledger
/// as it was, exactly when no record carries the identifier.
pub fn update_attempt_result(attempts: &mut Vec<Attempt>, attempt_id: &str, status: AttemptStatus) -> (r:
    Result<(), AppError>)
    ensures
        r is Ok <==> has_id(old(attempts)@, attempt_id@),
        final(attempts)@.len() == old(attempts)@.len(),
        forall|i: int|
            0 <= i < old(attempts)@.len() ==> final(attempts)@[i] == judged(
                #[trigger] old(attempts)@[i],
                attempt_id@,
                status,
            ),
        r is Err ==> final(attempts)@ == old(attempts)@,
        r matches Err(e) ==> (e matches AppError::AttemptNotFound { id } && id@ == attempt_id@),
{
    let ghost before = attempts@;
    let mut found = false;
    let mut i: usize = 0;
    while i < attempts.len()
        invariant
            i <= attempts@.len(),
            attempts@.len() == before.len(),
            forall|k: int| 0 <= k < i ==> attempts@[k] == judged(#[trigger] before[k], attempt_id@, status),
            forall|k: int| i <= k < before.len() ==> attempts@[k] == before[k],
            found <==> exists|k: int| 0 <= k < i && (#[trigger] before[k]).id@ == attempt_id@,
        decreases attempts@.len() - i,
    {
        let a = &attempts[i];
        let hit = str_eq(a.id.as_str(), attempt_id);
        proof {
            assert(hit == (before[i as int].id@ == attempt_id@));
            if !hit && found {
                let k = choose|k: int| 0 <= k < i && (#[trigger] before[k]).id@ == attempt_id@;
                assert(0 <= k < i + 1);
            }
        }
        if hit {
            let b = Attempt {
                id: a.id.clone(),
                registration_id: a.registration_id.clone(),
                lift_type: a.lift_type,
                attempt_number: a.attempt_number,
                weight: a.weight,
                status,
            };
            attempts.set(i, b);
            found = true;
        }
        i += 1;
    }
    if found {
        Ok(())
    } else {
        proof {
            assert(attempts@ =~= before);
        }
        Err(AppError::AttemptNotFound { id: owned(attempt_id) })
    }
}

/// The first record of the ledger that carries the identifier.
pub open spec fn attempt_with_id(s: Seq<Attempt>, id: Seq<char>) -> Option<Attempt>
    decreases s.len(),
{
    if s.len() == 0 {
        None
    } else if s[0].id@ == id {
        Some(s[0])
    } else {
        attempt_with_id(s.drop_first(), id)
    }
}

/// A record exists for an identifier exactly when `attempt_with_id` finds
/// one, and what it finds carries that identifier.
pub proof fn lemma_attempt_with_id(s: Seq<Attempt>, id: Seq<char>)
    ensures
        attempt_with_id(s, id) is Some <==> has_id(s, id),
        attempt_with_id(s, id) matches Some(a) ==> a.id@ == id && s.contains(a),
    decreases s.len(),
{
    if s.len() > 0 {
        let rest = s.drop_first();
        lemma_attempt_with_id(rest, id);
        if s[0].id@ != id {
            if has_id(s, id) {
                let i = choose|i: int| 0 <= i < s.len() && (#[trigger] s[i]).id@ == id;
                assert(rest[i - 1] == s[i]);
            }
            if has_id(rest, id) {
                let i = choose|i: int| 0 <= i < rest.len() && (#[trigger] rest[i]).id@ == id;
                assert(s[i + 1] == rest[i]);
            }
            if attempt_with_id(rest, id) is Some {
                let a = attempt_with_id(rest, id)->Some_0;
                let k = choose|k: int| 0 <= k < rest.len() && rest[k] == a;
                assert(s[k + 1] == a);
            }
        } else {
            assert(s[0].id@ == id);
        }
    }
}

/// Looks an attempt up by identifier.
pub fn get_attempt_by_id(attempts: &Vec<Attempt>, attempt_id: &str) -> (r: Option<Attempt>)
    ensures
        r == attempt_with_id(attempts@, attempt_id@),
{
    let mut i: usize = 0;
    proof {
        assert(attempts@.subrange(0, attempts@.len() as int) =~= attempts@);
    }
    while i < attempts.len()
        invariant
            i <= attempts@.len(),
            attempt_with_id(attempts@, attempt_id@) == attempt_with_id(
                attempts@.subrange(i as int, attempts@.len() as int),
                attempt_id@,
            ),
        decreases attempts@.len() - i,
    {
        proof {
            let rest = attempts@.subrange(i as int, attempts@.len() as int);
            assert(rest[0] == attempts@[i as int]);
            assert(rest.drop_first() =~= attempts@.subrange(i as int + 1, attempts@.len() as int));
        }
        if str_eq(attempts[i].id.as_str(), attempt_id) {
            return Some(attempts[i].duplicate());
        }
        i += 1;
    }
    proof {
        assert(attempts@.subrange(i as int, attempts@.len() as int).len() == 0);
    }
    None
}

/// The ledger without the records that carry the identifier.
pub open spec fn without_id(s: Seq<Attempt>, id: Seq<char>) -> Seq<Attempt> {
    s.filter(|a: Attempt| a.id@ != id)
}

/// Removes an attempt by administrative action. Removing an identifier
/// that is not in the ledger changes nothing.
pub fn delete_attempt(attempts: &mut Vec<Attempt>, attempt_id: &str)
    ensures
        final(attempts)@ == without_id(old(attempts)@, attempt_id@),
{
    let ghost before = attempts@;
    let ghost keep = |a: Attempt| a.id@ != attempt_id@;
    let mut kept: Vec<Attempt> = Vec::new();
    let mut i: usize = 0;
    proof {
        assert(before.take(0) =~= Seq::<Attempt>::empty());
        before.take(0).lemma_filter_len(keep);
        assert(before.take(0).filter(keep) =~= Seq::<Attempt>::empty());
    }
    while i < attempts.len()
        invariant
            i <= attempts@.len(),
            attempts@ == before,
            keep == (|a: Attempt| a.id@ != attempt_id@),
            kept@ == before.take(i as int).filter(keep),
        decreases attempts@.len() - i,
    {
        proof {
            assert(before.take(i as int + 1) =~= before.take(i as int).push(before[i as int]));
            before.take(i as int).lemma_filter_push(before[i as int], keep);
        }
        if !str_eq(attempts[i].id.as_str(), attempt_id) {
            kept.push(attempts[i].duplicate());
        }
        i += 1;
    }
    proof {
        assert(before.take(i as int) =~= before);
    }
    *attempts = kept;
}

/// The place of a lot number in the lifting order: a missing lot number
/// goes before every drawn one.
pub open spec fn lot_rank(lot: Option<u32>) -> int {
    match lot {
        None => 0,
        Some(n) => n + 1,
    }
}

/// Whether `a` waits in the queue of the contest for the given lift and
/// round: it is pending, it is that lift and that attempt number, and its
/// registration belongs to the contest.
pub open spec fn in_queue(
    a: Attempt,
    regs: Seq<Registration>,
    contest_id: Seq<char>,
    lift: LiftType,
    round: i32,
) -> bool {
    &&& a.lift_type == lift
    &&& a.attempt_number == round
    &&& a.status == AttemptStatus::Pending
    &&& registration_of(regs, a.registration_id@) matches Some(r) && r.contest_id@ == contest_id
}

/// The lot number under which `a` lifts.
pub open spec fn lot_of(a: Attempt, regs: Seq<Registration>) -> Option<u32> {
    match registration_of(regs, a.registration_id@) {
        Some(r) => r.lot_number,
        None => None,
    }
}

/// The key of `a` in the lifting order: lighter first, lower lot first
/// among equal weights.
pub open spec fn queue_key(a: Attempt, regs: Seq<Registration>) -> int {
    a.weight * 0x2_0000_0000 + lot_rank(lot_of(a, regs))
}

pub open spec fn queue_filter(
    regs: Seq<Registration>,
    contest_id: Seq<char>,
    lift: LiftType,
    round: i32,
) -> spec_fn(Attempt) -> bool {
    |a: Attempt| in_queue(a, regs, contest_id, lift, round)
}

pub open spec fn queue_order(regs: Seq<Registration>) -> spec_fn(Attempt) -> int {
    |a: Attempt| queue_key(a, regs)
}

/// The lifting order for one lift and round of a contest.
pub open spec fn queue_of(
    attempts: Seq<Attempt>,
    regs: Seq<Registration>,
    contest_id: Seq<char>,
    lift: LiftType,
    round: i32,
) -> Seq<Attempt> {
    select_sorted(attempts, queue_filter(regs, contest_id, lift, round), queue_order(regs))
}

/// Comparing queue keys is comparing weights, then lot numbers.
pub proof fn lemma_queue_key_order(a: Attempt, b: Attempt, regs: Seq<Registration>)
    ensures
        queue_key(a, regs) <= queue_key(b, regs) <==> (a.weight < b.weight || (a.weight == b.weight
            && lot_rank(lot_of(a, regs)) <= lot_rank(lot_of(b, regs)))),
{
}

/// The lifting order holds exactly the waiting attempts, lightest first,
/// and among equal weights the lower lot number first.
pub proof fn lemma_queue_of(
    attempts: Seq<Attempt>,
    regs: Seq<Registration>,
    contest_id: Seq<char>,
    lift: LiftType,
    round: i32,
)
    ensures
        queue_of(attempts, regs, contest_id, lift, round).to_multiset() == attempts.filter(
            queue_filter(regs, contest_id, lift, round),
        ).to_multiset(),
        forall|i: int, j: int|
            #![trigger queue_of(attempts, regs, contest_id, lift, round)[i], queue_of(attempts, regs, contest_id, lift, round)[j]]
            0 <= i < j < queue_of(attempts, regs, contest_id, lift, round).len() ==> {
                let x = queue_of(attempts, regs, contest_id, lift, round)[i];
                let y = queue_of(attempts, regs, contest_id, lift, round)[j];
                x.weight < y.weight || (x.weight == y.weight && lot_rank(lot_of(x, regs))
                    <= lot_rank(lot_of(y, regs)))
            },
{
    let keep = queue_filter(regs, contest_id, lift, round);
    let key = queue_order(regs);
    let q = queue_of(attempts, regs, contest_id, lift, round);
    crate::sorting::lemma_select_sorted_members(attempts, keep, key);
    crate::sorting::lemma_select_sorted_is_sorted(attempts, keep, key);
    assert forall|i: int, j: int| 0 <= i < j < q.len() implies (q[i].weight < q[j].weight || (
    q[i].weight == q[j].weight && lot_rank(lot_of(q[i], regs)) <= lot_rank(lot_of(q[j], regs)))) by {
        assert(key(q[i]) <= key(q[j]));
        lemma_queue_key_order(q[i], q[j], regs);
    }
}

/// The attempts that wait for the given lift and round of a contest, in
/// lifting order.
pub fn get_next_attempts_in_queue(
    attempts: &Vec<Attempt>,
    registrations: &Vec<Registration>,
    contest_id: &str,
    lift_type: LiftType,
    round: i32,
) -> (r: Vec<Attempt>)
    ensures
        r@ == queue_of(attempts@, registrations@, contest_id@, lift_type, round),
{
    let ghost keep = queue_filter(registrations@, contest_id@, lift_type, round);
    let ghost key = queue_order(registrations@);
    let mut out: Vec<Attempt> = Vec::new();
    let mut keys: Vec<u128> = Vec::new();
    let mut i: usize = 0;
    proof {
        assert(attempts@.take(0) =~= Seq::<Attempt>::empty());
    }
    while i < attempts.len()
        invariant
            i <= attempts@.len(),
            keep == queue_filter(registrations@, contest_id@, lift_type, round),
            key == queue_order(registrations@),
            out@ == select_sorted(attempts@.take(i as int), keep, key),
            out@.len() == keys@.len(),
            forall|k: int| 0 <= k < keys@.len() ==> keys@[k] as int == key(out@[k]),
        decreases attempts@.len() - i,
    {
        proof {
            assert(attempts@.take(i as int + 1).drop_last() =~= attempts@.take(i as int));
            assert(attempts@.take(i as int + 1).last() == attempts@[i as int]);
        }
        let a = &attempts[i];
        if a.lift_type == lift_type && a.attempt_number == round && a.status
            == AttemptStatus::Pending {
            match find_registration(registrations, a.registration_id.as_str()) {
                Some(ri) => {
                    let reg = &registrations[ri];
                    if str_eq(reg.contest_id.as_str(), contest_id) {
                        let lot: u128 = match reg.lot_number {
                            None => 0,
                            Some(n) => n as u128 + 1,
                        };
                        let k: u128 = (a.weight as u128) * 0x2_0000_0000u128 + lot;
                        insert_stable(&mut out, &mut keys, a.duplicate(), k, Ghost(key));
                    }
                },
                None => {},
            }
        }
        i += 1;
    }
    proof {
        assert(attempts@.take(i as int) =~= attempts@);
    }
    out
}

/// The queue for the lift and round that the contest is on. There is no
/// queue while no lift is running; a contest without a state is an error.
pub fn attempt_get_next_in_queue(
    state: Option<&ContestState>,
    contest_id: &str,
    attempts: &Vec<Attempt>,
    registrations: &Vec<Registration>,
) -> (r: Result<Vec<Attempt>, AppError>)
    ensures
        r is Ok <==> state is Some,
        r matches Ok(q) ==> q@ == (match state->Some_0.current_lift {
            Some(lift) => queue_of(
                attempts@,
                registrations@,
                contest_id@,
                lift,
                state->Some_0.current_round,
            ),
            None => Seq::empty(),
        }),
        r matches Err(e) ==> (e matches AppError::ContestStateNotFound { contest_id: c } && c@
            == contest_id@),
{
    match state {
        None => Err(AppError::ContestStateNotFound { contest_id: owned(contest_id) }),
        Some(s) => match s.current_lift {
            Some(lift) => Ok(
                get_next_attempts_in_queue(
                    attempts,
                    registrations,
                    contest_id,
                    lift,
                    s.current_round,
                ),
            ),
            None => Ok(Vec::new()),
        },
    }
}

/// Puts an attempt on deck. This is allowed only while the contest is in
/// progress, and only for an attempt of the ledger.
pub fn attempt_set_current(
    state: Option<ContestState>,
    attempts: &Vec<Attempt>,
    contest_id: &str,
    attempt_id: &str,
) -> (r: Result<ContestState, AppError>)
    ensures
        r is Ok <==> (state matches Some(s) && s.status == ContestStatus::InProgress && has_id(
            attempts@,
            attempt_id@,
        )),
        r matches Ok(n) ==> {
            &&& n.contest_id == state->Some_0.contest_id
            &&& n.status == state->Some_0.status
            &&& n.current_lift == state->Some_0.current_lift
            &&& n.current_round == state->Some_0.current_round
            &&& n.current_attempt_id matches Some(id) && id@ == attempt_id@
        },
        state is None ==> (r matches Err(AppError::ContestStateNotFound { contest_id: c }) && c@
            == contest_id@),
        (state matches Some(s) && s.status != ContestStatus::InProgress) ==> r matches Err(
            AppError::ContestNotInProgress,
        ),
        (state matches Some(s) && s.status == ContestStatus::InProgress && !has_id(
            attempts@,
            attempt_id@,
        )) ==> (r matches Err(AppError::AttemptNotFound { id }) && id@ == attempt_id@),
{
    proof {
        lemma_attempt_with_id(attempts@, attempt_id@);
    }
    match state {
        None => Err(AppError::ContestStateNotFound { contest_id: owned(contest_id) }),
        Some(s) => {
            if s.status != ContestStatus::InProgress {
                return Err(AppError::ContestNotInProgress);
            }
            match get_attempt_by_id(attempts, attempt_id) {
                None => Err(AppError::AttemptNotFound { id: owned(attempt_id) }),
                Some(_) => Ok(
                    ContestState {
                        contest_id: s.contest_id,
                        status: s.status,
                        current_lift: s.current_lift,
                        current_round: s.current_round,
                        current_attempt_id: Some(owned(attempt_id)),
                    },
                ),
            }
        },
    }
}

/// The attempt that is on deck, if one is set and still in the ledger.
pub fn get_current_attempt(state: &ContestState, attempts: &Vec<Attempt>) -> (r: Option<Attempt>)
    ensures
        r == (match state.current_attempt_id {
            Some(id) => attempt_with_id(attempts@, id@),
            None => None,
        }),
{
    match &state.current_attempt_id {
        Some(id) => get_attempt_by_id(attempts, id.as_str()),
        None => None,
    }
}

/// What is wrong with a stored attempt row, if anything: its lift must
/// be a known lift and its status a known status. The lift is looked at
/// first.
pub open spec fn row_fault(row: DbAttempt) -> Option<Seq<char>> {
    if LiftType::parse(row.lift_type@) is Err {
        Some(
            "Invalid lift type '"@ + row.lift_type@ + "' in database for attempt "@ + row.id@
                + ". Expected 'Squat', 'Bench', or 'Deadlift'"@,
        )
    } else if AttemptStatus::parse(row.status@) is Err {
        Some(
            "Invalid attempt status '"@ + row.status@ + "' in database for attempt "@ + row.id@
                + ". Expected 'Pending', 'Successful', 'Failed', or 'Skipped'"@,
        )
    } else {
        None
    }
}

/// Whether `a` is the stored row `row` with lift and status read.
pub open spec fn read_from(a: Attempt, row: DbAttempt) -> bool {
    &&& a.id == row.id
    &&& a.registration_id == row.registration_id
    &&& LiftType::parse(row.lift_type@) == Ok::<LiftType, crate::models::attempt::ParseError>(
        a.lift_type,
    )
    &&& a.attempt_number == row.attempt_number
    &&& a.weight == row.weight
    &&& AttemptStatus::parse(row.status@) == Ok::<
        AttemptStatus,
        crate::models::attempt::ParseError,
    >(a.status)
}

/// Reads one stored attempt row. A row with an unknown lift or status is
/// an internal error that names the row.
pub fn attempt_from_db(row: &DbAttempt) -> (r: Result<Attempt, AppError>)
    ensures
        r is Ok <==> row_fault(*row) is None,
        r matches Ok(a) ==> read_from(a, *row),
        r matches Err(e) ==> (e matches AppError::Internal(text) && Some(text@) == row_fault(*row)),
{
    let lift_type = match LiftType::from_str(row.lift_type.as_str()) {
        Ok(l) => l,
        Err(_) => {
            return Err(
                AppError::Internal(
                    owned("Invalid lift type '").concat(row.lift_type.as_str()).concat(
                        "' in database for attempt ",
                    ).concat(row.id.as_str()).concat(". Expected 'Squat', 'Bench', or 'Deadlift'"),
                ),
            );
        },
    };
    let status = match AttemptStatus::from_str(row.status.as_str()) {
        Ok(s) => s,
        Err(_) => {
            return Err(
                AppError::Internal(
                    owned("Invalid attempt status '").concat(row.status.as_str()).concat(
                        "' in database for attempt ",
                    ).concat(row.id.as_str()).concat(
                        ". Expected 'Pending', 'Successful', 'Failed', or 'Skipped'",
                    ),
                ),
            );
        },
    };
    Ok(
        Attempt {
            id: row.id.clone(),
            registration_id: row.registration_id.clone(),
            lift_type,
            attempt_number: row.attempt_number,
            weight: row.weight,
            status,
        },
    )
}

/// Reads stored attempt rows, in order. The first row that cannot be read
/// fails the whole listing.
pub fn attempt_list(rows: &Vec<DbAttempt>) -> (r: Result<Vec<Attempt>, AppError>)
    ensures
        r is Ok <==> forall|i: int| 0 <= i < rows@.len() ==> row_fault(#[trigger] rows@[i]) is None,
        r matches Ok(v) ==> v@.len() == rows@.len() && forall|i: int|
            0 <= i < rows@.len() ==> read_from(#[trigger] v@[i], rows@[i]),
        r matches Err(e) ==> (e matches AppError::Internal(text) && exists|i: int|
            0 <= i < rows@.len() && row_fault(#[trigger] rows@[i]) == Some(text@) && forall|j: int|
                0 <= j < i ==> row_fault(#[trigger] rows@[j]) is None),
{
    let mut out: Vec<Attempt> = Vec::new();
    let mut i: usize = 0;
    while i < rows.len()
        invariant
            i <= rows@.len(),
            out@.len() == i,
            forall|k: int| 0 <= k < i ==> row_fault(#[trigger] rows@[k]) is None,
            forall|k: int| 0 <= k < i ==> read_from(#[trigger] out@[k], rows@[k]),
        decreases rows@.len() - i,
    {
        match attempt_from_db(&rows[i]) {
            Ok(a) => {
                out.push(a);
            },
            Err(e) => {
                proof {
                    assert(row_fault(rows@[i as int]) is Some);
                }
                return Err(e);
            },
        }
        i += 1;
    }
    Ok(out)
}

/// The place of a lift in listings, which go by the lift's name.
pub open spec fn lift_rank(lift: LiftType) -> int {
    match lift {
        LiftType::Bench => 0,
        LiftType::Deadlift => 1,
        LiftType::Squat => 2,
    }
}

/// The key of an attempt in listings: by lift, then by attempt number.
pub open spec fn listing_key(a: Attempt) -> int {
    lift_rank(a.lift_type) * 0x1_0000_0000 + (a.attempt_number - i32::MIN)
}

pub open spec fn listing_order() -> spec_fn(Attempt) -> int {
    |a: Attempt| listing_key(a)
}

pub open spec fn of_registration(registration_id: Seq<char>) -> spec_fn(Attempt) -> bool {
    |a: Attempt| a.registration_id@ == registration_id
}

pub open spec fn of_registration_and_lift(registration_id: Seq<char>, lift: LiftType) -> spec_fn(
    Attempt,
) -> bool {
    |a: Attempt| a.registration_id@ == registration_id && a.lift_type == lift
}

pub open spec fn of_contest(regs: Seq<Registration>, contest_id: Seq<char>) -> spec_fn(Attempt) -> bool {
    |a: Attempt|
        registration_of(regs, a.registration_id@) matches Some(r) && r.contest_id@ == contest_id
}

/// Comparing listing keys is comparing lifts by name, then attempt
/// numbers.
pub proof fn lemma_listing_key_order(a: Attempt, b: Attempt)
    ensures
        listing_key(a) <= listing_key(b) <==> (lift_rank(a.lift_type) < lift_rank(b.lift_type) || (
        a.lift_type == b.lift_type && a.attempt_number <= b.attempt_number)),
{
}

fn listing_key_of(a: &Attempt) -> (k: u128)
    ensures
        k as int == listing_key(*a),
{
    let lift: u128 = match a.lift_type {
        LiftType::Bench => 0,
        LiftType::Deadlift => 1,
        LiftType::Squat => 2,
    };
    let number: u128 = (a.attempt_number as i64 - i32::MIN as i64) as u128;
    lift * 0x1_0000_0000u128 + number
}

/// All attempts of a registration, by lift name and attempt number.
pub fn get_attempts_by_registration(attempts: &Vec<Attempt>, registration_id: &str) -> (r: Vec<
    Attempt,
>)
    ensures
        r@ == select_sorted(attempts@, of_registration(registration_id@), listing_order()),
{
    let ghost keep = of_registration(registration_id@);
    let ghost key = listing_order();
    let mut out: Vec<Attempt> = Vec::new();
    let mut keys: Vec<u128> = Vec::new();
    let mut i: usize = 0;
    proof {
        assert(attempts@.take(0) =~= Seq::<Attempt>::empty());
    }
    while i < attempts.len()
        invariant
            i <= attempts@.len(),
            keep == of_registration(registration_id@),
            key == listing_order(),
            out@ == select_sorted(attempts@.take(i as int), keep, key),
            out@.len() == keys@.len(),
            forall|k: int| 0 <= k < keys@.len() ==> keys@[k] as int == key(out@[k]),
        decreases attempts@.len() - i,
    {
        proof {
            assert(attempts@.take(i as int + 1).drop_last() =~= attempts@.take(i as int));
            assert(attempts@.take(i as int + 1).last() == attempts@[i as int]);
        }
        let a = &attempts[i];
        if str_eq(a.registration_id.as_str(), registration_id) {
            insert_stable(&mut out, &mut keys, a.duplicate(), listing_key_of(a), Ghost(key));
        }
        i += 1;
    }
    proof {
        assert(attempts@.take(i as int) =~= attempts@);
    }
    out
}

/// The attempts of a registration at one lift, by attempt number.
pub fn get_attempts_by_lift_type(
    attempts: &Vec<Attempt>,
    registration_id: &str,
    lift_type: LiftType,
) -> (r: Vec<Attempt>)
    ensures
        r@ == select_sorted(
            attempts@,
            of_registration_and_lift(registration_id@, lift_type),
            listing_order(),
        ),
{
    let ghost keep = of_registration_and_lift(registration_id@, lift_type);
    let ghost key = listing_order();
    let mut out: Vec<Attempt> = Vec::new();
    let mut keys: Vec<u128> = Vec::new();
    let mut i: usize = 0;
    proof {
        assert(attempts@.take(0) =~= Seq::<Attempt>::empty());
    }
    while i < attempts.len()
        invariant
            i <= attempts@.len(),
            keep == of_registration_and_lift(registration_id@, lift_type),
            key == listing_order(),
            out@ == select_sorted(attempts@.take(i as int), keep, key),
            out@.len() == keys@.len(),
            forall|k: int| 0 <= k < keys@.len() ==> keys@[k] as int == key(out@[k]),
        decreases attempts@.len() - i,
    {
        proof {
            assert(attempts@.take(i as int + 1).drop_last() =~= attempts@.take(i as int));
            assert(attempts@.take(i as int + 1).last() == attempts@[i as int]);
        }
        let a = &attempts[i];
        if a.lift_type == lift_type && str_eq(a.registration_id.as_str(), registration_id) {
            insert_stable(&mut out, &mut keys, a.duplicate(), listing_key_of(a), Ghost(key));
        }
        i += 1;
    }
    proof {
        assert(attempts@.take(i as int) =~= attempts@);
    }
    out
}

/// All attempts of a contest, by lift name and attempt number.
pub fn get_contest_attempts(
    attempts: &Vec<Attempt>,
    registrations: &Vec<Registration>,
    contest_id: &str,
) -> (r: Vec<Attempt>)
    ensures
        r@ == select_sorted(attempts@, of_contest(registrations@, contest_id@), listing_order()),
{
    let ghost keep = of_contest(registrations@, contest_id@);
    let ghost key = listing_order();
    let mut out: Vec<Attempt> = Vec::new();
    let mut keys: Vec<u128> = Vec::new();
    let mut i: usize = 0;
    proof {
        assert(attempts@.take(0) =~= Seq::<Attempt>::empty());
    }
    while i < attempts.len()
        invariant
            i <= attempts@.len(),
            keep == of_contest(registrations@, contest_id@),
            key == listing_order(),
            out@ == select_sorted(attempts@.take(i as int), keep, key),
            out@.len() == keys@.len(),
            forall|k: int| 0 <= k < keys@.len() ==> keys@[k] as int == key(out@[k]),
        decreases attempts@.len() - i,
    {
        proof {
            assert(attempts@.take(i as int + 1).drop_last() =~= attempts@.take(i as int));
            assert(attempts@.take(i as int + 1).last() == attempts@[i as int]);
        }
        let a = &attempts[i];
        match find_registration(registrations, a.registration_id.as_str()) {
            Some(ri) => {
                if str_eq(registrations[ri].contest_id.as_str(), contest_id) {
                    insert_stable(&mut out, &mut keys, a.duplicate(), listing_key_of(a), Ghost(key));
                }
            },
            None => {},
        }
        i += 1;
    }
    proof {
        assert(attempts@.take(i as int) =~= attempts@);
    }
    out
}

/// Declares the weight that a coach or official submits.
pub fn attempt_upsert_weight(attempts: &mut Vec<Attempt>, attempt: AttemptUpsert)
    ensures
        has_slot(
            old(attempts)@,
            attempt.registration_id@,
            attempt.lift_type,
            attempt.attempt_number,
        ) ==> {
            &&& final(attempts)@.len() == old(attempts)@.len()
            &&& forall|i: int|
                0 <= i < old(attempts)@.len() ==> final(attempts)@[i] == reweighed(
                    #[trigger] old(attempts)@[i],
                    attempt.registration_id@,
                    attempt.lift_type,
                    attempt.attempt_number,
                    attempt.weight,
                )
        },
        !has_slot(
            old(attempts)@,
            attempt.registration_id@,
            attempt.lift_type,
            attempt.attempt_number,
        ) ==> {
            &&& final(attempts)@.len() == old(attempts)@.len() + 1
            &&& final(attempts)@.drop_last() == old(attempts)@
            &&& same_slot(
                final(attempts)@.last(),
                attempt.registration_id@,
                attempt.lift_type,
                attempt.attempt_number,
            )
            &&& final(attempts)@.last().weight == attempt.weight
            &&& final(attempts)@.last().status == AttemptStatus::Pending
        },
        slots_unique(old(attempts)@) ==> slots_unique(final(attempts)@),
{
    upsert_attempt_weight(
        attempts,
        attempt.registration_id.as_str(),
        attempt.lift_type,
        attempt.attempt_number,
        attempt.weight,
    )
}

/// Records the decision that the judges submit.
pub fn attempt_update_result(attempts: &mut Vec<Attempt>, update: AttemptUpdateResult) -> (r: Result<
    (),
    AppError,
>)
    ensures
        r is Ok <==> has_id(old(attempts)@, update.attempt_id@),
        final(attempts)@.len() == old(attempts)@.len(),
        forall|i: int|
            0 <= i < old(attempts)@.len() ==> final(attempts)@[i] == judged(
                #[trigger] old(attempts)@[i],
                update.attempt_id@,
                update.status,
            ),
        r is Err ==> final(attempts)@ == old(attempts)@,
        r matches Err(e) ==> (e matches AppError::AttemptNotFound { id } && id@
            == update.attempt_id@),
{
    update_attempt_result(attempts, update.attempt_id.as_str(), update.status)
}

fn slot_taken(attempts: &Vec<Attempt>, registration_id: &str, lift_type: LiftType, attempt_number: i32) -> (r:
    bool)
    ensures
        r == has_slot(attempts@, registration_id@, lift_type, attempt_number),
{
    let mut i: usize = 0;
    while i < attempts.len()
        invariant
            i <= attempts@.len(),
            forall|k: int|
                0 <= k < i ==> !same_slot(
                    #[trigger] attempts@[k],
                    registration_id@,
                    lift_type,
                    attempt_number,
                ),
        decreases attempts@.len() - i,
    {
        let a = &attempts[i];
        if a.lift_type == lift_type && a.attempt_number == attempt_number && str_eq(
            a.registration_id.as_str(),
            registration_id,
        ) {
            return true;
        }
        i += 1;
    }
    false
}

/// Enters a new attempt into the ledger under the given identifier. A
/// slot holds one attempt at most: entering a second one is refused and
/// leaves the ledger as it was.
pub fn record_attempt_with_id(attempts: &mut Vec<Attempt>, id: String, request: CreateAttemptRequest) -> (r:
    Result<(), AppError>)
    ensures
        r is Ok <==> !has_slot(
            old(attempts)@,
            request.registration_id@,
            request.lift_type,
            request.attempt_number,
        ),
        r is Err ==> final(attempts)@ == old(attempts)@,
        r matches Err(e) ==> (e matches AppError::InvalidAttempt { reason } && reason@
            == "An attempt is already entered for this slot"@),
        r is Ok ==> {
            let a = final(attempts)@.last();
            &&& final(attempts)@.len() == old(attempts)@.len() + 1
            &&& final(attempts)@.drop_last() == old(attempts)@
            &&& a.id == id
            &&& a.registration_id == request.registration_id
            &&& a.lift_type == request.lift_type
            &&& a.attempt_number == request.attempt_number
            &&& a.weight == request.weight
            &&& a.status == (match request.status {
                Some(s) => s,
                None => AttemptStatus::Pending,
            })
        },
        slots_unique(old(attempts)@) ==> slots_unique(final(attempts)@),
{
    if slot_taken(
        attempts,
        request.registration_id.as_str(),
        request.lift_type,
        request.attempt_number,
    ) {
        return Err(
            AppError::InvalidAttempt { reason: owned("An attempt is already entered for this slot") },
        );
    }
    let ghost before = attempts@;
    let status = match request.status {
        Some(s) => s,
        None => AttemptStatus::Pending,
    };
    attempts.push(
        Attempt {
            id,
            registration_id: request.registration_id,
            lift_type: request.lift_type,
            attempt_number: request.attempt_number,
            weight: request.weight,
            status,
        },
    );
    proof {
        assert(attempts@.drop_last() =~= before);
        if slots_unique(before) {
            let after = attempts@;
            assert forall|i: int, j: int|
                0 <= i < after.len() && 0 <= j < after.len() && i != j implies !same_slot(
                #[trigger] after[j],
                (#[trigger] after[i]).registration_id@,
                after[i].lift_type,
                after[i].attempt_number,
            ) by {
                if i < before.len() && j < before.len() {
                    assert(!same_slot(
                        before[j],
                        before[i].registration_id@,
                        before[i].lift_type,
                        before[i].attempt_number,
                    ));
                } else if i < before.len() {
                    assert(!same_slot(
                        before[i],
                        request.registration_id@,
                        request.lift_type,
                        request.attempt_number,
                    ));
                } else if j < before.len() {
                    assert(!same_slot(
                        before[j],
                        request.registration_id@,
                        request.lift_type,
                        request.attempt_number,
                    ));
                }
            }
        }
    }
    Ok(())
}

/// Enters a new attempt into the ledger under a fresh random identifier.
pub fn record_attempt(attempts: &mut Vec<Attempt>, request: CreateAttemptRequest) -> (r: Result<
    (),
    AppError,
>)
    ensures
        r is Ok <==> !has_slot(
            old(attempts)@,
            request.registration_id@,
            request.lift_type,
            request.attempt_number,
        ),
        r is Err ==> final(attempts)@ == old(attempts)@,
        r matches Err(e) ==> (e matches AppError::InvalidAttempt { reason } && reason@
            == "An attempt is already entered for this slot"@),
        r is Ok ==> {
            let a = final(attempts)@.last();
            &&& final(attempts)@.len() == old(attempts)@.len() + 1
            &&& final(attempts)@.drop_last() == old(attempts)@
            &&& a.registration_id == request.registration_id
            &&& a.lift_type == request.lift_type
            &&& a.attempt_number == request.attempt_number
            &&& a.weight == request.weight
            &&& a.status == (match request.status {
                Some(s) => s,
                None => AttemptStatus::Pending,
            })
        },
        slots_unique(old(attempts)@) ==> slots_unique(final(attempts)@),
{
    record_attempt_with_id(attempts, fresh_id(), request)
}

} // verus!
