//! A competitor's entry in one contest.

use vstd::prelude::*;

verus! {

/// One registration. `bodyweight` and the declared personal record are in
/// grams. The two coefficients are fixed at registration time and are not
/// derived again when the competitor's data changes: `reshel_coefficient` in
/// millionths, `mccullough_coefficient` in hundredths.
#[derive(Debug)]
pub struct Registration {
    pub id: String,
    pub contest_id: String,
    pub competitor_id: String,
    pub age_category_id: String,
    pub weight_class_id: String,
    pub equipment_m: bool,
    pub equipment_sm: bool,
    pub equipment_t: bool,
    pub bodyweight: u32,
    pub lot_number: Option<u32>,
    pub personal_record_at_entry: Option<u32>,
    pub reshel_coefficient: Option<u32>,
    pub mccullough_coefficient: Option<u32>,
    pub rack_height_squat: Option<i32>,
    pub rack_height_bench: Option<i32>,
}

impl Registration {
    /// A copy that agrees with `self` in every field.
    pub fn duplicate(&self) -> (r: Registration)
        ensures
            r == *self,
    {
        Registration {
            id: self.id.clone(),
            contest_id: self.contest_id.clone(),
            competitor_id: self.competitor_id.clone(),
            age_category_id: self.age_category_id.clone(),
            weight_class_id: self.weight_class_id.clone(),
            equipment_m: self.equipment_m,
            equipment_sm: self.equipment_sm,
            equipment_t: self.equipment_t,
            bodyweight: self.bodyweight,
            lot_number: self.lot_number,
            personal_record_at_entry: self.personal_record_at_entry,
            reshel_coefficient: self.reshel_coefficient,
            mccullough_coefficient: self.mccullough_coefficient,
            rack_height_squat: self.rack_height_squat,
            rack_height_bench: self.rack_height_bench,
        }
    }
}

/// What the registration desk enters for a new registration. Body weight
/// and personal record are in grams. Categories that are left out are
/// derived from the competitor's data; flags that are left out are off.
#[derive(Debug)]
pub struct RegistrationCreate {
    pub contest_id: String,
    pub competitor_id: String,
    pub bodyweight: u32,
    pub age_category_id: Option<String>,
    pub weight_class_id: Option<String>,
    pub equipment_m: Option<bool>,
    pub equipment_sm: Option<bool>,
    pub equipment_t: Option<bool>,
    pub lot_number: Option<u32>,
    pub personal_record_at_entry: Option<u32>,
    pub rack_height_squat: Option<i32>,
    pub rack_height_bench: Option<i32>,
}

/// The registration with identifier `id`: the first one in `regs` that
/// carries it.
pub open spec fn registration_of(regs: Seq<Registration>, id: Seq<char>) -> Option<Registration>
    decreases regs.len(),
{
    if regs.len() == 0 {
        None
    } else if regs[0].id@ == id {
        Some(regs[0])
    } else {
        registration_of(regs.drop_first(), id)
    }
}

/// Looks a registration up by identifier and returns its position.
pub fn find_registration(regs: &Vec<Registration>, id: &str) -> (r: Option<usize>)
    ensures
        match r {
            Some(i) => i < regs@.len() && registration_of(regs@, id@) == Some(regs@[i as int]),
            None => registration_of(regs@, id@) is None,
        },
{
    let mut i: usize = 0;
    proof {
        assert(regs@.subrange(0, regs@.len() as int) =~= regs@);
    }
    while i < regs.len()
        invariant
            i <= regs@.len(),
            registration_of(regs@, id@) == registration_of(
                regs@.subrange(i as int, regs@.len() as int),
                id@,
            ),
        decreases regs@.len() - i,
    {
        proof {
            let rest = regs@.subrange(i as int, regs@.len() as int);
            assert(rest[0] == regs@[i as int]);
            assert(rest.drop_first() =~= regs@.subrange(i as int + 1, regs@.len() as int));
        }
        if crate::text::str_eq(regs[i].id.as_str(), id) {
            return Some(i);
        }
        i += 1;
    }
    proof {
        assert(regs@.subrange(i as int, regs@.len() as int).len() == 0);
    }
    None
}

} // verus!
