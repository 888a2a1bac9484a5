//! The store of pass verifications.
use vstd::prelude::*;
use crate::object_id::ObjectId;
use crate::passes::data_models::PassVerification;

verus! {

/// Whether a pass for the unit `inventory_id` has been verified.
pub open spec fn is_verified(verifications: Seq<PassVerification>, inventory_id: ObjectId) -> bool {
    exists|i: int|
        0 <= i < verifications.len() && (#[trigger] verifications[i]).inventory_id == inventory_id
}

/// The pass verifications of the store, in insertion order.
#[derive(Debug)]
pub struct InMemoryPassVerificationRepository {
    pub verifications: Vec<PassVerification>,
}

impl InMemoryPassVerificationRepository {
    pub fn new() -> (r: Self)
        ensures
            r.verifications@ == Seq::<PassVerification>::empty(),
    {
        InMemoryPassVerificationRepository { verifications: Vec::new() }
    }

    /// Appends a verification.
    pub fn save_pass_verification(&mut self, pass_verification: &PassVerification)
        ensures
            final(self).verifications@ == old(self).verifications@.push(*pass_verification),
    {
        self.verifications.push(*pass_verification);
    }

    /// The latest verification of a pass for the unit, if there is one; of
    /// several at the same time, the first stored.
    pub fn get_last_pass_verification(&self, inventory_id: ObjectId) -> (
        r: Option<PassVerification>)
        ensures
            r is Some <==> is_verified(self.verifications@, inventory_id),
            r matches Some(last) ==> {
                &&& last.inventory_id == inventory_id
                &&& self.verifications@.contains(last)
                &&& forall|i: int|
                    0 <= i < self.verifications@.len() && (
                    #[trigger] self.verifications@[i]).inventory_id == inventory_id
                        ==> self.verifications@[i].verification_time <= last.verification_time
            },
    {
        let mut last: Option<PassVerification> = None;
        let mut i: usize = 0;
        while i < self.verifications.len()
            invariant
                i <= self.verifications@.len(),
                last is Some <==> is_verified(self.verifications@.take(i as int), inventory_id),
                last is Some ==> last.unwrap().inventory_id == inventory_id,
                last is Some ==> self.verifications@.contains(last.unwrap()),
                last is Some ==> forall|k: int|
                    0 <= k < i && (#[trigger] self.verifications@[k]).inventory_id == inventory_id
                        ==> self.verifications@[k].verification_time
                        <= last.unwrap().verification_time,
            decreases self.verifications@.len() - i,
        {
            let current = self.verifications[i];
            let ghost before = self.verifications@.take(i as int);
            let ghost after = self.verifications@.take(i + 1);
            proof {
                assert(after =~= before.push(current));
                if is_verified(before, inventory_id) {
                    let w = choose|w: int|
                        0 <= w < before.len() && (#[trigger] before[w]).inventory_id
                            == inventory_id;
                    assert(after[w].inventory_id == inventory_id);
                }
                if is_verified(after, inventory_id) && current.inventory_id != inventory_id {
                    let w = choose|w: int|
                        0 <= w < after.len() && (#[trigger] after[w]).inventory_id == inventory_id;
                    assert(before[w].inventory_id == inventory_id);
                }
            }
            if current.inventory_id == inventory_id {
                proof {
                    assert(after[i as int].inventory_id == inventory_id);
                    assert(self.verifications@[i as int] == current);
                }
                let later = match last {
                    Some(found) => current.verification_time > found.verification_time,
                    None => true,
                };
                proof {
                    if last is None {
                        assert forall|k: int| 0 <= k < i implies (
                        #[trigger] self.verifications@[k]).inventory_id != inventory_id by {
                            assert(before[k] == self.verifications@[k]);
                        }
                    }
                }
                if later {
                    last = Some(current);
                }
            }
            i += 1;
        }
        proof {
            assert(self.verifications@.take(i as int) =~= self.verifications@);
        }
        last
    }
}

} // verus!
