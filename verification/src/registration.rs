//! Taking new lifts into the site, and finding the lifts that moved anchors
//! carry along.

use crate::cabin::Entity;
use crate::laws::law_taking_in_keeps_order;
use crate::lift::Category;
use crate::model::LiftError;
use crate::site::LiftSite;
use vstd::prelude::*;

verus! {

impl LiftSite {
    /// Takes the new lift `lift` in: it is known as a lift and shown; if it
    /// has no parent, it is put under `current_site`; and it is entered among
    /// the dependents of its two anchors. An entity that is no lift is left
    /// alone.
    pub fn tag_lift(&mut self, lift: Entity, current_site: Option<Entity>) -> (result: Result<
        (),
        LiftError,
    >)
        ensures
            final(self)@ == old(self)@.tagged(lift, current_site),
            result == match old(self)@.tag_error(lift, current_site) {
                Some(error) => Err::<(), LiftError>(error),
                None => Ok(()),
            },
            old(self)@.wf() ==> final(self)@.wf(),
    {
        proof {
            if old(self)@.wf() {
                law_taking_in_keeps_order(old(self)@, seq![lift], current_site);
                assert(seq![lift].drop_last() =~= Seq::<Entity>::empty());
                assert(old(self)@.tagged_all(Seq::<Entity>::empty(), current_site) == old(self)@);
                assert(old(self)@.tagged_all(seq![lift], current_site) == old(self)@.tagged(
                    lift,
                    current_site,
                ));
            }
        }
        let edge = match self.lifts.get(&lift) {
            Some(record) => record.reference_anchors,
            None => {
                return Ok(());
            },
        };
        self.categories.insert(lift, Category::Lift);
        self.hidden.remove(&lift);
        let mut result: Result<(), LiftError> = Ok(());
        if !self.parents.contains_key(&lift) {
            match current_site {
                Some(site) => {
                    self.parents.insert(lift, site);
                    self.touch(lift);
                },
                None => {
                    result = Err(LiftError::NoCurrentWorkspace { lift });
                },
            }
        }
        self.add_dependent(edge.start, lift);
        self.add_dependent(edge.end, lift);
        result
    }

    /// Takes the lifts of `new_lifts` in, one after the other. A lift without
    /// a parent is put under `current_site`; where no site is open, the lift
    /// stays without a parent and the error is returned.
    pub fn add_tags_to_lift(&mut self, new_lifts: &Vec<Entity>, current_site: Option<Entity>) -> (errors:
        Vec<LiftError>)
        ensures
            final(self)@ == old(self)@.tagged_all(new_lifts@, current_site),
            errors@ == old(self)@.tag_errors(new_lifts@, current_site),
            old(self)@.wf() ==> final(self)@.wf(),
    {
        proof {
            if old(self)@.wf() {
                law_taking_in_keeps_order(old(self)@, new_lifts@, current_site);
            }
        }
        let mut errors: Vec<LiftError> = Vec::new();
        let mut i: usize = 0;
        while i < new_lifts.len()
            invariant
                i <= new_lifts@.len(),
                self@ == old(self)@.tagged_all(new_lifts@.take(i as int), current_site),
                errors@ == old(self)@.tag_errors(new_lifts@.take(i as int), current_site),
            decreases new_lifts@.len() - i,
        {
            proof {
                let upto = new_lifts@.take(i + 1);
                assert(upto.drop_last() =~= new_lifts@.take(i as int));
                assert(upto.last() == new_lifts@[i as int]);
            }
            match self.tag_lift(new_lifts[i], current_site) {
                Ok(()) => {},
                Err(error) => {
                    errors.push(error);
                },
            }
            i = i + 1;
        }
        proof {
            assert(new_lifts@.take(new_lifts@.len() as int) =~= new_lifts@);
        }
        errors
    }

    /// The lifts that have to be laid out again once the anchors of `moved`
    /// have moved: for each anchor in turn, the lifts among its dependents.
    pub fn update_lift_for_moved_anchors(&self, moved: &Vec<Entity>) -> (lifts: Vec<Entity>)
        ensures
            lifts@ == self@.lifts_moved_by(moved@),
    {
        let mut lifts: Vec<Entity> = Vec::new();
        let mut i: usize = 0;
        while i < moved.len()
            invariant
                i <= moved@.len(),
                lifts@ == self@.lifts_moved_by(moved@.take(i as int)),
            decreases moved@.len() - i,
        {
            proof {
                let upto = moved@.take(i + 1);
                assert(upto.drop_last() =~= moved@.take(i as int));
                assert(upto.last() == moved@[i as int]);
            }
            match self.anchors.get(&moved[i]) {
                Some(record) => {
                    let users = record.dependents.to_vec();
                    let ghost before = lifts@;
                    let mut j: usize = 0;
                    while j < users.len()
                        invariant
                            j <= users@.len(),
                            lifts@ == before + self@.lifts_among(users@.take(j as int)),
                        decreases users@.len() - j,
                    {
                        proof {
                            let upto = users@.take(j + 1);
                            assert(upto.drop_last() =~= users@.take(j as int));
                            assert(upto.last() == users@[j as int]);
                        }
                        if self.lifts.contains_key(&users[j]) {
                            lifts.push(users[j]);
                        }
                        j = j + 1;
                    }
                    proof {
                        assert(users@.take(users@.len() as int) =~= users@);
                    }
                },
                None => {},
            }
            i = i + 1;
        }
        proof {
            assert(moved@.take(moved@.len() as int) =~= moved@);
        }
        lifts
    }
}

} // verus!
