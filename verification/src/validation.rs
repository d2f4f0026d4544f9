//! Checking that no two lifts under a root have the same name.

use crate::ascending::ascending;
use crate::ascending::lemma_ascending;
use crate::ascending::lemma_take_next;
use crate::cabin::Entity;
use crate::issue::Issue;
use crate::issue::IssueKey;
use crate::issue::duplicated_lift_name_issue_uuid;
use crate::laws::law_validation_keeps_order;
use crate::order::ordered_keys;
use crate::site::LiftSite;
use std::collections::BTreeSet;
use vstd::prelude::*;
use vstd::string::StringExecFns;

verus! {

impl LiftSite {
    /// Whether `root` is among the ancestors of `entity`.
    pub fn is_under(&self, entity: Entity, root: Entity) -> (under: bool)
        ensures
            under == self@.under(entity, root),
    {
        let mut steps = self.parents.len();
        let mut at = entity;
        while steps > 0
            invariant
                self@.under(entity, root) == self@.descends(at, root, steps as nat),
            decreases steps,
        {
            match self.parents.get(&at) {
                Some(parent) => {
                    if *parent == root {
                        return true;
                    }
                    at = *parent;
                    steps = steps - 1;
                },
                None => {
                    return false;
                },
            }
        }
        false
    }

    /// Whether `lift` is a lift under `root` that is called as `leader` is.
    fn is_namesake(&self, root: Entity, leader: Entity, lift: Entity) -> (same: bool)
        requires
            self@.lifts.contains_key(leader),
        ensures
            same == self@.namesakes(root, self@.lifts[leader].name).contains(lift),
    {
        match self.lifts.get(&lift) {
            Some(record) => match self.lifts.get(&leader) {
                Some(first) => record.name == first.name && self.is_under(lift, root),
                None => false,
            },
            None => false,
        }
    }

    /// The issue for the name of `lift`, if it is `lift` that the name is
    /// reported for.
    fn namesake_issue(&self, root: Entity, lift: Entity, lifts: &Vec<Entity>) -> (issue: Option<
        Issue,
    >)
        requires
            self@.lifts.contains_key(lift),
            lifts@ == ascending(self@.lifts.dom()),
        ensures
            match issue {
                Some(issue) => self@.leads_namesakes(root, lift) && issue@
                    == self@.namesake_issue(root, lift),
                None => !self@.leads_namesakes(root, lift),
            },
    {
        let ghost sharing = self@.namesakes(root, self@.lifts[lift].name);
        proof {
            lemma_ascending(self@.lifts.dom());
        }
        let mut entities: BTreeSet<Entity> = BTreeSet::new();
        let mut lowest = true;
        let mut shared = false;
        let mut i: usize = 0;
        while i < lifts.len()
            invariant
                i <= lifts@.len(),
                self@.lifts.contains_key(lift),
                sharing == self@.namesakes(root, self@.lifts[lift].name),
                forall|e: Entity|
                    #![trigger lifts@.contains(e)]
                    lifts@.contains(e) <==> self@.lifts.contains_key(e),
                forall|e: Entity|
                    #![trigger entities@.contains(e)]
                    entities@.contains(e) <==> (lifts@.take(i as int).contains(e)
                        && sharing.contains(e)),
                lowest == (forall|e: Entity|
                    #![trigger sharing.contains(e)]
                    lifts@.take(i as int).contains(e) && sharing.contains(e) ==> lift <= e),
                shared == (exists|e: Entity|
                    #![trigger sharing.contains(e)]
                    lifts@.take(i as int).contains(e) && sharing.contains(e) && e != lift),
            decreases lifts@.len() - i,
        {
            let other = lifts[i];
            proof {
                lemma_take_next(lifts@, i as int);
            }
            let ghost seen = lifts@.take(i as int);
            let ghost was_shared = shared;
            let ghost was_lowest = lowest;
            if self.is_namesake(root, lift, other) {
                entities.insert(other);
                if other < lift {
                    lowest = false;
                }
                if other != lift {
                    shared = true;
                }
            }
            proof {
                let now = lifts@.take(i + 1);
                if was_shared {
                    let e = choose|e: Entity|
                        #![trigger sharing.contains(e)]
                        seen.contains(e) && sharing.contains(e) && e != lift;
                    assert(now.contains(e) && sharing.contains(e) && e != lift);
                }
                if shared && !was_shared {
                    assert(now.contains(other) && sharing.contains(other) && other != lift);
                }
                if !was_lowest {
                    let e = choose|e: Entity|
                        #![trigger sharing.contains(e)]
                        seen.contains(e) && sharing.contains(e) && !(lift <= e);
                    assert(now.contains(e) && sharing.contains(e) && !(lift <= e));
                }
                if was_lowest && !lowest {
                    assert(now.contains(other) && sharing.contains(other) && !(lift <= other));
                }
            }
            i = i + 1;
        }
        proof {
            assert(lifts@.take(lifts@.len() as int) =~= lifts@);
            assert(entities@ =~= sharing);
        }
        if lowest && shared && entities.contains(&lift) {
            let name = match self.lifts.get(&lift) {
                Some(record) => record.name.clone(),
                None => String::new(),
            };
            let brief = String::from_str("Multiple lifts found with the same name ").concat(
                name.as_str(),
            );
            let hint = String::from_str(
                "Lifts use their names as identifiers with RMF and each lift should have a unique name, rename the affected lifts",
            );
            Some(
                Issue {
                    key: IssueKey { entities, kind: duplicated_lift_name_issue_uuid() },
                    brief,
                    hint,
                },
            )
        } else {
            None
        }
    }

    /// The issues of lifts under `root` that share a name: one for each name
    /// that two or more of them have, about all the lifts that have it.
    pub fn duplicated_lift_names(&self, root: Entity) -> (issues: Vec<Issue>)
        ensures
            issues@.map_values(|issue: Issue| issue@) == self@.namesake_issues(root),
    {
        let lifts = ordered_keys(&self.lifts);
        proof {
            assert(self@.lifts.dom() =~= self.lifts@.dom());
            lemma_ascending(self@.lifts.dom());
        }
        let mut issues: Vec<Issue> = Vec::new();
        let mut i: usize = 0;
        while i < lifts.len()
            invariant
                i <= lifts@.len(),
                lifts@ == ascending(self@.lifts.dom()),
                forall|e: Entity|
                    #![trigger lifts@.contains(e)]
                    lifts@.contains(e) <==> self@.lifts.contains_key(e),
                issues@.map_values(|issue: Issue| issue@) == self@.namesake_issues_among(
                    root,
                    lifts@.take(i as int),
                ),
            decreases lifts@.len() - i,
        {
            let lift = lifts[i];
            assert(lifts@.contains(lift));
            proof {
                let upto = lifts@.take(i + 1);
                assert(upto.drop_last() =~= lifts@.take(i as int));
                assert(upto.last() == lift);
            }
            let ghost before = issues@;
            match self.namesake_issue(root, lift, &lifts) {
                Some(issue) => {
                    issues.push(issue);
                    assert(issues@.map_values(|issue: Issue| issue@) =~= before.map_values(
                        |issue: Issue| issue@,
                    ).push(issue@));
                },
                None => {},
            }
            i = i + 1;
        }
        proof {
            assert(lifts@.take(lifts@.len() as int) =~= lifts@);
        }
        issues
    }

    /// Checks the lifts under `root` for shared names and puts one issue
    /// under `root` for each name that two or more of them have. What an
    /// earlier check has put there stays: every check reports anew. Returns
    /// the new issues' handles.
    pub fn check_for_duplicated_lift_names(&mut self, root: Entity) -> (reported: Vec<Entity>)
        requires
            old(self)@.spare() >= old(self)@.namesake_issues(root).len(),
        ensures
            final(self)@ == old(self)@.validated(root),
            reported@ == Seq::new(
                old(self)@.namesake_issues(root).len(),
                |i: int| old(self)@.fresh(i),
            ),
            old(self)@.wf() ==> final(self)@.wf(),
    {
        proof {
            if old(self)@.wf() {
                law_validation_keeps_order(old(self)@, root);
            }
        }
        let mut issues = self.duplicated_lift_names(root);
        let ghost found = issues@.map_values(|issue: Issue| issue@);
        let count = issues.len();
        let mut reported: Vec<Entity> = Vec::new();
        let mut held: Vec<Issue> = Vec::new();
        // The issues are taken from the back, so they are turned round first.
        while issues.len() > 0
            invariant
                issues@.len() + held@.len() == count,
                found.len() == count,
                forall|k: int|
                    0 <= k < issues@.len() ==> (#[trigger] issues@[k])@ == found[k],
                forall|k: int|
                    0 <= k < held@.len() ==> (#[trigger] held@[k])@ == found[count - 1 - k],
            decreases issues@.len(),
        {
            match issues.pop() {
                Some(issue) => {
                    held.push(issue);
                },
                None => {},
            }
        }
        let mut i: usize = 0;
        while i < count
            invariant
                i <= count,
                held@.len() == count - i,
                found.len() == count,
                found == old(self)@.namesake_issues(root),
                old(self)@.spare() >= count,
                forall|k: int|
                    0 <= k < held@.len() ==> (#[trigger] held@[k])@ == found[count - 1 - k],
                self@ == old(self)@.reporting_all(root, found.take(i as int)),
                self@.next == old(self)@.next + i,
                reported@ == Seq::new(i as nat, |k: int| old(self)@.fresh(k)),
            decreases count - i,
        {
            proof {
                let upto = found.take(i + 1);
                assert(upto.drop_last() =~= found.take(i as int));
                assert(upto.last() == found[i as int]);
            }
            match held.pop() {
                Some(issue) => {
                    let handle = self.next;
                    let ghost before = self@;
                    self.parents.insert(handle, root);
                    self.issues.insert(handle, issue);
                    self.next = self.next + 1;
                    reported.push(handle);
                    proof {
                        assert(self@.issues =~= before.reporting(root, found[i as int]).issues);
                        assert(reported@ =~= Seq::new((i + 1) as nat, |k: int| old(self)@.fresh(k)));
                    }
                },
                None => {},
            }
            i = i + 1;
        }
        proof {
            assert(found.take(count as int) =~= found);
        }
        reported
    }
}

} // verus!
