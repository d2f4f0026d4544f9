//! The members of a set of handles, listed in increasing order.

use crate::cabin::Entity;
use vstd::prelude::*;

verus! {

/// Whether each handle of `s` is below the next one.
pub open spec fn increasing(s: Seq<Entity>) -> bool {
    forall|i: int, j: int| 0 <= i < j < s.len() ==> s[i] < s[j]
}

/// The members of `set` that are below `bound`, in increasing order.
pub open spec fn ascending_below(set: Set<Entity>, bound: nat) -> Seq<Entity>
    decreases bound,
{
    if bound == 0 {
        Seq::empty()
    } else {
        let lower = ascending_below(set, (bound - 1) as nat);
        if bound - 1 <= u64::MAX && set.contains((bound - 1) as Entity) {
            lower.push((bound - 1) as Entity)
        } else {
            lower
        }
    }
}

/// The members of `set` in increasing order.
pub open spec fn ascending(set: Set<Entity>) -> Seq<Entity> {
    ascending_below(set, (u64::MAX + 1) as nat)
}

/// The listing below a bound holds exactly the members below the bound, each
/// below the next.
pub proof fn lemma_ascending_below(set: Set<Entity>, bound: nat)
    ensures
        increasing(ascending_below(set, bound)),
        forall|x: Entity|
            #![trigger ascending_below(set, bound).contains(x)]
            #![trigger set.contains(x)]
            ascending_below(set, bound).contains(x) <==> (set.contains(x) && x < bound),
    decreases bound,
{
    if bound > 0 {
        let lower = ascending_below(set, (bound - 1) as nat);
        lemma_ascending_below(set, (bound - 1) as nat);
        let listed = ascending_below(set, bound);
        if bound - 1 <= u64::MAX && set.contains((bound - 1) as Entity) {
            let top = (bound - 1) as Entity;
            assert(listed == lower.push(top));
            assert forall|i: int, j: int| 0 <= i < j < listed.len() implies listed[i]
                < listed[j] by {
                assert(listed[i] == lower[i]);
                if j == lower.len() {
                    assert(listed[j] == top);
                    assert(lower.contains(lower[i]));
                } else {
                    assert(listed[j] == lower[j]);
                }
            }
            assert forall|x: Entity| listed.contains(x) <==> (set.contains(x) && x < bound) by {
                if listed.contains(x) {
                    let i = choose|i: int| 0 <= i < listed.len() && listed[i] == x;
                    if i < lower.len() {
                        assert(lower.contains(lower[i]));
                    }
                }
                if set.contains(x) && x < bound {
                    if x == top {
                        assert(listed[lower.len() as int] == x);
                    } else {
                        assert(lower.contains(x));
                        let i = choose|i: int| 0 <= i < lower.len() && lower[i] == x;
                        assert(listed[i] == x);
                    }
                }
            }
        } else {
            assert(listed == lower);
            assert forall|x: Entity| listed.contains(x) <==> (set.contains(x) && x < bound) by {
                if set.contains(x) && x < bound {
                    assert(x != bound - 1);
                    assert(lower.contains(x));
                }
            }
        }
    }
}

/// Two increasing listings with the same members are the same listing.
pub proof fn lemma_increasing_unique(a: Seq<Entity>, b: Seq<Entity>)
    requires
        increasing(a),
        increasing(b),
        forall|x: Entity| a.contains(x) <==> b.contains(x),
    ensures
        a == b,
    decreases a.len(),
{
    if a.len() == 0 {
        if b.len() > 0 {
            assert(b.contains(b[0]));
        }
        assert(a =~= b);
    } else {
        let top = a.last();
        assert(a.contains(top));
        assert(b.contains(top));
        assert(b.len() > 0);
        assert(b.contains(b.last()));
        assert(a.contains(b.last()));
        let i = choose|i: int| 0 <= i < a.len() && a[i] == b.last();
        let j = choose|j: int| 0 <= j < b.len() && b[j] == top;
        assert(b.last() == top);
        let a0 = a.drop_last();
        let b0 = b.drop_last();
        assert forall|x: Entity| a0.contains(x) <==> b0.contains(x) by {
            if a0.contains(x) {
                let k = choose|k: int| 0 <= k < a0.len() && a0[k] == x;
                assert(a[k] == x);
                assert(a.contains(x));
                let m = choose|m: int| 0 <= m < b.len() && b[m] == x;
                assert(x < top);
                assert(m < b.len() - 1);
                assert(b0[m] == x);
            }
            if b0.contains(x) {
                let k = choose|k: int| 0 <= k < b0.len() && b0[k] == x;
                assert(b[k] == x);
                assert(b.contains(x));
                let m = choose|m: int| 0 <= m < a.len() && a[m] == x;
                assert(x < top);
                assert(m < a.len() - 1);
                assert(a0[m] == x);
            }
        }
        lemma_increasing_unique(a0, b0);
        assert(a =~= a0.push(top));
        assert(b =~= b0.push(top));
    }
}

/// The listing of a set holds exactly the members of the set, each below the
/// next.
pub proof fn lemma_ascending(set: Set<Entity>)
    ensures
        increasing(ascending(set)),
        forall|x: Entity|
            #![trigger ascending(set).contains(x)]
            #![trigger set.contains(x)]
            ascending(set).contains(x) <==> set.contains(x),
        ascending(set).no_duplicates(),
{
    lemma_ascending_below(set, (u64::MAX + 1) as nat);
}

/// An increasing listing of the members of a set is the listing of the set.
pub proof fn lemma_ascending_is(set: Set<Entity>, listed: Seq<Entity>)
    requires
        increasing(listed),
        forall|x: Entity| listed.contains(x) <==> set.contains(x),
    ensures
        listed == ascending(set),
{
    lemma_ascending(set);
    lemma_increasing_unique(listed, ascending(set));
}

/// The listing of a set is as long as the set is large.
pub proof fn lemma_ascending_len(set: Set<Entity>)
    ensures
        ascending(set).len() == set.len(),
{
    lemma_ascending(set);
    ascending(set).unique_seq_to_set();
    assert(ascending(set).to_set() =~= set);
}

/// The first `i + 1` members of a sequence are its first `i` members and the
/// one that follows them.
pub proof fn lemma_take_next(s: Seq<Entity>, i: int)
    requires
        0 <= i < s.len(),
    ensures
        s.take(i + 1) == s.take(i).push(s[i]),
        forall|e: Entity|
            #![trigger s.take(i + 1).contains(e)]
            s.take(i + 1).contains(e) <==> (s.take(i).contains(e) || e == s[i]),
{
    assert(s.take(i + 1) =~= s.take(i).push(s[i]));
    lemma_contains_push(s.take(i), s[i]);
}

/// What a sequence holds once a member has been added at its end.
pub proof fn lemma_contains_push(s: Seq<Entity>, last: Entity)
    ensures
        forall|e: Entity|
            #![trigger s.push(last).contains(e)]
            s.push(last).contains(e) <==> (s.contains(e) || e == last),
{
    assert forall|e: Entity| #![trigger s.push(last).contains(e)] s.push(last).contains(e) <==> (
    s.contains(e) || e == last) by {
        if s.push(last).contains(e) {
            let k = choose|k: int| 0 <= k < s.push(last).len() && s.push(last)[k] == e;
            if k < s.len() {
                assert(s[k] == e);
            }
        }
        if s.contains(e) {
            let k = choose|k: int| 0 <= k < s.len() && s[k] == e;
            assert(s.push(last)[k] == e);
        }
        if e == last {
            assert(s.push(last)[s.len() as int] == e);
        }
    }
}

} // verus!
