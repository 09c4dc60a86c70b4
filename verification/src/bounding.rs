//! A model of the process's capability bounding set and of the reduction
//! that one drop pass performs on it.
//!
//! The bounding set itself is kernel-held state; this module models it as
//! the sequence of capability identifiers it contains, and states exactly
//! what each removal request, and a whole pass over the catalogue, leaves
//! of it. The laws proved here are the ones the reduction is built on:
//! a pass removes every catalogue capability and nothing else, repeating
//! a pass changes nothing further, and the order of the per-entry requests
//! does not affect the outcome.

use vstd::prelude::*;

use crate::catalogue::catalogue;
use crate::catalogue::catalogue_spec;

verus! {

/// The set of capabilities that a list of removal requests names.
pub open spec fn listed(caps: Seq<u64>) -> Set<u64> {
    Set::new(|c: u64| caps.contains(c))
}

/// What remains of a bounding set once every capability in `caps` is gone:
/// the entries outside `caps`, in their original order.
pub open spec fn drop_listed(s: Seq<u64>, caps: Set<u64>) -> Seq<u64>
    decreases s.len(),
{
    if s.len() == 0 {
        Seq::empty()
    } else {
        let rest = drop_listed(s.drop_last(), caps);
        if caps.contains(s.last()) {
            rest
        } else {
            rest.push(s.last())
        }
    }
}

/// The effect of one removal request on a bounding set: every entry equal
/// to `cap` is gone, the others keep their order.
pub open spec fn remove_cap(s: Seq<u64>, cap: u64) -> Seq<u64>
    decreases s.len(),
{
    if s.len() == 0 {
        Seq::empty()
    } else {
        let rest = remove_cap(s.drop_last(), cap);
        if s.last() == cap {
            rest
        } else {
            rest.push(s.last())
        }
    }
}

/// The effect of issuing one removal request per entry of `caps`, in order.
pub open spec fn remove_each(s: Seq<u64>, caps: Seq<u64>) -> Seq<u64>
    decreases caps.len(),
{
    if caps.len() == 0 {
        s
    } else {
        remove_each(remove_cap(s, caps.first()), caps.drop_first())
    }
}

/// The effect of `n` whole passes, each issuing one removal request per
/// entry of `caps`.
pub open spec fn remove_each_n(s: Seq<u64>, caps: Seq<u64>, n: nat) -> Seq<u64>
    decreases n,
{
    if n == 0 {
        s
    } else {
        remove_each(remove_each_n(s, caps, (n - 1) as nat), caps)
    }
}

/// The outcome of one drop pass: the bounding set without any catalogue
/// capability.
pub open spec fn after_drop(s: Seq<u64>) -> Seq<u64> {
    drop_listed(s, listed(catalogue_spec()))
}

/// Pushing an entry onto a bounding set adds exactly that entry.
proof fn lemma_push_contains(s: Seq<u64>, x: u64, y: u64)
    ensures
        s.push(x).contains(y) == (s.contains(y) || y == x),
{
    let p = s.push(x);
    if p.contains(y) {
        let i = choose|i: int| 0 <= i < p.len() && p[i] == y;
        if i < s.len() {
            assert(s[i] == y);
            assert(s.contains(y));
        }
    }
    if s.contains(y) {
        let i = choose|i: int| 0 <= i < s.len() && s[i] == y;
        assert(p[i] == y);
        assert(p.contains(y));
    }
    if y == x {
        assert(p[s.len() as int] == y);
        assert(p.contains(y));
    }
}

/// Removing a set of capabilities that a bounding set never held leaves it
/// unchanged.
proof fn lemma_drop_listed_none(s: Seq<u64>, caps: Set<u64>)
    requires
        forall|c: u64| caps.contains(c) ==> !s.contains(c),
    ensures
        drop_listed(s, caps) == s,
    decreases s.len(),
{
    if s.len() > 0 {
        let t = s.drop_last();
        let l = s.last();
        assert forall|c: u64| caps.contains(c) implies !t.contains(c) by {
            if t.contains(c) {
                let i = choose|i: int| 0 <= i < t.len() && t[i] == c;
                assert(s[i] == c);
                assert(s.contains(c));
            }
        }
        lemma_drop_listed_none(t, caps);
        assert(s[s.len() - 1] == l);
        assert(s.contains(l));
        assert(!caps.contains(l));
        assert(drop_listed(s, caps) == t.push(l));
        assert(t.push(l) =~= s);
    }
}

/// One removal request followed by a one-shot removal of `caps` is the
/// one-shot removal of `caps` with `cap` added.
proof fn lemma_drop_listed_remove(s: Seq<u64>, cap: u64, caps: Set<u64>)
    ensures
        drop_listed(remove_cap(s, cap), caps) == drop_listed(s, caps.insert(cap)),
    decreases s.len(),
{
    if s.len() > 0 {
        let t = s.drop_last();
        let l = s.last();
        lemma_drop_listed_remove(t, cap, caps);
        if l == cap {
            assert(caps.insert(cap).contains(l));
        } else {
            let u = remove_cap(t, cap);
            assert(remove_cap(s, cap) == u.push(l));
            assert((u.push(l)).drop_last() =~= u);
            assert((u.push(l)).last() == l);
            if caps.contains(l) {
                assert(drop_listed(u.push(l), caps) == drop_listed(u, caps));
                assert(caps.insert(cap).contains(l));
            } else {
                assert(drop_listed(u.push(l), caps) == drop_listed(u, caps).push(l));
                assert(!caps.insert(cap).contains(l));
            }
        }
    }
}

/// The per-entry pass over a request list and the one-shot removal of the
/// capabilities it names agree.
pub proof fn lemma_remove_each_drops_listed(s: Seq<u64>, caps: Seq<u64>)
    ensures
        remove_each(s, caps) == drop_listed(s, listed(caps)),
    decreases caps.len(),
{
    if caps.len() == 0 {
        lemma_drop_listed_none(s, listed(caps));
    } else {
        let c0 = caps.first();
        let rest = caps.drop_first();
        lemma_remove_each_drops_listed(remove_cap(s, c0), rest);
        lemma_drop_listed_remove(s, c0, listed(rest));
        assert(listed(rest).insert(c0) =~= listed(caps)) by {
            assert forall|c: u64| caps.contains(c) implies (c == c0 || rest.contains(c)) by {
                let i = choose|i: int| 0 <= i < caps.len() && caps[i] == c;
                if i > 0 {
                    assert(rest[i - 1] == c);
                    assert(rest.contains(c));
                }
            }
            assert forall|c: u64| (c == c0 || rest.contains(c)) implies caps.contains(c) by {
                if c == c0 {
                    assert(caps[0] == c);
                    assert(caps.contains(c));
                } else {
                    let j = choose|j: int| 0 <= j < rest.len() && rest[j] == c;
                    assert(caps[j + 1] == c);
                    assert(caps.contains(c));
                }
            }
        }
    }
}

/// Exactly the entries outside `caps` survive a one-shot removal: nothing
/// else is removed, and nothing is ever added.
pub proof fn lemma_drop_listed_contains(s: Seq<u64>, caps: Set<u64>, cap: u64)
    ensures
        drop_listed(s, caps).contains(cap) == (s.contains(cap) && !caps.contains(cap)),
    decreases s.len(),
{
    if s.len() > 0 {
        let t = s.drop_last();
        let l = s.last();
        lemma_drop_listed_contains(t, caps, cap);
        assert(t.push(l) =~= s);
        lemma_push_contains(t, l, cap);
        assert(s.contains(cap) == (t.contains(cap) || cap == l));
        if !caps.contains(l) {
            let r = drop_listed(t, caps);
            assert(drop_listed(s, caps) == r.push(l));
            lemma_push_contains(r, l, cap);
        }
    }
}

/// Removing the same capabilities a second time changes nothing: the first
/// pass already left none of them behind.
proof fn lemma_drop_listed_idempotent(s: Seq<u64>, caps: Set<u64>)
    ensures
        drop_listed(drop_listed(s, caps), caps) == drop_listed(s, caps),
    decreases s.len(),
{
    if s.len() > 0 {
        let t = s.drop_last();
        let l = s.last();
        lemma_drop_listed_idempotent(t, caps);
        if !caps.contains(l) {
            let r = drop_listed(t, caps);
            assert(drop_listed(s, caps) == r.push(l));
            assert((r.push(l)).drop_last() =~= r);
            assert((r.push(l)).last() == l);
            assert(drop_listed(r.push(l), caps) == drop_listed(r, caps).push(l));
        }
    }
}

/// Monotonicity of repetition: any number `n >= 1` of drop passes leaves
/// the bounding set exactly as one pass does.
pub proof fn lemma_repeated_drop_is_one_drop(s: Seq<u64>, n: nat)
    requires
        1 <= n,
    ensures
        remove_each_n(s, catalogue_spec(), n) == remove_each(s, catalogue_spec()),
    decreases n,
{
    let cat = catalogue_spec();
    if n == 1 {
        assert(remove_each_n(s, cat, 0) == s);
        assert(remove_each_n(s, cat, 1) == remove_each(s, cat));
    } else {
        assert(remove_each_n(s, cat, n) == remove_each(remove_each_n(s, cat, (n - 1) as nat), cat));
        lemma_repeated_drop_is_one_drop(s, (n - 1) as nat);
        lemma_remove_each_drops_listed(s, cat);
        lemma_remove_each_drops_listed(drop_listed(s, listed(cat)), cat);
        lemma_drop_listed_idempotent(s, listed(cat));
    }
}

/// Completeness: after one drop pass, no catalogue capability remains in
/// the bounding set.
pub proof fn lemma_drop_complete(s: Seq<u64>, cap: u64)
    requires
        catalogue_spec().contains(cap),
    ensures
        !after_drop(s).contains(cap),
{
    lemma_drop_listed_contains(s, listed(catalogue_spec()), cap);
}

/// Exactly the entries outside the catalogue survive a drop pass: every
/// catalogue capability is removed, and nothing else changes.
pub proof fn lemma_after_drop_contains(s: Seq<u64>, cap: u64)
    ensures
        after_drop(s).contains(cap) == (s.contains(cap) && !catalogue_spec().contains(cap)),
{
    lemma_drop_listed_contains(s, listed(catalogue_spec()), cap);
}

/// The per-entry pass over the catalogue has the one-shot outcome.
pub proof fn lemma_pass_is_after_drop(s: Seq<u64>)
    ensures
        remove_each(s, catalogue_spec()) == after_drop(s),
{
    lemma_remove_each_drops_listed(s, catalogue_spec());
}

/// Order irrelevance: two request lists naming the same capabilities leave
/// the same bounding set, whatever their order or repetitions.
pub proof fn lemma_order_irrelevant(s: Seq<u64>, caps1: Seq<u64>, caps2: Seq<u64>)
    requires
        forall|c: u64| caps1.contains(c) == caps2.contains(c),
    ensures
        remove_each(s, caps1) == remove_each(s, caps2),
{
    lemma_remove_each_drops_listed(s, caps1);
    lemma_remove_each_drops_listed(s, caps2);
    assert(listed(caps1) =~= listed(caps2));
}

/// Models one removal request: returns `bounding` without `cap`.
pub fn remove_capability(bounding: &Vec<u64>, cap: u64) -> (r: Vec<u64>)
    ensures
        r@ == remove_cap(bounding@, cap),
{
    let mut r: Vec<u64> = Vec::new();
    let mut i: usize = 0;
    while i < bounding.len()
        invariant
            i <= bounding.len(),
            r@ == remove_cap(bounding@.subrange(0, i as int), cap),
        decreases bounding.len() - i,
    {
        proof {
            let pre = bounding@.subrange(0, i as int);
            let post = bounding@.subrange(0, i as int + 1);
            assert(post.drop_last() =~= pre);
            assert(post.last() == bounding@[i as int]);
        }
        if bounding[i] != cap {
            r.push(bounding[i]);
        }
        i = i + 1;
    }
    proof {
        assert(bounding@.subrange(0, bounding@.len() as int) =~= bounding@);
    }
    r
}

/// Appending one more request to a pass removes that capability from the
/// pass's outcome.
proof fn lemma_remove_each_push(s: Seq<u64>, caps: Seq<u64>, cap: u64)
    ensures
        remove_each(s, caps.push(cap)) == remove_cap(remove_each(s, caps), cap),
    decreases caps.len(),
{
    let whole = caps.push(cap);
    if caps.len() == 0 {
        assert(whole.drop_first() =~= Seq::<u64>::empty());
        assert(whole.first() == cap);
        assert(remove_each(s, whole) == remove_each(remove_cap(s, cap), Seq::<u64>::empty()));
        assert(remove_each(remove_cap(s, cap), Seq::<u64>::empty()) == remove_cap(s, cap));
        assert(remove_each(s, caps) == s);
    } else {
        assert(whole.drop_first() =~= caps.drop_first().push(cap));
        assert(whole.first() == caps.first());
        assert(remove_each(s, whole) == remove_each(
            remove_cap(s, caps.first()),
            caps.drop_first().push(cap),
        ));
        lemma_remove_each_push(remove_cap(s, caps.first()), caps.drop_first(), cap);
        assert(remove_each(s, caps) == remove_each(remove_cap(s, caps.first()), caps.drop_first()));
    }
}

/// Models one whole drop pass: issues one removal per catalogue entry, in
/// catalogue order, and returns what the bounding set has become.
pub fn apply_drop(bounding: &Vec<u64>) -> (r: Vec<u64>)
    ensures
        r@ == remove_each(bounding@, catalogue_spec()),
        r@ == after_drop(bounding@),
{
    proof {
        lemma_pass_is_after_drop(bounding@);
    }
    let cat = catalogue();
    let mut cur: Vec<u64> = remove_capability(bounding, cat[0]);
    proof {
        let one = catalogue_spec().subrange(0, 1);
        assert(one.drop_first() =~= Seq::<u64>::empty());
        assert(one.first() == catalogue_spec()[0]);
        assert(remove_each(bounding@, one) == remove_each(
            remove_cap(bounding@, catalogue_spec()[0]),
            Seq::<u64>::empty(),
        ));
        assert(remove_each(remove_cap(bounding@, catalogue_spec()[0]), Seq::<u64>::empty())
            == remove_cap(bounding@, catalogue_spec()[0]));
    }
    let mut i: usize = 1;
    while i < cat.len()
        invariant
            1 <= i <= cat.len(),
            cat@ == catalogue_spec(),
            cur@ == remove_each(bounding@, catalogue_spec().subrange(0, i as int)),
        decreases cat.len() - i,
    {
        cur = remove_capability(&cur, cat[i]);
        proof {
            let pre = catalogue_spec().subrange(0, i as int);
            let post = catalogue_spec().subrange(0, i as int + 1);
            assert(post =~= pre.push(catalogue_spec()[i as int]));
            lemma_remove_each_push(bounding@, pre, catalogue_spec()[i as int]);
        }
        i = i + 1;
    }
    proof {
        assert(catalogue_spec().subrange(0, catalogue_spec().len() as int) =~= catalogue_spec());
    }
    cur
}

} // verus!
