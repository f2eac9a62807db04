//! Lists of slots: order and membership.

use solana_clock::Slot;
use vstd::prelude::*;

verus! {

/// Whether a list of slots is in ascending order.
pub open spec fn sorted(slots: Seq<Slot>) -> bool {
    forall|i: int, j: int| 0 <= i < j < slots.len() ==> slots[i] <= slots[j]
}

/// Whether a list of slots is in ascending order and holds no slot twice.
pub open spec fn ascending(slots: Seq<Slot>) -> bool {
    forall|i: int, j: int| 0 <= i < j < slots.len() ==> slots[i] < slots[j]
}

/// There is one way to list a set of slots in ascending order: two
/// ascending lists that hold the same slots are the same list.
pub proof fn lemma_ascending_is_unique(a: Seq<Slot>, b: Seq<Slot>)
    requires
        ascending(a),
        ascending(b),
        forall|slot: Slot| a.contains(slot) <==> b.contains(slot),
    ensures
        a == b,
    decreases a.len(),
{
    if a.len() == 0 {
        if b.len() > 0 {
            assert(b.contains(b[0]));
        }
        assert(a =~= b);
    } else {
        let last = a.last();
        assert(a.contains(last));
        let at = choose|at: int| 0 <= at < b.len() && b[at] == last;
        if at < b.len() - 1 {
            assert(b.contains(b.last()));
            let back = choose|back: int| 0 <= back < a.len() && a[back] == b.last();
        }
        let shorter_a = a.drop_last();
        let shorter_b = b.drop_last();
        assert forall|slot: Slot| shorter_a.contains(slot) <==> shorter_b.contains(slot) by {
            if shorter_a.contains(slot) {
                let i = choose|i: int| 0 <= i < shorter_a.len() && shorter_a[i] == slot;
                assert(a[i] == slot);
                assert(a.contains(slot));
                let j = choose|j: int| 0 <= j < b.len() && b[j] == slot;
                assert(shorter_b[j] == slot);
            }
            if shorter_b.contains(slot) {
                let j = choose|j: int| 0 <= j < shorter_b.len() && shorter_b[j] == slot;
                assert(b[j] == slot);
                assert(b.contains(slot));
                let i = choose|i: int| 0 <= i < a.len() && a[i] == slot;
                assert(shorter_a[i] == slot);
            }
        }
        lemma_ascending_is_unique(shorter_a, shorter_b);
        assert(a =~= shorter_a.push(last));
        assert(b =~= shorter_b.push(last));
    }
}

/// Calls `sort` of slices. Trusted, as its documentation says: afterwards
/// the list is in ascending order and holds what it held before.
#[verifier::external_body]
fn sort(slots: &mut Vec<Slot>)
    ensures
        sorted(final(slots)@),
        final(slots)@.to_multiset() == old(slots)@.to_multiset(),
{
    slots.sort()
}

/// Puts a list of slots in ascending order.
pub fn sort_all_slots(slots: &mut Vec<Slot>)
    ensures
        sorted(final(slots)@),
        final(slots)@.to_multiset() == old(slots)@.to_multiset(),
        forall|slot: Slot| final(slots)@.contains(slot) <==> old(slots)@.contains(slot),
{
    sort(slots);
    proof {
        assert forall|slot: Slot| slots@.contains(slot) <==> old(slots)@.contains(slot) by {
            vstd::seq_lib::to_multiset_contains(slots@, slot);
            vstd::seq_lib::to_multiset_contains(old(slots)@, slot);
        }
    }
}

/// Puts a list of slots that holds no slot twice in ascending order.
pub fn sort_slots(slots: &mut Vec<Slot>)
    requires
        old(slots)@.no_duplicates(),
    ensures
        ascending(final(slots)@),
        final(slots)@.to_set() == old(slots)@.to_set(),
{
    sort(slots);
    proof {
        let before = old(slots)@;
        let after = slots@;
        before.lemma_multiset_has_no_duplicates();
        after.lemma_multiset_has_no_duplicates_conv();
        assert forall|a: Slot| after.to_set().contains(a) <==> before.to_set().contains(a) by {
            vstd::seq_lib::to_multiset_contains(after, a);
            vstd::seq_lib::to_multiset_contains(before, a);
        }
    }
}

/// Whether a list of slots holds a slot.
pub fn contains_slot(slots: &Vec<Slot>, slot: Slot) -> (found: bool)
    ensures
        found == slots@.contains(slot),
{
    let mut i: usize = 0;
    while i < slots.len()
        invariant
            i <= slots@.len(),
            forall|j: int| 0 <= j < i ==> slots@[j] != slot,
        decreases slots@.len() - i,
    {
        if slots[i] == slot {
            return true;
        }
        i += 1;
    }
    false
}

} // verus!
