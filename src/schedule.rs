use vstd::prelude::*;
use crate::trace::Slot;

verus! {

/// Slot order: period first, then thread.
pub open spec fn slot_lt(a: Slot, b: Slot) -> bool {
    a.period < b.period || (a.period == b.period && a.thread < b.thread)
}

fn slot_less(a: Slot, b: Slot) -> (r: bool)
    ensures
        r == slot_lt(a, b),
{
    a.period < b.period || (a.period == b.period && a.thread < b.thread)
}

/// Why a scenario's slots cannot be ordered.
#[derive(Debug, Clone, Copy, PartialEq, Eq, Structural)]
pub enum ScheduleError {
    /// Two entries name this slot.
    DuplicateSlot(Slot),
}

/// Two entries of `slots` name the same slot.
pub open spec fn has_duplicate(slots: Seq<Slot>) -> bool {
    exists|a: int, b: int| 0 <= a < b < slots.len() && slots[a] == slots[b]
}

/// `order` lists indices of `slots`, each below `n`, in strictly ascending slot order.
pub open spec fn ascending(slots: Seq<Slot>, order: Seq<usize>, n: int) -> bool {
    &&& forall|p: int| 0 <= p < order.len() ==> order[p] < n
    &&& forall|p: int, q: int|
        0 <= p < q < order.len() ==> slot_lt(#[trigger] slots[order[p] as int], #[trigger] slots[order[q] as int])
}

/// The order in which a scenario's entries run: the indices of `slots` by ascending
/// slot. Fails on the first slot, in input order, that an earlier entry already named.
pub fn slot_order(slots: &Vec<Slot>) -> (r: Result<Vec<usize>, ScheduleError>)
    ensures
        match r {
            Ok(order) => {
                &&& !has_duplicate(slots@)
                &&& order@.len() == slots@.len()
                &&& ascending(slots@, order@, slots@.len() as int)
                &&& forall|j: int| 0 <= j < slots@.len() ==> #[trigger] order@.contains(j as usize)
            },
            Err(ScheduleError::DuplicateSlot(s)) => {
                &&& has_duplicate(slots@)
                &&& exists|a: int, b: int| 0 <= a < b < slots@.len() && slots@[a] == s && slots@[b] == s
            },
        },
{
    let mut order: Vec<usize> = Vec::new();
    let mut i: usize = 0;
    while i < slots.len()
        invariant
            0 <= i <= slots@.len(),
            order@.len() == i,
            ascending(slots@, order@, i as int),
            forall|j: int| 0 <= j < i ==> #[trigger] order@.contains(j as usize),
        decreases slots@.len() - i,
    {
        let s = slots[i];
        let mut p: usize = 0;
        while p < order.len() && slot_less(slots[order[p]], s)
            invariant
                0 <= p <= order@.len(),
                order@.len() == i,
                i < slots@.len(),
                s == slots@[i as int],
                ascending(slots@, order@, i as int),
                forall|q: int| 0 <= q < p ==> slot_lt(#[trigger] slots@[order@[q] as int], s),
            decreases order@.len() - p,
        {
            p = p + 1;
        }
        if p < order.len() {
            let o = slots[order[p]];
            if o.period == s.period && o.thread == s.thread {
                assert(o == s);
                assert(order@[p as int] < i);
                return Err(ScheduleError::DuplicateSlot(s));
            }
        }
        let ghost before = order@;
        order.insert(p, i);
        proof {
            assert(order@ == before.insert(p as int, i));
            assert forall|a: int, b: int| 0 <= a < b < order@.len() implies slot_lt(
                #[trigger] slots@[order@[a] as int],
                #[trigger] slots@[order@[b] as int],
            ) by {
                if b < p {
                    assert(order@[a] == before[a] && order@[b] == before[b]);
                } else if b == p {
                    assert(order@[a] == before[a]);
                } else if a == p {
                    assert(order@[b] == before[b - 1]);
                    assert(slot_lt(slots@[before[p as int] as int], slots@[before[b - 1] as int]) || b - 1 == p);
                } else if a < p {
                    assert(order@[a] == before[a] && order@[b] == before[b - 1]);
                } else {
                    assert(order@[a] == before[a - 1] && order@[b] == before[b - 1]);
                }
            }
            assert forall|j: int| 0 <= j < i + 1 implies #[trigger] order@.contains(j as usize) by {
                if j == i {
                    assert(order@[p as int] == i);
                } else {
                    assert(before.contains(j as usize));
                    let q = choose|q: int| 0 <= q < before.len() && before[q] == j as usize;
                    if q < p {
                        assert(order@[q] == j as usize);
                    } else {
                        assert(order@[q + 1] == j as usize);
                    }
                }
            }
        }
        i = i + 1;
    }
    proof {
        if has_duplicate(slots@) {
            let (a, b) = choose|a: int, b: int| 0 <= a < b < slots@.len() && slots@[a] == slots@[b];
            assert(order@.contains(a as usize));
            assert(order@.contains(b as usize));
            let pa = choose|q: int| 0 <= q < order@.len() && order@[q] == a as usize;
            let pb = choose|q: int| 0 <= q < order@.len() && order@[q] == b as usize;
            if pa < pb {
                assert(slot_lt(slots@[order@[pa] as int], slots@[order@[pb] as int]));
            } else {
                assert(slot_lt(slots@[order@[pb] as int], slots@[order@[pa] as int]));
            }
        }
    }
    Ok(order)
}

} // verus!
