//! The positions of a project's assets.
use vstd::prelude::*;

verus! {

/// The number of assets that one project can hold.
pub const SLOTS: i16 = 5;

/// The free positions of a project whose assets stand at the positions in
/// `used`: those from zero up to the number of slots that no asset takes,
/// in rising order.
pub open spec fn free_slots(used: Seq<i16>, upto: int) -> Seq<i16>
    decreases upto,
{
    if upto <= 0 {
        Seq::empty()
    } else if used.contains((upto - 1) as i16) {
        free_slots(used, upto - 1)
    } else {
        free_slots(used, upto - 1).push((upto - 1) as i16)
    }
}

/// Finds the positions at which new assets can be placed.
pub fn get_available_slots(used: &Vec<i16>) -> (slots: Vec<i16>)
    ensures
        slots@ == free_slots(used@, SLOTS as int),
{
    let mut slots: Vec<i16> = Vec::new();
    let mut slot: i16 = 0;
    while slot < SLOTS
        invariant
            0 <= slot <= SLOTS,
            slots@ == free_slots(used@, slot as int),
        decreases SLOTS - slot,
    {
        let mut taken = false;
        let mut i: usize = 0;
        while i < used.len()
            invariant
                i <= used@.len(),
                taken == used@.take(i as int).contains(slot),
            decreases used@.len() - i,
        {
            proof {
                let ghost next = used@.take(i + 1);
                assert(next[i as int] == used@[i as int]);
                if used@.take(i as int).contains(slot) {
                    let j = used@.take(i as int).index_of(slot);
                    assert(next[j] == slot);
                }
                if next.contains(slot) && used@[i as int] != slot {
                    let j = next.index_of(slot);
                    assert(used@.take(i as int)[j] == slot);
                }
            }
            if used[i] == slot {
                taken = true;
            }
            i += 1;
        }
        proof {
            assert(used@.take(used@.len() as int) =~= used@);
        }
        if !taken {
            slots.push(slot);
        }
        slot += 1;
    }
    slots
}

/// The positions at which `wanted` new assets are placed in a project whose
/// assets stand at the positions in `used`: none where the project is full,
/// else the lowest free positions, as many as are wanted and free.
pub open spec fn placed(used: Seq<i16>, wanted: nat) -> Seq<i16> {
    let free = free_slots(used, SLOTS as int);
    if used.len() >= SLOTS {
        Seq::empty()
    } else if wanted < free.len() {
        free.take(wanted as int)
    } else {
        free
    }
}

/// Places new assets on the free positions of a project.
pub fn placements(used: &Vec<i16>, wanted: usize) -> (r: Vec<i16>)
    ensures
        r@ == placed(used@, wanted as nat),
{
    if used.len() >= SLOTS as usize {
        return Vec::new();
    }
    let mut slots = get_available_slots(used);
    if wanted < slots.len() {
        slots.truncate(wanted);
    }
    slots
}

/// A position is free exactly when it is a slot that no asset takes.
pub proof fn lemma_free_slots(used: Seq<i16>, upto: int, slot: i16)
    requires
        0 <= upto <= SLOTS,
    ensures
        free_slots(used, upto).contains(slot) <==> 0 <= slot < upto && !used.contains(slot),
    decreases upto,
{
    if upto > 0 {
        lemma_free_slots(used, upto - 1, slot);
        let rest = free_slots(used, upto - 1);
        let top = (upto - 1) as i16;
        if !used.contains(top) {
            let pushed = rest.push(top);
            assert(pushed[rest.len() as int] == top);
            if rest.contains(slot) {
                let j = rest.index_of(slot);
                assert(pushed[j] == slot);
            }
            if pushed.contains(slot) {
                let j = pushed.index_of(slot);
                if j < rest.len() {
                    assert(rest[j] == slot);
                }
            }
        }
    }
}

} // verus!
