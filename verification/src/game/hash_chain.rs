use vstd::prelude::*;

verus! {

// The chunk tables keep their chunks in one vector. Each chunk belongs to
// the hash slot of its coordinates, and each slot chains its chunks in the
// order they were added: the slot's head is its first chunk, and each chunk
// links to the next chunk of the same slot. The functions here state that
// shape over the sequence of the chunks' slot numbers.

/// Number of slots in a chunk hash table.
pub const HASH_SLOT_COUNT: usize = 4096;

/// The first position at or after `from` whose slot is `s`.
pub open spec fn next_in_slot(slots: Seq<int>, s: int, from: int) -> Option<int>
    decreases slots.len() - from,
{
    if from < 0 || from >= slots.len() {
        None
    } else if slots[from] == s {
        Some(from)
    } else {
        next_in_slot(slots, s, from + 1)
    }
}

/// A link as a mathematical integer.
pub open spec fn link(o: Option<usize>) -> Option<int> {
    match o {
        Some(i) => Some(i as int),
        None => None,
    }
}

/// The slot heads and chunk links have the chained shape described above.
pub open spec fn chains_wf(heads: Seq<Option<usize>>, nexts: Seq<Option<usize>>, slots: Seq<int>) -> bool {
    &&& nexts.len() == slots.len()
    &&& forall|i: int| 0 <= i < slots.len() ==> 0 <= #[trigger] slots[i] < heads.len()
    &&& forall|s: int| 0 <= s < heads.len() ==> link(#[trigger] heads[s]) == next_in_slot(slots, s, 0)
    &&& forall|i: int| 0 <= i < slots.len() ==> link(#[trigger] nexts[i]) == next_in_slot(slots, slots[i], i + 1)
}

/// What the first position of a slot at or after `from` is.
pub proof fn lemma_next_in_slot(slots: Seq<int>, s: int, from: int)
    requires
        0 <= from,
    ensures
        match next_in_slot(slots, s, from) {
            Some(j) => from <= j < slots.len() && slots[j] == s && forall|k: int|
                from <= k < j ==> slots[k] != s,
            None => forall|k: int| from <= k < slots.len() ==> slots[k] != s,
        },
    decreases slots.len() - from,
{
    if from < slots.len() && slots[from] != s {
        lemma_next_in_slot(slots, s, from + 1);
    }
}

/// Adding a position in slot `v` at the end changes only the answers that
/// were empty for slot `v`.
pub proof fn lemma_next_in_slot_push(slots: Seq<int>, v: int, s: int, from: int)
    requires
        0 <= from <= slots.len(),
    ensures
        next_in_slot(slots.push(v), s, from) == match next_in_slot(slots, s, from) {
            Some(j) => Some(j),
            None => if v == s {
                Some(slots.len() as int)
            } else {
                None::<int>
            },
        },
    decreases slots.len() - from,
{
    let t = slots.push(v);
    if from < slots.len() {
        assert(t[from] == slots[from]);
        if slots[from] != s {
            lemma_next_in_slot_push(slots, v, s, from + 1);
        }
    } else {
        assert(t[from] == v);
        if v != s {
            assert(next_in_slot(t, s, from + 1) == None::<int>);
        }
    }
}

/// Adding a chunk of slot `v` at the end keeps the chained shape when the
/// slot's head is set (for an empty slot) or the slot's last chunk is linked
/// to it.
pub proof fn lemma_chains_push(
    heads: Seq<Option<usize>>,
    nexts: Seq<Option<usize>>,
    slots: Seq<int>,
    v: int,
    tail: Option<usize>,
)
    requires
        chains_wf(heads, nexts, slots),
        0 <= v < heads.len(),
        slots.len() <= usize::MAX,
        match tail {
            Some(t) => 0 <= t < slots.len() && slots[t as int] == v && next_in_slot(slots, v, t + 1)
                == None::<int>,
            None => next_in_slot(slots, v, 0) == None::<int>,
        },
    ensures
        chains_wf(
            match tail {
                Some(_) => heads,
                None => heads.update(v, Some(slots.len() as usize)),
            },
            match tail {
                Some(t) => nexts.update(t as int, Some(slots.len() as usize)),
                None => nexts,
            }.push(None),
            slots.push(v),
        ),
{
    let n = slots.len() as int;
    let new_heads = match tail {
        Some(_) => heads,
        None => heads.update(v, Some(slots.len() as usize)),
    };
    let new_nexts = match tail {
        Some(t) => nexts.update(t as int, Some(slots.len() as usize)),
        None => nexts,
    }.push(None);
    let new_slots = slots.push(v);
    assert forall|s: int| 0 <= s < new_heads.len() implies link(#[trigger] new_heads[s])
        == next_in_slot(new_slots, s, 0) by {
        lemma_next_in_slot_push(slots, v, s, 0);
        lemma_next_in_slot(slots, s, 0);
        if tail is Some && s == v {
            let t = tail->0 as int;
            assert(next_in_slot(slots, s, 0) is Some);
        }
    }
    assert forall|i: int| 0 <= i < new_slots.len() implies link(#[trigger] new_nexts[i])
        == next_in_slot(new_slots, new_slots[i], i + 1) by {
        if i < n {
            lemma_next_in_slot_push(slots, v, slots[i], i + 1);
            lemma_next_in_slot(slots, slots[i], i + 1);
            if slots[i] == v && next_in_slot(slots, v, i + 1) == None::<int> {
                match tail {
                    Some(t) => {
                        if (t as int) < i {
                            lemma_next_in_slot(slots, v, t + 1);
                        } else if i < (t as int) {
                            assert(slots[t as int] == v);
                        }
                    },
                    None => {
                        lemma_next_in_slot(slots, v, 0);
                        assert(slots[i] != v);
                    },
                }
            }
        } else {
            assert(next_in_slot(new_slots, v, n + 1) == None::<int>);
        }
    }
}

// The pair collision rules are chained the other way round: each slot's
// head is its newest rule, and each rule links to the rule of the same slot
// added before it.

/// The last position before `to` whose slot is `s`.
pub open spec fn prev_in_slot(slots: Seq<int>, s: int, to: int) -> Option<int>
    decreases to,
{
    if to <= 0 || to > slots.len() {
        None
    } else if slots[to - 1] == s {
        Some(to - 1)
    } else {
        prev_in_slot(slots, s, to - 1)
    }
}

/// The slot heads and links chain each slot from its newest position down
/// to its oldest.
pub open spec fn stacks_wf(heads: Seq<Option<usize>>, nexts: Seq<Option<usize>>, slots: Seq<int>) -> bool {
    &&& nexts.len() == slots.len()
    &&& forall|i: int| 0 <= i < slots.len() ==> 0 <= #[trigger] slots[i] < heads.len()
    &&& forall|s: int|
        0 <= s < heads.len() ==> link(#[trigger] heads[s]) == prev_in_slot(slots, s, slots.len() as int)
    &&& forall|i: int| 0 <= i < slots.len() ==> link(#[trigger] nexts[i]) == prev_in_slot(slots, slots[i], i)
}

/// What the last position of a slot before `to` is.
pub proof fn lemma_prev_in_slot(slots: Seq<int>, s: int, to: int)
    requires
        0 <= to <= slots.len(),
    ensures
        match prev_in_slot(slots, s, to) {
            Some(j) => 0 <= j < to && slots[j] == s && forall|k: int| j < k < to ==> slots[k] != s,
            None => forall|k: int| 0 <= k < to ==> slots[k] != s,
        },
    decreases to,
{
    if to > 0 && slots[to - 1] != s {
        lemma_prev_in_slot(slots, s, to - 1);
    }
}

/// Adding a position at the end changes no answer below it.
pub proof fn lemma_prev_in_slot_push(slots: Seq<int>, v: int, s: int, to: int)
    requires
        0 <= to <= slots.len(),
    ensures
        prev_in_slot(slots.push(v), s, to) == prev_in_slot(slots, s, to),
    decreases to,
{
    let t = slots.push(v);
    if to > 0 {
        assert(t[to - 1] == slots[to - 1]);
        if slots[to - 1] != s {
            lemma_prev_in_slot_push(slots, v, s, to - 1);
        }
    }
}

/// Adding a position of slot `v` at the end, as the slot's new head linked
/// to the old head, keeps the chained shape.
pub proof fn lemma_stacks_push(heads: Seq<Option<usize>>, nexts: Seq<Option<usize>>, slots: Seq<int>, v: int)
    requires
        stacks_wf(heads, nexts, slots),
        0 <= v < heads.len(),
        slots.len() <= usize::MAX,
    ensures
        stacks_wf(heads.update(v, Some(slots.len() as usize)), nexts.push(heads[v]), slots.push(v)),
{
    let n = slots.len() as int;
    let new_heads = heads.update(v, Some(slots.len() as usize));
    let new_nexts = nexts.push(heads[v]);
    let new_slots = slots.push(v);
    assert forall|s: int| 0 <= s < new_heads.len() implies link(#[trigger] new_heads[s])
        == prev_in_slot(new_slots, s, new_slots.len() as int) by {
        lemma_prev_in_slot_push(slots, v, s, n);
        assert(new_slots[n] == v);
    }
    assert forall|i: int| 0 <= i < new_slots.len() implies link(#[trigger] new_nexts[i])
        == prev_in_slot(new_slots, new_slots[i], i) by {
        if i < n {
            lemma_prev_in_slot_push(slots, v, slots[i], i);
        } else {
            lemma_prev_in_slot_push(slots, v, v, n);
        }
    }
}

} // verus!
