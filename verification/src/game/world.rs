use vstd::prelude::*;
use vstd::layout::size_of;
use vstd::multiset::Multiset;

use super::hash_chain::{
    HASH_SLOT_COUNT, chains_wf, lemma_chains_push, lemma_next_in_slot, next_in_slot,
};
use super::memory::MemoryArena;
use super::LfEntity;
use super::tilemap::{WORLD_BORDER_CHUNKS, hash_spec, in_border, slot_of_hash, slot_spec};

verus! {

broadcast use {
    vstd::seq_lib::group_to_multiset_ensures,
    vstd::multiset::group_multiset_axioms,
};

/// Hashes a chunk's coordinates: `19x + 7y + 3z` in wrapping 32-bit arithmetic.
pub fn get_hash(tile_chunk_x: i32, tile_chunk_y: i32, tile_chunk_z: i32) -> (r: u32)
    ensures
        r == hash_spec(tile_chunk_x, tile_chunk_y, tile_chunk_z),
{
    let x = tile_chunk_x as i64;
    let y = tile_chunk_y as i64;
    let z = tile_chunk_z as i64;
    let res: i64 = x * 19 + y * 7 + z * 3;
    res as u32
}

/// Tiles along each side of a world chunk.
pub const TILES_PER_CHUNK: i32 = 16;

/// Entity slots in one entity block.
pub const ENTITY_BLOCK_SIZE: usize = 16;

/// A block of stored entity indices. A chunk keeps its entities in a chain
/// of such blocks; only the first `e_count` slots are in use.
pub struct EntityBlock {
    pub e_count: usize,
    pub lf_entities: [usize; 16],
    pub next: Option<Box<EntityBlock>>,
}

/// The entity indices a block holds itself.
pub open spec fn block_prefix(b: EntityBlock) -> Seq<usize> {
    b.lf_entities@.take(b.e_count as int)
}

/// Every block of the chain is full.
pub open spec fn chain_full(b: EntityBlock) -> bool
    decreases b,
{
    &&& b.e_count == ENTITY_BLOCK_SIZE
    &&& match b.next {
        Some(n) => chain_full(*n),
        None => true,
    }
}

/// The shape of a chunk's chain: new entities go into the first block, so
/// the blocks after it are full, and the first block is empty only when it
/// is the only one.
pub open spec fn chain_shape(first: EntityBlock) -> bool {
    &&& first.e_count <= ENTITY_BLOCK_SIZE
    &&& (first.e_count == 0 ==> first.next is None)
    &&& match first.next {
        Some(n) => chain_full(*n),
        None => true,
    }
}

/// The entity indices a chain of blocks holds, with their multiplicities.
pub open spec fn chain_entities(b: EntityBlock) -> Multiset<usize>
    decreases b,
{
    block_prefix(b).to_multiset().add(
        match b.next {
            Some(n) => chain_entities(*n),
            None => Multiset::empty(),
        },
    )
}

impl Default for EntityBlock {
    fn default() -> (r: EntityBlock)
        ensures
            r.e_count == 0,
            r.next is None,
            r.lf_entities@ == Seq::new(16, |i: int| 0usize),
    {
        let r = EntityBlock { e_count: 0, lf_entities: [0usize; 16], next: None };
        assert(r.lf_entities@ =~= Seq::new(16, |i: int| 0usize));
        r
    }
}

impl EntityBlock {
    /// The first slot of this block holding `target`, if any.
    pub fn find_in_block(&self, target: usize) -> (r: Option<usize>)
        requires
            self.e_count <= ENTITY_BLOCK_SIZE,
        ensures
            match r {
                Some(j) => j < self.e_count && self.lf_entities@[j as int] == target && forall|k: int|
                    0 <= k < j ==> self.lf_entities@[k] != target,
                None => !block_prefix(*self).contains(target),
            },
    {
        let mut j: usize = 0;
        while j < self.e_count
            invariant
                j <= self.e_count <= ENTITY_BLOCK_SIZE,
                forall|k: int| 0 <= k < j ==> self.lf_entities@[k] != target,
            decreases self.e_count - j,
        {
            if self.lf_entities[j] == target {
                return Some(j);
            }
            j = j + 1;
        }
        proof {
            let p = block_prefix(*self);
            if p.contains(target) {
                let i = p.index_of(target);
                assert(p[i] == target);
            }
        }
        None
    }

    /// Whether the chain starting at this block holds `target`.
    pub fn chain_contains(&self, target: usize) -> (r: bool)
        requires
            self.e_count <= ENTITY_BLOCK_SIZE,
            match self.next {
                Some(n) => chain_full(*n),
                None => true,
            },
        ensures
            r == (chain_entities(*self).count(target) > 0),
        decreases *self,
    {
        let found = self.find_in_block(target);
        if let Some(j) = found {
            proof {
                let p = block_prefix(*self);
                assert(p[j as int] == target);
                vstd::seq_lib::to_multiset_contains(p, target);
            }
            return true;
        }
        proof {
            vstd::seq_lib::to_multiset_contains(block_prefix(*self), target);
        }
        match &self.next {
            Some(n) => {
                let r = n.chain_contains(target);
                r
            },
            None => false,
        }
    }

    /// Replaces the first occurrence of `target` in this chain of full
    /// blocks by `e`.
    pub fn replace_first(&mut self, target: usize, e: usize)
        requires
            chain_full(*old(self)),
            chain_entities(*old(self)).count(target) > 0,
        ensures
            chain_full(*final(self)),
            chain_entities(*final(self)) =~= chain_entities(*old(self)).remove(target).insert(e),
        decreases *old(self),
    {
        match self.find_in_block(target) {
            Some(j) => {
                let ghost p = block_prefix(*self);
                self.lf_entities.set(j, e);
                proof {
                    assert(block_prefix(*self) =~= p.update(j as int, e));
                }
            },
            None => {
                match self.next.take() {
                    Some(mut n) => {
                        n.replace_first(target, e);
                        self.next = Some(n);
                    },
                    None => {
                        assert(false);
                    },
                }
            },
        }
    }
}

/// Whether taking every `t` out of a first block's own entries empties it
/// while another block follows it.
pub open spec fn first_block_empties(b: EntityBlock, t: usize) -> bool {
    b.next is Some && block_prefix(b).to_multiset().count(t) == b.e_count
}

/// The entities of the blocks after the first once every `t` has left the
/// first block, which takes over the contents of its follower when that
/// empties it.
pub open spec fn later_entities(b: EntityBlock, t: usize) -> Multiset<usize> {
    match b.next {
        None => Multiset::empty(),
        Some(n) => if first_block_empties(b, t) {
            match n.next {
                Some(m) => chain_entities(*m),
                None => Multiset::empty(),
            }
        } else {
            chain_entities(*n)
        },
    }
}

/// The entities of the blocks after the first.
pub open spec fn rest_entities(b: EntityBlock) -> Multiset<usize> {
    match b.next {
        Some(n) => chain_entities(*n),
        None => Multiset::empty(),
    }
}

/// A chain's entities once `t` is taken out of it: every `t` of the first
/// block leaves, and then the first `t` of the blocks after the first one.
pub open spec fn chain_after_removal(b: EntityBlock, t: usize) -> Multiset<usize> {
    chain_entities(b).update(
        t,
        (rest_entities(b).count(t) - if later_entities(b, t).count(t) > 0 {
            1int
        } else {
            0int
        }) as nat,
    )
}

/// Whether taking `t` out of a chain sends a block to the free list: the
/// first block empties while another follows it, either of its own `t`s or
/// when its last entity fills the hole of a later `t`.
pub open spec fn removal_pulls(b: EntityBlock, t: usize) -> bool {
    ||| first_block_empties(b, t)
    ||| (later_entities(b, t).count(t) > 0 && b.e_count - block_prefix(b).to_multiset().count(t) == 1)
}

impl EntityBlock {
    /// How many of this block's own entries are `target`.
    pub fn count_in_block(&self, target: usize) -> (r: usize)
        requires
            self.e_count <= ENTITY_BLOCK_SIZE,
        ensures
            r == block_prefix(*self).to_multiset().count(target),
    {
        let ghost p = block_prefix(*self);
        let mut n: usize = 0;
        let mut i: usize = 0;
        while i < self.e_count
            invariant
                i <= self.e_count <= ENTITY_BLOCK_SIZE,
                p == block_prefix(*self),
                n == p.take(i as int).to_multiset().count(target),
                n <= i,
            decreases self.e_count - i,
        {
            proof {
                assert(p.take(i + 1) =~= p.take(i as int).push(p[i as int]));
            }
            if self.lf_entities[i] == target {
                n = n + 1;
            }
            i = i + 1;
        }
        proof {
            assert(p.take(i as int) =~= p);
        }
        n
    }

    /// Takes every `target` out of this block's own entries; each hole takes
    /// the block's last entry.
    pub fn remove_all_in_block(&mut self, target: usize)
        requires
            old(self).e_count <= ENTITY_BLOCK_SIZE,
        ensures
            final(self).next == old(self).next,
            final(self).e_count == old(self).e_count - block_prefix(*old(self)).to_multiset().count(
                target,
            ),
            block_prefix(*final(self)).to_multiset() == block_prefix(*old(self)).to_multiset().update(
                target,
                0,
            ),
    {
        let ghost orig = block_prefix(*self).to_multiset();
        let mut i: usize = 0;
        while i < self.e_count
            invariant
                self.e_count <= ENTITY_BLOCK_SIZE,
                i <= self.e_count,
                self.next == old(self).next,
                orig == block_prefix(*old(self)).to_multiset(),
                forall|k: int| 0 <= k < i ==> self.lf_entities@[k] != target,
                block_prefix(*self).to_multiset().update(target, 0) == orig.update(target, 0),
                self.e_count + orig.count(target) == old(self).e_count + block_prefix(
                    *self,
                ).to_multiset().count(target),
            decreases self.e_count - i,
        {
            if self.lf_entities[i] == target {
                let ghost p = block_prefix(*self);
                let c = self.e_count;
                let last = self.lf_entities[c - 1];
                self.lf_entities.set(i, last);
                self.e_count = c - 1;
                proof {
                    broadcast use vstd::multiset::group_multiset_properties;

                    let q = p.update(i as int, last);
                    assert(block_prefix(*self) =~= q.drop_last());
                    assert(q.remove(c - 1) =~= q.drop_last());
                    assert(q[c - 1] == last);
                    assert(p[i as int] == target);
                    vstd::seq_lib::to_multiset_contains(p, target);
                    assert(block_prefix(*self).to_multiset() =~= p.to_multiset().remove(target));
                    assert(block_prefix(*self).to_multiset().update(target, 0) =~= p.to_multiset().update(
                        target,
                        0,
                    ));
                }
            } else {
                i = i + 1;
            }
        }
        proof {
            broadcast use vstd::multiset::group_multiset_properties;

            let p = block_prefix(*self);
            vstd::seq_lib::to_multiset_contains(p, target);
            if p.contains(target) {
                let j = p.index_of(target);
                assert(p[j] == target);
            }
            assert(p.to_multiset().count(target) == 0);
            assert(p.to_multiset() =~= p.to_multiset().update(target, 0));
        }
    }
}

/// A chain holds each of the entities of its later blocks at least as often.
pub proof fn lemma_later_within_rest(b: EntityBlock, t: usize)
    ensures
        later_entities(b, t).count(t) <= rest_entities(b).count(t),
{
    if let Some(n) = b.next {
        assert(chain_entities(*n) == block_prefix(*n).to_multiset().add(
            match n.next {
                Some(m) => chain_entities(*m),
                None => Multiset::empty(),
            },
        ));
    }
}

/// Taking out an entity the chain holds once takes out that one entity.
pub proof fn lemma_removal_of_single(b: EntityBlock, t: usize)
    requires
        chain_shape(b),
        chain_entities(b).count(t) == 1,
    ensures
        chain_after_removal(b, t) == chain_entities(b).remove(t),
{
    broadcast use vstd::multiset::group_multiset_properties;

    lemma_later_within_rest(b, t);
    let f = block_prefix(b).to_multiset().count(t);
    assert(chain_entities(b).count(t) == f + rest_entities(b).count(t));
    if f == 0 {
        if b.next is None {
            assert(rest_entities(b).count(t) == 0);
        } else {
            assert(b.e_count > 0);
            assert(!first_block_empties(b, t));
        }
    }
    assert(chain_after_removal(b, t) =~= chain_entities(b).remove(t));
}

/// Takes `target` out of a chunk's chain of blocks: every occurrence in the
/// first block, each hole filled with the first block's last entry, and then
/// the first occurrence in the later blocks, its hole filled with the first
/// block's last entry. Whenever the first block empties while another block
/// follows, it takes over that block's contents and the block goes to the
/// free list.
pub fn remove_entity(
    first_free: &mut Option<Box<EntityBlock>>,
    first_block: &mut EntityBlock,
    target: usize,
)
    requires
        chain_shape(*old(first_block)),
    ensures
        chain_shape(*final(first_block)),
        chain_entities(*final(first_block)) == chain_after_removal(*old(first_block), target),
        if removal_pulls(*old(first_block), target) {
            final(first_free).is_some()
        } else {
            *final(first_free) == *old(first_free)
        },
{
    broadcast use vstd::multiset::group_multiset_properties;

    let ghost b0 = *first_block;
    let ghost f0 = block_prefix(b0).to_multiset();
    let ghost rest0 = rest_entities(b0);
    first_block.remove_all_in_block(target);
    let ghost b1 = *first_block;
    proof {
        assert(chain_entities(b0) == f0.add(rest0));
        assert(chain_entities(b1) == f0.update(target, 0).add(rest0));
    }
    maybe_remove_block(first_free, first_block);
    let ghost b2 = *first_block;
    let ghost free2 = *first_free;
    proof {
        lemma_later_within_rest(b0, target);
        if first_block_empties(b0, target) {
            assert(b1.e_count == 0);
            let n = b0.next->0;
            assert(block_prefix(b2) == block_prefix(*n));
            assert(rest_entities(b2) == later_entities(b0, target));
        } else {
            assert(b1.e_count > 0 || b1.next is None);
            assert(b2 == b1);
            assert(rest_entities(b2) == later_entities(b0, target));
        }
    }
    let later = match &first_block.next {
        Some(n) => n.chain_contains(target),
        None => false,
    };
    if later {
        let ghost p = block_prefix(*first_block);
        let c = first_block.e_count;
        let last = first_block.lf_entities[c - 1];
        first_block.e_count = c - 1;
        match first_block.next.take() {
            Some(mut n) => {
                let ghost rest = chain_entities(*n);
                n.replace_first(target, last);
                first_block.next = Some(n);
                proof {
                    assert(block_prefix(*first_block) =~= p.drop_last());
                    assert(p.remove(c - 1) =~= p.drop_last());
                    assert(p[c - 1] == last);
                }
            },
            None => {},
        }
        let ghost b3 = *first_block;
        proof {
            if first_block_empties(b0, target) {
                assert(c == ENTITY_BLOCK_SIZE);
            } else {
                assert(c == b0.e_count - f0.count(target));
            }
        }
        maybe_remove_block(first_free, first_block);
        proof {
            assert(chain_entities(*first_block) == chain_entities(b3));
            assert(chain_entities(b3) =~= chain_entities(b2).remove(target));
            assert(chain_entities(*first_block) =~= chain_after_removal(b0, target));
        }
    } else {
        proof {
            assert(chain_entities(*first_block) =~= chain_after_removal(b0, target));
        }
    }
}

/// When a chunk's first block is empty and another follows, the follower's
/// contents move into the first block and the follower joins the free list.
pub fn maybe_remove_block(first_free: &mut Option<Box<EntityBlock>>, block: &mut EntityBlock)
    requires
        old(block).e_count <= ENTITY_BLOCK_SIZE,
        match old(block).next {
            Some(n) => chain_full(*n),
            None => true,
        },
    ensures
        chain_shape(*final(block)),
        chain_entities(*final(block)) == chain_entities(*old(block)),
        if old(block).e_count == 0 && old(block).next is Some {
            final(first_free).is_some()
        } else {
            *final(first_free) == *old(first_free)
        },
        old(block).e_count == 0 && old(block).next is Some ==> (old(block).next matches Some(n)
            && final(block).e_count == n.e_count && final(block).lf_entities == n.lf_entities
            && final(block).next == n.next),
        !(old(block).e_count == 0 && old(block).next is Some) ==> *final(block) == *old(block),
{
    if block.e_count == 0 && block.next.is_some() {
        match block.next.take() {
            Some(mut n) => {
                block.e_count = n.e_count;
                block.lf_entities = n.lf_entities;
                block.next = n.next.take();
                n.next = first_free.take();
                *first_free = Some(n);
                proof {
                    assert(block_prefix(*old(block)) =~= Seq::<usize>::empty());
                }
            },
            None => {},
        }
    }
}

/// Adds an entity to a chunk's chain. A full first block first moves its
/// contents into a block taken from the free list, or from the arena when
/// the free list is empty, which then follows it.
pub fn push_entity(
    first_free: &mut Option<Box<EntityBlock>>,
    first_block: &mut EntityBlock,
    arena: &mut MemoryArena,
    entity: usize,
)
    requires
        chain_shape(*old(first_block)),
        old(first_block).e_count == ENTITY_BLOCK_SIZE && old(first_free).is_none() ==> old(arena).arena_used()
            + size_of::<EntityBlock>() <= old(arena).arena_size(),
    ensures
        chain_shape(*final(first_block)),
        chain_entities(*final(first_block)) =~= chain_entities(*old(first_block)).insert(entity),
        final(arena).arena_size() == old(arena).arena_size(),
        final(arena).arena_used() == old(arena).arena_used() + if old(first_block).e_count
            == ENTITY_BLOCK_SIZE && old(first_free).is_none() {
            size_of::<EntityBlock>()
        } else {
            0
        },
{
    if first_block.e_count == ENTITY_BLOCK_SIZE {
        let mut spare: Box<EntityBlock> = match first_free.take() {
            Some(mut b) => {
                *first_free = b.next.take();
                b
            },
            None => {
                arena.push_struct::<EntityBlock>();
                Box::new(EntityBlock::default())
            },
        };
        spare.e_count = first_block.e_count;
        spare.lf_entities = first_block.lf_entities;
        spare.next = first_block.next.take();
        first_block.next = Some(spare);
        first_block.e_count = 0;
        proof {
            assert(block_prefix(*first_block) =~= Seq::<usize>::empty());
        }
    }
    let ghost p = block_prefix(*first_block);
    let c = first_block.e_count;
    first_block.lf_entities.set(c, entity);
    first_block.e_count = c + 1;
    proof {
        assert(block_prefix(*first_block) =~= p.push(entity));
    }
}

/// A square region of the world, found through the world's hash table of
/// chunk coordinates. Its entities live in a chain of blocks starting with
/// `first_block`; `next` links to the next chunk of the same hash slot.
pub struct Chunk {
    pub first_block: EntityBlock,
    pub chunk_x: i32,
    pub chunk_y: i32,
    pub chunk_z: i32,
    pub next: Option<usize>,
}

/// A chunk's coordinates.
pub open spec fn chunk_key(c: Chunk) -> (i32, i32, i32) {
    (c.chunk_x, c.chunk_y, c.chunk_z)
}

/// The hash slot a chunk belongs to.
pub open spec fn chunk_slot(c: Chunk) -> int {
    slot_spec(c.chunk_x, c.chunk_y, c.chunk_z)
}

/// Whether going from `old_pos` to `new_pos` leaves a chunk: it does unless
/// both positions lie in the same chunk.
pub open spec fn moves(old_pos: Option<WorldPosition>, new_pos: Option<WorldPosition>) -> bool {
    !(old_pos matches Some(o) && new_pos matches Some(n) && pos_key(o) == pos_key(n))
}

/// A position in the world, to chunk precision. The offset within the chunk
/// is floating point and is kept by the caller.
#[derive(Clone, Copy, PartialEq, Eq, Structural)]
pub struct WorldPosition {
    pub chunk_x: i32,
    pub chunk_y: i32,
    pub chunk_z: i32,
}

/// The coordinates of a position's chunk.
pub open spec fn pos_key(p: WorldPosition) -> (i32, i32, i32) {
    (p.chunk_x, p.chunk_y, p.chunk_z)
}

/// The world: chunks found through a hash table, each with the stored
/// entities inside it, and a free list of entity blocks for reuse. The tile
/// and chunk side lengths in meters are floating point and are kept by the
/// caller.
pub struct World {
    pub chunk_hash: Vec<Option<usize>>,
    pub chunks: Vec<Chunk>,
    pub first_free: Option<Box<EntityBlock>>,
}

impl World {
    /// The slot of each chunk, in storage order.
    pub open spec fn slots(&self) -> Seq<int> {
        self.chunks@.map_values(|c: Chunk| chunk_slot(c))
    }

    /// The link of each chunk, in storage order.
    pub open spec fn nexts(&self) -> Seq<Option<usize>> {
        self.chunks@.map_values(|c: Chunk| c.next)
    }

    /// The world's shape: the hash table chains every chunk in its slot, no
    /// two chunks share coordinates, and every chunk's block chain has its
    /// shape.
    pub open spec fn wf(&self) -> bool {
        &&& self.chunk_hash@.len() == HASH_SLOT_COUNT
        &&& chains_wf(self.chunk_hash@, self.nexts(), self.slots())
        &&& forall|i: int|
            0 <= i < self.chunks@.len() ==> chain_shape((#[trigger] self.chunks@[i]).first_block)
        &&& forall|i: int, j: int|
            0 <= i < self.chunks@.len() && 0 <= j < self.chunks@.len() && i != j ==> chunk_key(
                #[trigger] self.chunks@[i],
            ) != chunk_key(#[trigger] self.chunks@[j])
    }

    /// Whether some chunk has the given coordinates.
    pub open spec fn has_chunk(&self, key: (i32, i32, i32)) -> bool {
        exists|i: int| 0 <= i < self.chunks@.len() && chunk_key(#[trigger] self.chunks@[i]) == key
    }

    /// The storage position of the chunk with the given coordinates.
    pub open spec fn chunk_index(&self, key: (i32, i32, i32)) -> int {
        choose|i: int| 0 <= i < self.chunks@.len() && chunk_key(#[trigger] self.chunks@[i]) == key
    }

    /// The stored entity indices in the chunk with the given coordinates,
    /// with multiplicity; none when there is no such chunk.
    pub open spec fn entities(&self, key: (i32, i32, i32)) -> Multiset<usize> {
        if self.has_chunk(key) {
            chain_entities(self.chunks@[self.chunk_index(key)].first_block)
        } else {
            Multiset::empty()
        }
    }

    /// The arena bytes that creating the chunk with the given coordinates
    /// takes: none when it exists or would head its slot, else one chunk.
    pub open spec fn new_chunk_bytes(&self, key: (i32, i32, i32)) -> nat {
        if self.has_chunk(key) || next_in_slot(self.slots(), slot_spec(key.0, key.1, key.2), 0)
            == None::<int> {
            0
        } else {
            size_of::<Chunk>()
        }
    }

    /// A chunk is found at its own storage position.
    pub proof fn lemma_chunk_index(&self, i: int)
        requires
            self.wf(),
            0 <= i < self.chunks@.len(),
        ensures
            self.has_chunk(chunk_key(self.chunks@[i])),
            self.chunk_index(chunk_key(self.chunks@[i])) == i,
    {
        let k = chunk_key(self.chunks@[i]);
        assert(self.has_chunk(k));
        let j = self.chunk_index(k);
        assert(chunk_key(self.chunks@[j]) == k);
    }

    /// Changing the block chain of chunk `idx` only changes the entities of
    /// that chunk; new chunks without entities change none.
    pub proof fn lemma_entities_frame(&self, other: &World, idx: int)
        requires
            self.wf(),
            other.wf(),
            self.chunks@.len() <= other.chunks@.len(),
            forall|i: int|
                0 <= i < self.chunks@.len() ==> chunk_key(#[trigger] other.chunks@[i]) == chunk_key(
                    self.chunks@[i],
                ),
            forall|i: int|
                0 <= i < self.chunks@.len() && i != idx ==> (#[trigger] other.chunks@[i]).first_block
                    == self.chunks@[i].first_block,
            forall|i: int|
                self.chunks@.len() <= i < other.chunks@.len() && i != idx ==> chain_entities(
                    (#[trigger] other.chunks@[i]).first_block,
                ) =~= Multiset::<usize>::empty(),
        ensures
            forall|k: (i32, i32, i32)|
                (0 <= idx < other.chunks@.len() ==> k != chunk_key(other.chunks@[idx])) ==> #[trigger]
                    other.entities(k) == self.entities(k),
            0 <= idx < other.chunks@.len() ==> other.has_chunk(chunk_key(other.chunks@[idx]))
                && other.chunk_index(chunk_key(other.chunks@[idx])) == idx,
    {
        if 0 <= idx < other.chunks@.len() {
            other.lemma_chunk_index(idx);
        }
        assert forall|k: (i32, i32, i32)|
            (0 <= idx < other.chunks@.len() ==> k != chunk_key(other.chunks@[idx])) implies #[trigger]
            other.entities(k) == self.entities(k) by {
            if self.has_chunk(k) {
                let i = self.chunk_index(k);
                self.lemma_chunk_index(i);
                other.lemma_chunk_index(i);
            }
            if other.has_chunk(k) {
                let j = other.chunk_index(k);
                other.lemma_chunk_index(j);
                if j < self.chunks@.len() {
                    self.lemma_chunk_index(j);
                }
            }
        }
    }

    /// An empty world.
    pub fn new() -> (r: World)
        ensures
            r.wf(),
            r.chunks@.len() == 0,
            forall|k: (i32, i32, i32)| #[trigger] r.entities(k) == Multiset::<usize>::empty(),
    {
        let mut heads: Vec<Option<usize>> = Vec::new();
        let mut i: usize = 0;
        while i < HASH_SLOT_COUNT
            invariant
                i <= HASH_SLOT_COUNT,
                heads@.len() == i,
                forall|s: int| 0 <= s < i ==> heads@[s] == None::<usize>,
            decreases HASH_SLOT_COUNT - i,
        {
            heads.push(None);
            i = i + 1;
        }
        let r = World { chunk_hash: heads, chunks: Vec::new(), first_free: None };
        assert(r.slots() =~= Seq::<int>::empty());
        assert(r.nexts() =~= Seq::<Option<usize>>::empty());
        r
    }

    /// Looks a chunk up through its hash slot. Gives `Ok` with the chunk's
    /// position when it exists, else `Err` with the last chunk of the slot.
    fn find_chunk(&self, x: i32, y: i32, z: i32) -> (r: Result<usize, Option<usize>>)
        requires
            self.wf(),
        ensures
            match r {
                Ok(i) => i < self.chunks@.len() && chunk_key(self.chunks@[i as int]) == (x, y, z),
                Err(tail) => !self.has_chunk((x, y, z)) && match tail {
                    Some(t) => t < self.chunks@.len() && self.slots()[t as int] == slot_spec(x, y, z)
                        && next_in_slot(self.slots(), slot_spec(x, y, z), t + 1) == None::<int>,
                    None => next_in_slot(self.slots(), slot_spec(x, y, z), 0) == None::<int>,
                },
            },
    {
        let ghost s = slot_spec(x, y, z);
        let ghost slots = self.slots();
        let slot = slot_of_hash(get_hash(x, y, z));
        proof {
            lemma_next_in_slot(slots, s, 0);
        }
        match self.chunk_hash[slot] {
            None => {
                assert(!self.has_chunk((x, y, z))) by {
                    if self.has_chunk((x, y, z)) {
                        let k = self.chunk_index((x, y, z));
                        assert(slots[k] == chunk_slot(self.chunks@[k]));
                        assert(slots[k] == s);
                    }
                }
                Err(None)
            },
            Some(first) => {
                let mut cur = first;
                loop
                    invariant
                        self.wf(),
                        slots == self.slots(),
                        s == slot_spec(x, y, z),
                        cur < self.chunks@.len(),
                        slots[cur as int] == s,
                        forall|k: int|
                            0 <= k < cur && slots[k] == s ==> chunk_key(#[trigger] self.chunks@[k])
                                != (x, y, z),
                    decreases self.chunks@.len() - cur,
                {
                    let c = &self.chunks[cur];
                    if c.chunk_x == x && c.chunk_y == y && c.chunk_z == z {
                        return Ok(cur);
                    }
                    proof {
                        lemma_next_in_slot(slots, s, cur + 1);
                        assert(self.nexts()[cur as int] == c.next);
                    }
                    match c.next {
                        Some(n) => {
                            cur = n;
                        },
                        None => {
                            assert(!self.has_chunk((x, y, z))) by {
                                if self.has_chunk((x, y, z)) {
                                    let k = self.chunk_index((x, y, z));
                                    assert(slots[k] == chunk_slot(self.chunks@[k]));
                                    assert(slots[k] == s);
                                }
                            }
                            return Err(Some(cur));
                        },
                    }
                }
            },
        }
    }

    /// Finds the chunk with the given coordinates. Without an arena only an
    /// existing chunk is found; with one, a missing chunk is created without
    /// entities, at the end of the chunk storage, and chained into its slot.
    /// The result is the chunk's storage position.
    pub fn get_chunk(
        &mut self,
        chunk_x: i32,
        chunk_y: i32,
        chunk_z: i32,
        arena: Option<&mut MemoryArena>,
    ) -> (r: Option<usize>)
        requires
            old(self).wf(),
            in_border(chunk_x, chunk_y, chunk_z),
            arena matches Some(a) ==> a.arena_used() + old(self).new_chunk_bytes(
                (chunk_x, chunk_y, chunk_z),
            ) <= a.arena_size(),
        ensures
            ({
                let key = (chunk_x, chunk_y, chunk_z);
                &&& final(self).wf()
                &&& final(self).first_free == old(self).first_free
                &&& forall|i: int|
                    0 <= i < old(self).chunks@.len() ==> chunk_key(#[trigger] final(self).chunks@[i])
                        == chunk_key(old(self).chunks@[i]) && final(self).chunks@[i].first_block
                        == old(self).chunks@[i].first_block
                &&& forall|k: (i32, i32, i32)| #[trigger]
                    final(self).entities(k) == old(self).entities(k)
                &&& (r matches Some(i) ==> final(self).has_chunk(key) && final(self).chunk_index(key)
                    == i && (i as int) < final(self).chunks@.len())
                &&& if old(self).has_chunk(key) {
                    &&& r == Some(old(self).chunk_index(key) as usize)
                    &&& *final(self) == *old(self)
                    &&& arena matches Some(a) ==> *final(a) == *a
                } else if arena is None {
                    &&& r == None::<usize>
                    &&& *final(self) == *old(self)
                } else {
                    &&& r == Some(old(self).chunks@.len() as usize)
                    &&& final(self).chunks@.len() == old(self).chunks@.len() + 1
                    &&& chunk_key(final(self).chunks@[old(self).chunks@.len() as int]) == key
                    &&& final(self).chunks@[old(self).chunks@.len() as int].first_block.e_count == 0
                    &&& final(self).chunks@[old(self).chunks@.len() as int].first_block.next is None
                    &&& arena matches Some(a) ==> final(a).arena_used() == a.arena_used()
                        + old(self).new_chunk_bytes(key) && final(a).arena_size()
                        == a.arena_size()
                }
            }),
    {
        let ghost old_self = *self;
        let ghost key = (chunk_x, chunk_y, chunk_z);
        match self.find_chunk(chunk_x, chunk_y, chunk_z) {
            Ok(i) => {
                proof {
                    self.lemma_chunk_index(i as int);
                }
                Some(i)
            },
            Err(tail) => {
                match arena {
                    None => None,
                    Some(a) => {
                        let n = self.chunks.len();
                        let slot = slot_of_hash(get_hash(chunk_x, chunk_y, chunk_z));
                        proof {
                            lemma_chains_push(
                                self.chunk_hash@,
                                self.nexts(),
                                self.slots(),
                                slot as int,
                                tail,
                            );
                            lemma_next_in_slot(self.slots(), slot as int, 0);
                        }
                        match tail {
                            None => {
                                a.push_slice::<u32>(0);
                                self.chunk_hash.set(slot, Some(n));
                            },
                            Some(t) => {
                                a.push_struct::<Chunk>();
                                self.chunks[t].next = Some(n);
                            },
                        }
                        self.chunks.push(
                            Chunk {
                                first_block: EntityBlock::default(),
                                chunk_x,
                                chunk_y,
                                chunk_z,
                                next: None,
                            },
                        );
                        proof {
                            assert(self.slots() =~= old_self.slots().push(slot as int));
                            assert(self.nexts() =~= match tail {
                                Some(t) => old_self.nexts().update(t as int, Some(n)),
                                None => old_self.nexts(),
                            }.push(None));
                            assert forall|i: int, j: int|
                                0 <= i < self.chunks@.len() && 0 <= j < self.chunks@.len() && i
                                    != j implies chunk_key(#[trigger] self.chunks@[i]) != chunk_key(
                                #[trigger] self.chunks@[j],
                            ) by {
                                if i < n && j < n {
                                    assert(chunk_key(self.chunks@[i]) == chunk_key(
                                        old_self.chunks@[i],
                                    ));
                                    assert(chunk_key(self.chunks@[j]) == chunk_key(
                                        old_self.chunks@[j],
                                    ));
                                } else if i < n {
                                    assert(chunk_key(self.chunks@[i]) == chunk_key(
                                        old_self.chunks@[i],
                                    ));
                                    assert(old_self.has_chunk(chunk_key(old_self.chunks@[i])));
                                } else {
                                    assert(chunk_key(self.chunks@[j]) == chunk_key(
                                        old_self.chunks@[j],
                                    ));
                                    assert(old_self.has_chunk(chunk_key(old_self.chunks@[j])));
                                }
                            }
                            let nb = self.chunks@[n as int].first_block;
                            assert(block_prefix(nb) =~= Seq::<usize>::empty());
                            assert(chain_entities(nb) =~= Multiset::<usize>::empty());
                            assert(self.wf());
                            old_self.lemma_entities_frame(&*self, -1);
                            self.lemma_chunk_index(n as int);
                        }
                        Some(n)
                    },
                }
            },
        }
    }

    /// The first block of the chunk with the given coordinates.
    pub open spec fn first_block_of(&self, key: (i32, i32, i32)) -> EntityBlock {
        self.chunks@[self.chunk_index(key)].first_block
    }

    /// Whether taking `lf_index` out of the chunk with the given coordinates
    /// sends a block to the free list.
    pub open spec fn removal_frees_block(&self, key: (i32, i32, i32), lf_index: usize) -> bool {
        self.has_chunk(key) && removal_pulls(self.first_block_of(key), lf_index)
    }

    /// The entities of the chunk with the given coordinates once `lf_index`
    /// is taken out of it.
    pub open spec fn entities_after_removal(&self, key: (i32, i32, i32), lf_index: usize) -> Multiset<usize> {
        if self.has_chunk(key) {
            chain_after_removal(self.first_block_of(key), lf_index)
        } else {
            self.entities(key)
        }
    }

    /// The arena bytes that moving an entity takes: the new chunk when it
    /// is created behind another one, and a new entity block when the new
    /// chunk's first block is full and no free block is at hand.
    pub open spec fn location_bytes(
        &self,
        lf_index: usize,
        old_pos: Option<WorldPosition>,
        new_pos: Option<WorldPosition>,
    ) -> nat {
        match new_pos {
            Some(n) => if moves(old_pos, new_pos) {
                self.new_chunk_bytes(pos_key(n)) + if self.has_chunk(pos_key(n))
                    && self.first_block_of(pos_key(n)).e_count == ENTITY_BLOCK_SIZE
                    && self.first_free.is_none() && !(old_pos matches Some(o)
                    && self.removal_frees_block(pos_key(o), lf_index)) {
                    size_of::<EntityBlock>()
                } else {
                    0nat
                }
            } else {
                0nat
            },
            None => 0nat,
        }
    }

    /// The entities of the chunk with coordinates `k` once `lf_index` has
    /// moved from `old_pos` to `new_pos`: one occurrence leaves the old
    /// chunk (if it is there) and one joins the new chunk.
    pub open spec fn entities_after_move(
        &self,
        lf_index: usize,
        old_pos: Option<WorldPosition>,
        new_pos: Option<WorldPosition>,
        k: (i32, i32, i32),
    ) -> Multiset<usize> {
        if !moves(old_pos, new_pos) {
            self.entities(k)
        } else {
            let removed = if old_pos matches Some(o) && pos_key(o) == k {
                self.entities_after_removal(k, lf_index)
            } else {
                self.entities(k)
            };
            if new_pos matches Some(n) && pos_key(n) == k {
                removed.insert(lf_index)
            } else {
                removed
            }
        }
    }

    /// A world whose chunk storage keeps every chunk's coordinates still has
    /// every chunk.
    pub proof fn lemma_keys_kept(&self, other: &World)
        requires
            self.chunks@.len() <= other.chunks@.len(),
            forall|i: int|
                0 <= i < self.chunks@.len() ==> chunk_key(#[trigger] other.chunks@[i]) == chunk_key(
                    self.chunks@[i],
                ),
        ensures
            forall|k: (i32, i32, i32)| self.has_chunk(k) ==> #[trigger] other.has_chunk(k),
    {
        assert forall|k: (i32, i32, i32)| self.has_chunk(k) implies #[trigger] other.has_chunk(k) by {
            let i = self.chunk_index(k);
            assert(chunk_key(other.chunks@[i]) == k);
        }
    }

    /// The arena bytes that moving `lf_index` from `old_pos` to `new_pos`
    /// takes, as a wide number.
    pub fn bytes_for_move(
        &self,
        lf_index: usize,
        old_pos: Option<WorldPosition>,
        new_pos: Option<WorldPosition>,
    ) -> (r: u128)
        requires
            self.wf(),
        ensures
            r == self.location_bytes(lf_index, old_pos, new_pos),
            r <= 2 * (usize::MAX as int),
    {
        let n = match new_pos {
            Some(n) => n,
            None => {
                return 0;
            },
        };
        if let Some(o) = old_pos {
            if o.chunk_x == n.chunk_x && o.chunk_y == n.chunk_y && o.chunk_z == n.chunk_z {
                return 0;
            }
        }
        let ghost key = pos_key(n);
        let mut chunk_bytes: u128 = 0;
        let mut block_bytes: u128 = 0;
        match self.find_chunk(n.chunk_x, n.chunk_y, n.chunk_z) {
            Ok(ci) => {
                proof {
                    self.lemma_chunk_index(ci as int);
                }
                if self.chunks[ci].first_block.e_count == ENTITY_BLOCK_SIZE && self.first_free.is_none() {
                    let frees = match old_pos {
                        Some(o) => self.removal_frees(lf_index, o),
                        None => false,
                    };
                    if !frees {
                        block_bytes = core::mem::size_of::<EntityBlock>() as u128;
                    }
                }
            },
            Err(tail) => {
                if tail.is_some() {
                    proof {
                        lemma_next_in_slot(self.slots(), slot_spec(n.chunk_x, n.chunk_y, n.chunk_z), 0);
                    }
                    chunk_bytes = core::mem::size_of::<Chunk>() as u128;
                }
            },
        }
        chunk_bytes + block_bytes
    }

    /// Whether taking `lf_index` out of the chunk at `pos` sends a block to
    /// the free list.
    fn removal_frees(&self, lf_index: usize, pos: WorldPosition) -> (r: bool)
        requires
            self.wf(),
        ensures
            r == self.removal_frees_block(pos_key(pos), lf_index),
    {
        match self.find_chunk(pos.chunk_x, pos.chunk_y, pos.chunk_z) {
            Ok(ci) => {
                proof {
                    self.lemma_chunk_index(ci as int);
                }
                let b = &self.chunks[ci].first_block;
                proof {
                    assert(chain_shape(*b));
                    if b.next is Some {
                        assert(chain_full(*b.next->0));
                    }
                }
                let own = b.count_in_block(lf_index);
                proof {
                    assert(block_prefix(*b).len() == b.e_count);
                    assert(own <= block_prefix(*b).to_multiset().len());
                }
                let empties = b.next.is_some() && own == b.e_count;
                let later = match &b.next {
                    None => false,
                    Some(n) => if empties {
                        match &n.next {
                            Some(m) => {
                                proof {
                                    assert(chain_full(**n));
                                    assert(chain_full(**m));
                                }
                                m.chain_contains(lf_index)
                            },
                            None => false,
                        }
                    } else {
                        n.chain_contains(lf_index)
                    },
                };
                empties || (later && b.e_count - own == 1)
            },
            Err(_) => false,
        }
    }

    /// Takes `lf_index` out of the chunk at position `ci` of the storage.
    fn remove_from_chunk(&mut self, ci: usize, lf_index: usize)
        requires
            old(self).wf(),
            ci < old(self).chunks@.len(),
        ensures
            final(self).wf(),
            final(self).chunks@.len() == old(self).chunks@.len(),
            forall|i: int|
                0 <= i < old(self).chunks@.len() ==> chunk_key(#[trigger] final(self).chunks@[i])
                    == chunk_key(old(self).chunks@[i]),
            forall|i: int|
                0 <= i < old(self).chunks@.len() && i != ci ==> (#[trigger] final(self).chunks@[i]).first_block == old(self).chunks@[i].first_block,
            forall|k: (i32, i32, i32)| #[trigger]
                final(self).entities(k) == if k == chunk_key(old(self).chunks@[ci as int]) {
                    old(self).entities_after_removal(k, lf_index)
                } else {
                    old(self).entities(k)
                },
            if old(self).removal_frees_block(chunk_key(old(self).chunks@[ci as int]), lf_index) {
                final(self).first_free.is_some()
            } else {
                final(self).first_free == old(self).first_free
            },
    {
        let ghost old_self = *self;
        proof {
            self.lemma_chunk_index(ci as int);
        }
        remove_entity(&mut self.first_free, &mut self.chunks[ci].first_block, lf_index);
        proof {
            assert(self.slots() =~= old_self.slots());
            assert(self.nexts() =~= old_self.nexts());
            assert(self.wf());
            old_self.lemma_entities_frame(&*self, ci as int);
        }
    }

    /// Puts `lf_index` into the chunk at position `ci` of the storage.
    fn insert_into_chunk(&mut self, ci: usize, lf_index: usize, arena: &mut MemoryArena)
        requires
            old(self).wf(),
            ci < old(self).chunks@.len(),
            old(self).chunks@[ci as int].first_block.e_count == ENTITY_BLOCK_SIZE && old(self).first_free.is_none() ==> old(arena).arena_used() + size_of::<EntityBlock>()
                <= old(arena).arena_size(),
        ensures
            final(self).wf(),
            final(self).chunks@.len() == old(self).chunks@.len(),
            forall|i: int|
                0 <= i < old(self).chunks@.len() ==> chunk_key(#[trigger] final(self).chunks@[i])
                    == chunk_key(old(self).chunks@[i]),
            forall|k: (i32, i32, i32)| #[trigger]
                final(self).entities(k) == if k == chunk_key(old(self).chunks@[ci as int]) {
                    old(self).entities(k).insert(lf_index)
                } else {
                    old(self).entities(k)
                },
            final(arena).arena_size() == old(arena).arena_size(),
            final(arena).arena_used() == old(arena).arena_used() + if old(self).chunks@[ci as int].first_block.e_count == ENTITY_BLOCK_SIZE && old(self).first_free.is_none() {
                size_of::<EntityBlock>()
            } else {
                0
            },
    {
        let ghost old_self = *self;
        proof {
            self.lemma_chunk_index(ci as int);
        }
        push_entity(&mut self.first_free, &mut self.chunks[ci].first_block, arena, lf_index);
        proof {
            assert(self.slots() =~= old_self.slots());
            assert(self.nexts() =~= old_self.nexts());
            assert(self.wf());
            old_self.lemma_entities_frame(&*self, ci as int);
        }
    }

    /// Moves a stored entity to `new_pos` in the world and records the new
    /// position in the entity.
    pub fn change_entity_location(
        &mut self,
        lf_index: usize,
        lf_entity: &mut LfEntity,
        new_pos: Option<WorldPosition>,
        arena: &mut MemoryArena,
    )
        requires
            old(self).wf(),
            moves(old(lf_entity).world_position, new_pos) ==> (old(lf_entity).world_position matches Some(o)
                ==> in_border(o.chunk_x, o.chunk_y, o.chunk_z)),
            moves(old(lf_entity).world_position, new_pos) ==> (new_pos matches Some(n) ==> in_border(
                n.chunk_x,
                n.chunk_y,
                n.chunk_z,
            )),
            moves(old(lf_entity).world_position, new_pos) && old(lf_entity).world_position is Some
                ==> old(self).has_chunk(pos_key(old(lf_entity).world_position->0)),
            old(arena).arena_used() + old(self).location_bytes(
                lf_index,
                old(lf_entity).world_position,
                new_pos,
            ) <= old(arena).arena_size(),
        ensures
            final(self).wf(),
            *final(lf_entity) == (LfEntity { world_position: new_pos, ..*old(lf_entity) }),
            forall|k: (i32, i32, i32)| #[trigger]
                final(self).entities(k) == old(self).entities_after_move(
                    lf_index,
                    old(lf_entity).world_position,
                    new_pos,
                    k,
                ),
            !moves(old(lf_entity).world_position, new_pos) ==> *final(self) == *old(self)
                && *final(arena) == *old(arena),
            final(arena).arena_size() == old(arena).arena_size(),
            final(arena).arena_used() == old(arena).arena_used() + old(self).location_bytes(
                lf_index,
                old(lf_entity).world_position,
                new_pos,
            ),
    {
        self.change_entity_location_raw(lf_index, lf_entity.world_position, new_pos, arena);
        lf_entity.world_position = new_pos;
    }

    /// Moves stored entity `lf_index` from `old_pos` to `new_pos`: out of the
    /// old position's chunk (see `remove_entity`) and into the new
    /// position's chunk, which is created if needed. Nothing changes when
    /// both positions lie in the same chunk.
    pub fn change_entity_location_raw(
        &mut self,
        lf_index: usize,
        old_pos: Option<WorldPosition>,
        new_pos: Option<WorldPosition>,
        arena: &mut MemoryArena,
    )
        requires
            old(self).wf(),
            moves(old_pos, new_pos) ==> (old_pos matches Some(o) ==> in_border(o.chunk_x, o.chunk_y, o.chunk_z)),
            moves(old_pos, new_pos) ==> (new_pos matches Some(n) ==> in_border(n.chunk_x, n.chunk_y, n.chunk_z)),
            moves(old_pos, new_pos) && old_pos is Some ==> old(self).has_chunk(
                pos_key(old_pos->0),
            ),
            old(arena).arena_used() + old(self).location_bytes(lf_index, old_pos, new_pos)
                <= old(arena).arena_size(),
        ensures
            final(self).wf(),
            forall|k: (i32, i32, i32)| #[trigger]
                final(self).entities(k) == old(self).entities_after_move(
                    lf_index,
                    old_pos,
                    new_pos,
                    k,
                ),
            moves(old_pos, new_pos) && new_pos is Some ==> final(self).has_chunk(
                pos_key(new_pos->0),
            ),
            !moves(old_pos, new_pos) ==> *final(self) == *old(self) && *final(arena) == *old(arena),
            forall|k: (i32, i32, i32)| old(self).has_chunk(k) ==> #[trigger] final(self).has_chunk(k),
            final(arena).arena_size() == old(arena).arena_size(),
            final(arena).arena_used() == old(arena).arena_used() + old(self).location_bytes(
                lf_index,
                old_pos,
                new_pos,
            ),
    {
        if let (Some(o), Some(n)) = (old_pos, new_pos) {
            if are_in_same_chunk(self, &o, &n) {
                return;
            }
        }
        let ghost w0 = *self;
        if let Some(pos) = old_pos {
            let found = self.get_chunk(pos.chunk_x, pos.chunk_y, pos.chunk_z, None);
            if let Some(ci) = found {
                self.remove_from_chunk(ci, lf_index);
            }
        }
        let ghost w1 = *self;
        proof {
            assert forall|k: (i32, i32, i32)| w0.has_chunk(k) implies #[trigger] w1.has_chunk(k) by {
                let i = w0.chunk_index(k);
                assert(chunk_key(w1.chunks@[i]) == k);
            }
            assert forall|k: (i32, i32, i32)| w1.has_chunk(k) implies #[trigger] w0.has_chunk(k) by {
                let i = w1.chunk_index(k);
                assert(chunk_key(w0.chunks@[i]) == k);
            }
        }
        if let Some(new_p) = new_pos {
            proof {
                if w0.has_chunk(pos_key(new_p)) {
                    let i = w0.chunk_index(pos_key(new_p));
                    w0.lemma_chunk_index(i);
                    w1.lemma_chunk_index(i);
                }
                assert(w1.slots() =~= w0.slots());
            }
            let got = self.get_chunk(new_p.chunk_x, new_p.chunk_y, new_p.chunk_z, Some(&mut *arena));
            let ci = match got {
                Some(ci) => ci,
                None => {
                    assert(false);
                    0
                },
            };
            let ghost w2 = *self;
            self.insert_into_chunk(ci, lf_index, arena);
            proof {
                w1.lemma_keys_kept(&w2);
                w2.lemma_keys_kept(&*self);
                let k = pos_key(new_p);
                assert(chunk_key(self.chunks@[ci as int]) == k);
            }
        }
    }
}

/// Moving a stored entity into a chunk that does not hold it yet leaves it
/// there exactly once, beside every entity the chunk held before.
pub proof fn lemma_move_places_entity(
    w0: World,
    w1: World,
    lf_index: usize,
    old_pos: Option<WorldPosition>,
    n: WorldPosition,
)
    requires
        moves(old_pos, Some(n)),
        w0.entities(pos_key(n)).count(lf_index) == 0,
        forall|k: (i32, i32, i32)| #[trigger]
            w1.entities(k) == w0.entities_after_move(lf_index, old_pos, Some(n), k),
    ensures
        w1.entities(pos_key(n)).count(lf_index) == 1,
        forall|e: usize| e != lf_index ==> #[trigger] w1.entities(pos_key(n)).count(e) == w0.entities(
            pos_key(n),
        ).count(e),
{
    assert(w1.entities(pos_key(n)) == w0.entities_after_move(lf_index, old_pos, Some(n), pos_key(n)));
}

/// Moving a stored entity from one place to another and then back leaves
/// every chunk holding the entities it held before, provided the entity was
/// held once by its first place's chunk and not by the second's.
pub proof fn lemma_move_back_restores(
    w0: World,
    w1: World,
    w2: World,
    lf_index: usize,
    a: WorldPosition,
    b: WorldPosition,
)
    requires
        w0.wf(),
        w1.wf(),
        w0.entities(pos_key(a)).count(lf_index) == 1,
        pos_key(a) != pos_key(b) ==> w0.entities(pos_key(b)).count(lf_index) == 0,
        forall|k: (i32, i32, i32)| #[trigger]
            w1.entities(k) == w0.entities_after_move(lf_index, Some(a), Some(b), k),
        forall|k: (i32, i32, i32)| #[trigger]
            w2.entities(k) == w1.entities_after_move(lf_index, Some(b), Some(a), k),
    ensures
        forall|k: (i32, i32, i32)| #[trigger] w2.entities(k) == w0.entities(k),
{
    let ka = pos_key(a);
    let kb = pos_key(b);
    if ka != kb {
        assert(w0.has_chunk(ka));
        w0.lemma_chunk_index(w0.chunk_index(ka));
        lemma_removal_of_single(w0.first_block_of(ka), lf_index);
        assert(w1.entities(kb) == w0.entities(kb).insert(lf_index));
        assert(w1.entities(kb).count(lf_index) == 1);
        assert(w1.has_chunk(kb));
        w1.lemma_chunk_index(w1.chunk_index(kb));
        lemma_removal_of_single(w1.first_block_of(kb), lf_index);
    }
    assert forall|k: (i32, i32, i32)| #[trigger] w2.entities(k) == w0.entities(k) by {
        assert(w1.entities(k) == w0.entities_after_move(lf_index, Some(a), Some(b), k));
        assert(w2.entities(k) == w1.entities_after_move(lf_index, Some(b), Some(a), k));
        if ka != kb {
            if k == ka {
                assert(w1.entities(ka) == w0.entities(ka).remove(lf_index));
                assert(w0.entities(ka).remove(lf_index).insert(lf_index) =~= w0.entities(ka));
            } else if k == kb {
                assert(w1.entities(kb) == w0.entities(kb).insert(lf_index));
                assert(w0.entities(kb).insert(lf_index).remove(lf_index) =~= w0.entities(kb));
            }
        }
    }
}

/// Walks the chunks of a rectangle of chunk coordinates at one height, row
/// by row. The walk ends at the first coordinates without a chunk.
pub struct IterChunk {
    pub min_x: i32,
    pub curr_x: i32,
    pub curr_y: i32,
    pub max_x: i32,
    pub max_y: i32,
    pub z: i32,
    pub next_chunk: Option<usize>,
}

impl IterChunk {
    /// The walk's coordinates stay inside the world border and its column
    /// is inside the rectangle while a chunk is pending.
    pub open spec fn wf(&self) -> bool {
        &&& in_border(self.min_x, self.curr_y, self.z)
        &&& in_border(self.max_x, self.max_y, self.z)
        &&& self.min_x < self.max_x
        &&& self.min_x <= self.curr_x <= self.max_x
        &&& self.curr_y <= self.max_y
        &&& (self.next_chunk is Some ==> self.curr_x < self.max_x)
    }

    /// The chunk found at the walk's coordinates (`None` when none exists
    /// there), then the walk moves one column on, wrapping to the next row
    /// at the end of a row; it stops on reaching the end of the last row.
    pub fn next(&mut self, world: &mut World) -> (r: Option<usize>)
        requires
            old(self).wf(),
            old(world).wf(),
        ensures
            r == old(self).next_chunk,
            *final(world) == *old(world),
            final(self).wf(),
            ({
                let o = *old(self);
                let x1 = o.curr_x + 1;
                let wraps = x1 == o.max_x && o.curr_y != o.max_y;
                let nx = if wraps { o.min_x as int } else { x1 };
                let ny = if wraps { o.curr_y + 1 } else { o.curr_y as int };
                if o.next_chunk is None {
                    *final(self) == o
                } else {
                    &&& final(self).curr_x == nx
                    &&& final(self).curr_y == ny
                    &&& final(self).min_x == o.min_x && final(self).max_x == o.max_x
                    &&& final(self).max_y == o.max_y && final(self).z == o.z
                    &&& final(self).next_chunk == if nx == o.max_x && ny == o.max_y {
                        None::<usize>
                    } else if old(world).has_chunk((nx as i32, ny as i32, o.z)) {
                        Some(old(world).chunk_index((nx as i32, ny as i32, o.z)) as usize)
                    } else {
                        None::<usize>
                    }
                }
            }),
    {
        let res = self.next_chunk;
        if res.is_some() {
            self.curr_x += 1;
            if self.curr_x == self.max_x && self.curr_y != self.max_y {
                self.curr_x = self.min_x;
                self.curr_y += 1;
            }
            if self.curr_x == self.max_x && self.curr_y == self.max_y {
                self.next_chunk = None;
            } else {
                self.next_chunk = world.get_chunk(self.curr_x, self.curr_y, self.z, None);
            }
        }
        res
    }
}

impl World {
    /// Starts a walk over the chunks from `min_p` to `max_p` (both
    /// included) at height `z`.
    pub fn iter_spatially(&mut self, min_p: WorldPosition, max_p: WorldPosition, z: i32) -> (r:
        IterChunk)
        requires
            old(self).wf(),
            min_p.chunk_x <= max_p.chunk_x,
            min_p.chunk_y <= max_p.chunk_y,
            in_border(min_p.chunk_x, min_p.chunk_y, z),
            in_border(max_p.chunk_x, max_p.chunk_y, z),
            max_p.chunk_x + 1 < WORLD_BORDER_CHUNKS,
            max_p.chunk_y + 1 < WORLD_BORDER_CHUNKS,
        ensures
            *final(self) == *old(self),
            r.wf(),
            r.min_x == min_p.chunk_x && r.curr_x == min_p.chunk_x && r.curr_y == min_p.chunk_y,
            r.max_x == max_p.chunk_x + 1 && r.max_y == max_p.chunk_y + 1 && r.z == z,
            r.next_chunk == if old(self).has_chunk((min_p.chunk_x, min_p.chunk_y, z)) {
                Some(old(self).chunk_index((min_p.chunk_x, min_p.chunk_y, z)) as usize)
            } else {
                None::<usize>
            },
    {
        let next_chunk = self.get_chunk(min_p.chunk_x, min_p.chunk_y, z, None);
        IterChunk {
            min_x: min_p.chunk_x,
            curr_x: min_p.chunk_x,
            curr_y: min_p.chunk_y,
            max_x: max_p.chunk_x + 1,
            max_y: max_p.chunk_y + 1,
            z,
            next_chunk,
        }
    }
}

impl EntityBlock {
    /// The block after this one in the chain, to change in place.
    pub fn next_block_mut(&mut self) -> (r: Option<&mut EntityBlock>)
        ensures
            old(self).next is None ==> r is None && *final(self) == *old(self),
            old(self).next matches Some(n) ==> (r matches Some(b) && *b == *n && *final(self)
                == EntityBlock { next: Some(Box::new(*final(b))), ..*old(self) }),
    {
        match &mut self.next {
            Some(b) => Some(&mut **b),
            None => None,
        }
    }
}

/// Walks a chain of entity blocks, first block first.
pub struct Iter<'a> {
    pub next_block: Option<&'a EntityBlock>,
}

impl<'a> Iter<'a> {
    /// The current block, moving on to the one after it.
    pub fn next(&mut self) -> (r: Option<&'a EntityBlock>)
        ensures
            r == old(self).next_block,
            final(self).next_block == match old(self).next_block {
                Some(b) => match b.next {
                    Some(n) => Some(&*n),
                    None => None::<&EntityBlock>,
                },
                None => None::<&EntityBlock>,
            },
    {
        let res = self.next_block;
        if let Some(refe) = self.next_block {
            self.next_block = match &refe.next {
                Some(n) => Some(&**n),
                None => None,
            };
        }
        res
    }
}

impl EntityBlock {
    /// Walks the chain that starts at this block.
    pub fn iter(&self) -> (r: Iter<'_>)
        ensures
            r.next_block == Some(self),
    {
        Iter { next_block: Some(self) }
    }
}

/// Integer division rounding toward zero, as Rust's `/` does.
pub open spec fn div_toward_zero(a: int, b: int) -> int {
    if a >= 0 {
        a / b
    } else {
        -((-a) / b)
    }
}

/// The remainder of division rounding toward zero, as Rust's `%` does: it
/// has the sign of `a`.
pub open spec fn rem_toward_zero(a: int, b: int) -> int {
    a - b * div_toward_zero(a, b)
}

/// The chunk a tile coordinate falls in: the truncated quotient by the
/// chunk size, one lower for negative coordinates.
pub open spec fn chunk_of_tile(t: i32) -> int {
    div_toward_zero(t as int, TILES_PER_CHUNK as int) - if t < 0 {
        1int
    } else {
        0int
    }
}

/// A tile lies in the chunk that its world position names, a chunk being
/// 16 tiles wide: a tile `t >= 0` lies in the chunk `c` with
/// `16c <= t < 16c + 16`, and its offset is `t - 16c`; a negative tile is
/// counted back from the start of the chunk after `c`, its offset between
/// -15 and 0.
pub proof fn lemma_tile_in_its_chunk(t: i32)
    ensures
        t >= 0 ==> 16 * chunk_of_tile(t) <= t < 16 * chunk_of_tile(t) + 16,
        t >= 0 ==> t == 16 * chunk_of_tile(t) + rem_toward_zero(t as int, TILES_PER_CHUNK as int),
        t < 0 ==> t == 16 * (chunk_of_tile(t) + 1) + rem_toward_zero(t as int, TILES_PER_CHUNK as int),
        t < 0 ==> -16 < rem_toward_zero(t as int, TILES_PER_CHUNK as int) <= 0,
{
}

/// The world position of a tile: the chunk it lies in, with its column and
/// row counted in tiles from that chunk (as Rust's `%` gives them, negative
/// for negative coordinates). The caller turns the tile counts into meters.
pub fn world_pos_from_tile(_world: &World, tile_x: i32, tile_y: i32, tile_z: i32) -> (r: (
    WorldPosition,
    i32,
    i32,
))
    ensures
        r.0 == (WorldPosition {
            chunk_x: chunk_of_tile(tile_x) as i32,
            chunk_y: chunk_of_tile(tile_y) as i32,
            chunk_z: tile_z,
        }),
        r.1 == rem_toward_zero(tile_x as int, TILES_PER_CHUNK as int),
        r.2 == rem_toward_zero(tile_y as int, TILES_PER_CHUNK as int),
{
    let mut chunk_x = tile_x / TILES_PER_CHUNK;
    let mut chunk_y = tile_y / TILES_PER_CHUNK;
    if tile_x < 0 {
        chunk_x -= 1;
    }
    if tile_y < 0 {
        chunk_y -= 1;
    }
    (
        WorldPosition { chunk_x, chunk_y, chunk_z: tile_z },
        tile_x % TILES_PER_CHUNK,
        tile_y % TILES_PER_CHUNK,
    )
}

/// Whether two positions lie in the same chunk.
pub fn are_in_same_chunk(_world: &World, pos1: &WorldPosition, pos2: &WorldPosition) -> (r: bool)
    ensures
        r == (pos_key(*pos1) == pos_key(*pos2)),
{
    pos1.chunk_x == pos2.chunk_x && pos1.chunk_y == pos2.chunk_y && pos1.chunk_z == pos2.chunk_z
}

} // verus!
