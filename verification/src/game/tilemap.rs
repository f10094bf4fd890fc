use vstd::prelude::*;
use vstd::layout::size_of;

use super::hash_chain::{
    HASH_SLOT_COUNT, chains_wf, lemma_chains_push, lemma_next_in_slot, link, next_in_slot,
};
use super::memory::MemoryArena;

verus! {

/// Chunk coordinates must stay strictly inside this bound on every axis.
pub const WORLD_BORDER_CHUNKS: i32 = 33554431;

/// The hash of a chunk's coordinates: `19x + 7y + 3z` in wrapping 32-bit arithmetic.
pub open spec fn hash_spec(x: i32, y: i32, z: i32) -> u32 {
    (19 * x + 7 * y + 3 * z) as u32
}

/// The hash slot of a chunk's coordinates.
pub open spec fn slot_spec(x: i32, y: i32, z: i32) -> int {
    (hash_spec(x, y, z) & 4095u32) as int
}

/// Hashes a chunk's coordinates.
pub fn get_hash(tile_chunk_x: i32, tile_chunk_y: i32, tile_chunk_z: i32) -> (r: u32)
    ensures
        r == hash_spec(tile_chunk_x, tile_chunk_y, tile_chunk_z),
{
    let s: i64 = 19 * (tile_chunk_x as i64) + 7 * (tile_chunk_y as i64) + 3 * (
    tile_chunk_z as i64);
    s as u32
}

/// The slot number of a hash value.
pub fn slot_of_hash(h: u32) -> (r: usize)
    ensures
        r == (h & 4095u32) as int,
        r < HASH_SLOT_COUNT,
{
    assert(h & 4095u32 < 4096u32) by (bit_vector);
    (h & 4095u32) as usize
}

/// A square block of tiles, stored row by row. A chunk whose tiles were never
/// written has none; `next` links to the next chunk of the same hash slot.
pub struct TileChunk {
    pub tiles: Vec<u32>,
    pub chunk_x: i32,
    pub chunk_y: i32,
    pub chunk_z: i32,
    pub next: Option<usize>,
}

/// A chunk's coordinates.
pub open spec fn chunk_key(c: TileChunk) -> (i32, i32, i32) {
    (c.chunk_x, c.chunk_y, c.chunk_z)
}

/// The hash slot a chunk belongs to.
pub open spec fn chunk_slot(c: TileChunk) -> int {
    slot_spec(c.chunk_x, c.chunk_y, c.chunk_z)
}

/// A tile map: tiles are grouped into square chunks of `chunk_dim` tiles a
/// side, found through a hash table of chunk coordinates. The tile side
/// length in meters is floating point and is kept by the caller.
pub struct TileMap {
    pub chunk_shift: u32,
    pub chunk_mask: i32,
    pub chunk_dim: usize,
    pub tilechunk_hash: Vec<Option<usize>>,
    pub chunks: Vec<TileChunk>,
}

/// Where a tile lies: the chunk's coordinates and the tile's column and row
/// within it.
pub struct TileChunkPosition {
    pub tilechunk_x: i32,
    pub tilechunk_y: i32,
    pub tilechunk_z: i32,
    pub tile_x: i32,
    pub tile_y: i32,
}

/// A tile's coordinates.
#[derive(Clone, Copy, PartialEq, Eq, Structural)]
pub struct TilemapPosition {
    pub tile_x: i32,
    pub tile_y: i32,
    pub tile_z: i32,
}

impl TilemapPosition {
    /// The position of a tile.
    pub fn centered_pos(tile_x: i32, tile_y: i32, tile_z: i32) -> (r: TilemapPosition)
        ensures
            r == (TilemapPosition { tile_x, tile_y, tile_z }),
    {
        TilemapPosition { tile_x, tile_y, tile_z }
    }
}

/// Whether two positions are on the same tile.
pub fn on_same_tile(position1: &TilemapPosition, position2: &TilemapPosition) -> (r: bool)
    ensures
        r == (position1 == position2),
{
    position1.tile_x == position2.tile_x && position1.tile_y == position2.tile_y
        && position1.tile_z == position2.tile_z
}

/// Whether a tile value lets one walk through: every value but a wall (1).
pub fn is_tile_value_empty(value: u32) -> (r: bool)
    ensures
        r == (value != 1),
{
    value != 1
}

/// The position in its chunk's row-major tile array of a tile at column `x`
/// and row `y`, in a chunk of `dim` tiles a side (coordinates taken as
/// unsigned machine words).
pub open spec fn tile_index(x: i32, y: i32, dim: usize) -> int {
    (y as usize) as int * dim + (x as usize) as int
}

impl TileChunk {
    /// The tile at column `tile_x` and row `tile_y`, if the chunk has it.
    pub fn get_tile_value(&self, tile_x: i32, tile_y: i32, chunk_dim: usize) -> (r: Option<u32>)
        requires
            tile_index(tile_x, tile_y, chunk_dim) <= usize::MAX,
        ensures
            r == if tile_index(tile_x, tile_y, chunk_dim) < self.tiles@.len() {
                Some(self.tiles@[tile_index(tile_x, tile_y, chunk_dim)])
            } else {
                None::<u32>
            },
    {
        let index = tile_y as usize * chunk_dim + tile_x as usize;
        if index >= self.tiles.len() {
            None
        } else {
            Some(self.tiles[index])
        }
    }

    /// Writes the tile at column `tile_x` and row `tile_y`.
    pub fn set_tile_value(&mut self, tile_x: i32, tile_y: i32, value: u32, chunk_dim: usize)
        requires
            tile_index(tile_x, tile_y, chunk_dim) < old(self).tiles@.len(),
        ensures
            final(self).tiles@ == old(self).tiles@.update(tile_index(tile_x, tile_y, chunk_dim), value),
            final(self).chunk_x == old(self).chunk_x,
            final(self).chunk_y == old(self).chunk_y,
            final(self).chunk_z == old(self).chunk_z,
            final(self).next == old(self).next,
    {
        let len = self.tiles.len();
        assert(tile_index(tile_x, tile_y, chunk_dim) < len);
        let index = tile_y as usize * chunk_dim + tile_x as usize;
        self.tiles.set(index, value);
    }
}

/// The chunk and in-chunk position of a tile.
pub open spec fn chunk_position_spec(tm: TileMap, tile_x: i32, tile_y: i32, tile_z: i32) -> TileChunkPosition {
    TileChunkPosition {
        tilechunk_x: tile_x >> tm.chunk_shift,
        tilechunk_y: tile_y >> tm.chunk_shift,
        tilechunk_z: tile_z,
        tile_x: tile_x & tm.chunk_mask,
        tile_y: tile_y & tm.chunk_mask,
    }
}

/// Splits a tile's coordinates into its chunk and its place in the chunk.
pub fn get_chunk_position(tile_map: &TileMap, tile_x: i32, tile_y: i32, tile_z: i32) -> (r:
    TileChunkPosition)
    requires
        tile_map.chunk_shift < 32,
    ensures
        r == chunk_position_spec(*tile_map, tile_x, tile_y, tile_z),
{
    TileChunkPosition {
        tilechunk_x: tile_x >> tile_map.chunk_shift,
        tilechunk_y: tile_y >> tile_map.chunk_shift,
        tilechunk_z: tile_z,
        tile_x: tile_x & tile_map.chunk_mask,
        tile_y: tile_y & tile_map.chunk_mask,
    }
}

/// Whether chunk coordinates lie strictly inside the world border.
pub open spec fn in_border(x: i32, y: i32, z: i32) -> bool {
    -WORLD_BORDER_CHUNKS < x < WORLD_BORDER_CHUNKS && -WORLD_BORDER_CHUNKS < y
        < WORLD_BORDER_CHUNKS && -WORLD_BORDER_CHUNKS < z < WORLD_BORDER_CHUNKS
}

impl TileMap {
    /// The slot of each chunk, in storage order.
    pub open spec fn slots(&self) -> Seq<int> {
        self.chunks@.map_values(|c: TileChunk| chunk_slot(c))
    }

    /// The link of each chunk, in storage order.
    pub open spec fn nexts(&self) -> Seq<Option<usize>> {
        self.chunks@.map_values(|c: TileChunk| c.next)
    }

    /// The tile map's shape: chunks are `chunk_dim == 2^chunk_shift` tiles a
    /// side with in-chunk coordinates masked by `chunk_mask`, each chunk's tiles are
    /// absent or complete, no two chunks share coordinates, and the hash
    /// table chains every chunk in its slot.
    pub open spec fn wf(&self) -> bool {
        &&& self.chunk_shift < 32
        &&& self.chunk_dim == 1usize << self.chunk_shift
        &&& 0 <= self.chunk_mask
        &&& self.chunk_dim == self.chunk_mask + 1
        &&& self.chunk_dim * self.chunk_dim <= usize::MAX
        &&& self.tilechunk_hash@.len() == HASH_SLOT_COUNT
        &&& chains_wf(self.tilechunk_hash@, self.nexts(), self.slots())
        &&& forall|i: int|
            0 <= i < self.chunks@.len() ==> (#[trigger] self.chunks@[i]).tiles@.len() == 0
                || self.chunks@[i].tiles@.len() == self.chunk_dim * self.chunk_dim
        &&& forall|i: int, j: int|
            0 <= i < self.chunks@.len() && 0 <= j < self.chunks@.len() && i != j ==> chunk_key(
                #[trigger] self.chunks@[i],
            ) != chunk_key(#[trigger] self.chunks@[j])
    }

    /// Whether some chunk has the given coordinates.
    pub open spec fn has_chunk(&self, key: (i32, i32, i32)) -> bool {
        exists|i: int| 0 <= i < self.chunks@.len() && chunk_key(#[trigger] self.chunks@[i]) == key
    }

    /// The storage position of the chunk with the given coordinates.
    pub open spec fn chunk_index(&self, key: (i32, i32, i32)) -> int {
        choose|i: int| 0 <= i < self.chunks@.len() && chunk_key(#[trigger] self.chunks@[i]) == key
    }

    /// The tiles of the chunk with the given coordinates.
    pub open spec fn chunk_tiles(&self, key: (i32, i32, i32)) -> Seq<u32> {
        self.chunks@[self.chunk_index(key)].tiles@
    }

    /// The value of a tile, if its chunk exists and has tiles.
    pub open spec fn tile_value(&self, tile_x: i32, tile_y: i32, tile_z: i32) -> Option<u32> {
        let p = chunk_position_spec(*self, tile_x, tile_y, tile_z);
        let key = (p.tilechunk_x, p.tilechunk_y, p.tilechunk_z);
        let idx = tile_index(p.tile_x, p.tile_y, self.chunk_dim);
        if self.has_chunk(key) && idx < self.chunk_tiles(key).len() {
            Some(self.chunk_tiles(key)[idx])
        } else {
            None
        }
    }

    /// An empty tile map with chunks of `2^chunk_shift` tiles a side.
    pub fn new(chunk_shift: u32) -> (r: TileMap)
        requires
            chunk_shift <= 15,
        ensures
            r.wf(),
            r.chunk_shift == chunk_shift,
            r.chunk_dim == 1usize << chunk_shift,
            r.chunk_mask == r.chunk_dim - 1,
            r.chunks@.len() == 0,
    {
        let dim: usize = 1usize << chunk_shift;
        assert(1usize << chunk_shift <= 32768usize) by (bit_vector)
            requires
                chunk_shift <= 15u32,
        ;
        assert(1usize << chunk_shift >= 1usize) by (bit_vector)
            requires
                chunk_shift <= 15u32,
        ;
        assert(dim * dim <= 32768 * 32768) by (nonlinear_arith)
            requires
                dim <= 32768,
        ;
        let mut heads: Vec<Option<usize>> = Vec::new();
        let mut i: usize = 0;
        while i < HASH_SLOT_COUNT
            invariant
                i <= HASH_SLOT_COUNT,
                heads@.len() == i,
                forall|s: int| 0 <= s < i ==> heads@[s] == None::<usize>,
            decreases HASH_SLOT_COUNT - i,
        {
            heads.push(None);
            i = i + 1;
        }
        let r = TileMap {
            chunk_shift,
            chunk_mask: (dim - 1) as i32,
            chunk_dim: dim,
            tilechunk_hash: heads,
            chunks: Vec::new(),
        };
        assert(r.slots() =~= Seq::<int>::empty());
        assert(r.nexts() =~= Seq::<Option<usize>>::empty());
        r
    }

    /// The arena bytes that creating the chunk with the given coordinates
    /// takes: none when it exists or would head its slot, else one chunk.
    pub open spec fn new_chunk_bytes(&self, key: (i32, i32, i32)) -> nat {
        if self.has_chunk(key) || next_in_slot(self.slots(), slot_spec(key.0, key.1, key.2), 0)
            == None::<int> {
            0
        } else {
            size_of::<TileChunk>()
        }
    }

    /// A chunk is found at its own storage position.
    pub proof fn lemma_chunk_index(&self, i: int)
        requires
            self.wf(),
            0 <= i < self.chunks@.len(),
        ensures
            self.has_chunk(chunk_key(self.chunks@[i])),
            self.chunk_index(chunk_key(self.chunks@[i])) == i,
    {
        let k = chunk_key(self.chunks@[i]);
        assert(self.has_chunk(k));
        let j = self.chunk_index(k);
        assert(chunk_key(self.chunks@[j]) == k);
    }

    /// Two tile maps with the same configuration, whose chunks agree on
    /// coordinates and tiles except for new chunks without tiles, hold the
    /// same tile values.
    pub proof fn lemma_same_tiles(&self, other: &TileMap)
        requires
            self.wf(),
            other.wf(),
            self.chunk_shift == other.chunk_shift,
            self.chunk_mask == other.chunk_mask,
            self.chunk_dim == other.chunk_dim,
            self.chunks@.len() <= other.chunks@.len(),
            forall|i: int|
                0 <= i < self.chunks@.len() ==> chunk_key(#[trigger] other.chunks@[i]) == chunk_key(
                    self.chunks@[i],
                ) && other.chunks@[i].tiles@ == self.chunks@[i].tiles@,
            forall|i: int|
                self.chunks@.len() <= i < other.chunks@.len() ==> (#[trigger] other.chunks@[i]).tiles@.len()
                    == 0,
        ensures
            forall|x: i32, y: i32, z: i32| #[trigger]
                other.tile_value(x, y, z) == self.tile_value(x, y, z),
    {
        assert forall|x: i32, y: i32, z: i32| #[trigger]
            other.tile_value(x, y, z) == self.tile_value(x, y, z) by {
            let p = chunk_position_spec(*self, x, y, z);
            let key = (p.tilechunk_x, p.tilechunk_y, p.tilechunk_z);
            if self.has_chunk(key) {
                let i = self.chunk_index(key);
                self.lemma_chunk_index(i);
                other.lemma_chunk_index(i);
            }
            if other.has_chunk(key) {
                let j = other.chunk_index(key);
                other.lemma_chunk_index(j);
                if j < self.chunks@.len() {
                    self.lemma_chunk_index(j);
                }
            }
        }
    }

    /// Finds the chunk with the given coordinates. Without an arena only an
    /// existing chunk is found; with one, a missing chunk is created without
    /// tiles, at the end of the chunk storage, and chained into its slot.
    /// The result is the chunk's storage position.
    pub fn get_tilechunk(
        &mut self,
        tilechunk_x: i32,
        tilechunk_y: i32,
        tilechunk_z: i32,
        arena: Option<&mut MemoryArena>,
    ) -> (r: Option<usize>)
        requires
            old(self).wf(),
            in_border(tilechunk_x, tilechunk_y, tilechunk_z),
            arena matches Some(a) ==> a.arena_used() + old(self).new_chunk_bytes(
                (tilechunk_x, tilechunk_y, tilechunk_z),
            ) <= a.arena_size(),
        ensures
            ({
                let key = (tilechunk_x, tilechunk_y, tilechunk_z);
                &&& final(self).wf()
                &&& final(self).chunk_shift == old(self).chunk_shift
                &&& final(self).chunk_mask == old(self).chunk_mask
                &&& final(self).chunk_dim == old(self).chunk_dim
                &&& forall|i: int|
                    0 <= i < old(self).chunks@.len() ==> chunk_key(#[trigger] final(self).chunks@[i])
                        == chunk_key(old(self).chunks@[i]) && final(self).chunks@[i].tiles@
                        == old(self).chunks@[i].tiles@
                &&& forall|x: i32, y: i32, z: i32| #[trigger]
                    final(self).tile_value(x, y, z) == old(self).tile_value(x, y, z)
                &&& (r matches Some(i) ==> final(self).has_chunk(key) && final(self).chunk_index(key)
                    == i)
                &&& if old(self).has_chunk(key) {
                    &&& r == Some(old(self).chunk_index(key) as usize)
                    &&& *final(self) == *old(self)
                    &&& arena matches Some(a) ==> *final(a) == *a
                } else if arena is None {
                    &&& r == None::<usize>
                    &&& *final(self) == *old(self)
                } else {
                    &&& r == Some(old(self).chunks@.len() as usize)
                    &&& final(self).chunks@.len() == old(self).chunks@.len() + 1
                    &&& chunk_key(final(self).chunks@[old(self).chunks@.len() as int]) == key
                    &&& final(self).chunks@[old(self).chunks@.len() as int].tiles@.len() == 0
                    &&& arena matches Some(a) ==> final(a).arena_used() == a.arena_used()
                        + old(self).new_chunk_bytes(key) && final(a).arena_size()
                        == a.arena_size()
                }
            }),
    {
        let ghost old_self = *self;
        let ghost key = (tilechunk_x, tilechunk_y, tilechunk_z);
        match self.find_chunk(tilechunk_x, tilechunk_y, tilechunk_z) {
            Ok(i) => {
                proof {
                    self.lemma_chunk_index(i as int);
                }
                Some(i)
            },
            Err(tail) => {
                match arena {
                    None => None,
                    Some(a) => {
                        let n = self.chunks.len();
                        let slot = slot_of_hash(get_hash(tilechunk_x, tilechunk_y, tilechunk_z));
                        proof {
                            lemma_chains_push(
                                self.tilechunk_hash@,
                                self.nexts(),
                                self.slots(),
                                slot as int,
                                tail,
                            );
                            lemma_next_in_slot(self.slots(), slot as int, 0);
                        }
                        match tail {
                            None => {
                                a.push_slice::<u32>(0);
                                self.tilechunk_hash.set(slot, Some(n));
                            },
                            Some(t) => {
                                a.push_struct::<TileChunk>();
                                self.chunks[t].next = Some(n);
                            },
                        }
                        self.chunks.push(
                            TileChunk {
                                tiles: Vec::new(),
                                chunk_x: tilechunk_x,
                                chunk_y: tilechunk_y,
                                chunk_z: tilechunk_z,
                                next: None,
                            },
                        );
                        proof {
                            assert(self.slots() =~= old_self.slots().push(slot as int));
                            assert(self.nexts() =~= match tail {
                                Some(t) => old_self.nexts().update(t as int, Some(n)),
                                None => old_self.nexts(),
                            }.push(None));
                            assert forall|i: int, j: int|
                                0 <= i < self.chunks@.len() && 0 <= j < self.chunks@.len() && i
                                    != j implies chunk_key(#[trigger] self.chunks@[i]) != chunk_key(
                                #[trigger] self.chunks@[j],
                            ) by {
                                if i < n && j < n {
                                    assert(chunk_key(self.chunks@[i]) == chunk_key(
                                        old_self.chunks@[i],
                                    ));
                                    assert(chunk_key(self.chunks@[j]) == chunk_key(
                                        old_self.chunks@[j],
                                    ));
                                } else if i < n {
                                    assert(chunk_key(self.chunks@[i]) == chunk_key(
                                        old_self.chunks@[i],
                                    ));
                                    assert(old_self.has_chunk(chunk_key(old_self.chunks@[i])));
                                } else {
                                    assert(chunk_key(self.chunks@[j]) == chunk_key(
                                        old_self.chunks@[j],
                                    ));
                                    assert(old_self.has_chunk(chunk_key(old_self.chunks@[j])));
                                }
                            }
                            assert(self.wf());
                            old_self.lemma_same_tiles(&*self);
                            self.lemma_chunk_index(n as int);
                        }
                        Some(n)
                    },
                }
            },
        }
    }

    /// The coordinates of the chunk a tile lies in.
    pub open spec fn tile_chunk_key(&self, x: i32, y: i32, z: i32) -> (i32, i32, i32) {
        let p = chunk_position_spec(*self, x, y, z);
        (p.tilechunk_x, p.tilechunk_y, p.tilechunk_z)
    }

    /// The position of a tile within its chunk's tile array.
    pub open spec fn tile_slot(&self, x: i32, y: i32, z: i32) -> int {
        let p = chunk_position_spec(*self, x, y, z);
        tile_index(p.tile_x, p.tile_y, self.chunk_dim)
    }

    /// The arena bytes that writing a tile takes: its chunk when that is
    /// created behind another one in its slot, and the chunk's tiles when it
    /// has none yet.
    pub open spec fn tile_alloc_bytes(&self, x: i32, y: i32, z: i32) -> nat {
        let key = self.tile_chunk_key(x, y, z);
        self.new_chunk_bytes(key) + if self.has_chunk(key) && self.chunk_tiles(key).len() > 0 {
            0nat
        } else {
            (self.chunk_dim * self.chunk_dim * size_of::<u32>()) as nat
        }
    }

    /// In-chunk coordinates are masked into the chunk, so a tile's place in
    /// a complete tile array is inside it.
    pub proof fn lemma_tile_slot_in_chunk(&self, x: i32, y: i32, z: i32)
        requires
            self.wf(),
        ensures
            0 <= self.tile_slot(x, y, z) < self.chunk_dim * self.chunk_dim,
    {
        let m = self.chunk_mask;
        assert(m >= 0 ==> x & m >= 0 && x & m <= m) by (bit_vector);
        assert(m >= 0 ==> y & m >= 0 && y & m <= m) by (bit_vector);
        let lx = (x & m) as int;
        let ly = (y & m) as int;
        let d = self.chunk_dim as int;
        assert(ly * d + lx < d * d) by (nonlinear_arith)
            requires
                0 <= lx < d,
                0 <= ly < d,
        ;
        assert(ly * d + lx >= 0) by (nonlinear_arith)
            requires
                0 <= lx < d,
                0 <= ly < d,
        ;
    }

    /// Replacing one chunk's tiles changes exactly the tiles of that chunk.
    pub proof fn lemma_replace_tiles(&self, other: &TileMap, idx: int)
        requires
            self.wf(),
            other.wf(),
            0 <= idx < self.chunks@.len(),
            self.chunk_shift == other.chunk_shift,
            self.chunk_mask == other.chunk_mask,
            self.chunk_dim == other.chunk_dim,
            self.chunks@.len() == other.chunks@.len(),
            forall|i: int|
                0 <= i < self.chunks@.len() ==> chunk_key(#[trigger] other.chunks@[i]) == chunk_key(
                    self.chunks@[i],
                ),
            forall|i: int|
                0 <= i < self.chunks@.len() && i != idx ==> (#[trigger] other.chunks@[i]).tiles@
                    == self.chunks@[i].tiles@,
        ensures
            forall|x: i32, y: i32, z: i32| #[trigger]
                other.tile_value(x, y, z) == if self.tile_chunk_key(x, y, z) == chunk_key(
                    self.chunks@[idx],
                ) {
                    if self.tile_slot(x, y, z) < other.chunks@[idx].tiles@.len() {
                        Some(other.chunks@[idx].tiles@[self.tile_slot(x, y, z)])
                    } else {
                        None::<u32>
                    }
                } else {
                    self.tile_value(x, y, z)
                },
    {
        assert forall|x: i32, y: i32, z: i32| #[trigger]
            other.tile_value(x, y, z) == if self.tile_chunk_key(x, y, z) == chunk_key(
                self.chunks@[idx],
            ) {
                if self.tile_slot(x, y, z) < other.chunks@[idx].tiles@.len() {
                    Some(other.chunks@[idx].tiles@[self.tile_slot(x, y, z)])
                } else {
                    None::<u32>
                }
            } else {
                self.tile_value(x, y, z)
            } by {
            let key = self.tile_chunk_key(x, y, z);
            self.lemma_chunk_index(idx);
            other.lemma_chunk_index(idx);
            if self.has_chunk(key) {
                let i = self.chunk_index(key);
                self.lemma_chunk_index(i);
                other.lemma_chunk_index(i);
            }
            if other.has_chunk(key) {
                let j = other.chunk_index(key);
                other.lemma_chunk_index(j);
                self.lemma_chunk_index(j);
            }
        }
    }

    /// Writes a tile, creating its chunk and the chunk's tiles (all zero)
    /// from the arena as needed.
    pub fn set_tile_value(
        &mut self,
        memory: &mut MemoryArena,
        tile_x: i32,
        tile_y: i32,
        tile_z: i32,
        value: u32,
    )
        requires
            old(self).wf(),
            in_border(tile_x >> old(self).chunk_shift, tile_y >> old(self).chunk_shift, tile_z),
            old(memory).arena_used() + old(self).tile_alloc_bytes(tile_x, tile_y, tile_z)
                <= old(memory).arena_size(),
        ensures
            final(self).wf(),
            final(self).chunk_shift == old(self).chunk_shift,
            final(self).chunk_mask == old(self).chunk_mask,
            final(self).chunk_dim == old(self).chunk_dim,
            final(self).tile_value(tile_x, tile_y, tile_z) == Some(value),
            forall|x: i32, y: i32, z: i32| #[trigger]
                final(self).tile_value(x, y, z) == if old(self).tile_chunk_key(x, y, z)
                    == old(self).tile_chunk_key(tile_x, tile_y, tile_z) {
                    if old(self).tile_slot(x, y, z) == old(self).tile_slot(tile_x, tile_y, tile_z) {
                        Some(value)
                    } else if old(self).tile_value(x, y, z) is Some {
                        old(self).tile_value(x, y, z)
                    } else {
                        Some(0u32)
                    }
                } else {
                    old(self).tile_value(x, y, z)
                },
            final(memory).arena_used() == old(memory).arena_used() + old(self).tile_alloc_bytes(
                tile_x,
                tile_y,
                tile_z,
            ),
            final(memory).arena_size() == old(memory).arena_size(),
    {
        let ghost old_self = *self;
        let ghost key = old_self.tile_chunk_key(tile_x, tile_y, tile_z);
        let chunk_pos = get_chunk_position(self, tile_x, tile_y, tile_z);
        let chunk_dim = self.chunk_dim;
        let got = self.get_tilechunk(
            chunk_pos.tilechunk_x,
            chunk_pos.tilechunk_y,
            chunk_pos.tilechunk_z,
            Some(&mut *memory),
        );
        let ghost mid = *self;
        let idx = match got {
            Some(i) => i,
            None => {
                assert(false);
                0
            },
        };
        proof {
            mid.lemma_chunk_index(idx as int);
            old_self.lemma_tile_slot_in_chunk(tile_x, tile_y, tile_z);
            if old_self.has_chunk(key) {
                old_self.lemma_chunk_index(old_self.chunk_index(key));
            }
        }
        proof {
            assert(key == (chunk_pos.tilechunk_x, chunk_pos.tilechunk_y, chunk_pos.tilechunk_z));
            if old_self.has_chunk(key) {
                assert(idx == old_self.chunk_index(key));
                assert(mid == old_self);
            } else {
                assert(idx == old_self.chunks@.len());
                assert(memory.arena_used() == old(memory).arena_used() + old_self.new_chunk_bytes(key));
            }
        }
        if self.chunks[idx].tiles.len() == 0 {
            assert(memory.arena_used() + chunk_dim * chunk_dim * size_of::<u32>() <= memory.arena_size());
            memory.push_slice::<u32>(chunk_dim * chunk_dim);
            let fresh: Vec<u32> = vec![0u32; chunk_dim * chunk_dim];
            assert forall|i: int| 0 <= i < fresh@.len() implies fresh@[i] == 0u32 by {
                assert(cloned(0u32, fresh@[i]));
            }
            self.chunks[idx].tiles = fresh;
        }
        let ghost filled = *self;
        self.chunks[idx].set_tile_value(chunk_pos.tile_x, chunk_pos.tile_y, value, chunk_dim);
        proof {
            assert(self.slots() =~= mid.slots());
            assert(self.nexts() =~= mid.nexts());
            assert(self.wf());
            mid.lemma_replace_tiles(&*self, idx as int);
            assert forall|x: i32, y: i32, z: i32| #[trigger]
                self.tile_value(x, y, z) == if old_self.tile_chunk_key(x, y, z) == key {
                    if old_self.tile_slot(x, y, z) == old_self.tile_slot(tile_x, tile_y, tile_z) {
                        Some(value)
                    } else if old_self.tile_value(x, y, z) is Some {
                        old_self.tile_value(x, y, z)
                    } else {
                        Some(0u32)
                    }
                } else {
                    old_self.tile_value(x, y, z)
                } by {
                old_self.lemma_tile_slot_in_chunk(x, y, z);
                assert(mid.tile_value(x, y, z) == old_self.tile_value(x, y, z));
            }
        }
    }

    /// Reads a tile: `None` when its chunk or the chunk's tiles do not exist.
    pub fn get_tile_value(&mut self, tile_x: i32, tile_y: i32, tile_z: i32) -> (r: Option<u32>)
        requires
            old(self).wf(),
            in_border(tile_x >> old(self).chunk_shift, tile_y >> old(self).chunk_shift, tile_z),
        ensures
            r == old(self).tile_value(tile_x, tile_y, tile_z),
            *final(self) == *old(self),
    {
        let chunk_pos = get_chunk_position(self, tile_x, tile_y, tile_z);
        let chunk_dim = self.chunk_dim;
        let tilechunk = self.get_tilechunk(
            chunk_pos.tilechunk_x,
            chunk_pos.tilechunk_y,
            chunk_pos.tilechunk_z,
            None,
        );
        proof {
            self.lemma_tile_slot_in_chunk(tile_x, tile_y, tile_z);
        }
        let ghost key = self.tile_chunk_key(tile_x, tile_y, tile_z);
        match tilechunk {
            Some(i) => {
                proof {
                    assert(key == (chunk_pos.tilechunk_x, chunk_pos.tilechunk_y, chunk_pos.tilechunk_z));
                    assert(self.has_chunk(key));
                    assert(0 <= self.chunk_index(key) < self.chunks@.len());
                    assert(tilechunk == Some(self.chunk_index(key) as usize));
                    self.lemma_chunk_index(i as int);
                    assert(self.chunk_index(key) == i);
                    assert(self.chunk_tiles(key) == self.chunks@[i as int].tiles@);
                }
                self.chunks[i].get_tile_value(chunk_pos.tile_x, chunk_pos.tile_y, chunk_dim)
            },
            None => None,
        }
    }

    /// Reads the tile at a position.
    pub fn get_tile_value_pos(&mut self, pos: &TilemapPosition) -> (r: Option<u32>)
        requires
            old(self).wf(),
            in_border(pos.tile_x >> old(self).chunk_shift, pos.tile_y >> old(self).chunk_shift, pos.tile_z),
        ensures
            r == old(self).tile_value(pos.tile_x, pos.tile_y, pos.tile_z),
            *final(self) == *old(self),
    {
        self.get_tile_value(pos.tile_x, pos.tile_y, pos.tile_z)
    }

    /// Looks a chunk up through its hash slot. Gives `Ok` with the chunk's
    /// position when it exists, else `Err` with the last chunk of the slot.
    fn find_chunk(&self, x: i32, y: i32, z: i32) -> (r: Result<usize, Option<usize>>)
        requires
            self.wf(),
        ensures
            match r {
                Ok(i) => i < self.chunks@.len() && chunk_key(self.chunks@[i as int]) == (x, y, z),
                Err(tail) => !self.has_chunk((x, y, z)) && match tail {
                    Some(t) => t < self.chunks@.len() && self.slots()[t as int] == slot_spec(x, y, z)
                        && next_in_slot(self.slots(), slot_spec(x, y, z), t + 1) == None::<int>,
                    None => next_in_slot(self.slots(), slot_spec(x, y, z), 0) == None::<int>,
                },
            },
    {
        let ghost s = slot_spec(x, y, z);
        let ghost slots = self.slots();
        let slot = slot_of_hash(get_hash(x, y, z));
        proof {
            lemma_next_in_slot(slots, s, 0);
        }
        match self.tilechunk_hash[slot] {
            None => {
                assert(!self.has_chunk((x, y, z))) by {
                    if self.has_chunk((x, y, z)) {
                        let k = self.chunk_index((x, y, z));
                        assert(slots[k] == s);
                    }
                }
                Err(None)
            },
            Some(first) => {
                let mut cur = first;
                loop
                    invariant
                        self.wf(),
                        slots == self.slots(),
                        s == slot_spec(x, y, z),
                        cur < self.chunks@.len(),
                        slots[cur as int] == s,
                        forall|k: int|
                            0 <= k < cur && slots[k] == s ==> chunk_key(#[trigger] self.chunks@[k])
                                != (x, y, z),
                    decreases self.chunks@.len() - cur,
                {
                    let c = &self.chunks[cur];
                    if c.chunk_x == x && c.chunk_y == y && c.chunk_z == z {
                        return Ok(cur);
                    }
                    proof {
                        lemma_next_in_slot(slots, s, cur + 1);
                        assert(self.nexts()[cur as int] == c.next);
                    }
                    match c.next {
                        Some(n) => {
                            cur = n;
                        },
                        None => {
                            assert(!self.has_chunk((x, y, z))) by {
                                if self.has_chunk((x, y, z)) {
                                    let k = self.chunk_index((x, y, z));
                                    assert(slots[k] == chunk_slot(self.chunks@[k]));
                                    assert(slots[k] == s);
                                }
                            }
                            return Err(Some(cur));
                        },
                    }
                }
                Err(None)
            },
        }
    }
}

/// Whether one can walk onto the tile at a position: its value is known
/// and is not a wall.
pub fn is_tilemap_point_empty(tilemap: &mut TileMap, position: &TilemapPosition) -> (r: bool)
    requires
        old(tilemap).wf(),
        in_border(position.tile_x >> old(tilemap).chunk_shift, position.tile_y >> old(tilemap).chunk_shift, position.tile_z),
    ensures
        r == match old(tilemap).tile_value(position.tile_x, position.tile_y, position.tile_z) {
            Some(v) => v != 1,
            None => false,
        },
        *final(tilemap) == *old(tilemap),
{
    match tilemap.get_tile_value(position.tile_x, position.tile_y, position.tile_z) {
        Some(value) => is_tile_value_empty(value),
        None => false,
    }
}

} // verus!
