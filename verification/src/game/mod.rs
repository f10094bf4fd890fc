use vstd::prelude::*;
use vstd::layout::size_of;

pub mod graphics;
pub mod math;
pub mod memory;
pub mod hash_chain;
pub mod tilemap;
pub mod world;

use self::hash_chain::{lemma_prev_in_slot, lemma_stacks_push, stacks_wf};
use self::memory::MemoryArena;
use self::tilemap::{WORLD_BORDER_CHUNKS, in_border};
use vstd::multiset::Multiset;
use self::world::{World, WorldPosition, chunk_of_tile, pos_key, world_pos_from_tile};
use crate::common::{ControllerInput, MAX_CONTROLLERS};
use self::math::V2;

verus! {

/// The kinds of entities.
#[derive(Clone, Copy, PartialEq, Eq, Structural)]
pub enum EntityType {
    Hero,
    Wall,
    Monster,
    Familiar,
    Sword,
}

/// One hit point: its flags and how much of it is filled.
#[derive(Clone, Copy, PartialEq, Eq, Structural)]
pub struct Hitpoint {
    pub flags: u8,
    pub filled: u8,
}

/// Hit points an entity can have.
pub const HITPOINTS_ARRAY_MAX: usize = 16;

/// How much a full hit point holds.
pub const HITPOINT_SUB_COUNT: u8 = 4;

/// Entity flag: the entity takes part in collisions.
pub const ENTITY_FLAG_COLLIDES: u32 = 0b0001;

/// Entity flag: the entity is being simulated.
pub const ENTITY_FLAG_SIMMING: u32 = 0b1000;

/// Entities the game can store.
pub const LF_ENTITY_MAX: usize = 100000;

/// A stored entity: its kind, where it is in the world (if anywhere), its
/// flags and hit points, the storage index of its sword, and the direction
/// it faces. Its size, motion and height are floating point and are kept by
/// the caller.
#[derive(Clone, Copy)]
pub struct LfEntity {
    pub etype: EntityType,
    pub world_position: Option<WorldPosition>,
    pub flags: u32,
    pub max_hitpoints: u32,
    pub hitpoints: [Hitpoint; 16],
    pub sword: Option<usize>,
    pub face_direction: u32,
}

/// Whether `e` is a freshly stored entity of the given kind and position:
/// no flags, no hit points, no sword, facing the first direction.
pub open spec fn is_fresh_entity(e: LfEntity, etype: EntityType, pos: Option<WorldPosition>) -> bool {
    &&& e.etype == etype
    &&& e.world_position == pos
    &&& e.flags == 0
    &&& e.max_hitpoints == 0
    &&& e.hitpoints@ == Seq::new(16, |i: int| Hitpoint { flags: 0, filled: 0 })
    &&& e.sword is None
    &&& e.face_direction == 0
}

/// What a player's controller asks of its hero in one frame, in whole steps:
/// the digital movement direction, the sword's throwing direction and the
/// jump. Analog stick movement is floating point and is kept by the caller.
#[derive(Clone, Copy, PartialEq, Eq, Structural)]
pub struct ControlledHero {
    pub entity_index: usize,
    pub acc: V2<i32>,
    pub d_sword: V2<i32>,
    pub d_z: i32,
}

/// The game's state that the simulation keeps between frames: the world
/// and its arena, the camera, the heroes the controllers drive, the stored
/// entities, and the pair collision rules. The bitmaps and the floating
/// point state are kept by the caller.
pub struct GameState {
    pub world_arena: MemoryArena,
    pub world: World,
    pub camera_follows_entity_index: Option<usize>,
    pub camera_position: WorldPosition,
    pub controlled_heroes: [Option<ControlledHero>; 5],
    pub lf_entity_count: usize,
    pub lf_entities: Vec<LfEntity>,
    pub pair_collision_rules: PairCollisionTable,
}

impl GameState {
    /// The state's shape: the world and the rule table keep theirs, and the
    /// stored entities fill the storage up to the maximum.
    pub open spec fn wf(&self) -> bool {
        &&& self.world.wf()
        &&& self.pair_collision_rules.wf()
        &&& self.lf_entity_count == self.lf_entities@.len()
        &&& self.lf_entity_count <= LF_ENTITY_MAX
    }

    /// The stored entity at `index`, if there is one.
    pub fn get_stored_entity(&mut self, index: usize) -> (r: Option<&mut LfEntity>)
        requires
            old(self).wf(),
        ensures
            index < old(self).lf_entity_count ==> (r matches Some(e) && *e
                == old(self).lf_entities@[index as int] && final(self).lf_entities@ == old(
                self,
            ).lf_entities@.update(index as int, *final(e)) && final(self).lf_entity_count == old(
                self,
            ).lf_entity_count && final(self).world == old(self).world && final(self).world_arena
                == old(self).world_arena && final(self).pair_collision_rules == old(
                self,
            ).pair_collision_rules && final(self).camera_follows_entity_index == old(
                self,
            ).camera_follows_entity_index && final(self).camera_position == old(
                self,
            ).camera_position && final(self).controlled_heroes == old(self).controlled_heroes),
            index >= old(self).lf_entity_count ==> r is None && *final(self) == *old(self),
    {
        if index < self.lf_entity_count {
            Some(&mut self.lf_entities[index])
        } else {
            None
        }
    }
}

/// Whether two game states agree on everything but the stored entities.
pub open spec fn same_but_entities(a: GameState, b: GameState) -> bool {
    &&& a.world == b.world
    &&& a.world_arena == b.world_arena
    &&& a.pair_collision_rules == b.pair_collision_rules
    &&& a.camera_follows_entity_index == b.camera_follows_entity_index
    &&& a.camera_position == b.camera_position
    &&& a.controlled_heroes == b.controlled_heroes
}

/// What storing entity `index` at `pos` does to the world: the world keeps
/// its shape, the entity joins the chunk of `pos`, and the arena pays for
/// what that takes.
pub open spec fn placed_in_world(
    before: GameState,
    after: GameState,
    index: usize,
    pos: Option<WorldPosition>,
) -> bool {
    &&& after.world.wf()
    &&& forall|k: (i32, i32, i32)| #[trigger]
        after.world.entities(k) == before.world.entities_after_move(index, None, pos, k)
    &&& forall|k: (i32, i32, i32)| before.world.has_chunk(k) ==> #[trigger] after.world.has_chunk(k)
    &&& after.world_arena.arena_size() == before.world_arena.arena_size()
    &&& after.world_arena.arena_used() == before.world_arena.arena_used()
        + before.world.location_bytes(index, None, pos)
    &&& after.pair_collision_rules == before.pair_collision_rules
    &&& after.camera_follows_entity_index == before.camera_follows_entity_index
    &&& after.camera_position == before.camera_position
    &&& after.controlled_heroes == before.controlled_heroes
}

/// What storing a new entity of kind `etype` at `pos` asks: room in the
/// entity storage, a position inside the world border, and room in the
/// arena for the world to place it.
pub open spec fn can_add_entity(state: GameState, pos: Option<WorldPosition>) -> bool {
    &&& state.wf()
    &&& state.lf_entity_count < LF_ENTITY_MAX
    &&& (pos matches Some(p) ==> in_border(p.chunk_x, p.chunk_y, p.chunk_z))
    &&& state.world_arena.arena_used() + state.world.location_bytes(state.lf_entity_count, None, pos)
        <= state.world_arena.arena_size()
}

/// Stores a new entity of kind `etype` at `pos` (placing it in the world
/// when it has a position) and gives its storage index and the entity.
pub fn add_lf_entity(state: &mut GameState, etype: EntityType, pos: Option<WorldPosition>) -> (r: (usize, &mut LfEntity))
    requires
        can_add_entity(*old(state), pos),
    ensures
        r.0 == old(state).lf_entity_count,
        is_fresh_entity(*r.1, etype, pos),
        final(state).lf_entities@ == old(state).lf_entities@.push(*final(r.1)),
        final(state).lf_entity_count == old(state).lf_entity_count + 1,
        placed_in_world(*old(state), *final(state), r.0, pos),
{
    let index = state.lf_entity_count;
    let e = LfEntity {
        etype,
        world_position: pos,
        flags: 0,
        max_hitpoints: 0,
        hitpoints: [Hitpoint { flags: 0, filled: 0 }; 16],
        sword: None,
        face_direction: 0,
    };
    proof {
        assert(e.hitpoints@ =~= Seq::new(16, |i: int| Hitpoint { flags: 0, filled: 0 }));
    }
    state.lf_entities.push(e);
    state.lf_entity_count = state.lf_entity_count + 1;
    if pos.is_some() {
        state.world.change_entity_location_raw(index, None, pos, &mut state.world_arena);
    }
    (index, &mut state.lf_entities[index])
}

/// The hit points of `after` are those of `before` with the first `count`
/// of them filled.
pub open spec fn hit_points_filled(before: LfEntity, after: LfEntity, count: int) -> bool {
    &&& after.max_hitpoints == count
    &&& forall|i: int|
        0 <= i < 16 ==> #[trigger] after.hitpoints@[i] == if i < count {
            Hitpoint { flags: before.hitpoints@[i].flags, filled: HITPOINT_SUB_COUNT }
        } else {
            before.hitpoints@[i]
        }
    &&& after.etype == before.etype
    &&& after.world_position == before.world_position
    &&& after.flags == before.flags
    &&& after.sword == before.sword
    &&& after.face_direction == before.face_direction
}

/// Gives an entity `hit_point_count` full hit points.
pub fn init_hit_points(hit_point_count: u8, lf_entity: &mut LfEntity)
    requires
        hit_point_count as usize <= HITPOINTS_ARRAY_MAX,
    ensures
        hit_points_filled(*old(lf_entity), *final(lf_entity), hit_point_count as int),
{
    lf_entity.max_hitpoints = hit_point_count as u32;
    let mut idx: usize = 0;
    while idx < hit_point_count as usize
        invariant
            hit_point_count <= 16,
            idx <= hit_point_count,
            lf_entity.max_hitpoints == hit_point_count,
            lf_entity.etype == old(lf_entity).etype,
            lf_entity.world_position == old(lf_entity).world_position,
            lf_entity.flags == old(lf_entity).flags,
            lf_entity.sword == old(lf_entity).sword,
            lf_entity.face_direction == old(lf_entity).face_direction,
            forall|i: int|
                0 <= i < 16 ==> #[trigger] lf_entity.hitpoints@[i] == if i < idx {
                    Hitpoint { flags: old(lf_entity).hitpoints@[i].flags, filled: HITPOINT_SUB_COUNT }
                } else {
                    old(lf_entity).hitpoints@[i]
                },
        decreases hit_point_count - idx,
    {
        let mut h = lf_entity.hitpoints[idx];
        h.filled = HITPOINT_SUB_COUNT;
        lf_entity.hitpoints.set(idx, h);
        idx = idx + 1;
    }
}

/// The world position of a tile's chunk.
pub open spec fn tile_chunk_pos(x: i32, y: i32, z: i32) -> WorldPosition {
    WorldPosition { chunk_x: chunk_of_tile(x) as i32, chunk_y: chunk_of_tile(y) as i32, chunk_z: z }
}

/// Whether `e` is a newly added entity: the given kind, position, flags and
/// number of full hit points, no sword, facing the first direction.
pub open spec fn is_new_entity(e: LfEntity, etype: EntityType, pos: Option<WorldPosition>, flags: u32, hp: int) -> bool {
    &&& e.etype == etype
    &&& e.world_position == pos
    &&& e.flags == flags
    &&& e.max_hitpoints == hp
    &&& e.hitpoints@ == Seq::new(16, |i: int| Hitpoint { flags: 0, filled: if i < hp { HITPOINT_SUB_COUNT } else { 0u8 } })
    &&& e.sword is None
    &&& e.face_direction == 0
}

/// What adding one entity did: the storage grew by one entity at `index`
/// and the world placed it at `pos`.
pub open spec fn added_entity(before: GameState, after: GameState, index: usize, pos: Option<WorldPosition>) -> bool {
    &&& index == before.lf_entity_count
    &&& after.lf_entities@ == before.lf_entities@.push(after.lf_entities@[index as int])
    &&& after.lf_entity_count == before.lf_entity_count + 1
    &&& placed_in_world(before, after, index, pos)
}

/// Stores a new entity of the given kind at `pos` with the given flags and
/// number of full hit points.
fn add_entity_with(state: &mut GameState, etype: EntityType, pos: Option<WorldPosition>, flags: u32, hp: u8) -> (r: usize)
    requires
        can_add_entity(*old(state), pos),
        hp as usize <= HITPOINTS_ARRAY_MAX,
    ensures
        added_entity(*old(state), *final(state), r, pos),
        is_new_entity(final(state).lf_entities@[r as int], etype, pos, flags, hp as int),
{
    let (e_index, lf_entity) = add_lf_entity(state, etype, pos);
    let ghost fresh = *lf_entity;
    lf_entity.flags = flags;
    init_hit_points(hp, lf_entity);
    proof {
        assert(lf_entity.hitpoints@ =~= Seq::new(16, |i: int| Hitpoint { flags: 0, filled: if i < hp { HITPOINT_SUB_COUNT } else { 0u8 } }));
    }
    e_index
}

/// Stores a wall on a tile; walls collide.
pub fn add_wall(state: &mut GameState, abs_tile_x: i32, abs_tile_y: i32, abs_tile_z: i32) -> (r: usize)
    requires
        can_add_entity(*old(state), Some(tile_chunk_pos(abs_tile_x, abs_tile_y, abs_tile_z))),
    ensures
        added_entity(*old(state), *final(state), r, Some(tile_chunk_pos(abs_tile_x, abs_tile_y, abs_tile_z))),
        is_new_entity(final(state).lf_entities@[r as int], EntityType::Wall, Some(tile_chunk_pos(abs_tile_x, abs_tile_y, abs_tile_z)), ENTITY_FLAG_COLLIDES, 0),
{
    let (pos, _, _) = world_pos_from_tile(&state.world, abs_tile_x, abs_tile_y, abs_tile_z);
    add_entity_with(state, EntityType::Wall, Some(pos), ENTITY_FLAG_COLLIDES, 0)
}

/// Stores a monster on a tile; monsters collide and have three hit points.
pub fn add_monster(state: &mut GameState, abs_tile_x: i32, abs_tile_y: i32, abs_tile_z: i32) -> (r: usize)
    requires
        can_add_entity(*old(state), Some(tile_chunk_pos(abs_tile_x, abs_tile_y, abs_tile_z))),
    ensures
        added_entity(*old(state), *final(state), r, Some(tile_chunk_pos(abs_tile_x, abs_tile_y, abs_tile_z))),
        is_new_entity(final(state).lf_entities@[r as int], EntityType::Monster, Some(tile_chunk_pos(abs_tile_x, abs_tile_y, abs_tile_z)), ENTITY_FLAG_COLLIDES, 3),
{
    let (pos, _, _) = world_pos_from_tile(&state.world, abs_tile_x, abs_tile_y, abs_tile_z);
    add_entity_with(state, EntityType::Monster, Some(pos), ENTITY_FLAG_COLLIDES, 3)
}

/// Stores a sword, not yet anywhere in the world.
pub fn add_sword(state: &mut GameState) -> (r: usize)
    requires
        can_add_entity(*old(state), None),
    ensures
        added_entity(*old(state), *final(state), r, None),
        is_new_entity(final(state).lf_entities@[r as int], EntityType::Sword, None, 0, 0),
{
    add_entity_with(state, EntityType::Sword, None, 0, 0)
}

/// Stores a familiar on a tile.
pub fn add_familiar(state: &mut GameState, abs_tile_x: i32, abs_tile_y: i32, abs_tile_z: i32) -> (r: usize)
    requires
        can_add_entity(*old(state), Some(tile_chunk_pos(abs_tile_x, abs_tile_y, abs_tile_z))),
    ensures
        added_entity(*old(state), *final(state), r, Some(tile_chunk_pos(abs_tile_x, abs_tile_y, abs_tile_z))),
        is_new_entity(final(state).lf_entities@[r as int], EntityType::Familiar, Some(tile_chunk_pos(abs_tile_x, abs_tile_y, abs_tile_z)), 0, 0),
{
    let (pos, _, _) = world_pos_from_tile(&state.world, abs_tile_x, abs_tile_y, abs_tile_z);
    add_entity_with(state, EntityType::Familiar, Some(pos), 0, 0)
}

/// What storing a new player did: a hero at the camera's position with
/// three hit points and a sword stored right after it, the world placing
/// the hero, and the camera following the hero when it followed nobody.
pub open spec fn player_added(before: GameState, after: GameState) -> bool {
    let r = before.lf_entity_count;
    &&& after.lf_entity_count == before.lf_entity_count + 2
    &&& after.lf_entities@.len() == before.lf_entities@.len() + 2
    &&& after.lf_entities@.take(before.lf_entities@.len() as int) == before.lf_entities@
    &&& is_new_entity(
        LfEntity { sword: None, ..after.lf_entities@[r as int] },
        EntityType::Hero,
        Some(before.camera_position),
        ENTITY_FLAG_COLLIDES,
        3,
    )
    &&& after.lf_entities@[r as int].sword == Some((r + 1) as usize)
    &&& is_new_entity(after.lf_entities@[r + 1], EntityType::Sword, None, 0, 0)
    &&& after.camera_follows_entity_index == match before.camera_follows_entity_index {
        Some(i) => Some(i),
        None => Some(r),
    }
    &&& after.pair_collision_rules == before.pair_collision_rules
    &&& after.camera_position == before.camera_position
    &&& forall|k: (i32, i32, i32)| #[trigger]
        after.world.entities(k) == before.world.entities_after_move(r, None, Some(before.camera_position), k)
    &&& after.world_arena.arena_used() == before.world_arena.arena_used()
        + before.world.location_bytes(r, None, Some(before.camera_position))
    &&& after.world_arena.arena_size() == before.world_arena.arena_size()
}

/// Stores a hero at the camera's position, with three hit points and a
/// sword stored right after it; the camera starts following the hero when
/// it follows nobody yet. Gives the hero's storage index.
pub fn add_player(state: &mut GameState) -> (r: usize)
    requires
        can_add_entity(*old(state), Some(old(state).camera_position)),
        old(state).lf_entity_count + 2 <= LF_ENTITY_MAX,
    ensures
        r == old(state).lf_entity_count,
        final(state).lf_entity_count == old(state).lf_entity_count + 2,
        final(state).lf_entities@.len() == old(state).lf_entities@.len() + 2,
        final(state).lf_entities@.take(old(state).lf_entities@.len() as int) == old(state).lf_entities@,
        is_new_entity(LfEntity { sword: None, ..final(state).lf_entities@[r as int] }, EntityType::Hero, Some(old(state).camera_position), ENTITY_FLAG_COLLIDES, 3),
        final(state).lf_entities@[r as int].sword == Some((r + 1) as usize),
        is_new_entity(final(state).lf_entities@[r + 1], EntityType::Sword, None, 0, 0),
        final(state).camera_follows_entity_index == match old(state).camera_follows_entity_index {
            Some(i) => Some(i),
            None => Some(r),
        },
        final(state).world.wf(),
        final(state).pair_collision_rules == old(state).pair_collision_rules,
        final(state).camera_position == old(state).camera_position,
        final(state).controlled_heroes == old(state).controlled_heroes,
        forall|k: (i32, i32, i32)| #[trigger]
            final(state).world.entities(k) == old(state).world.entities_after_move(r, None, Some(old(state).camera_position), k),
        final(state).world_arena.arena_used() == old(state).world_arena.arena_used()
            + old(state).world.location_bytes(r, None, Some(old(state).camera_position)),
        final(state).world_arena.arena_size() == old(state).world_arena.arena_size(),
{
    let pos = state.camera_position;
    let e_index = add_entity_with(state, EntityType::Hero, Some(pos), ENTITY_FLAG_COLLIDES, 3);
    let ghost mid = *state;
    proof {
        assert(mid.world.location_bytes(mid.lf_entity_count, None, None) == 0);
    }
    let s_index = add_sword(state);
    let mut hero = state.lf_entities[e_index];
    hero.sword = Some(s_index);
    state.lf_entities.set(e_index, hero);
    if state.camera_follows_entity_index.is_none() {
        state.camera_follows_entity_index = Some(e_index);
    }
    proof {
        assert(state.lf_entities@.take(old(state).lf_entities@.len() as int) =~= old(state).lf_entities@);
        assert forall|k: (i32, i32, i32)| #[trigger] state.world.entities(k) == old(state).world.entities_after_move(e_index, None, Some(pos), k) by {
            assert(mid.world.entities(k) == old(state).world.entities_after_move(e_index, None, Some(pos), k));
            assert(state.world.entities(k) == mid.world.entities_after_move(s_index, None, None, k));
        }
    }
    e_index
}

/// Tiles across one screen.
pub const TILES_PER_SCREEN_X: i32 = 17;

/// Tiles up one screen.
pub const TILES_PER_SCREEN_Y: i32 = 9;

/// Screens in the generated maze.
pub const MAZE_SCREEN_COUNT: usize = 2000;

/// The first random number the maze uses: it starts the maze with a room
/// whose staircase is on the first screen.
pub const MAZE_FIRST_RANDOM: usize = 6;

/// Where the maze generator stands before laying out a screen: the
/// screen's position and height, and which of its doors are open.
#[derive(Clone, Copy, PartialEq, Eq, Structural)]
pub struct MazeScreen {
    pub screen_x: i32,
    pub screen_y: i32,
    pub abs_tile_z: i32,
    pub door_left: bool,
    pub door_right: bool,
    pub door_top: bool,
    pub door_bottom: bool,
    pub door_up: bool,
    pub door_down: bool,
}

/// One tile of the generated maze: its coordinates and its value (0 floor,
/// 1 wall, 2 stairs up, 3 stairs down).
#[derive(Clone, Copy, PartialEq, Eq, Structural)]
pub struct MazeTile {
    pub x: i32,
    pub y: i32,
    pub z: i32,
    pub value: u32,
}

/// The first screen: at the origin, with every door closed.
pub open spec fn maze_start() -> MazeScreen {
    MazeScreen {
        screen_x: 0,
        screen_y: 0,
        abs_tile_z: 0,
        door_left: false,
        door_right: false,
        door_top: false,
        door_bottom: false,
        door_up: false,
        door_down: false,
    }
}

/// The screen with the door the random choice picks opened: 0 opens the
/// right side, 1 the top, anything else a staircase (up on the ground floor,
/// down above it).
pub open spec fn open_door(s: MazeScreen, choice: u32) -> MazeScreen {
    if choice == 0 {
        MazeScreen { door_right: true, ..s }
    } else if choice == 1 {
        MazeScreen { door_top: true, ..s }
    } else if s.abs_tile_z == 0 {
        MazeScreen { door_up: true, ..s }
    } else {
        MazeScreen { door_down: true, ..s }
    }
}

/// The next screen after one laid out with doors `d`: it is entered through
/// the door just opened (right leads to the next screen's left, top to its
/// bottom, a staircase to the other floor, whose staircase goes back).
pub open spec fn next_screen(d: MazeScreen, choice: u32) -> MazeScreen {
    let created_z = choice != 0 && choice != 1;
    MazeScreen {
        screen_x: if choice == 0 { (d.screen_x + 1) as i32 } else { d.screen_x },
        screen_y: if choice == 1 { (d.screen_y + 1) as i32 } else { d.screen_y },
        abs_tile_z: if created_z { if d.abs_tile_z == 0 { 1 } else { 0 } } else { d.abs_tile_z },
        door_left: d.door_right,
        door_right: false,
        door_top: false,
        door_bottom: d.door_top,
        door_up: if created_z { !d.door_up } else { false },
        door_down: if created_z { !d.door_down } else { false },
    }
}

/// The value of a tile of a screen laid out with doors `d`: the border is
/// wall except for open doors in the middle of a side, and the staircase
/// tile holds the open staircase.
pub open spec fn maze_tile_value(d: MazeScreen, tx: int, ty: int) -> u32 {
    let v0 = 0u32;
    let v1 = if tx == 0 { if d.door_left && ty == 4 { 0u32 } else { 1u32 } } else { v0 };
    let v2 = if tx == 16 { if d.door_right && ty == 4 { 0u32 } else { 1u32 } } else { v1 };
    let v3 = if ty == 0 { if d.door_bottom && tx == 8 { 0u32 } else { 1u32 } } else { v2 };
    let v4 = if ty == 8 { if d.door_top && tx == 8 { 0u32 } else { 1u32 } } else { v3 };
    if tx == 10 && ty == 6 {
        if d.door_down { 3u32 } else if d.door_up { 2u32 } else { v4 }
    } else {
        v4
    }
}

/// The tile at column `tx`, row `ty` of a screen laid out with doors `d`.
pub open spec fn maze_tile(d: MazeScreen, tx: int, ty: int) -> MazeTile {
    MazeTile {
        x: (d.screen_x * TILES_PER_SCREEN_X + tx) as i32,
        y: (d.screen_y * TILES_PER_SCREEN_Y + ty) as i32,
        z: d.abs_tile_z,
        value: maze_tile_value(d, tx, ty),
    }
}

/// The tiles of the first `n` rows of a screen, row by row.
pub open spec fn screen_rows(d: MazeScreen, n: int) -> Seq<MazeTile>
    decreases n,
{
    if n <= 0 {
        Seq::empty()
    } else {
        screen_rows(d, n - 1) + Seq::new(17, |tx: int| maze_tile(d, tx, n - 1))
    }
}

/// The random choice for screen `k`.
pub open spec fn maze_choice(random: Seq<u32>, k: int) -> u32 {
    random[MAZE_FIRST_RANDOM + k] % 2
}

/// The generator's position before screen `k`.
pub open spec fn maze_screen(random: Seq<u32>, k: nat) -> MazeScreen
    decreases k,
{
    if k == 0 {
        maze_start()
    } else {
        next_screen(
            open_door(maze_screen(random, (k - 1) as nat), maze_choice(random, k - 1)),
            maze_choice(random, k - 1),
        )
    }
}

/// The tiles of the first `k` screens, screen by screen.
pub open spec fn maze_tiles(random: Seq<u32>, k: nat) -> Seq<MazeTile>
    decreases k,
{
    if k == 0 {
        Seq::empty()
    } else {
        maze_tiles(random, (k - 1) as nat) + screen_rows(
            open_door(maze_screen(random, (k - 1) as nat), maze_choice(random, (k - 1) as int)),
            9,
        )
    }
}

/// Each screen moves right or up by at most one screen and stays on the
/// two floors.
pub proof fn lemma_maze_screen_bounds(random: Seq<u32>, k: nat)
    requires
        random.len() >= MAZE_FIRST_RANDOM + k,
        k <= MAZE_SCREEN_COUNT,
    ensures
        0 <= maze_screen(random, k).screen_x <= k,
        0 <= maze_screen(random, k).screen_y <= k,
        0 <= maze_screen(random, k).abs_tile_z <= 1,
    decreases k,
{
    if k > 0 {
        lemma_maze_screen_bounds(random, (k - 1) as nat);
    }
}

/// Screen `k`'s doors once its own door is opened.
pub open spec fn opened_screen(random: Seq<u32>, k: int) -> MazeScreen {
    open_door(maze_screen(random, k as nat), maze_choice(random, k))
}

/// A screen's rows hold its tiles row by row, 17 to a row.
pub proof fn lemma_screen_rows_index(d: MazeScreen, n: int)
    requires
        0 <= n,
    ensures
        screen_rows(d, n).len() == 17 * n,
        forall|j: int| 0 <= j < 17 * n ==> #[trigger] screen_rows(d, n)[j] == maze_tile(d, j % 17, j / 17),
    decreases n,
{
    if n > 0 {
        lemma_screen_rows_index(d, n - 1);
        assert forall|j: int| 0 <= j < 17 * n implies #[trigger] screen_rows(d, n)[j] == maze_tile(
            d,
            j % 17,
            j / 17,
        ) by {
            if j >= 17 * (n - 1) {
                assert(j / 17 == n - 1);
                assert(j % 17 == j - 17 * (n - 1));
            }
        }
    }
}

/// The maze's tiles come screen by screen, 153 to a screen.
pub proof fn lemma_maze_tiles_index(random: Seq<u32>, n: nat)
    ensures
        maze_tiles(random, n).len() == 153 * n,
        forall|k: int, j: int|
            0 <= k < n && 0 <= j < 153 ==> #[trigger] maze_tiles(random, n)[153 * k + j] == maze_tile(
                opened_screen(random, k),
                j % 17,
                j / 17,
            ),
    decreases n,
{
    if n > 0 {
        let m = (n - 1) as nat;
        lemma_maze_tiles_index(random, m);
        lemma_screen_rows_index(opened_screen(random, m as int), 9);
        assert forall|k: int, j: int|
            0 <= k < n && 0 <= j < 153 implies #[trigger] maze_tiles(random, n)[153 * k + j]
            == maze_tile(opened_screen(random, k), j % 17, j / 17) by {
            if k < m {
                assert(153 * k + j < 153 * m) by (nonlinear_arith)
                    requires
                        k < m,
                        j < 153,
                ;
                assert(maze_tiles(random, m)[153 * k + j] == maze_tile(opened_screen(random, k), j % 17, j / 17));
            } else {
                assert(k == m);
            }
        }
    }
}

/// Each screen's doors follow the random choices: for screen `k`, its right
/// wall is open in the middle row exactly when its own choice is even, its
/// top wall in the middle column exactly when its choice is odd; its left
/// wall is open exactly when the screen before it opened to the right, and
/// its bottom wall exactly when the screen before it opened at the top. The
/// first screen's left and bottom walls are closed.
pub proof fn lemma_maze_doors(random: Seq<u32>, n: nat, k: int)
    requires
        random.len() >= MAZE_FIRST_RANDOM + n,
        0 <= k < n,
    ensures
        (maze_tiles(random, n)[153 * k + 4 * 17 + 16].value == 0) <==> random[6 + k] % 2 == 0,
        (maze_tiles(random, n)[153 * k + 8 * 17 + 8].value == 0) <==> random[6 + k] % 2 == 1,
        (maze_tiles(random, n)[153 * k + 4 * 17].value == 0) <==> (k > 0 && random[6 + k - 1] % 2
            == 0),
        (maze_tiles(random, n)[153 * k + 8].value == 0) <==> (k > 0 && random[6 + k - 1] % 2 == 1),
{
    lemma_maze_tiles_index(random, n);
    let right: int = 84int;
    let top: int = 144int;
    assert(maze_tiles(random, n)[153 * k + right] == maze_tile(opened_screen(random, k), right % 17, right / 17));
    assert(maze_tiles(random, n)[153 * k + top] == maze_tile(opened_screen(random, k), top % 17, top / 17));
    assert(maze_tiles(random, n)[153 * k + 4 * 17 + 0] == maze_tile(opened_screen(random, k), 0, 4));
    assert(maze_tiles(random, n)[153 * k + 0 * 17 + 8] == maze_tile(opened_screen(random, k), 8, 0));
    let d = maze_screen(random, k as nat);
    assert(!d.door_right && !d.door_top);
    if k > 0 {
        let p = opened_screen(random, k - 1);
        assert(d.door_left == p.door_right);
        assert(d.door_bottom == p.door_top);
        assert(!maze_screen(random, (k - 1) as nat).door_right);
        assert(!maze_screen(random, (k - 1) as nat).door_top);
    }
}

/// With two-way choices the maze stays on the ground floor.
pub proof fn lemma_maze_ground_floor(random: Seq<u32>, k: nat)
    ensures
        maze_screen(random, k).abs_tile_z == 0,
    decreases k,
{
    if k > 0 {
        lemma_maze_ground_floor(random, (k - 1) as nat);
    }
}

/// The maze starts at tile (0, 0) on the ground floor and moves screen by
/// screen: the next screen lies 17 tiles to the right when the screen's
/// choice is even and 9 tiles up when it is odd; every tile is on the
/// ground floor.
pub proof fn lemma_maze_screens_advance(random: Seq<u32>, n: nat, k: int)
    requires
        random.len() >= MAZE_FIRST_RANDOM + n,
        n <= MAZE_SCREEN_COUNT,
        0 <= k,
        k + 1 < n,
    ensures
        maze_tiles(random, n)[0].x == 0 && maze_tiles(random, n)[0].y == 0,
        maze_tiles(random, n)[153 * (k + 1)].x == maze_tiles(random, n)[153 * k].x + if random[6 + k] % 2 == 0 {
            17int
        } else {
            0int
        },
        maze_tiles(random, n)[153 * (k + 1)].y == maze_tiles(random, n)[153 * k].y + if random[6 + k] % 2 == 1 {
            9int
        } else {
            0int
        },
        maze_tiles(random, n)[153 * k].z == 0,
{
    lemma_maze_tiles_index(random, n);
    lemma_maze_screen_bounds(random, (k + 1) as nat);
    lemma_maze_screen_bounds(random, k as nat);
    lemma_maze_ground_floor(random, k as nat);
    let d = maze_screen(random, k as nat);
    let d1 = maze_screen(random, (k + 1) as nat);
    assert(d1.screen_x == if random[6 + k] % 2 == 0 { d.screen_x + 1 } else { d.screen_x as int });
    assert(d1.screen_y == if random[6 + k] % 2 == 1 { d.screen_y + 1 } else { d.screen_y as int });
    let z: int = 0int;
    assert(maze_tiles(random, n)[153 * 0 + z] == maze_tile(opened_screen(random, 0), z % 17, z / 17));
    assert(maze_tiles(random, n)[153 * k + z] == maze_tile(opened_screen(random, k), z % 17, z / 17));
    assert(maze_tiles(random, n)[153 * (k + 1) + z] == maze_tile(opened_screen(random, k + 1), z % 17, z / 17));
    assert(153 * (k + 1) + z == 153 * (k + 1));
}

/// Lays out the maze of walls, floors and staircases, screen after screen,
/// from a table of random numbers; each screen uses one number, starting at
/// the seventh.
pub fn generate_maze(random: &[u32]) -> (r: Vec<MazeTile>)
    requires
        random@.len() >= MAZE_FIRST_RANDOM + MAZE_SCREEN_COUNT,
    ensures
        r@ == maze_tiles(random@, MAZE_SCREEN_COUNT as nat),
{
    let mut tiles: Vec<MazeTile> = Vec::new();
    let mut rand_index: usize = MAZE_FIRST_RANDOM;
    let mut screen = MazeScreen {
        screen_x: 0,
        screen_y: 0,
        abs_tile_z: 0,
        door_left: false,
        door_right: false,
        door_top: false,
        door_bottom: false,
        door_up: false,
        door_down: false,
    };
    let mut k: usize = 0;
    while k < MAZE_SCREEN_COUNT
        invariant
            random@.len() >= MAZE_FIRST_RANDOM + MAZE_SCREEN_COUNT,
            k <= MAZE_SCREEN_COUNT,
            rand_index == MAZE_FIRST_RANDOM + k,
            screen == maze_screen(random@, k as nat),
            tiles@ == maze_tiles(random@, k as nat),
        decreases MAZE_SCREEN_COUNT - k,
    {
        proof {
            lemma_maze_screen_bounds(random@, k as nat);
        }
        let random_choice = random[rand_index] % 2;
        rand_index = rand_index + 1;
        let mut created_z = false;
        if random_choice == 0 {
            screen.door_right = true;
        } else if random_choice == 1 {
            screen.door_top = true;
        } else {
            created_z = true;
            if screen.abs_tile_z == 0 {
                screen.door_up = true;
            } else {
                screen.door_down = true;
            }
        }
        let ghost d = screen;
        let ghost before = tiles@;
        let mut tile_y: i32 = 0;
        while tile_y < TILES_PER_SCREEN_Y
            invariant
                0 <= tile_y <= 9,
                0 <= d.screen_x <= 2000,
                0 <= d.screen_y <= 2000,
                screen == d,
                tiles@ == before + screen_rows(d, tile_y as int),
            decreases 9 - tile_y,
        {
            let mut tile_x: i32 = 0;
            while tile_x < TILES_PER_SCREEN_X
                invariant
                    0 <= tile_x <= 17,
                    0 <= tile_y < 9,
                    0 <= d.screen_x <= 2000,
                    0 <= d.screen_y <= 2000,
                    screen == d,
                    tiles@ == before + screen_rows(d, tile_y as int) + Seq::new(
                        17,
                        |tx: int| maze_tile(d, tx, tile_y as int),
                    ).take(tile_x as int),
                decreases 17 - tile_x,
            {
                let abs_tile_x = screen.screen_x * TILES_PER_SCREEN_X + tile_x;
                let abs_tile_y = screen.screen_y * TILES_PER_SCREEN_Y + tile_y;
                let mut tile_value: u32 = 0;
                if tile_x == 0 {
                    tile_value = 1;
                    if screen.door_left && tile_y == TILES_PER_SCREEN_Y / 2 {
                        tile_value = 0;
                    }
                }
                if tile_x == TILES_PER_SCREEN_X - 1 {
                    tile_value = 1;
                    if screen.door_right && tile_y == TILES_PER_SCREEN_Y / 2 {
                        tile_value = 0;
                    }
                }
                if tile_y == 0 {
                    tile_value = 1;
                    if screen.door_bottom && tile_x == TILES_PER_SCREEN_X / 2 {
                        tile_value = 0;
                    }
                }
                if tile_y == TILES_PER_SCREEN_Y - 1 {
                    tile_value = 1;
                    if screen.door_top && tile_x == TILES_PER_SCREEN_X / 2 {
                        tile_value = 0;
                    }
                }
                if tile_x == 10 && tile_y == 6 {
                    if screen.door_up {
                        tile_value = 2;
                    }
                    if screen.door_down {
                        tile_value = 3;
                    }
                }
                tiles.push(
                    MazeTile { x: abs_tile_x, y: abs_tile_y, z: screen.abs_tile_z, value: tile_value },
                );
                proof {
                    let row = Seq::new(17, |tx: int| maze_tile(d, tx, tile_y as int));
                    assert(row.take(tile_x + 1) =~= row.take(tile_x as int).push(row[tile_x as int]));
                    assert(tiles@ =~= before + screen_rows(d, tile_y as int) + row.take(tile_x + 1));
                }
                tile_x = tile_x + 1;
            }
            proof {
                let row = Seq::new(17, |tx: int| maze_tile(d, tx, tile_y as int));
                assert(row.take(17) =~= row);
                assert(screen_rows(d, tile_y + 1) == screen_rows(d, tile_y as int) + row);
                assert(tiles@ =~= before + screen_rows(d, tile_y + 1));
            }
            tile_y = tile_y + 1;
        }
        screen.door_bottom = screen.door_top;
        screen.door_left = screen.door_right;
        if created_z {
            screen.door_up = !screen.door_up;
            screen.door_down = !screen.door_down;
        } else {
            screen.door_up = false;
            screen.door_down = false;
        }
        screen.door_top = false;
        screen.door_right = false;
        if random_choice == 0 {
            screen.screen_x = screen.screen_x + 1;
        } else if random_choice == 1 {
            screen.screen_y = screen.screen_y + 1;
        } else if screen.abs_tile_z == 0 {
            screen.abs_tile_z = 1;
        } else {
            screen.abs_tile_z = 0;
        }
        k = k + 1;
    }
    tiles
}

impl GameState {
    /// A fresh game state over an arena for the world: an empty world, no
    /// stored entities, no heroes, no collision rules, the camera at the
    /// origin following nobody.
    pub fn new(world_arena: MemoryArena) -> (r: GameState)
        ensures
            r.wf(),
            r.world_arena == world_arena,
            r.lf_entity_count == 0,
            r.camera_follows_entity_index is None,
            r.camera_position == (WorldPosition { chunk_x: 0, chunk_y: 0, chunk_z: 0 }),
            forall|c: int| 0 <= c < 5 ==> #[trigger] r.controlled_heroes@[c] is None,
            forall|k: (i32, i32, i32)| #[trigger] r.world.entities(k) == Multiset::<usize>::empty(),
            forall|p: (usize, usize)| #[trigger] r.pair_collision_rules.rule_for(p) == None::<bool>,
    {
        let r = GameState {
            world_arena,
            world: World::new(),
            camera_follows_entity_index: None,
            camera_position: WorldPosition { chunk_x: 0, chunk_y: 0, chunk_z: 0 },
            controlled_heroes: [None, None, None, None, None],
            lf_entity_count: 0,
            lf_entities: Vec::new(),
            pair_collision_rules: PairCollisionTable::new(),
        };
        r
    }

    /// Whether a new entity can be stored at `pos` right now.
    pub fn can_add(&self, pos: Option<WorldPosition>) -> (r: bool)
        requires
            self.wf(),
        ensures
            r == can_add_entity(*self, pos),
    {
        if self.lf_entity_count >= LF_ENTITY_MAX {
            return false;
        }
        if let Some(p) = pos {
            if !(-WORLD_BORDER_CHUNKS < p.chunk_x && p.chunk_x < WORLD_BORDER_CHUNKS
                && -WORLD_BORDER_CHUNKS < p.chunk_y && p.chunk_y < WORLD_BORDER_CHUNKS
                && -WORLD_BORDER_CHUNKS < p.chunk_z && p.chunk_z < WORLD_BORDER_CHUNKS) {
                return false;
            }
        }
        let need = self.world.bytes_for_move(self.lf_entity_count, None, pos);
        let used = self.world_arena.used();
        let size = self.world_arena.size();
        (used as u128) + need <= size as u128
    }
}

/// The storage indices from `from` up to `to` of entities placed in the
/// chunk with coordinates `k`.
pub open spec fn placed_indices(lf: Seq<LfEntity>, from: int, to: int, k: (i32, i32, i32)) -> Multiset<usize>
    decreases to - from,
{
    if to <= from {
        Multiset::empty()
    } else {
        placed_indices(lf, from, to - 1, k).add(
            if lf[to - 1].world_position matches Some(p) && pos_key(p) == k {
                Multiset::singleton((to - 1) as usize)
            } else {
                Multiset::empty()
            },
        )
    }
}

/// Whether a maze tile is a wall.
pub open spec fn wall_pred() -> spec_fn(MazeTile) -> bool {
    |t: MazeTile| t.value == 1
}

/// The wall tiles of a maze layout, in order.
pub open spec fn maze_walls(tiles: Seq<MazeTile>) -> Seq<MazeTile> {
    tiles.filter(wall_pred())
}

/// The walls among the first `i` tiles are the first walls of the layout.
pub proof fn lemma_walls_prefix(tiles: Seq<MazeTile>, i: int)
    requires
        0 <= i <= tiles.len(),
    ensures
        tiles.take(i).filter(wall_pred()).len() <= maze_walls(tiles).len(),
        maze_walls(tiles).take(tiles.take(i).filter(wall_pred()).len() as int) == tiles.take(i).filter(wall_pred()),
{
    assert(tiles =~= tiles.take(i) + tiles.skip(i));
    Seq::filter_distributes_over_add(tiles.take(i), tiles.skip(i), wall_pred());
    let a = tiles.take(i).filter(wall_pred());
    let b = tiles.skip(i).filter(wall_pred());
    assert((a + b).take(a.len() as int) =~= a);
}

/// The tile the camera starts on.
pub open spec fn camera_tile() -> (i32, i32, i32) {
    (8, 4, 0)
}

/// What populating the world from a layout did, up to `placed` walls and
/// `extra` further entities: each placed entity was appended to the storage
/// and put into its chunk.
pub open spec fn populated(before: GameState, after: GameState, n: int) -> bool {
    &&& after.wf()
    &&& after.lf_entity_count == before.lf_entity_count + n
    &&& after.lf_entities@.take(before.lf_entity_count as int) == before.lf_entities@
    &&& forall|k: (i32, i32, i32)| #[trigger] after.world.entities(k) == before.world.entities(k).add(
        placed_indices(after.lf_entities@, before.lf_entity_count as int, after.lf_entity_count as int, k),
    )
    &&& after.pair_collision_rules == before.pair_collision_rules
    &&& after.controlled_heroes == before.controlled_heroes
}

/// Where the entity numbered `n` of a world built from a layout with the
/// given walls goes: the walls in order, then the monster, then the familiar.
pub open spec fn populating_position(walls: Seq<MazeTile>, n: int) -> WorldPosition {
    if n < walls.len() {
        tile_chunk_pos(walls[n].x, walls[n].y, walls[n].z)
    } else if n == walls.len() {
        tile_chunk_pos(10, 6, 0)
    } else {
        tile_chunk_pos(6, 6, 0)
    }
}

/// Builds the world from a maze layout: a wall entity for each wall tile,
/// in order, then the camera on its starting tile, a monster two tiles up
/// and right of it and a familiar two tiles up and left. Stops with `Err`
/// and the number of entities placed when the next one does not fit (the
/// storage is full or the arena lacks room).
pub fn initialize_world(state: &mut GameState, tiles: &Vec<MazeTile>) -> (r: Result<(), usize>)
    requires
        old(state).wf(),
    ensures
        ({
            let walls = maze_walls(tiles@);
            let base = old(state).lf_entity_count as int;
            match r {
                Ok(()) => {
                    &&& populated(*old(state), *final(state), walls.len() as int + 2)
                    &&& forall|j: int| 0 <= j < walls.len() ==> is_new_entity(
                        #[trigger] final(state).lf_entities@[base + j],
                        EntityType::Wall,
                        Some(tile_chunk_pos(walls[j].x, walls[j].y, walls[j].z)),
                        ENTITY_FLAG_COLLIDES,
                        0,
                    )
                    &&& final(state).camera_position == tile_chunk_pos(8, 4, 0)
                    &&& is_new_entity(final(state).lf_entities@[base + walls.len()], EntityType::Monster, Some(tile_chunk_pos(10, 6, 0)), ENTITY_FLAG_COLLIDES, 3)
                    &&& is_new_entity(final(state).lf_entities@[base + walls.len() + 1], EntityType::Familiar, Some(tile_chunk_pos(6, 6, 0)), 0, 0)
                },
                Err(placed) => {
                    &&& placed < walls.len() + 2
                    &&& populated(*old(state), *final(state), placed as int)
                    &&& !can_add_entity(*final(state), Some(populating_position(walls, placed as int)))
                },
            }
        }),
{
    let ghost walls = maze_walls(tiles@);
    let ghost start = *state;
    let ghost base = state.lf_entity_count as int;
    let mut placed: usize = 0;
    let mut i: usize = 0;
    proof {
        reveal(Seq::filter);
        assert(tiles@.take(0) =~= Seq::<MazeTile>::empty());
        assert(tiles@.take(0).filter(wall_pred()) =~= Seq::<MazeTile>::empty());
        assert(state.lf_entities@.take(base) =~= start.lf_entities@);
        assert forall|k: (i32, i32, i32)| #[trigger] state.world.entities(k) == start.world.entities(k).add(
            placed_indices(state.lf_entities@, base, state.lf_entity_count as int, k)) by {
            assert(start.world.entities(k).add(Multiset::empty()) =~= start.world.entities(k));
        }
    }
    while i < tiles.len()
        invariant
            0 <= i <= tiles@.len(),
            start == *old(state),
            walls == maze_walls(tiles@),
            base == start.lf_entity_count,
            placed == tiles@.take(i as int).filter(wall_pred()).len(),
            populated(start, *state, placed as int),
            forall|j: int| 0 <= j < placed ==> is_new_entity(
                #[trigger] state.lf_entities@[base + j],
                EntityType::Wall,
                Some(tile_chunk_pos(walls[j].x, walls[j].y, walls[j].z)),
                ENTITY_FLAG_COLLIDES,
                0,
            ),
            tiles@.take(i as int).filter(wall_pred()) == walls.take(placed as int),
        decreases tiles@.len() - i,
    {
        let t = tiles[i];
        proof {
            let pre = tiles@.take(i as int);
            assert(tiles@.take(i + 1) =~= pre.push(t));
            reveal(Seq::filter);
            assert(pre.push(t).drop_last() =~= pre);
            lemma_walls_prefix(tiles@, i + 1);
            lemma_walls_prefix(tiles@, i as int);
            if t.value == 1 {
                assert(walls.take(placed + 1) == walls.take(placed as int).push(t));
                assert(walls.take(placed + 1)[placed as int] == walls[placed as int]);
                assert(walls[placed as int] == t);
            }
        }
        if t.value == 1 {
            let (pos, _, _) = world_pos_from_tile(&state.world, t.x, t.y, t.z);
            if !state.can_add(Some(pos)) {
                assert(placed <= walls.len());
                assert(populated(start, *state, placed as int));
                return Err(placed);
            }
            let ghost before = *state;
            add_wall(state, t.x, t.y, t.z);
            placed = placed + 1;
            proof {
                assert forall|j: int| 0 <= j < placed implies is_new_entity(
                    #[trigger] state.lf_entities@[base + j],
                    EntityType::Wall,
                    Some(tile_chunk_pos(walls[j].x, walls[j].y, walls[j].z)),
                    ENTITY_FLAG_COLLIDES,
                    0,
                ) by {
                    if j < placed - 1 {
                        assert(state.lf_entities@[base + j] == before.lf_entities@[base + j]);
                    }
                }
                assert(state.lf_entities@.take(base) =~= start.lf_entities@);
                assert forall|k: (i32, i32, i32)| #[trigger] state.world.entities(k) == start.world.entities(k).add(
                    placed_indices(state.lf_entities@, base, state.lf_entity_count as int, k)) by {
                    lemma_placed_indices_prefix(before.lf_entities@, state.lf_entities@, base, before.lf_entity_count as int, k);
                }
            }
        }
        i = i + 1;
    }
    proof {
        assert(tiles@.take(tiles@.len() as int) =~= tiles@);
        lemma_walls_prefix(tiles@, tiles@.len() as int);
    }
    let (camera_pos, _, _) = world_pos_from_tile(&state.world, 8, 4, 0);
    state.camera_position = camera_pos;
    let (monster_pos, _, _) = world_pos_from_tile(&state.world, 10, 6, 0);
    if !state.can_add(Some(monster_pos)) {
        assert(placed == walls.len());
        return Err(placed);
    }
    let ghost before_monster = *state;
    add_monster(state, 10, 6, 0);
    proof {
        assert(state.lf_entities@.take(base) =~= start.lf_entities@);
        assert forall|k: (i32, i32, i32)| #[trigger] state.world.entities(k) == start.world.entities(k).add(
            placed_indices(state.lf_entities@, base, state.lf_entity_count as int, k)) by {
            lemma_placed_indices_prefix(before_monster.lf_entities@, state.lf_entities@, base, before_monster.lf_entity_count as int, k);
        }
    }
    let (familiar_pos, _, _) = world_pos_from_tile(&state.world, 6, 6, 0);
    if !state.can_add(Some(familiar_pos)) {
        assert(placed + 1 == walls.len() + 1);
        return Err(placed + 1);
    }
    let ghost before_familiar = *state;
    add_familiar(state, 6, 6, 0);
    proof {
        assert(state.lf_entities@.take(base) =~= start.lf_entities@);
        assert forall|k: (i32, i32, i32)| #[trigger] state.world.entities(k) == start.world.entities(k).add(
            placed_indices(state.lf_entities@, base, state.lf_entity_count as int, k)) by {
            lemma_placed_indices_prefix(before_familiar.lf_entities@, state.lf_entities@, base, before_familiar.lf_entity_count as int, k);
        }
    }
    Ok(())
}

/// Placed indices only depend on the entities in their range.
pub proof fn lemma_placed_indices_prefix(a: Seq<LfEntity>, b: Seq<LfEntity>, from: int, to: int, k: (i32, i32, i32))
    requires
        0 <= from <= to <= a.len() <= b.len(),
        forall|i: int| from <= i < to ==> a[i] == b[i],
    ensures
        placed_indices(a, from, to, k) == placed_indices(b, from, to, k),
    decreases to - from,
{
    if to > from {
        lemma_placed_indices_prefix(a, b, from, to - 1, k);
    }
}

/// What a controller asks of the hero it drives this frame: movement from
/// the d-pad keys when the controller is not analog (the later of two
/// opposite keys wins), the sword's direction from the action keys (the last
/// one held wins) and a jump from start.
pub open spec fn hero_request(entity_index: usize, c: ControllerInput) -> ControlledHero {
    let ay = if c.move_down.ended_down { -1i32 } else if c.move_up.ended_down { 1i32 } else { 0i32 };
    let ax = if c.move_right.ended_down { 1i32 } else if c.move_left.ended_down { -1i32 } else { 0i32 };
    let sword = if c.action_right.ended_down {
        V2 { x: 1i32, y: 0i32 }
    } else if c.action_left.ended_down {
        V2 { x: -1i32, y: 0i32 }
    } else if c.action_down.ended_down {
        V2 { x: 0i32, y: -1i32 }
    } else if c.action_up.ended_down {
        V2 { x: 0i32, y: 1i32 }
    } else {
        V2 { x: 0i32, y: 0i32 }
    };
    ControlledHero {
        entity_index,
        acc: if c.average_x_present && c.average_y_present { V2 { x: 0i32, y: 0i32 } } else { V2 { x: ax, y: ay } },
        d_sword: sword,
        d_z: if c.start.ended_down { 3i32 } else { 0i32 },
    }
}

/// What a controller asks of its hero: the hero keeps its storage index;
/// a digital controller asks to go up (+1) while up is held without down,
/// down (-1) while down is held, right (+1) while right is held, left (-1)
/// while left is held without right, and not at all along an axis with
/// neither key; an analog controller asks nothing digital. The sword goes
/// right, left, down or up as those action keys are held, the earlier in
/// that list winning; start asks for a jump of 3.
pub proof fn lemma_hero_request_directions(i: usize, c: ControllerInput)
    ensures
        hero_request(i, c).entity_index == i,
        !(c.average_x_present && c.average_y_present) ==> {
            &&& c.move_down.ended_down ==> hero_request(i, c).acc.y == -1
            &&& c.move_up.ended_down && !c.move_down.ended_down ==> hero_request(i, c).acc.y == 1
            &&& !c.move_up.ended_down && !c.move_down.ended_down ==> hero_request(i, c).acc.y == 0
            &&& c.move_right.ended_down ==> hero_request(i, c).acc.x == 1
            &&& c.move_left.ended_down && !c.move_right.ended_down ==> hero_request(i, c).acc.x == -1
            &&& !c.move_left.ended_down && !c.move_right.ended_down ==> hero_request(i, c).acc.x == 0
        },
        c.average_x_present && c.average_y_present ==> hero_request(i, c).acc.x == 0
            && hero_request(i, c).acc.y == 0,
        c.action_right.ended_down ==> hero_request(i, c).d_sword.x == 1 && hero_request(i, c).d_sword.y == 0,
        c.action_left.ended_down && !c.action_right.ended_down ==> hero_request(i, c).d_sword.x == -1
            && hero_request(i, c).d_sword.y == 0,
        c.action_down.ended_down && !c.action_left.ended_down && !c.action_right.ended_down
            ==> hero_request(i, c).d_sword.x == 0 && hero_request(i, c).d_sword.y == -1,
        c.action_up.ended_down && !c.action_down.ended_down && !c.action_left.ended_down
            && !c.action_right.ended_down ==> hero_request(i, c).d_sword.x == 0 && hero_request(i, c).d_sword.y == 1,
        !c.action_up.ended_down && !c.action_down.ended_down && !c.action_left.ended_down
            && !c.action_right.ended_down ==> hero_request(i, c).d_sword.x == 0 && hero_request(i, c).d_sword.y == 0,
        c.start.ended_down <==> hero_request(i, c).d_z == 3,
        !c.start.ended_down ==> hero_request(i, c).d_z == 0,
{
}

/// Reads a hero's request for this frame from its controller, starting
/// from nothing but the hero's storage index.
pub fn process_hero_input(hero: &mut ControlledHero, controller: &ControllerInput)
    ensures
        *final(hero) == hero_request(old(hero).entity_index, *controller),
{
    let saved_index = hero.entity_index;
    *hero = ControlledHero {
        entity_index: saved_index,
        acc: V2 { x: 0, y: 0 },
        d_sword: V2 { x: 0, y: 0 },
        d_z: 0,
    };
    if !controller.is_analog() {
        if controller.move_up.ended_down {
            hero.acc.y = 1;
        }
        if controller.move_down.ended_down {
            hero.acc.y = -1;
        }
        if controller.move_left.ended_down {
            hero.acc.x = -1;
        }
        if controller.move_right.ended_down {
            hero.acc.x = 1;
        }
    }
    if controller.action_up.ended_down {
        hero.d_sword = V2 { x: 0, y: 1 };
    }
    if controller.action_down.ended_down {
        hero.d_sword = V2 { x: 0, y: -1 };
    }
    if controller.action_left.ended_down {
        hero.d_sword = V2 { x: -1, y: 0 };
    }
    if controller.action_right.ended_down {
        hero.d_sword = V2 { x: 1, y: 0 };
    }
    if controller.start.ended_down {
        hero.d_z = 3;
    }
}

/// The last controller without a hero whose start button is down.
pub open spec fn player_to_add(heroes: Seq<Option<ControlledHero>>, controllers: Seq<ControllerInput>, n: int) -> Option<int>
    decreases n,
{
    if n <= 0 {
        None
    } else if heroes[n - 1] is None && controllers[n - 1].start.ended_down {
        Some(n - 1)
    } else {
        player_to_add(heroes, controllers, n - 1)
    }
}

/// The controller that gets a new hero has none and is among the first `n`.
pub proof fn lemma_player_to_add(heroes: Seq<Option<ControlledHero>>, controllers: Seq<ControllerInput>, n: int)
    ensures
        player_to_add(heroes, controllers, n) matches Some(i) ==> 0 <= i < n && heroes[i] is None,
    decreases n,
{
    if n > 0 {
        lemma_player_to_add(heroes, controllers, n - 1);
    }
}

/// Updates the heroes the controllers drive for this frame: a driven hero
/// takes its controller's request, and the last controller without a hero
/// whose start button is down gets a new hero (see `add_player`), with no
/// request yet.
pub fn update_controlled_heroes(state: &mut GameState, controllers: &[ControllerInput; 5]) -> (r: Option<usize>)
    requires
        player_to_add(old(state).controlled_heroes@, controllers@, 5) is Some ==> {
            &&& can_add_entity(*old(state), Some(old(state).camera_position))
            &&& old(state).lf_entity_count + 2 <= LF_ENTITY_MAX
        },
        old(state).wf(),
    ensures
        final(state).wf(),
        ({
            let add = player_to_add(old(state).controlled_heroes@, controllers@, 5);
            &&& r == match add {
                Some(_) => Some(old(state).lf_entity_count),
                None => None::<usize>,
            }
            &&& forall|c: int| 0 <= c < 5 ==> #[trigger] final(state).controlled_heroes@[c] == match old(state).controlled_heroes@[c] {
                Some(h) => Some(hero_request(h.entity_index, controllers@[c])),
                None => if add == Some(c) {
                    Some(ControlledHero {
                        entity_index: old(state).lf_entity_count,
                        acc: V2 { x: 0i32, y: 0i32 },
                        d_sword: V2 { x: 0i32, y: 0i32 },
                        d_z: 0,
                    })
                } else {
                    None::<ControlledHero>
                },
            }
            &&& add is Some ==> player_added(*old(state), *final(state))
            &&& add is None ==> *final(state) == (GameState {
                controlled_heroes: final(state).controlled_heroes,
                ..*old(state)
            })
        }),
{
    let ghost heroes0 = state.controlled_heroes@;
    let mut to_add: Option<usize> = None;
    let mut c: usize = 0;
    while c < MAX_CONTROLLERS
        invariant
            0 <= c <= 5,
            state.wf(),
            *state == (GameState { controlled_heroes: state.controlled_heroes, ..*old(state) }),
            state.controlled_heroes@.len() == 5,
            heroes0 == old(state).controlled_heroes@,
            to_add == match player_to_add(heroes0, controllers@, c as int) {
                Some(i) => Some(i as usize),
                None => None::<usize>,
            },
            forall|k: int| 0 <= k < 5 ==> #[trigger] state.controlled_heroes@[k] == if k < c {
                match heroes0[k] {
                    Some(h) => Some(hero_request(h.entity_index, controllers@[k])),
                    None => None::<ControlledHero>,
                }
            } else {
                heroes0[k]
            },
        decreases 5 - c,
    {
        let controller = &controllers[c];
        match state.controlled_heroes[c] {
            Some(h) => {
                let mut hero = h;
                process_hero_input(&mut hero, controller);
                state.controlled_heroes.set(c, Some(hero));
            },
            None => {
                if controller.start.ended_down {
                    to_add = Some(c);
                }
            },
        }
        c = c + 1;
    }
    proof {
        lemma_player_to_add(heroes0, controllers@, 5);
    }
    match to_add {
        Some(idx) => {
            let ghost before = *state;
            let e_index = add_player(state);
            proof {
                assert(player_added(before, *state));
            }
            state.controlled_heroes.set(
                idx,
                Some(ControlledHero {
                    entity_index: e_index,
                    acc: V2 { x: 0, y: 0 },
                    d_sword: V2 { x: 0, y: 0 },
                    d_z: 0,
                }),
            );
            Some(e_index)
        },
        None => None,
    }
}

/// Slots in the table of pair collision rules.
pub const PAIR_COLLISION_RULE_COUNT: usize = 256;

/// Whether two stored entities, `storage_index_a <= storage_index_b`, may
/// collide; `next_rule` links to the next rule of the same table slot.
#[derive(Clone, Copy, PartialEq, Eq, Structural)]
pub struct PairCollisionRule {
    pub storage_index_a: usize,
    pub storage_index_b: usize,
    pub should_collide: bool,
    pub next_rule: Option<usize>,
}

/// The table slot of a rule whose smaller storage index is `a`.
pub open spec fn rule_slot_of(a: usize) -> int {
    (a & 255usize) as int
}

/// A rule's pair of storage indices.
pub open spec fn rule_pair(r: PairCollisionRule) -> (usize, usize) {
    (r.storage_index_a, r.storage_index_b)
}

/// The pair collision rules: a hash table on the smaller storage index,
/// chaining the rules of each slot.
pub struct PairCollisionTable {
    pub heads: Vec<Option<usize>>,
    pub rules: Vec<PairCollisionRule>,
}

impl PairCollisionTable {
    /// The slot of each rule, in storage order.
    pub open spec fn slots(&self) -> Seq<int> {
        self.rules@.map_values(|r: PairCollisionRule| rule_slot_of(r.storage_index_a))
    }

    /// The link of each rule, in storage order.
    pub open spec fn nexts(&self) -> Seq<Option<usize>> {
        self.rules@.map_values(|r: PairCollisionRule| r.next_rule)
    }

    /// The table's shape: every rule is chained in its slot, newest first,
    /// and no pair has two rules.
    pub open spec fn wf(&self) -> bool {
        &&& self.heads@.len() == PAIR_COLLISION_RULE_COUNT
        &&& stacks_wf(self.heads@, self.nexts(), self.slots())
        &&& forall|i: int, j: int|
            0 <= i < self.rules@.len() && 0 <= j < self.rules@.len() && i != j ==> rule_pair(
                #[trigger] self.rules@[i],
            ) != rule_pair(#[trigger] self.rules@[j])
    }

    /// Whether the pair has a rule.
    pub open spec fn has_rule(&self, pair: (usize, usize)) -> bool {
        exists|i: int| 0 <= i < self.rules@.len() && rule_pair(#[trigger] self.rules@[i]) == pair
    }

    /// The storage position of the pair's rule.
    pub open spec fn rule_index(&self, pair: (usize, usize)) -> int {
        choose|i: int| 0 <= i < self.rules@.len() && rule_pair(#[trigger] self.rules@[i]) == pair
    }

    /// The decision the table holds for the pair, if any.
    pub open spec fn rule_for(&self, pair: (usize, usize)) -> Option<bool> {
        if self.has_rule(pair) {
            Some(self.rules@[self.rule_index(pair)].should_collide)
        } else {
            None
        }
    }

    /// A rule is found at its own storage position.
    pub proof fn lemma_rule_index(&self, i: int)
        requires
            self.wf(),
            0 <= i < self.rules@.len(),
        ensures
            self.has_rule(rule_pair(self.rules@[i])),
            self.rule_index(rule_pair(self.rules@[i])) == i,
    {
        let k = rule_pair(self.rules@[i]);
        assert(self.has_rule(k));
        let j = self.rule_index(k);
        assert(rule_pair(self.rules@[j]) == k);
    }

    /// An empty table.
    pub fn new() -> (r: PairCollisionTable)
        ensures
            r.wf(),
            forall|p: (usize, usize)| #[trigger] r.rule_for(p) == None::<bool>,
    {
        let mut heads: Vec<Option<usize>> = Vec::new();
        let mut i: usize = 0;
        while i < PAIR_COLLISION_RULE_COUNT
            invariant
                i <= PAIR_COLLISION_RULE_COUNT,
                heads@.len() == i,
                forall|s: int| 0 <= s < i ==> heads@[s] == None::<usize>,
            decreases PAIR_COLLISION_RULE_COUNT - i,
        {
            heads.push(None);
            i = i + 1;
        }
        let r = PairCollisionTable { heads, rules: Vec::new() };
        assert(r.slots() =~= Seq::<int>::empty());
        assert(r.nexts() =~= Seq::<Option<usize>>::empty());
        r
    }

    /// Looks the rule of pair `(a, b)` up in slot `a & 255`, from the
    /// slot's newest rule down. Gives its position when it exists.
    fn find_rule(&self, a: usize, b: usize) -> (r: Option<usize>)
        requires
            self.wf(),
        ensures
            match r {
                Some(i) => i < self.rules@.len() && rule_pair(self.rules@[i as int]) == (a, b),
                None => !self.has_rule((a, b)),
            },
    {
        let ghost s = rule_slot_of(a);
        let ghost slots = self.slots();
        let ghost len = self.rules@.len() as int;
        assert(a & 255usize < 256usize) by (bit_vector);
        let slot = a & 255usize;
        proof {
            lemma_prev_in_slot(slots, s, len);
        }
        let mut cur = match self.heads[slot] {
            None => {
                assert(!self.has_rule((a, b))) by {
                    if self.has_rule((a, b)) {
                        let k = self.rule_index((a, b));
                        assert(slots[k] == rule_slot_of(self.rules@[k].storage_index_a));
                    }
                }
                return None;
            },
            Some(first) => first,
        };
        loop
            invariant
                self.wf(),
                slots == self.slots(),
                len == self.rules@.len(),
                s == rule_slot_of(a),
                cur < len,
                slots[cur as int] == s,
                forall|k: int|
                    cur < k < len && slots[k] == s ==> rule_pair(#[trigger] self.rules@[k]) != (a, b),
            decreases cur,
        {
            let r = &self.rules[cur];
            if r.storage_index_a == a && r.storage_index_b == b {
                return Some(cur);
            }
            proof {
                lemma_prev_in_slot(slots, s, cur as int);
                assert(self.nexts()[cur as int] == r.next_rule);
            }
            match r.next_rule {
                Some(n) => {
                    cur = n;
                },
                None => {
                    assert(!self.has_rule((a, b))) by {
                        if self.has_rule((a, b)) {
                            let k = self.rule_index((a, b));
                            assert(slots[k] == rule_slot_of(self.rules@[k].storage_index_a));
                        }
                    }
                    return None;
                },
            }
        }
    }
}

/// The pair of storage indices in increasing order.
pub open spec fn sorted_pair(a: usize, b: usize) -> (usize, usize) {
    if a > b {
        (b, a)
    } else {
        (a, b)
    }
}

/// Whether two entities collide: the table's rule for their pair when it
/// has one, else whether they are two different entities both in space.
pub open spec fn should_collide_spec(
    table: PairCollisionTable,
    a_storage_index: usize,
    a_spatial: bool,
    b_storage_index: usize,
    b_spatial: bool,
) -> bool {
    match table.rule_for(sorted_pair(a_storage_index, b_storage_index)) {
        Some(c) => c,
        None => a_storage_index != b_storage_index && a_spatial && b_spatial,
    }
}

/// Records that the two stored entities do (or do not) collide. A pair that
/// already has a rule keeps it as it is; a new rule takes room for one rule
/// from the arena and becomes the head of its slot, linked to the old head.
pub fn add_collision_rule(
    arena: &mut MemoryArena,
    table: &mut PairCollisionTable,
    a: usize,
    b: usize,
    collide: bool,
)
    requires
        old(table).wf(),
        !old(table).has_rule(sorted_pair(a, b)) ==> old(arena).arena_used() + size_of::<
            Option<PairCollisionRule>,
        >() <= old(arena).arena_size(),
    ensures
        final(table).wf(),
        ({
            let p = sorted_pair(a, b);
            let slot = rule_slot_of(p.0);
            if old(table).has_rule(p) {
                *final(table) == *old(table)
            } else {
                &&& final(table).heads@ == old(table).heads@.update(
                    slot,
                    Some(old(table).rules@.len() as usize),
                )
                &&& final(table).rules@ == old(table).rules@.push(
                    PairCollisionRule {
                        storage_index_a: p.0,
                        storage_index_b: p.1,
                        should_collide: collide,
                        next_rule: old(table).heads@[slot],
                    },
                )
            }
        }),
        final(table).rule_for(sorted_pair(a, b)) == match old(table).rule_for(sorted_pair(a, b)) {
            Some(c) => Some(c),
            None => Some(collide),
        },
        forall|p: (usize, usize)|
            p != sorted_pair(a, b) ==> #[trigger] final(table).rule_for(p) == old(table).rule_for(p),
        final(arena).arena_size() == old(arena).arena_size(),
        final(arena).arena_used() == old(arena).arena_used() + if old(table).has_rule(
            sorted_pair(a, b),
        ) {
            0
        } else {
            size_of::<Option<PairCollisionRule>>()
        },
{
    let mut a = a;
    let mut b = b;
    if a > b {
        let temp = a;
        a = b;
        b = temp;
    }
    let ghost old_table = *table;
    match table.find_rule(a, b) {
        Some(i) => {
            proof {
                table.lemma_rule_index(i as int);
            }
        },
        None => {
            arena.push_struct::<Option<PairCollisionRule>>();
            let n = table.rules.len();
            assert(a & 255usize < 256usize) by (bit_vector);
            let slot = a & 255usize;
            let old_head = table.heads[slot];
            proof {
                lemma_stacks_push(table.heads@, table.nexts(), table.slots(), slot as int);
            }
            table.rules.push(
                PairCollisionRule {
                    storage_index_a: a,
                    storage_index_b: b,
                    should_collide: collide,
                    next_rule: old_head,
                },
            );
            table.heads.set(slot, Some(n));
            proof {
                assert(table.slots() =~= old_table.slots().push(slot as int));
                assert(table.nexts() =~= old_table.nexts().push(old_head));
                assert forall|i: int, j: int|
                    0 <= i < table.rules@.len() && 0 <= j < table.rules@.len() && i
                        != j implies rule_pair(#[trigger] table.rules@[i]) != rule_pair(
                    #[trigger] table.rules@[j],
                ) by {
                    if i < n {
                        assert(old_table.has_rule(rule_pair(old_table.rules@[i])));
                    }
                    if j < n {
                        assert(old_table.has_rule(rule_pair(old_table.rules@[j])));
                    }
                }
                assert(table.wf());
                table.lemma_rule_index(n as int);
                assert forall|p: (usize, usize)| p != (a, b) implies #[trigger] table.rule_for(p)
                    == old_table.rule_for(p) by {
                    if old_table.has_rule(p) {
                        let i = old_table.rule_index(p);
                        old_table.lemma_rule_index(i);
                        table.lemma_rule_index(i);
                    }
                    if table.has_rule(p) {
                        let j = table.rule_index(p);
                        table.lemma_rule_index(j);
                        if j < n {
                            old_table.lemma_rule_index(j);
                        }
                    }
                }
            }
        },
    }
}

/// Whether two entities should collide. The rule table decides for a pair
/// it holds; otherwise an entity never collides with itself, and two
/// entities collide when both are in space.
pub fn should_collide(
    table: &PairCollisionTable,
    a_storage_index: usize,
    a_spatial: bool,
    b_storage_index: usize,
    b_spatial: bool,
) -> (r: bool)
    requires
        table.wf(),
    ensures
        r == should_collide_spec(*table, a_storage_index, a_spatial, b_storage_index, b_spatial),
{
    let (first, second) = if a_storage_index > b_storage_index {
        (b_storage_index, a_storage_index)
    } else {
        (a_storage_index, b_storage_index)
    };
    let mut res = true;
    if first == second {
        res = false;
    }
    if !a_spatial || !b_spatial {
        res = false;
    }
    match table.find_rule(first, second) {
        Some(i) => {
            proof {
                table.lemma_rule_index(i as int);
            }
            res = table.rules[i].should_collide;
        },
        None => {},
    }
    res
}

/// The place of an entity kind in the order the kinds are declared in.
pub open spec fn entity_type_rank(t: EntityType) -> int {
    match t {
        EntityType::Hero => 0,
        EntityType::Wall => 1,
        EntityType::Monster => 2,
        EntityType::Familiar => 3,
        EntityType::Sword => 4,
    }
}

/// The place of an entity kind in the order the kinds are declared in.
fn entity_type_order(t: EntityType) -> (r: u8)
    ensures
        r == entity_type_rank(t),
{
    match t {
        EntityType::Hero => 0,
        EntityType::Wall => 1,
        EntityType::Monster => 2,
        EntityType::Familiar => 3,
        EntityType::Sword => 4,
    }
}

/// An entity after a hit: one hit point fewer, if it has any.
pub open spec fn entity_after_hit(e: LfEntity) -> LfEntity {
    LfEntity {
        max_hitpoints: if e.max_hitpoints > 0 {
            (e.max_hitpoints - 1) as u32
        } else {
            0
        },
        ..e
    }
}

/// What a collision of a moving entity `a` with an entity `b` does: a
/// monster that meets a sword loses a hit point, if it has any, and the
/// mover stops unless it is a sword. Returns whether the mover stops.
pub fn handle_collision(a: &mut LfEntity, b: &mut LfEntity) -> (stops_on_collision: bool)
    ensures
        stops_on_collision == (old(a).etype != EntityType::Sword),
        *final(a) == if old(a).etype == EntityType::Monster && old(b).etype == EntityType::Sword {
            entity_after_hit(*old(a))
        } else {
            *old(a)
        },
        *final(b) == if old(b).etype == EntityType::Monster && old(a).etype == EntityType::Sword {
            entity_after_hit(*old(b))
        } else {
            *old(b)
        },
{
    let stops_on_collision = if a.etype == EntityType::Sword {
        false
    } else {
        true
    };
    if entity_type_order(a.etype) < entity_type_order(b.etype) {
        if a.etype == EntityType::Monster && b.etype == EntityType::Sword {
            if a.max_hitpoints > 0 {
                a.max_hitpoints = a.max_hitpoints - 1;
            }
        }
    } else {
        if b.etype == EntityType::Monster && a.etype == EntityType::Sword {
            if b.max_hitpoints > 0 {
                b.max_hitpoints = b.max_hitpoints - 1;
            }
        }
    }
    stops_on_collision
}

/// Forgets the rules that name a stored entity. No rule is forgotten yet:
/// the table is left as it is.
pub fn clear_collision_rules_for(table: &mut PairCollisionTable, storage_index: usize)
    ensures
        *final(table) == *old(table),
{
}

/// Whether two entities collide does not depend on their order.
pub proof fn lemma_should_collide_symmetric(
    table: PairCollisionTable,
    a_storage_index: usize,
    a_spatial: bool,
    b_storage_index: usize,
    b_spatial: bool,
)
    ensures
        should_collide_spec(table, a_storage_index, a_spatial, b_storage_index, b_spatial)
            == should_collide_spec(table, b_storage_index, b_spatial, a_storage_index, a_spatial),
{
}

/// A rule recorded for a pair decides whether the pair collides, in either
/// order and whether or not the entities are in space.
pub proof fn lemma_rule_decides(
    table: PairCollisionTable,
    a_storage_index: usize,
    a_spatial: bool,
    b_storage_index: usize,
    b_spatial: bool,
    collide: bool,
)
    requires
        table.rule_for(sorted_pair(a_storage_index, b_storage_index)) == Some(collide),
    ensures
        should_collide_spec(table, a_storage_index, a_spatial, b_storage_index, b_spatial)
            == collide,
        should_collide_spec(table, b_storage_index, b_spatial, a_storage_index, a_spatial)
            == collide,
{
}

} // verus!
