use handmade::game::memory::MemoryArena;
use handmade::game::world::{
    are_in_same_chunk, get_hash, world_pos_from_tile, EntityBlock, World, WorldPosition,
};

fn pos(x: i32, y: i32, z: i32) -> WorldPosition {
    WorldPosition { chunk_x: x, chunk_y: y, chunk_z: z }
}

fn chunk_entities(world: &World, x: i32, y: i32, z: i32) -> Vec<usize> {
    let mut out = Vec::new();
    for c in world.chunks.iter() {
        if c.chunk_x == x && c.chunk_y == y && c.chunk_z == z {
            let mut it = c.first_block.iter();
            while let Some(b) = it.next() {
                out.extend_from_slice(&b.lf_entities[..b.e_count]);
            }
        }
    }
    out.sort();
    out
}

#[test]
fn world_hash_matches_formula() {
    assert_eq!(get_hash(1, 1, 1), 29);
    assert_eq!(get_hash(-1, -1, -1), (-29i32) as u32);
}

#[test]
fn tile_to_world_position() {
    let world = World::new();
    let (p, ox, oy) = world_pos_from_tile(&world, 17, 35, 2);
    assert!(p == pos(1, 2, 2));
    assert_eq!((ox, oy), (1, 3));
    let (q, qx, qy) = world_pos_from_tile(&world, -3, -17, 0);
    assert!(q == pos(-1, -2, 0));
    assert_eq!((qx, qy), (-3, -1));
    // A negative multiple of the chunk size lands one chunk further down.
    let (r, rx, _) = world_pos_from_tile(&world, -16, 0, 0);
    assert_eq!(r.chunk_x, -2);
    assert_eq!(rx, 0);
}

#[test]
fn same_chunk_test() {
    let world = World::new();
    assert!(are_in_same_chunk(&world, &pos(1, 2, 3), &pos(1, 2, 3)));
    assert!(!are_in_same_chunk(&world, &pos(1, 2, 3), &pos(1, 2, 4)));
}

#[test]
fn entities_follow_their_moves() {
    let mut world = World::new();
    let mut arena = MemoryArena::new(1 << 20);
    world.change_entity_location_raw(5, None, Some(pos(0, 0, 0)), &mut arena);
    world.change_entity_location_raw(6, None, Some(pos(0, 0, 0)), &mut arena);
    assert_eq!(chunk_entities(&world, 0, 0, 0), vec![5, 6]);
    world.change_entity_location_raw(5, Some(pos(0, 0, 0)), Some(pos(1, 0, 0)), &mut arena);
    assert_eq!(chunk_entities(&world, 0, 0, 0), vec![6]);
    assert_eq!(chunk_entities(&world, 1, 0, 0), vec![5]);
    // Within one chunk nothing moves.
    world.change_entity_location_raw(6, Some(pos(0, 0, 0)), Some(pos(0, 0, 0)), &mut arena);
    assert_eq!(chunk_entities(&world, 0, 0, 0), vec![6]);
    // Taking an entity out of the world.
    world.change_entity_location_raw(6, Some(pos(0, 0, 0)), None, &mut arena);
    assert_eq!(chunk_entities(&world, 0, 0, 0), Vec::<usize>::new());
    assert_eq!(world.get_chunk(0, 0, 0, None), Some(0));
}

#[test]
fn full_blocks_chain_and_free_blocks_are_reused() {
    let mut world = World::new();
    let mut arena = MemoryArena::new(1 << 20);
    for i in 0..17 {
        world.change_entity_location_raw(i, None, Some(pos(2, 2, 0)), &mut arena);
    }
    let used_after_fill = arena.used();
    let ci = world.get_chunk(2, 2, 0, None).unwrap();
    assert_eq!(world.chunks[ci].first_block.e_count, 1);
    assert_eq!(world.chunks[ci].first_block.next.as_ref().unwrap().e_count, 16);
    assert_eq!(chunk_entities(&world, 2, 2, 0), (0..17).collect::<Vec<usize>>());
    // Removing the only entity of the first block frees the second block.
    world.change_entity_location_raw(16, Some(pos(2, 2, 0)), None, &mut arena);
    assert!(world.first_free.is_some());
    assert_eq!(world.chunks[ci].first_block.e_count, 16);
    assert!(world.chunks[ci].first_block.next.is_none());
    // Filling up again takes the free block instead of arena bytes.
    world.change_entity_location_raw(40, None, Some(pos(2, 2, 0)), &mut arena);
    assert!(world.first_free.is_none());
    assert_eq!(arena.used(), used_after_fill);
    let mut expect: Vec<usize> = (0..16).collect();
    expect.push(40);
    assert_eq!(chunk_entities(&world, 2, 2, 0), expect);
    // Removing from a later block fills the hole from the first block.
    world.change_entity_location_raw(3, Some(pos(2, 2, 0)), None, &mut arena);
    let expect: Vec<usize> = (0..16).filter(|&i| i != 3).chain(std::iter::once(40)).collect();
    let mut sorted = expect.clone();
    sorted.sort();
    assert_eq!(chunk_entities(&world, 2, 2, 0), sorted);
}

#[test]
fn bytes_for_a_move() {
    let mut world = World::new();
    let mut arena = MemoryArena::new(1 << 20);
    assert_eq!(world.bytes_for_move(1, None, None), 0);
    // A chunk heading its slot takes no bytes.
    assert_eq!(world.bytes_for_move(1, None, Some(pos(0, 0, 0))), 0);
    assert_eq!(world.bytes_for_move(1, Some(pos(0, 0, 0)), Some(pos(0, 0, 0))), 0);
    world.change_entity_location_raw(1, None, Some(pos(0, 0, 0)), &mut arena);
    assert_eq!(arena.used(), 0);
    // (3, 0, -19) shares the slot of (0, 0, 0): its chunk takes arena bytes.
    let need = world.bytes_for_move(2, None, Some(pos(3, 0, -19)));
    assert_eq!(need, std::mem::size_of::<handmade::game::world::Chunk>() as u128);
    world.change_entity_location_raw(2, None, Some(pos(3, 0, -19)), &mut arena);
    assert_eq!(arena.used() as u128, need);
}

#[test]
fn walking_chunks_row_by_row() {
    let mut world = World::new();
    let mut arena = MemoryArena::new(1 << 20);
    for x in 0..2 {
        for y in 0..3 {
            world.get_chunk(x, y, 0, Some(&mut arena));
        }
    }
    let mut it = world.iter_spatially(pos(0, 0, 0), pos(1, 1, 0), 0);
    let mut seen = Vec::new();
    while let Some(ci) = it.next(&mut world) {
        let c = &world.chunks[ci];
        seen.push((c.chunk_x, c.chunk_y));
    }
    // The walk covers the rows from the minimum up to one past the maximum.
    assert_eq!(seen, vec![(0, 0), (1, 0), (0, 1), (1, 1), (0, 2), (1, 2)]);
}

#[test]
fn walk_stops_at_a_missing_chunk() {
    let mut world = World::new();
    let mut arena = MemoryArena::new(1 << 20);
    world.get_chunk(0, 0, 0, Some(&mut arena));
    let mut it = world.iter_spatially(pos(0, 0, 0), pos(3, 0, 0), 0);
    assert_eq!(it.next(&mut world), Some(0));
    assert_eq!(it.next(&mut world), None);
    assert_eq!(it.next(&mut world), None);
}

#[test]
fn block_iteration_visits_the_chain() {
    let mut b = EntityBlock::default();
    assert_eq!(b.e_count, 0);
    let mut second = EntityBlock::default();
    second.e_count = 16;
    b.next = Some(Box::new(second));
    let mut it = b.iter();
    assert_eq!(it.next().unwrap().e_count, 0);
    assert_eq!(it.next().unwrap().e_count, 16);
    assert!(it.next().is_none());
}

#[test]
fn moving_there_and_back_restores_the_chunks() {
    let mut world = World::new();
    let mut arena = MemoryArena::new(1 << 20);
    for e in 0..20 {
        world.change_entity_location_raw(e, None, Some(pos(0, 0, 0)), &mut arena);
    }
    world.change_entity_location_raw(30, None, Some(pos(2, -1, 0)), &mut arena);
    let before_a = chunk_entities(&world, 0, 0, 0);
    let before_b = chunk_entities(&world, 2, -1, 0);
    world.change_entity_location_raw(7, Some(pos(0, 0, 0)), Some(pos(2, -1, 0)), &mut arena);
    assert_eq!(chunk_entities(&world, 2, -1, 0), vec![7, 30]);
    world.change_entity_location_raw(7, Some(pos(2, -1, 0)), Some(pos(0, 0, 0)), &mut arena);
    assert_eq!(chunk_entities(&world, 0, 0, 0), before_a);
    assert_eq!(chunk_entities(&world, 2, -1, 0), before_b);
}

#[test]
fn a_move_inside_one_chunk_changes_nothing() {
    let mut world = World::new();
    let mut arena = MemoryArena::new(1 << 20);
    world.change_entity_location_raw(3, None, Some(pos(1, 1, 0)), &mut arena);
    let used = arena.used();
    let chunks = world.chunks.len();
    world.change_entity_location_raw(3, Some(pos(1, 1, 0)), Some(pos(1, 1, 0)), &mut arena);
    assert_eq!(arena.used(), used);
    assert_eq!(world.chunks.len(), chunks);
    assert_eq!(chunk_entities(&world, 1, 1, 0), vec![3]);
}

#[test]
fn blocks_can_be_changed_through_the_chain() {
    let mut first = EntityBlock { e_count: 0, lf_entities: [0; 16], next: None };
    assert!(first.next_block_mut().is_none());
    first.next = Some(Box::new(EntityBlock { e_count: 1, lf_entities: [4; 16], next: None }));
    if let Some(b) = first.next_block_mut() {
        b.e_count = 2;
    }
    assert_eq!(first.next.as_ref().unwrap().e_count, 2);
}

#[test]
fn removal_takes_every_copy_from_the_first_block() {
    let mut world = World::new();
    let mut arena = MemoryArena::new(1 << 20);
    world.change_entity_location_raw(5, None, Some(pos(0, 0, 0)), &mut arena);
    world.change_entity_location_raw(6, None, Some(pos(0, 0, 0)), &mut arena);
    world.change_entity_location_raw(5, None, Some(pos(0, 0, 0)), &mut arena);
    assert_eq!(chunk_entities(&world, 0, 0, 0), vec![5, 5, 6]);
    world.change_entity_location_raw(5, Some(pos(0, 0, 0)), Some(pos(1, 0, 0)), &mut arena);
    assert_eq!(chunk_entities(&world, 0, 0, 0), vec![6]);
    assert_eq!(chunk_entities(&world, 1, 0, 0), vec![5]);
}

#[test]
fn an_emptied_first_block_takes_over_the_next_one() {
    let mut world = World::new();
    let mut arena = MemoryArena::new(1 << 20);
    world.change_entity_location_raw(5, None, Some(pos(0, 0, 0)), &mut arena);
    for e in 100..115 {
        world.change_entity_location_raw(e, None, Some(pos(0, 0, 0)), &mut arena);
    }
    // The first block is full; the next copy of 5 starts a new first block.
    world.change_entity_location_raw(5, None, Some(pos(0, 0, 0)), &mut arena);
    world.change_entity_location_raw(5, Some(pos(0, 0, 0)), None, &mut arena);
    let left = chunk_entities(&world, 0, 0, 0);
    assert_eq!(left.len(), 16);
    assert_eq!(left.iter().filter(|&&e| e == 5).count(), 1);
    assert!(world.first_free.is_some());
}
