use handmade::game::memory::MemoryArena;
use handmade::game::tilemap::{
    get_chunk_position, get_hash, is_tile_value_empty, is_tilemap_point_empty, on_same_tile,
    TileChunk, TileMap, TilemapPosition,
};

#[test]
fn arena_hands_out_consecutive_blocks() {
    let mut arena = MemoryArena::new(100);
    assert_eq!(arena.size(), 100);
    let a = arena.push_struct::<u64>();
    let b = arena.push_slice::<u32>(3);
    let c = arena.push_slice::<u16>(0);
    assert_eq!(a, 0);
    assert_eq!(b, 8);
    assert_eq!(c, 20);
    assert_eq!(arena.used(), 20);
}

#[test]
fn chunk_hash_values() {
    assert_eq!(get_hash(0, 0, 0), 0);
    assert_eq!(get_hash(1, 1, 1), 29);
    assert_eq!(get_hash(-1, 0, 0), (-19i32) as u32);
    assert_eq!(get_hash(2, -3, 4), 38u32 - 21 + 12);
}

#[test]
fn chunk_position_splits_coordinates() {
    let tm = TileMap::new(4);
    let p = get_chunk_position(&tm, 37, -1, 2);
    assert_eq!(p.tilechunk_x, 2);
    assert_eq!(p.tile_x, 5);
    assert_eq!(p.tilechunk_y, -1);
    assert_eq!(p.tile_y, 15);
    assert_eq!(p.tilechunk_z, 2);
    assert_eq!(tm.chunk_dim, 16);
    assert_eq!(tm.chunk_mask, 15);
}

#[test]
fn tile_read_after_write() {
    let mut tm = TileMap::new(4);
    let mut arena = MemoryArena::new(1 << 20);
    assert_eq!(tm.get_tile_value(3, 4, 0), None);
    tm.set_tile_value(&mut arena, 3, 4, 0, 1);
    assert_eq!(tm.get_tile_value(3, 4, 0), Some(1));
    // Other tiles of the same chunk were created as floor.
    assert_eq!(tm.get_tile_value(4, 4, 0), Some(0));
    // Tiles of other chunks are still missing.
    assert_eq!(tm.get_tile_value(20, 4, 0), None);
    assert_eq!(tm.get_tile_value(3, 4, 1), None);
    tm.set_tile_value(&mut arena, 4, 4, 0, 7);
    assert_eq!(tm.get_tile_value(3, 4, 0), Some(1));
    assert_eq!(tm.get_tile_value(4, 4, 0), Some(7));
    tm.set_tile_value(&mut arena, -1, -1, 0, 9);
    assert_eq!(tm.get_tile_value(-1, -1, 0), Some(9));
    assert_eq!(tm.get_tile_value(3, 4, 0), Some(1));
}

#[test]
fn tilechunk_is_created_only_with_an_arena() {
    let mut tm = TileMap::new(3);
    let mut arena = MemoryArena::new(1 << 16);
    assert_eq!(tm.get_tilechunk(1, 2, 3, None), None);
    let created = tm.get_tilechunk(1, 2, 3, Some(&mut arena));
    assert_eq!(created, Some(0));
    assert_eq!(tm.chunks.len(), 1);
    assert_eq!(tm.chunks[0].tiles.len(), 0);
    // The first chunk of a slot takes no arena bytes.
    assert_eq!(arena.used(), 0);
    assert_eq!(tm.get_tilechunk(1, 2, 3, None), Some(0));
    assert_eq!(tm.get_tilechunk(1, 2, 3, Some(&mut arena)), Some(0));
    assert_eq!(tm.chunks.len(), 1);
}

#[test]
fn chunks_sharing_a_slot_are_chained() {
    let mut tm = TileMap::new(3);
    let mut arena = MemoryArena::new(1 << 16);
    // 19 * 0 + 7 * 0 + 3 * 0 == 19 * 3 + 7 * 0 + 3 * (-19): both hash to 0.
    assert_eq!(get_hash(0, 0, 0), get_hash(3, 0, -19));
    assert_eq!(tm.get_tilechunk(0, 0, 0, Some(&mut arena)), Some(0));
    assert_eq!(tm.get_tilechunk(3, 0, -19, Some(&mut arena)), Some(1));
    assert_eq!(tm.chunks[0].next, Some(1));
    assert!(arena.used() > 0);
    assert_eq!(tm.get_tilechunk(3, 0, -19, None), Some(1));
    assert_eq!(tm.get_tilechunk(0, 0, 0, None), Some(0));
    assert_eq!(tm.get_tilechunk(6, 0, -38, None), None);
}

#[test]
fn walkable_tiles() {
    assert!(is_tile_value_empty(0));
    assert!(!is_tile_value_empty(1));
    assert!(is_tile_value_empty(2));
    let mut tm = TileMap::new(4);
    let mut arena = MemoryArena::new(1 << 20);
    let p = TilemapPosition::centered_pos(2, 2, 0);
    assert!(!is_tilemap_point_empty(&mut tm, &p));
    tm.set_tile_value(&mut arena, 2, 2, 0, 1);
    assert!(!is_tilemap_point_empty(&mut tm, &p));
    tm.set_tile_value(&mut arena, 2, 2, 0, 3);
    assert!(is_tilemap_point_empty(&mut tm, &p));
    assert_eq!(tm.get_tile_value_pos(&p), Some(3));
}

#[test]
fn same_tile_positions() {
    let a = TilemapPosition::centered_pos(1, 2, 3);
    let b = TilemapPosition { tile_x: 1, tile_y: 2, tile_z: 3 };
    let c = TilemapPosition::centered_pos(1, 2, 4);
    assert!(on_same_tile(&a, &b));
    assert!(!on_same_tile(&a, &c));
}

#[test]
fn tile_chunk_indexing() {
    let mut chunk = TileChunk { tiles: vec![0; 16], chunk_x: 0, chunk_y: 0, chunk_z: 0, next: None };
    chunk.set_tile_value(1, 2, 5, 4);
    assert_eq!(chunk.get_tile_value(1, 2, 4), Some(5));
    assert_eq!(chunk.tiles[9], 5);
    assert_eq!(chunk.get_tile_value(3, 3, 4), Some(0));
    assert_eq!(chunk.get_tile_value(0, 4, 4), None);
}
