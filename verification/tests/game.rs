use handmade::game::handle_collision;
use handmade::common::{Button, ControllerInput};
use handmade::game::memory::MemoryArena;
use handmade::game::math::V2;
use handmade::game::world::WorldPosition;
use handmade::game::{
    add_familiar, add_monster, add_player, add_sword, add_wall, generate_maze, init_hit_points,
    initialize_world, process_hero_input, update_controlled_heroes, ControlledHero, EntityType,
    GameState, MazeTile, ENTITY_FLAG_COLLIDES, HITPOINT_SUB_COUNT, LF_ENTITY_MAX,
};

fn state() -> GameState {
    GameState::new(MemoryArena::new(64 << 20))
}

fn chunk_entities(state: &GameState, p: WorldPosition) -> Vec<usize> {
    let mut out = Vec::new();
    for c in state.world.chunks.iter() {
        if c.chunk_x == p.chunk_x && c.chunk_y == p.chunk_y && c.chunk_z == p.chunk_z {
            let mut it = c.first_block.iter();
            while let Some(b) = it.next() {
                out.extend_from_slice(&b.lf_entities[..b.e_count]);
            }
        }
    }
    out.sort();
    out
}

#[test]
fn stored_entities_land_in_their_chunks() {
    let mut s = state();
    let w = add_wall(&mut s, 17, 1, 0);
    let m = add_monster(&mut s, 2, 3, 0);
    let f = add_familiar(&mut s, -1, 0, 0);
    let sw = add_sword(&mut s);
    assert_eq!((w, m, f, sw), (0, 1, 2, 3));
    assert_eq!(s.lf_entity_count, 4);
    let wall = s.lf_entities[w];
    assert!(wall.etype == EntityType::Wall);
    assert_eq!(wall.flags, ENTITY_FLAG_COLLIDES);
    assert!(wall.world_position == Some(WorldPosition { chunk_x: 1, chunk_y: 0, chunk_z: 0 }));
    let monster = s.lf_entities[m];
    assert_eq!(monster.max_hitpoints, 3);
    assert_eq!(monster.hitpoints[2].filled, HITPOINT_SUB_COUNT);
    assert_eq!(monster.hitpoints[3].filled, 0);
    assert!(s.lf_entities[sw].world_position.is_none());
    assert_eq!(chunk_entities(&s, WorldPosition { chunk_x: 0, chunk_y: 0, chunk_z: 0 }), vec![m]);
    assert_eq!(chunk_entities(&s, WorldPosition { chunk_x: -1, chunk_y: 0, chunk_z: 0 }), vec![f]);
    assert_eq!(chunk_entities(&s, WorldPosition { chunk_x: 1, chunk_y: 0, chunk_z: 0 }), vec![w]);
}

#[test]
fn players_get_a_sword_and_the_camera() {
    let mut s = state();
    let hero = add_player(&mut s);
    assert_eq!(hero, 0);
    assert_eq!(s.lf_entity_count, 2);
    assert!(s.lf_entities[0].etype == EntityType::Hero);
    assert_eq!(s.lf_entities[0].sword, Some(1));
    assert!(s.lf_entities[1].etype == EntityType::Sword);
    assert_eq!(s.camera_follows_entity_index, Some(0));
    let second = add_player(&mut s);
    assert_eq!(second, 2);
    assert_eq!(s.camera_follows_entity_index, Some(0));
    assert_eq!(chunk_entities(&s, s.camera_position), vec![0, 2]);
}

#[test]
fn hit_points_are_filled() {
    let mut s = state();
    let w = add_wall(&mut s, 0, 0, 0);
    let e = s.get_stored_entity(w).unwrap();
    init_hit_points(5, e);
    assert_eq!(s.lf_entities[w].max_hitpoints, 5);
    assert_eq!(s.lf_entities[w].hitpoints[4].filled, HITPOINT_SUB_COUNT);
    assert_eq!(s.lf_entities[w].hitpoints[5].filled, 0);
    assert!(s.get_stored_entity(1).is_none());
}

fn pressed() -> Button {
    Button { ended_down: true, half_transitions: 1 }
}

#[test]
fn hero_requests_from_a_controller() {
    let mut hero = ControlledHero { entity_index: 4, acc: V2 { x: 9, y: 9 }, d_sword: V2 { x: 9, y: 9 }, d_z: 9 };
    let mut c = ControllerInput::default();
    c.move_up = pressed();
    c.move_down = pressed();
    c.move_left = pressed();
    c.action_up = pressed();
    c.action_right = pressed();
    c.start = pressed();
    process_hero_input(&mut hero, &c);
    assert_eq!(hero.entity_index, 4);
    assert!(hero.acc == V2 { x: -1, y: -1 });
    assert!(hero.d_sword == V2 { x: 1, y: 0 });
    assert_eq!(hero.d_z, 3);
    c.average_x_present = true;
    c.average_y_present = true;
    process_hero_input(&mut hero, &c);
    assert!(hero.acc == V2 { x: 0, y: 0 });
}

#[test]
fn start_button_adds_a_hero() {
    let mut s = state();
    let mut controllers = [ControllerInput::default(); 5];
    assert_eq!(update_controlled_heroes(&mut s, &controllers), None);
    controllers[1].start = pressed();
    controllers[3].start = pressed();
    let added = update_controlled_heroes(&mut s, &controllers);
    assert_eq!(added, Some(0));
    assert!(s.controlled_heroes[1].is_none());
    assert_eq!(s.controlled_heroes[3].unwrap().entity_index, 0);
    controllers[3].move_right = pressed();
    let added = update_controlled_heroes(&mut s, &controllers);
    assert_eq!(added, Some(2));
    assert_eq!(s.controlled_heroes[1].unwrap().entity_index, 2);
    let h3 = s.controlled_heroes[3].unwrap();
    assert!(h3.acc == V2 { x: 1, y: 0 });
    assert_eq!(h3.d_z, 3);
}

#[test]
fn maze_screens_follow_the_random_choices() {
    let random = vec![0u32; 2006];
    let tiles = generate_maze(&random);
    assert_eq!(tiles.len(), 2000 * 153);
    // Every choice opens the right side: screens go right along one row.
    let first: Vec<&MazeTile> = tiles[..153].iter().collect();
    assert_eq!((first[0].x, first[0].y, first[0].value), (0, 0, 1));
    // Row 4 of the first screen: the left wall is closed, the right door open.
    assert_eq!(tiles[4 * 17].value, 1);
    assert_eq!(tiles[4 * 17 + 16].value, 0);
    // The second screen starts at x = 17 and its left door is open.
    let second = &tiles[153..306];
    assert_eq!(second[0].x, 17);
    assert_eq!(second[4 * 17].value, 0);
    assert_eq!(tiles.iter().filter(|t| t.value == 2 || t.value == 3).count(), 0);
    let up = {
        let mut r = vec![1u32; 2006];
        r[6] = 1;
        r
    };
    let t2 = generate_maze(&up);
    // Going up: the first screen's top door is open, the next screen sits above.
    assert_eq!(t2[8 * 17 + 8].value, 0);
    assert_eq!(t2[153].y, 9);
    assert_eq!(t2[153 + 8].value, 0);
}

#[test]
fn world_built_from_a_maze() {
    let mut s = state();
    let random = vec![0u32; 2006];
    let tiles: Vec<MazeTile> = generate_maze(&random).into_iter().take(2 * 153).collect();
    let walls = tiles.iter().filter(|t| t.value == 1).count();
    let r = initialize_world(&mut s, &tiles);
    assert_eq!(r, Ok(()));
    assert_eq!(s.lf_entity_count, walls + 2);
    assert!(s.lf_entities[walls].etype == EntityType::Monster);
    assert!(s.lf_entities[walls + 1].etype == EntityType::Familiar);
    assert!(s.camera_position == WorldPosition { chunk_x: 0, chunk_y: 0, chunk_z: 0 });
    assert!(LF_ENTITY_MAX > walls);
}

#[test]
fn world_building_stops_when_the_arena_is_full() {
    let mut s = GameState::new(MemoryArena::new(0));
    let random = vec![0u32; 2006];
    let tiles = generate_maze(&random);
    match initialize_world(&mut s, &tiles) {
        Err(placed) => {
            assert!(placed > 0);
            assert_eq!(s.lf_entity_count, placed);
            let walls: Vec<&MazeTile> = tiles.iter().filter(|t| t.value == 1).collect();
            let next = walls[placed];
            let (pos, _, _) = handmade::game::world::world_pos_from_tile(&s.world, next.x, next.y, next.z);
            assert!(!s.can_add(Some(pos)));
        },
        Ok(()) => panic!("an empty arena cannot hold the maze"),
    }
}

#[test]
fn sword_hits_monster() {
    let mut s = state();
    let m = add_monster(&mut s, 2, 3, 0);
    let sw = add_sword(&mut s);
    let mut monster = s.lf_entities[m];
    let mut sword = s.lf_entities[sw];
    assert_eq!(monster.max_hitpoints, 3);
    assert!(!handle_collision(&mut sword, &mut monster));
    assert_eq!(monster.max_hitpoints, 2);
    assert!(handle_collision(&mut monster, &mut sword));
    assert_eq!(monster.max_hitpoints, 1);
    assert_eq!(sword.max_hitpoints, 0);
}

#[test]
fn other_collisions_only_stop() {
    let mut s = state();
    let w = add_wall(&mut s, 0, 0, 0);
    let m = add_monster(&mut s, 1, 0, 0);
    let mut wall = s.lf_entities[w];
    let mut monster = s.lf_entities[m];
    monster.max_hitpoints = 0;
    assert!(handle_collision(&mut monster, &mut wall));
    assert_eq!(monster.max_hitpoints, 0);
    let sw = add_sword(&mut s);
    let mut sword = s.lf_entities[sw];
    assert!(!handle_collision(&mut sword, &mut monster));
    assert_eq!(monster.max_hitpoints, 0);
}

#[test]
fn pressing_start_stores_a_hero_and_its_sword() {
    let mut s = state();
    add_wall(&mut s, 0, 0, 0);
    let mut controllers = [ControllerInput::default(); 5];
    controllers[1].start = Button { ended_down: true, half_transitions: 1 };
    controllers[3].start = Button { ended_down: true, half_transitions: 1 };
    let r = update_controlled_heroes(&mut s, &controllers);
    assert_eq!(r, Some(1));
    assert_eq!(s.lf_entity_count, 3);
    assert!(s.lf_entities[1].etype == EntityType::Hero);
    assert_eq!(s.lf_entities[1].sword, Some(2));
    assert_eq!(s.lf_entities[1].max_hitpoints, 3);
    assert!(s.lf_entities[2].etype == EntityType::Sword);
    assert_eq!(s.camera_follows_entity_index, Some(1));
    assert!(s.controlled_heroes[3].is_some());
    assert!(s.controlled_heroes[1].is_none());
    assert_eq!(chunk_entities(&s, s.camera_position), vec![0, 1]);
}
