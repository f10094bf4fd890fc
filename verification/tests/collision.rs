use handmade::game::memory::MemoryArena;
use handmade::game::{add_collision_rule, clear_collision_rules_for, should_collide, PairCollisionTable};

#[test]
fn entities_in_space_collide_by_default() {
    let table = PairCollisionTable::new();
    assert!(should_collide(&table, 1, true, 2, true));
    assert!(!should_collide(&table, 1, false, 2, true));
    assert!(!should_collide(&table, 1, true, 2, false));
}

#[test]
fn a_rule_decides_in_either_order() {
    let mut table = PairCollisionTable::new();
    let mut arena = MemoryArena::new(4096);
    add_collision_rule(&mut arena, &mut table, 7, 3, false);
    assert!(!should_collide(&table, 3, true, 7, true));
    assert!(!should_collide(&table, 7, true, 3, true));
    assert!(should_collide(&table, 3, true, 8, true));
    add_collision_rule(&mut arena, &mut table, 9, 10, true);
    assert!(should_collide(&table, 10, false, 9, false));
    assert_eq!(table.rules.len(), 2);
}

#[test]
fn an_existing_rule_is_kept() {
    let mut table = PairCollisionTable::new();
    let mut arena = MemoryArena::new(4096);
    add_collision_rule(&mut arena, &mut table, 1, 2, false);
    let used = arena.used();
    add_collision_rule(&mut arena, &mut table, 2, 1, true);
    assert_eq!(arena.used(), used);
    assert!(!should_collide(&table, 1, true, 2, true));
    assert_eq!(table.rules.len(), 1);
}

#[test]
fn rules_sharing_a_slot_are_chained() {
    let mut table = PairCollisionTable::new();
    let mut arena = MemoryArena::new(4096);
    add_collision_rule(&mut arena, &mut table, 1, 5, false);
    add_collision_rule(&mut arena, &mut table, 257, 300, false);
    add_collision_rule(&mut arena, &mut table, 1, 6, true);
    // The newest rule heads the slot and links to the one before it.
    assert_eq!(table.heads[1], Some(2));
    assert_eq!(table.rules[2].next_rule, Some(1));
    assert_eq!(table.rules[1].next_rule, Some(0));
    assert_eq!(table.rules[0].next_rule, None);
    assert!(!should_collide(&table, 300, true, 257, true));
    assert!(should_collide(&table, 6, false, 1, false));
    assert!(!should_collide(&table, 5, true, 1, true));
}

#[test]
fn clearing_rules_changes_nothing_yet() {
    let mut table = PairCollisionTable::new();
    let mut arena = MemoryArena::new(4096);
    add_collision_rule(&mut arena, &mut table, 1, 2, false);
    clear_collision_rules_for(&mut table, 1);
    assert!(!should_collide(&table, 1, true, 2, true));
}

#[test]
fn either_order_leaves_the_same_table() {
    let mut t1 = PairCollisionTable::new();
    let mut t2 = PairCollisionTable::new();
    let mut arena1 = MemoryArena::new(4096);
    let mut arena2 = MemoryArena::new(4096);
    add_collision_rule(&mut arena1, &mut t1, 4, 260, true);
    add_collision_rule(&mut arena2, &mut t2, 4, 260, true);
    add_collision_rule(&mut arena1, &mut t1, 9, 4, false);
    add_collision_rule(&mut arena2, &mut t2, 4, 9, false);
    assert_eq!(t1.heads, t2.heads);
    assert!(t1.rules == t2.rules);
    assert_eq!(t1.heads[4], Some(1));
    assert_eq!((t1.rules[1].storage_index_a, t1.rules[1].storage_index_b), (4, 9));
    assert_eq!(t1.rules[1].next_rule, Some(0));
    for (slot, head) in t1.heads.iter().enumerate() {
        if slot != 4 {
            assert_eq!(*head, None);
        }
    }
    assert_eq!(arena1.used(), arena2.used());
}

#[test]
fn an_entity_never_collides_with_itself() {
    let mut table = PairCollisionTable::new();
    let mut arena = MemoryArena::new(4096);
    assert!(!should_collide(&table, 4, true, 4, true));
    // A rule recorded for the pair decides, even for the same entity.
    add_collision_rule(&mut arena, &mut table, 4, 4, true);
    assert!(should_collide(&table, 4, true, 4, true));
}
