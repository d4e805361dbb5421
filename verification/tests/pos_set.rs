use steel_recipes::block_pos::BlockPos;
use steel_recipes::pos_set::JavaBlockPosSet;

#[test]
fn duplicate_positions_keep_first_insertion() {
    let mut set = JavaBlockPosSet::default();
    assert!(set.insert(BlockPos::new(1, 2, 3)));
    assert!(!set.insert(BlockPos::new(1, 2, 3)));
    assert_eq!(set.java_ordered_positions(), [BlockPos::new(1, 2, 3)]);
}

#[test]
fn popped_positions_do_not_iterate() {
    let mut set = JavaBlockPosSet::default();
    for x in 0..4 {
        assert!(set.insert(BlockPos::new(x, 0, 0)));
    }

    assert_eq!(set.pop_java_ordered_position(), Some(BlockPos::new(0, 0, 0)));

    assert_eq!(
        set.java_ordered_positions(),
        [BlockPos::new(1, 0, 0), BlockPos::new(2, 0, 0), BlockPos::new(3, 0, 0)]
    );
}

#[test]
fn reinserted_position_uses_new_insertion_position() {
    let mut set = JavaBlockPosSet::default();
    let first = BlockPos::new(1, 0, 0);
    let second = BlockPos::new(17, 0, 0);

    assert!(set.insert(first));
    assert!(set.insert(second));
    assert_eq!(set.pop_java_ordered_position(), Some(first));
    assert!(set.insert(first));

    assert_eq!(set.java_ordered_positions(), [second, first]);
}

#[test]
fn pop_uses_insertion_order() {
    let mut set = JavaBlockPosSet::default();
    let first = BlockPos::new(1, 0, 0);
    let second = BlockPos::new(2, 0, 0);
    assert!(set.insert(first));
    assert!(set.insert(second));

    assert_eq!(set.pop_java_ordered_position(), Some(first));
    assert_eq!(set.pop_java_ordered_position(), Some(second));
    assert_eq!(set.pop_java_ordered_position(), None);
}

#[test]
fn membership_follows_inserts_and_pops() {
    let mut set = JavaBlockPosSet::new();
    assert!(set.is_empty());
    let pos = BlockPos::new(-5, 64, 9);
    assert!(!set.contains(pos));
    assert!(set.insert(pos));
    assert!(set.contains(pos));
    assert!(!set.is_empty());
    assert_eq!(set.pop_java_ordered_position(), Some(pos));
    assert!(!set.contains(pos));
    assert!(set.is_empty());
}

#[test]
fn many_positions_spill_past_the_inline_capacity() {
    let mut set = JavaBlockPosSet::new();
    for x in 0..100 {
        assert!(set.insert(BlockPos::new(x, 1, 2)));
    }
    for x in 0..100 {
        assert!(!set.insert(BlockPos::new(x, 1, 2)));
    }
    let positions = set.java_ordered_positions();
    assert_eq!(positions.len(), 100);
    assert_eq!(positions[57], BlockPos::new(57, 1, 2));
}
