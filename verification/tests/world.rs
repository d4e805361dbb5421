use steel_recipes::bench_support::{read_pair, sculk_bench_origins, RegionBlocks};
use steel_recipes::block_pos::{BlockPos, BlockStateId};
use steel_recipes::furnace::{Direction, FurnaceKind};
use steel_recipes::furnace_block::{
    block_entity_type, opens_menu, placement_facing, title_key, BlastFurnaceBlock, FurnaceBlock, SmokerBlock,
};
use steel_recipes::identifier::Identifier;

const AIR: BlockStateId = BlockStateId(0);
const STONE: BlockStateId = BlockStateId(1);

fn cave() -> RegionBlocks {
    RegionBlocks {
        states: vec![
            (BlockPos::new(0, 10, 0), STONE),
            (BlockPos::new(0, 5, 0), STONE),
            (BlockPos::new(0, 4, 0), STONE),
            (BlockPos::new(3, 3, 3), STONE),
            (BlockPos::new(3, 3, 3), AIR),
        ],
        fill: AIR,
        air: vec![AIR],
    }
}

#[test]
fn read_pair_reads_position_and_below() {
    let region = cave();
    assert_eq!(read_pair(&region, BlockPos::new(0, 6, 0)), [AIR, STONE]);
    assert_eq!(read_pair(&region, BlockPos::new(3, 4, 3)), [AIR, STONE]);
    assert_eq!(read_pair(&region, BlockPos::new(0, 11, 0)), [AIR, STONE]);
}

#[test]
fn origins_are_the_highest_cave_floor_in_range() {
    let region = cave();
    let columns = [BlockPos::new(0, 99, 0), BlockPos::new(7, 99, 7)];
    let origins = sculk_bench_origins(&region, &columns, 8, 0);
    assert_eq!(origins, vec![BlockPos::new(0, 6, 0), BlockPos::new(7, 99, 7)]);
    let upper = sculk_bench_origins(&region, &columns[..1], 20, 0);
    assert_eq!(upper, vec![BlockPos::new(0, 11, 0)]);
    let empty_range = sculk_bench_origins(&region, &columns[..1], 0, 5);
    assert_eq!(empty_range, vec![BlockPos::new(0, 99, 0)]);
}

#[test]
fn furnace_blocks() {
    assert_eq!(placement_facing(Direction::North), Direction::South);
    assert_eq!(placement_facing(Direction::East), Direction::West);
    assert_eq!(FurnaceBlock::new(3).kind(), FurnaceKind::Furnace);
    assert_eq!(BlastFurnaceBlock::new(4).kind(), FurnaceKind::BlastFurnace);
    assert_eq!(SmokerBlock::new(5).block, 5);
    assert!(FurnaceBlock::new(3).has_analog_output_signal());
    assert_eq!(title_key(FurnaceKind::Smoker), "container.smoker");
    let furnace_entity = block_entity_type(FurnaceKind::Furnace);
    assert!(opens_menu(FurnaceKind::Furnace, Some(&furnace_entity), true));
    assert!(!opens_menu(FurnaceKind::Furnace, Some(&furnace_entity), false));
    assert!(!opens_menu(FurnaceKind::Smoker, Some(&furnace_entity), true));
    assert!(!opens_menu(FurnaceKind::Furnace, None, true));
    assert!(!opens_menu(FurnaceKind::Furnace, Some(&Identifier::new("other", "furnace")), true));
}
