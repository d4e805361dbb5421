//! Reads that the sculk-patch feature makes of a world-generation region,
//! over a snapshot of the block states it reads.

use vstd::prelude::*;

use crate::block_pos::{BlockPos, BlockStateId};

verus! {

/// The block states of a world-generation region that a feature reads: the
/// state stored for each listed position (the first entry for a position
/// counts), `fill` everywhere else, and the states that are air.
pub struct RegionBlocks {
    pub states: Vec<(BlockPos, BlockStateId)>,
    pub fill: BlockStateId,
    pub air: Vec<BlockStateId>,
}

/// The state at `pos` in entries `s` (the first entry for `pos`), else `fill`.
pub open spec fn state_in(s: Seq<(BlockPos, BlockStateId)>, fill: BlockStateId, pos: BlockPos) -> BlockStateId
    decreases s.len(),
{
    if s.len() == 0 {
        fill
    } else if s[0].0 == pos {
        s[0].1
    } else {
        state_in(s.drop_first(), fill, pos)
    }
}

impl RegionBlocks {
    /// The block state at `pos`.
    pub open spec fn state_at(&self, pos: BlockPos) -> BlockStateId {
        state_in(self.states@, self.fill, pos)
    }

    /// Whether the block state at `pos` is air.
    pub open spec fn air_at(&self, pos: BlockPos) -> bool {
        self.air@.contains(self.state_at(pos))
    }

    /// The block state at `pos`.
    pub fn block_state(&self, pos: BlockPos) -> (r: BlockStateId)
        ensures
            r == self.state_at(pos),
    {
        let mut i: usize = 0;
        assert(self.states@.skip(0) =~= self.states@);
        while i < self.states.len()
            invariant
                i <= self.states@.len(),
                state_in(self.states@.skip(i as int), self.fill, pos) == self.state_at(pos),
            decreases self.states@.len() - i,
        {
            proof {
                assert(self.states@.skip(i as int).drop_first() =~= self.states@.skip(i + 1));
            }
            if self.states[i].0 == pos {
                return self.states[i].1;
            }
            i += 1;
        }
        self.fill
    }

    /// Whether `state` is air.
    pub fn is_air(&self, state: BlockStateId) -> (r: bool)
        ensures
            r == self.air@.contains(state),
    {
        let mut i: usize = 0;
        while i < self.air.len()
            invariant
                i <= self.air@.len(),
                forall|k: int| 0 <= k < i ==> self.air@[k] != state,
            decreases self.air@.len() - i,
        {
            if self.air[i] == state {
                return true;
            }
            i += 1;
        }
        false
    }
}

/// Reads `pos` and the position below it.
pub fn read_pair(region: &RegionBlocks, pos: BlockPos) -> (r: [BlockStateId; 2])
    requires
        pos.y > i32::MIN,
    ensures
        r@ == seq![region.state_at(pos), region.state_at(BlockPos { x: pos.x, y: (pos.y - 1) as i32, z: pos.z })],
{
    let below = pos.below();
    let r = [region.block_state(pos), region.block_state(below)];
    assert(r@ =~= seq![region.state_at(pos), region.state_at(below)]);
    r
}

/// Air stands at `(x, y, z)` above a block that is not air.
pub open spec fn is_floor_origin(region: &RegionBlocks, x: i32, y: int, z: i32) -> bool {
    region.air_at(BlockPos { x, y: y as i32, z }) && !region.air_at(BlockPos { x, y: (y - 1) as i32, z })
}

/// Scanning column `column` from `y` down to `y_bottom`: the first
/// air-above-solid position, or the column itself when there is none.
pub open spec fn scan_column(region: &RegionBlocks, column: BlockPos, y: int, y_bottom: int) -> BlockPos
    decreases y - y_bottom + 1,
{
    if y < y_bottom {
        column
    } else if is_floor_origin(region, column.x, y, column.z) {
        BlockPos { x: column.x, y: y as i32, z: column.z }
    } else {
        scan_column(region, column, y - 1, y_bottom)
    }
}

/// For each column, the highest position between `y_top` and `y_bottom`
/// where air stands above a non-air block; a column with none keeps its
/// given position.
pub fn sculk_bench_origins(region: &RegionBlocks, columns: &[BlockPos], y_top: i32, y_bottom: i32) -> (r: Vec<BlockPos>)
    requires
        y_bottom > i32::MIN,
    ensures
        r@.len() == columns@.len(),
        forall|i: int| 0 <= i < columns@.len() ==> #[trigger] r@[i] == scan_column(region, columns@[i], y_top as int, y_bottom as int),
{
    let mut r: Vec<BlockPos> = Vec::new();
    let mut c: usize = 0;
    while c < columns.len()
        invariant
            c <= columns@.len(),
            y_bottom > i32::MIN,
            r@.len() == c,
            forall|i: int| 0 <= i < c ==> #[trigger] r@[i] == scan_column(region, columns@[i], y_top as int, y_bottom as int),
        decreases columns@.len() - c,
    {
        let column = columns[c];
        let mut y = y_top;
        let mut found = column;
        while y >= y_bottom
            invariant_except_break
                found == column,
            invariant
                y_bottom > i32::MIN,
                scan_column(region, column, y_top as int, y_bottom as int) == scan_column(region, column, y as int, y_bottom as int),
            ensures
                found == scan_column(region, column, y_top as int, y_bottom as int),
            decreases y - y_bottom + 1,
        {
            let pos = BlockPos::new(column.x, y, column.z);
            let below = pos.below();
            if region.is_air(region.block_state(pos)) && !region.is_air(region.block_state(below)) {
                found = pos;
                break;
            }
            y -= 1;
        }
        r.push(found);
        c += 1;
    }
    r
}

} // verus!
