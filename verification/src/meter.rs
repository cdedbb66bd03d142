//! The peak meter: its kinds, and how the LED meter splits its width into
//! blocks.
use vstd::prelude::*;

verus! {

/// The kind of peak meter a volume row shows; `Disabled` shows none.
#[derive(Clone, Copy, Debug, PartialEq, Eq, Structural)]
pub enum PeakMeterType {
    Disabled,
    Basic,
    Led,
}

/// The colour of a lit block of the LED meter.
#[derive(Clone, Copy, Debug, PartialEq, Eq, Structural)]
pub enum BlockColor {
    Green,
    Yellow,
    Red,
}

/// A lit block of the LED meter: where its slot starts, how wide the slot
/// is (the block is drawn one pixel narrower), and its colour.
#[derive(Clone, Copy, Debug, PartialEq, Eq, Structural)]
pub struct LedBlock {
    pub x: u32,
    pub width: u32,
    pub color: BlockColor,
}

/// The width of slot `i` when `width` pixels are shared by `blocks` slots:
/// the pixels left over by the even share go one each to the first slots.
pub open spec fn slot_width(width: nat, blocks: nat, i: nat) -> nat {
    width / blocks + if i < width % blocks {
        1nat
    } else {
        0nat
    }
}

/// Where slot `i` starts.
pub open spec fn slot_x(width: nat, blocks: nat, i: nat) -> nat {
    i * (width / blocks) + if i < width % blocks {
        i
    } else {
        width % blocks
    }
}

/// The colour of block `i`: green below the green limit, yellow below the
/// yellow limit, red above.
pub open spec fn block_color(i: nat, green_limit: nat, yellow_limit: nat) -> BlockColor {
    if i < green_limit {
        BlockColor::Green
    } else if i < yellow_limit {
        BlockColor::Yellow
    } else {
        BlockColor::Red
    }
}

proof fn lemma_slot_step(width: nat, blocks: nat, i: nat)
    requires
        blocks > 0,
    ensures
        slot_x(width, blocks, i) + slot_width(width, blocks, i) == slot_x(width, blocks, i + 1),
{
    let bw = width / blocks;
    assert((i + 1) * bw == i * bw + bw) by (nonlinear_arith);
}

/// Lays out the `level` lit blocks of an LED meter `width` pixels wide with
/// `blocks` blocks in all. There must be at least one block, and the slots
/// must end within the range of `u32`, as they do when no more blocks are
/// lit than there are.
pub fn led_blocks(width: u32, blocks: u32, level: u32, green_limit: u32, yellow_limit: u32) -> (r: Vec<LedBlock>)
    requires
        blocks > 0,
        level <= blocks || level as int * (width as int / blocks as int + 1) <= u32::MAX,
    ensures
        r@.len() == level,
        forall|i: int|
            0 <= i < level ==> {
                &&& (#[trigger] r@[i]).x == slot_x(width as nat, blocks as nat, i as nat)
                &&& r@[i].width == slot_width(width as nat, blocks as nat, i as nat)
                &&& r@[i].color == block_color(i as nat, green_limit as nat, yellow_limit as nat)
            },
{
    let mut block_width = width / blocks;
    proof {
        assert(width == blocks * (width / blocks) + width % blocks && width % blocks >= 0) by (nonlinear_arith)
            requires
                blocks > 0,
        ;
        assert(block_width * blocks == blocks * (width / blocks)) by (nonlinear_arith)
            requires
                block_width == width / blocks,
        ;
    }
    let extra_space = width - block_width * blocks;
    assert(extra_space == width % blocks);
    if extra_space > 0 {
        assert(blocks >= 2);
        assert(block_width * 2 <= width) by (nonlinear_arith)
            requires
                block_width * blocks <= width,
                blocks >= 2,
        ;
        block_width = block_width + 1;
    }
    let mut area_width = block_width;
    let mut x: u32 = 0;
    let mut r: Vec<LedBlock> = Vec::new();
    let mut i: u32 = 0;
    while i < level
        invariant
            blocks > 0,
            level <= blocks || level as int * (width as int / blocks as int + 1) <= u32::MAX,
            extra_space == width % blocks,
            i <= level,
            r@.len() == i,
            x == slot_x(width as nat, blocks as nat, i as nat),
            area_width == if extra_space > 0 && i <= extra_space {
                width as int / blocks as int + 1
            } else {
                width as int / blocks as int
            },
            forall|k: int|
                0 <= k < i ==> {
                    &&& (#[trigger] r@[k]).x == slot_x(width as nat, blocks as nat, k as nat)
                    &&& r@[k].width == slot_width(width as nat, blocks as nat, k as nat)
                    &&& r@[k].color == block_color(k as nat, green_limit as nat, yellow_limit as nat)
                },
        decreases level - i,
    {
        if extra_space > 0 && i == extra_space {
            area_width = area_width - 1;
        }
        let color = if i < green_limit {
            BlockColor::Green
        } else if i < yellow_limit {
            BlockColor::Yellow
        } else {
            BlockColor::Red
        };
        r.push(LedBlock { x, width: area_width, color });
        proof {
            lemma_slot_step(width as nat, blocks as nat, i as nat);
            let bw = width as int / blocks as int;
            let e = width as int % blocks as int;
            let next = slot_x(width as nat, blocks as nat, (i + 1) as nat);
            if level <= blocks {
                assert((i + 1) * bw + e <= blocks * bw + e) by (nonlinear_arith)
                    requires
                        i + 1 <= blocks,
                        bw >= 0,
                ;
                assert(blocks * bw + e == width) by (nonlinear_arith)
                    requires
                        bw == width as int / blocks as int,
                        e == width as int % blocks as int,
                        blocks > 0,
                ;
            } else {
                assert((i + 1) * bw + (i + 1) <= level * (bw + 1)) by (nonlinear_arith)
                    requires
                        i + 1 <= level,
                        bw >= 0,
                ;
            }
            assert(next <= u32::MAX);
        }
        x = x + area_width;
        i = i + 1;
    }
    r
}

/// Law: the slots of all blocks of an LED meter fill its width exactly: the
/// slot after the last would start at the far edge.
pub proof fn lemma_slots_fill_width(width: nat, blocks: nat)
    requires
        blocks > 0,
    ensures
        slot_x(width, blocks, blocks) == width,
{
    assert(width == blocks * (width / blocks) + width % blocks) by (nonlinear_arith)
        requires
            blocks > 0,
    ;
}

/// Law: blocks below the green limit are green, those from it up to the
/// yellow limit yellow, and those at or above both limits red.
pub proof fn lemma_block_colors(i: nat, green_limit: nat, yellow_limit: nat)
    ensures
        i < green_limit ==> block_color(i, green_limit, yellow_limit) == BlockColor::Green,
        green_limit <= i < yellow_limit ==> block_color(i, green_limit, yellow_limit) == BlockColor::Yellow,
        green_limit <= i && yellow_limit <= i ==> block_color(i, green_limit, yellow_limit) == BlockColor::Red,
{
}

/// Law: the slots share the width as evenly as can be: each is as wide as
/// the even share or one pixel wider, no slot is wider than one before it,
/// and each starts where the one before it ends.
pub proof fn lemma_slots_even(width: nat, blocks: nat, i: nat, j: nat)
    requires
        blocks > 0,
        i <= j,
    ensures
        width / blocks <= slot_width(width, blocks, i) <= width / blocks + 1,
        slot_width(width, blocks, j) <= slot_width(width, blocks, i),
        slot_x(width, blocks, 0) == 0,
        slot_x(width, blocks, i) + slot_width(width, blocks, i) == slot_x(width, blocks, i + 1),
{
    lemma_slot_step(width, blocks, i);
}

/// Law: every lit block's slot lies within the meter's width when no more
/// blocks are lit than there are.
pub proof fn lemma_slot_within_width(width: nat, blocks: nat, i: nat)
    requires
        blocks > 0,
        i < blocks,
    ensures
        slot_x(width, blocks, i) + slot_width(width, blocks, i) <= width,
{
    lemma_slot_step(width, blocks, i);
    let bw = width / blocks;
    let e = width % blocks;
    assert((i + 1) * bw + e <= blocks * bw + e) by (nonlinear_arith)
        requires
            i + 1 <= blocks,
    ;
    lemma_slots_fill_width(width, blocks);
}

} // verus!
