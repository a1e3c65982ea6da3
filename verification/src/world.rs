//! The world: one chunk of blocks, stored column by column, and its spawn
//! point.

use vstd::prelude::*;
use crate::constants::{
    BlockType, CHUNK_HEIGHT, CHUNK_HEIGHT_L2, CHUNK_VOLUME,
    CHUNK_WIDTH, CHUNK_WIDTH_L2, WORLD_FLATMAP_TEMPLATE, WORLD_FLATMAP_TEMPLATE_LEN,
};

verus! {

/// Whether a block position lies in the chunk.
pub open spec fn in_chunk(x: int, y: int, z: int) -> bool {
    &&& 0 <= x < CHUNK_WIDTH
    &&& 0 <= y < CHUNK_HEIGHT
    &&& 0 <= z < CHUNK_WIDTH
}

/// Where the block at a position of the chunk is stored: columns are laid
/// out by x, then z, and each column holds its blocks from the bottom up.
pub open spec fn position_index(x: int, y: int, z: int) -> int {
    (x * CHUNK_WIDTH + z) * CHUNK_HEIGHT + y
}

/// The index that `World::block_index_get` computes, for every argument: the
/// bits of x, then those of z, then those of y.
pub open spec fn block_index(x: u16, y: u8, z: u16) -> usize {
    (((x as usize) << 4usize | z as usize) << 6usize) | y as usize
}

/// The block of the flat world at a position of the chunk: the template at
/// the bottom, wool on layer 10 above every position whose x and z are both
/// even, air elsewhere.
pub open spec fn flat_block(x: int, y: int, z: int) -> BlockType {
    if y < WORLD_FLATMAP_TEMPLATE_LEN {
        crate::constants::flatmap_template()[y]
    } else if y == 10 && x % 2 == 0 && z % 2 == 0 {
        BlockType::Wool
    } else {
        BlockType::Air
    }
}

/// What the flat generator leaves at index `i` of a column store whose
/// entry there was `old`: the strip of `CHUNK_HEIGHT` blocks that holds `i`
/// is the column `strip`, and `i` is at height `i % CHUNK_HEIGHT` in it.
pub open spec fn generated_block(old: BlockType, i: int) -> BlockType {
    let strip: int = i / CHUNK_HEIGHT as int;
    let y: int = i % CHUNK_HEIGHT as int;
    if y < WORLD_FLATMAP_TEMPLATE_LEN {
        crate::constants::flatmap_template()[y]
    } else if y == 10 && strip % 2 == 0 && (strip / 16) % 2 == 0 {
        BlockType::Wool
    } else {
        old
    }
}

pub struct World {
    blocks: Vec<BlockType>,
    pub spawn_y: i16,
    pub spawn_x: i32,
    pub spawn_z: i32,
}

impl View for World {
    type V = Seq<BlockType>;

    /// The stored blocks, indexed as `position_index` says.
    closed spec fn view(&self) -> Seq<BlockType> {
        self.blocks@
    }
}

impl World {
    /// The spawn point, x, y and z, in q8 block coordinates.
    pub closed spec fn spawn(&self) -> (i32, i16, i32) {
        (self.spawn_x, self.spawn_y, self.spawn_z)
    }

    /// The spawn point, x, y and z, in q8 block coordinates.
    pub fn spawn_get(&self) -> (spawn: (i32, i16, i32))
        ensures
            spawn == self.spawn(),
    {
        (self.spawn_x, self.spawn_y, self.spawn_z)
    }

    /// A world holds one block for each position of the chunk.
    pub open spec fn wf(&self) -> bool {
        self@.len() == CHUNK_VOLUME
    }

    /// The block at a position: the stored one inside the chunk, air outside.
    pub open spec fn block_at(&self, x: int, y: int, z: int) -> BlockType {
        if in_chunk(x, y, z) {
            self@[position_index(x, y, z)]
        } else {
            BlockType::Air
        }
    }

    /// A freshly generated flat world, with its spawn point 13 blocks (13 << 8
    /// in q8) up
    /// above the corner of the chunk (coordinates in q8).
    pub fn new() -> (world: Self)
        ensures
            world.wf(),
            world.spawn() == (0i32, 3328i16, 0i32),
            forall|x: int, y: int, z: int|
                in_chunk(x, y, z) ==> #[trigger] world.block_at(x, y, z) == flat_block(x, y, z),
            forall|x: int, y: int, z: int|
                in_chunk(x, y, z) ==> #[trigger] world.block_at(x, y, z) == generated_block(
                    BlockType::Air,
                    position_index(x, y, z),
                ),
    {
        let mut blocks: Vec<BlockType> = Vec::new();
        let mut i: usize = 0;
        while i < CHUNK_VOLUME
            invariant
                i <= CHUNK_VOLUME,
                blocks@.len() == i,
                forall|j: int| 0 <= j < i ==> blocks@[j] == BlockType::Air,
            decreases CHUNK_VOLUME - i,
        {
            blocks.push(BlockType::Air);
            i = i + 1;
        }
        let mut instance = Self { blocks, spawn_y: 13 * 256, spawn_x: 0, spawn_z: 0 };
        instance.chunk_generate();
        proof {
            assert forall|x: int, y: int, z: int| in_chunk(x, y, z) implies
                #[trigger] instance.block_at(x, y, z) == flat_block(x, y, z)
                && instance.block_at(x, y, z) == generated_block(
                    BlockType::Air,
                    position_index(x, y, z),
                ) by {
                lemma_position_index_bounds(x, y, z);
                lemma_generated_at_position(x, y, z);
            }
        }
        instance
    }

    /// The index of a block in the column store; for a position of the chunk
    /// it is `position_index`.
    pub fn block_index_get(x: u16, y: u8, z: u16) -> (index: usize)
        ensures
            index == block_index(x, y, z),
            in_chunk(x as int, y as int, z as int) ==> index == position_index(
                x as int,
                y as int,
                z as int,
            ),
    {
        proof {
            lemma_block_index_in_chunk(x, y, z);
        }
        ((x as usize) << (CHUNK_WIDTH_L2 as usize) | z as usize) << (CHUNK_HEIGHT_L2 as usize)
            | y as usize
    }

    /// The block stored at an index of the column store.
    pub fn block_get_unchecked_index(&self, index: usize) -> (block: BlockType)
        requires
            index < self@.len(),
        ensures
            block == self@[index as int],
    {
        self.blocks[index]
    }

    /// The block stored at the index that `block_index_get` gives.
    pub fn block_get_unchecked(&self, x: u16, y: u8, z: u16) -> (block: BlockType)
        requires
            block_index(x, y, z) < self@.len(),
        ensures
            block == self@[block_index(x, y, z) as int],
            in_chunk(x as int, y as int, z as int) ==> block == self.block_at(
                x as int,
                y as int,
                z as int,
            ),
    {
        self.block_get_unchecked_index(Self::block_index_get(x, y, z))
    }

    /// The block at a position; air outside the chunk.
    pub fn block_get(&self, x: u16, y: u8, z: u16) -> (block: BlockType)
        requires
            self.wf(),
        ensures
            block == self.block_at(x as int, y as int, z as int),
    {
        if y < CHUNK_HEIGHT as u8 && x < CHUNK_WIDTH as u16 && z < CHUNK_WIDTH as u16 {
            proof {
                lemma_block_index_in_chunk(x, y, z);
                lemma_position_index_bounds(x as int, y as int, z as int);
            }
            self.block_get_unchecked(x, y, z)
        } else {
            BlockType::Air
        }
    }

    /// Lay the flat terrain into every full column of the store: the
    /// template at the bottom, and wool on layer 10 of every column whose
    /// number has bits 0 and 4 clear.
    pub fn chunk_generate(&mut self)
        ensures
            final(self)@.len() == old(self)@.len(),
            final(self).spawn() == old(self).spawn(),
            forall|i: int|
                0 <= i < old(self)@.len() ==> #[trigger] final(self)@[i] == (if i < (old(
                    self,
                )@.len() as int / CHUNK_HEIGHT as int) * CHUNK_HEIGHT as int {
                    generated_block(old(self)@[i], i)
                } else {
                    old(self)@[i]
                }),
    {
        let len: usize = self.blocks.len();
        let strips: usize = len / CHUNK_HEIGHT;
        let ghost old_blocks = self.blocks@;
        let mut counter: usize = 0;
        while counter < strips
            invariant
                strips == old_blocks.len() as int / CHUNK_HEIGHT as int,
                len == old_blocks.len(),
                counter <= strips,
                self.blocks@.len() == old_blocks.len(),
                self.spawn_x == old(self).spawn_x,
                self.spawn_y == old(self).spawn_y,
                self.spawn_z == old(self).spawn_z,
                old_blocks == old(self)@,
                forall|i: int|
                    0 <= i < old_blocks.len() ==> #[trigger] self.blocks@[i] == (if i < counter
                        * CHUNK_HEIGHT {
                        generated_block(old_blocks[i], i)
                    } else {
                        old_blocks[i]
                    }),
            decreases strips - counter,
        {
            proof {
                vstd::arithmetic::div_mod::lemma_fundamental_div_mod(
                    old_blocks.len() as int,
                    CHUNK_HEIGHT as int,
                );
                assert(counter * CHUNK_HEIGHT + CHUNK_HEIGHT <= old_blocks.len()) by (
                nonlinear_arith)
                    requires
                        counter < strips,
                        strips == old_blocks.len() as int / 64,
                        old_blocks.len() == 64 * (old_blocks.len() as int / 64)
                            + old_blocks.len() as int % 64,
                        old_blocks.len() as int % 64 >= 0,
                ;
            }
            let base: usize = counter * CHUNK_HEIGHT;
            let ghost before = self.blocks@;
            let mut y: usize = 0;
            while y < WORLD_FLATMAP_TEMPLATE_LEN
                invariant
                    base == counter * CHUNK_HEIGHT,
                    counter < strips,
                    strips == old_blocks.len() as int / CHUNK_HEIGHT as int,
                    y <= WORLD_FLATMAP_TEMPLATE_LEN,
                    base + CHUNK_HEIGHT <= old_blocks.len(),
                    before.len() == old_blocks.len(),
                    self.spawn_x == old(self).spawn_x,
                    self.spawn_y == old(self).spawn_y,
                    self.spawn_z == old(self).spawn_z,
                    self.blocks@.len() == old_blocks.len(),
                    forall|i: int|
                        0 <= i < old_blocks.len() ==> #[trigger] self.blocks@[i] == (if base <= i
                            < base + y {
                            crate::constants::flatmap_template()[i - base]
                        } else {
                            before[i]
                        }),
                decreases WORLD_FLATMAP_TEMPLATE_LEN - y,
            {
                proof {
                    crate::constants::lemma_template_const();
                }
                self.blocks.set(base + y, WORLD_FLATMAP_TEMPLATE[y]);
                y = y + 1;
            }
            if counter & 0x10 == 0 && counter & 0x1 == 0 {
                self.blocks.set(base + 10, BlockType::Wool);
            }
            proof {
                lemma_strip_bits(counter);
                assert forall|i: int| 0 <= i < old_blocks.len() implies #[trigger] self.blocks@[i]
                    == (if i < (counter + 1) * CHUNK_HEIGHT {
                    generated_block(old_blocks[i], i)
                } else {
                    old_blocks[i]
                }) by {
                    if base <= i < base + CHUNK_HEIGHT {
                        lemma_strip_of(counter as int, i);
                    }
                }
            }
            counter = counter + 1;
        }
    }
}

/// Every position of the chunk has an index of its own in the store, and
/// the indexes of the chunk's positions fill the store exactly.
pub proof fn lemma_position_index_layout(x1: int, y1: int, z1: int, x2: int, y2: int, z2: int)
    requires
        in_chunk(x1, y1, z1),
        in_chunk(x2, y2, z2),
    ensures
        0 <= position_index(x1, y1, z1) < CHUNK_VOLUME,
        position_index(x1, y1, z1) == position_index(x2, y2, z2) ==> (x1 == x2 && y1 == y2 && z1
            == z2),
{
    lemma_position_index_bounds(x1, y1, z1);
    lemma_position_index_bounds(x2, y2, z2);
    let s1: int = x1 * 16 + z1;
    let s2: int = x2 * 16 + z2;
    vstd::arithmetic::div_mod::lemma_fundamental_div_mod_converse(s1, 16, x1, z1);
    vstd::arithmetic::div_mod::lemma_fundamental_div_mod_converse(s2, 16, x2, z2);
}

/// Every index of the store holds the block of one position of the chunk.
pub proof fn lemma_index_position(i: int)
    requires
        0 <= i < CHUNK_VOLUME,
    ensures
        in_chunk(i / 1024, i % 64, (i / 64) % 16),
        position_index(i / 1024, i % 64, (i / 64) % 16) == i,
{
    let s: int = i / 64;
    let y: int = i % 64;
    vstd::arithmetic::div_mod::lemma_fundamental_div_mod(i, 64);
    vstd::arithmetic::div_mod::lemma_fundamental_div_mod(s, 16);
    vstd::arithmetic::div_mod::lemma_div_denominator(i, 64, 16);
    assert(0 <= s < 256);
}

/// The flat world, layer by layer: bedrock at the bottom, stone on layers 1
/// and 2, dirt on layers 3 to 5, grass on layer 6; above that only air,
/// except wool on layer 10 where x and z are both even. It is what the flat
/// generator makes of a chunk of air.
pub proof fn lemma_flat_world_layers(x: int, y: int, z: int)
    requires
        in_chunk(x, y, z),
    ensures
        flat_block(x, y, z) == generated_block(BlockType::Air, position_index(x, y, z)),
        y == 0 ==> flat_block(x, y, z) == BlockType::Bedrock,
        1 <= y <= 2 ==> flat_block(x, y, z) == BlockType::Stone,
        3 <= y <= 5 ==> flat_block(x, y, z) == BlockType::Dirt,
        y == 6 ==> flat_block(x, y, z) == BlockType::Grass,
        y >= 7 && y != 10 ==> flat_block(x, y, z) == BlockType::Air,
        y == 10 ==> (flat_block(x, y, z) == BlockType::Wool <==> (x % 2 == 0 && z % 2 == 0)),
        y == 10 ==> (flat_block(x, y, z) == BlockType::Air <==> !(x % 2 == 0 && z % 2 == 0)),
{
    lemma_generated_at_position(x, y, z);
}

/// Generating the flat terrain a second time changes nothing.
pub proof fn lemma_generate_idempotent(old: BlockType, i: int)
    ensures
        generated_block(generated_block(old, i), i) == generated_block(old, i),
{
}

/// In the chunk, the bit layout of `block_index` is the position index.
proof fn lemma_block_index_in_chunk(x: u16, y: u8, z: u16)
    ensures
        in_chunk(x as int, y as int, z as int) ==> block_index(x, y, z) == position_index(
            x as int,
            y as int,
            z as int,
        ),
{
    if in_chunk(x as int, y as int, z as int) {
        let xu: usize = x as usize;
        let yu: usize = y as usize;
        let zu: usize = z as usize;
        assert(((xu << 4usize | zu) << 6usize) | yu == (xu * 16 + zu) * 64 + yu) by (bit_vector)
            requires
                xu < 16,
                yu < 64,
                zu < 16,
        ;
    }
}

/// Positions of the chunk are stored at distinct indexes of the store.
proof fn lemma_position_index_bounds(x: int, y: int, z: int)
    requires
        in_chunk(x, y, z),
    ensures
        0 <= position_index(x, y, z) < CHUNK_VOLUME,
        position_index(x, y, z) / CHUNK_HEIGHT as int == x * 16 + z,
        position_index(x, y, z) % CHUNK_HEIGHT as int == y,
{
    assert(0 <= position_index(x, y, z) < CHUNK_VOLUME) by (nonlinear_arith)
        requires
            0 <= x < 16,
            0 <= y < 64,
            0 <= z < 16,
    ;
    let s: int = x * 16 + z;
    assert(position_index(x, y, z) == s * 64 + y);
    vstd::arithmetic::div_mod::lemma_fundamental_div_mod_converse(
        position_index(x, y, z),
        64,
        s,
        y,
    );
}

/// What the generator leaves at a position of the chunk is the flat block.
proof fn lemma_generated_at_position(x: int, y: int, z: int)
    requires
        in_chunk(x, y, z),
    ensures
        forall|old: BlockType|
            generated_block(old, position_index(x, y, z)) == (if y < WORLD_FLATMAP_TEMPLATE_LEN {
                crate::constants::flatmap_template()[y]
            } else if y == 10 && x % 2 == 0 && z % 2 == 0 {
                BlockType::Wool
            } else {
                old
            }),
{
    lemma_position_index_bounds(x, y, z);
    let s: int = x * 16 + z;
    vstd::arithmetic::div_mod::lemma_fundamental_div_mod_converse(s, 16, x, z);
    assert(s % 2 == z % 2);
    assert((s / 16) % 2 == x % 2);
}

/// The bit tests of the generator on a column number.
proof fn lemma_strip_bits(counter: usize)
    ensures
        (counter & 0x10 == 0 && counter & 0x1 == 0) <==> (counter % 2 == 0 && (counter / 16) % 2
            == 0),
{
    assert((counter & 0x10 == 0 && counter & 0x1 == 0) <==> (counter % 2 == 0 && (counter / 16)
        % 2 == 0)) by (bit_vector);
}

/// An index in strip `s` has strip number `s` and height `i - 64 s`.
proof fn lemma_strip_of(s: int, i: int)
    requires
        s >= 0,
        s * 64 <= i < s * 64 + 64,
    ensures
        i / CHUNK_HEIGHT as int == s,
        i % CHUNK_HEIGHT as int == i - s * 64,
{
    vstd::arithmetic::div_mod::lemma_fundamental_div_mod_converse(i, 64, s, i - s * 64);
}

} // verus!
