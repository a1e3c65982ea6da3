//! Dimensions of a chunk, the block types and their colors.

use vstd::prelude::*;

verus! {

pub const CHUNK_WIDTH_L2: u8 = 4;
pub const CHUNK_HEIGHT_FACTOR_L2: u8 = 2;
pub const CHUNK_HEIGHT_L2: u8 = CHUNK_WIDTH_L2 + CHUNK_HEIGHT_FACTOR_L2;

/// `1 << CHUNK_WIDTH_L2` (see `lemma_chunk_dimensions`).
pub const CHUNK_WIDTH: usize = 16;
pub const CHUNK_WIDTH_MASK: usize = CHUNK_WIDTH - 1;
/// `1 << CHUNK_HEIGHT_FACTOR_L2`.
pub const CHUNK_HEIGHT_FACTOR: usize = 4;
/// `1 << CHUNK_HEIGHT_L2`.
pub const CHUNK_HEIGHT: usize = 64;

/// Number of blocks in one chunk: one column of `CHUNK_HEIGHT` blocks for
/// each of the `CHUNK_WIDTH * CHUNK_WIDTH` positions.
pub const CHUNK_VOLUME: usize = CHUNK_WIDTH * CHUNK_WIDTH * CHUNK_HEIGHT;

/// The dimensions are the powers of two that their logarithms name.
pub proof fn lemma_chunk_dimensions()
    ensures
        CHUNK_WIDTH == 1usize << CHUNK_WIDTH_L2,
        CHUNK_HEIGHT_FACTOR == 1usize << CHUNK_HEIGHT_FACTOR_L2,
        CHUNK_HEIGHT == 1usize << CHUNK_HEIGHT_L2,
        CHUNK_HEIGHT == CHUNK_WIDTH * CHUNK_HEIGHT_FACTOR,
        CHUNK_WIDTH_MASK == CHUNK_WIDTH - 1,
        CHUNK_VOLUME == 16384,
{
    assert(16usize == 1usize << 4u8) by (bit_vector);
    assert(4usize == 1usize << 2u8) by (bit_vector);
    assert(64usize == 1usize << 6u8) by (bit_vector);
}

/// A color with 8 bits per channel, laid out as blue, green, red, alpha.
#[derive(Clone, Copy, Debug, PartialEq, Eq, Structural)]
pub struct Color {
    b: u8,
    g: u8,
    r: u8,
    a: u8,
}

impl View for Color {
    /// Red, green, blue and alpha, in that order.
    type V = (u8, u8, u8, u8);

    closed spec fn view(&self) -> (u8, u8, u8, u8) {
        (self.r, self.g, self.b, self.a)
    }
}

/// A channel scaled by `factor / 256`, rounded down.
pub open spec fn channel_scaled(channel: u8, factor: u16) -> int {
    (channel as int * factor as int) / 256
}

impl Color {
    /// A color from its red, green and blue channels, with alpha 0.
    pub fn rgb(r: u8, g: u8, b: u8) -> (c: Self)
        ensures
            c@ == (r, g, b, 0u8),
    {
        Self { r, g, b, a: 0x00 }
    }

    /// Scale the color channels by a factor in [0..1], given in q8
    /// (`0x100` is 1); alpha is kept.
    pub fn scale(&self, factor: u16) -> (c: Self)
        requires
            factor <= 0x100,
        ensures
            c@.0 == channel_scaled(self@.0, factor),
            c@.1 == channel_scaled(self@.1, factor),
            c@.2 == channel_scaled(self@.2, factor),
            c@.3 == self@.3,
            (c@.0 as int) * 256 <= (self@.0 as int) * (factor as int) < (c@.0 as int + 1) * 256,
            (c@.1 as int) * 256 <= (self@.1 as int) * (factor as int) < (c@.1 as int + 1) * 256,
            (c@.2 as int) * 256 <= (self@.2 as int) * (factor as int) < (c@.2 as int + 1) * 256,
    {
        proof {
            lemma_scale_rounds_down(self@.0, factor);
            lemma_scale_rounds_down(self@.1, factor);
            lemma_scale_rounds_down(self@.2, factor);
        }
        Self {
            r: Self::channel_scale(self.r, factor),
            g: Self::channel_scale(self.g, factor),
            b: Self::channel_scale(self.b, factor),
            a: self.a,
        }
    }

    fn channel_scale(channel: u8, factor: u16) -> (c: u8)
        requires
            factor <= 0x100,
        ensures
            c == channel_scaled(channel, factor),
    {
        assert(channel as u16 * factor <= 0xff00) by (nonlinear_arith)
            requires
                channel <= 0xff,
                factor <= 0x100,
        ;
        let product: u16 = channel as u16 * factor;
        assert(product >> 8u16 == product / 256) by (bit_vector);
        assert(product / 256 <= 0xff);
        (product >> 8u16) as u8
    }
}

/// Scaling by 1 (`0x100` in q8) keeps a color, and scaling never brightens a
/// channel.
pub proof fn lemma_scale_darkens(channel: u8, factor: u16)
    requires
        factor <= 0x100,
    ensures
        channel_scaled(channel, factor) <= channel,
        0 <= channel_scaled(channel, factor),
        factor == 0x100 ==> channel_scaled(channel, factor) == channel,
        factor == 0 ==> channel_scaled(channel, factor) == 0,
{
    assert(channel as int * factor as int <= channel as int * 256) by (nonlinear_arith)
        requires
            factor <= 0x100,
            0 <= channel,
    ;
    assert(0 <= channel as int * factor as int) by (nonlinear_arith)
        requires
            0 <= factor,
            0 <= channel,
    ;
}

/// One face of a block, by the direction it looks in.
#[derive(Clone, Copy, Debug, PartialEq, Eq, Structural)]
pub enum BlockFace {
    East,
    West,
    Top,
    Bottom,
    North,
    South,
}

/// The kinds of block; a block's id is its position in this list, and `Count`
/// is the number of real kinds.
#[derive(Debug, Copy, Clone, PartialEq, Eq, Structural)]
pub enum BlockType {
    Air,
    Stone,
    Grass,
    Dirt,
    Cobble,
    Planks,
    Bedrock,
    Log,
    Leaves,
    Bricks,
    Wool,
    Sand,
    Gravel,
    Glass,
    Bookshelf,
    Obsidian,
    StoneBricks,
    Sandstone,
    LapisBlock,
    IronBlock,
    GoldBlock,
    DiamondBlock,
    EmeraldBlock,
    RedstoneBlock,
    QuartzBlock,
    Count,
}

/// Number of real block kinds: the id of `BlockType::Count`.
pub const BLOCK_TYPE_COUNT: u8 = 25;

/// The id of a block type: its position in the declaration of `BlockType`.
pub open spec fn block_type_id(block_type: BlockType) -> u8 {
    match block_type {
        BlockType::Air => 0,
        BlockType::Stone => 1,
        BlockType::Grass => 2,
        BlockType::Dirt => 3,
        BlockType::Cobble => 4,
        BlockType::Planks => 5,
        BlockType::Bedrock => 6,
        BlockType::Log => 7,
        BlockType::Leaves => 8,
        BlockType::Bricks => 9,
        BlockType::Wool => 10,
        BlockType::Sand => 11,
        BlockType::Gravel => 12,
        BlockType::Glass => 13,
        BlockType::Bookshelf => 14,
        BlockType::Obsidian => 15,
        BlockType::StoneBricks => 16,
        BlockType::Sandstone => 17,
        BlockType::LapisBlock => 18,
        BlockType::IronBlock => 19,
        BlockType::GoldBlock => 20,
        BlockType::DiamondBlock => 21,
        BlockType::EmeraldBlock => 22,
        BlockType::RedstoneBlock => 23,
        BlockType::QuartzBlock => 24,
        BlockType::Count => 25,
    }
}

impl From<BlockType> for u8 {
    fn from(block_type: BlockType) -> (id: u8) {
        match block_type {
            BlockType::Air => 0,
            BlockType::Stone => 1,
            BlockType::Grass => 2,
            BlockType::Dirt => 3,
            BlockType::Cobble => 4,
            BlockType::Planks => 5,
            BlockType::Bedrock => 6,
            BlockType::Log => 7,
            BlockType::Leaves => 8,
            BlockType::Bricks => 9,
            BlockType::Wool => 10,
            BlockType::Sand => 11,
            BlockType::Gravel => 12,
            BlockType::Glass => 13,
            BlockType::Bookshelf => 14,
            BlockType::Obsidian => 15,
            BlockType::StoneBricks => 16,
            BlockType::Sandstone => 17,
            BlockType::LapisBlock => 18,
            BlockType::IronBlock => 19,
            BlockType::GoldBlock => 20,
            BlockType::DiamondBlock => 21,
            BlockType::EmeraldBlock => 22,
            BlockType::RedstoneBlock => 23,
            BlockType::QuartzBlock => 24,
            BlockType::Count => 25,
        }
    }
}

impl vstd::std_specs::convert::FromSpecImpl<BlockType> for u8 {
    open spec fn obeys_from_spec() -> bool {
        true
    }

    open spec fn from_spec(v: BlockType) -> u8 {
        block_type_id(v)
    }
}

impl BlockType {
    /// The block type with the given id; ids from `BLOCK_TYPE_COUNT` on name
    /// no block type.
    pub fn from_id(block_id: u8) -> (block_type: BlockType)
        requires
            block_id < BLOCK_TYPE_COUNT,
        ensures
            block_type_id(block_type) == block_id,
    {
        match block_id {
            0 => BlockType::Air,
            1 => BlockType::Stone,
            2 => BlockType::Grass,
            3 => BlockType::Dirt,
            4 => BlockType::Cobble,
            5 => BlockType::Planks,
            6 => BlockType::Bedrock,
            7 => BlockType::Log,
            8 => BlockType::Leaves,
            9 => BlockType::Bricks,
            10 => BlockType::Wool,
            11 => BlockType::Sand,
            12 => BlockType::Gravel,
            13 => BlockType::Glass,
            14 => BlockType::Bookshelf,
            15 => BlockType::Obsidian,
            16 => BlockType::StoneBricks,
            17 => BlockType::Sandstone,
            18 => BlockType::LapisBlock,
            19 => BlockType::IronBlock,
            20 => BlockType::GoldBlock,
            21 => BlockType::DiamondBlock,
            22 => BlockType::EmeraldBlock,
            23 => BlockType::RedstoneBlock,
            _ => BlockType::QuartzBlock,
        }
    }
}

/// Ids and block types are one to one: every block type has an id of its
/// own, and each id below `BLOCK_TYPE_COUNT` belongs to a real block type.
pub proof fn lemma_block_type_id_injective(b1: BlockType, b2: BlockType)
    ensures
        block_type_id(b1) == block_type_id(b2) ==> b1 == b2,
        block_type_id(b1) <= BLOCK_TYPE_COUNT,
        block_type_id(b1) < BLOCK_TYPE_COUNT <==> b1 != BlockType::Count,
{
}

/// The color of each real block type, red, green and blue, indexed by the
/// block type's id.
pub open spec fn block_color_table() -> Seq<(u8, u8, u8)> {
    seq![
        (0x00u8, 0x00u8, 0x00u8),
        (0x81u8, 0x81u8, 0x81u8),
        (0x72u8, 0xb1u8, 0x41u8),
        (0x81u8, 0x5du8, 0x42u8),
        (0x7bu8, 0x7bu8, 0x7bu8),
        (0xa2u8, 0x83u8, 0x51u8),
        (0x6bu8, 0x6bu8, 0x6bu8),
        (0x6fu8, 0x58u8, 0x36u8),
        (0x6eu8, 0xacu8, 0x3fu8),
        (0x95u8, 0x6bu8, 0x61u8),
        (0xe8u8, 0xebu8, 0xecu8),
        (0xdcu8, 0xd4u8, 0xa2u8),
        (0x7eu8, 0x7cu8, 0x7bu8),
        (0xe0u8, 0xf6u8, 0xfau8),
        (0x78u8, 0x59u8, 0x3fu8),
        (0x14u8, 0x12u8, 0x1eu8),
        (0x7bu8, 0x7bu8, 0x7bu8),
        (0xd3u8, 0xccu8, 0x93u8),
        (0x27u8, 0x43u8, 0x8bu8),
        (0xe7u8, 0xe7u8, 0xe7u8),
        (0xfdu8, 0xf3u8, 0x54u8),
        (0x7eu8, 0xe1u8, 0xddu8),
        (0x55u8, 0xdbu8, 0x78u8),
        (0xacu8, 0x1du8, 0x0au8),
        (0xedu8, 0xeau8, 0xe3u8),
    ]
}

/// The color a block type is drawn in: the entry of `block_color_table` at
/// its id, with alpha 0.
pub fn block_color_get(block_type: BlockType) -> (color: Color)
    requires
        block_type != BlockType::Count,
    ensures
        ({
            let (r, g, b) = block_color_table()[block_type_id(block_type) as int];
            color@ == (r, g, b, 0u8)
        }),
{
    match block_type {
        BlockType::Air => Color::rgb(0x00, 0x00, 0x00),
        BlockType::Stone => Color::rgb(0x81, 0x81, 0x81),
        BlockType::Grass => Color::rgb(0x72, 0xb1, 0x41),
        BlockType::Dirt => Color::rgb(0x81, 0x5d, 0x42),
        BlockType::Cobble => Color::rgb(0x7b, 0x7b, 0x7b),
        BlockType::Planks => Color::rgb(0xa2, 0x83, 0x51),
        BlockType::Bedrock => Color::rgb(0x6b, 0x6b, 0x6b),
        BlockType::Log => Color::rgb(0x6f, 0x58, 0x36),
        BlockType::Leaves => Color::rgb(0x6e, 0xac, 0x3f),
        BlockType::Bricks => Color::rgb(0x95, 0x6b, 0x61),
        BlockType::Wool => Color::rgb(0xe8, 0xeb, 0xec),
        BlockType::Sand => Color::rgb(0xdc, 0xd4, 0xa2),
        BlockType::Gravel => Color::rgb(0x7e, 0x7c, 0x7b),
        BlockType::Glass => Color::rgb(0xe0, 0xf6, 0xfa),
        BlockType::Bookshelf => Color::rgb(0x78, 0x59, 0x3f),
        BlockType::Obsidian => Color::rgb(0x14, 0x12, 0x1e),
        BlockType::StoneBricks => Color::rgb(0x7b, 0x7b, 0x7b),
        BlockType::Sandstone => Color::rgb(0xd3, 0xcc, 0x93),
        BlockType::LapisBlock => Color::rgb(0x27, 0x43, 0x8b),
        BlockType::IronBlock => Color::rgb(0xe7, 0xe7, 0xe7),
        BlockType::GoldBlock => Color::rgb(0xfd, 0xf3, 0x54),
        BlockType::DiamondBlock => Color::rgb(0x7e, 0xe1, 0xdd),
        BlockType::EmeraldBlock => Color::rgb(0x55, 0xdb, 0x78),
        BlockType::RedstoneBlock => Color::rgb(0xac, 0x1d, 0x0a),
        BlockType::QuartzBlock => Color::rgb(0xed, 0xea, 0xe3),
        BlockType::Count => Color::rgb(0x00, 0x00, 0x00),
    }
}

/// The number of layers of `WORLD_FLATMAP_TEMPLATE`.
pub const WORLD_FLATMAP_TEMPLATE_LEN: usize = 7;

/// The layers that the flat generator lays at the bottom of every column,
/// from the bottom up.
pub open spec fn flatmap_template() -> Seq<BlockType> {
    seq![
        BlockType::Bedrock,
        BlockType::Stone,
        BlockType::Stone,
        BlockType::Dirt,
        BlockType::Dirt,
        BlockType::Dirt,
        BlockType::Grass,
    ]
}

/// The layers that the flat generator lays at the bottom of every column.
pub const WORLD_FLATMAP_TEMPLATE: [BlockType; 7] = [
    BlockType::Bedrock,
    BlockType::Stone,
    BlockType::Stone,
    BlockType::Dirt,
    BlockType::Dirt,
    BlockType::Dirt,
    BlockType::Grass,
];

/// The template constant holds the flat template.
pub proof fn lemma_template_const()
    ensures
        WORLD_FLATMAP_TEMPLATE@ == flatmap_template(),
{
    assert(WORLD_FLATMAP_TEMPLATE@ =~= flatmap_template());
}

/// Every block type's id is its declared discriminant, its position in the
/// declaration: Air 0, Stone 1, ..., QuartzBlock 24, and `Count` 25; and the
/// conversion to `u8` gives that id.
pub proof fn lemma_block_type_ids()
    ensures
        block_type_id(BlockType::Air) == 0,
        block_type_id(BlockType::Stone) == 1,
        block_type_id(BlockType::Grass) == 2,
        block_type_id(BlockType::Dirt) == 3,
        block_type_id(BlockType::Cobble) == 4,
        block_type_id(BlockType::Planks) == 5,
        block_type_id(BlockType::Bedrock) == 6,
        block_type_id(BlockType::Log) == 7,
        block_type_id(BlockType::Leaves) == 8,
        block_type_id(BlockType::Bricks) == 9,
        block_type_id(BlockType::Wool) == 10,
        block_type_id(BlockType::Sand) == 11,
        block_type_id(BlockType::Gravel) == 12,
        block_type_id(BlockType::Glass) == 13,
        block_type_id(BlockType::Bookshelf) == 14,
        block_type_id(BlockType::Obsidian) == 15,
        block_type_id(BlockType::StoneBricks) == 16,
        block_type_id(BlockType::Sandstone) == 17,
        block_type_id(BlockType::LapisBlock) == 18,
        block_type_id(BlockType::IronBlock) == 19,
        block_type_id(BlockType::GoldBlock) == 20,
        block_type_id(BlockType::DiamondBlock) == 21,
        block_type_id(BlockType::EmeraldBlock) == 22,
        block_type_id(BlockType::RedstoneBlock) == 23,
        block_type_id(BlockType::QuartzBlock) == 24,
        block_type_id(BlockType::Count) == 25,
        forall|b: BlockType|
            #[trigger] <u8 as vstd::std_specs::convert::FromSpec<BlockType>>::from_spec(b)
                == block_type_id(b),
{
}

/// The color of every real block type, as red, green and blue: the entry
/// of the color table at the block type's declared id.
pub proof fn lemma_block_colors()
    ensures
        block_color_table()[block_type_id(BlockType::Air) as int] == (0x00u8, 0x00u8, 0x00u8),
        block_color_table()[block_type_id(BlockType::Stone) as int] == (0x81u8, 0x81u8, 0x81u8),
        block_color_table()[block_type_id(BlockType::Grass) as int] == (0x72u8, 0xb1u8, 0x41u8),
        block_color_table()[block_type_id(BlockType::Dirt) as int] == (0x81u8, 0x5du8, 0x42u8),
        block_color_table()[block_type_id(BlockType::Cobble) as int] == (0x7bu8, 0x7bu8, 0x7bu8),
        block_color_table()[block_type_id(BlockType::Planks) as int] == (0xa2u8, 0x83u8, 0x51u8),
        block_color_table()[block_type_id(BlockType::Bedrock) as int] == (0x6bu8, 0x6bu8, 0x6bu8),
        block_color_table()[block_type_id(BlockType::Log) as int] == (0x6fu8, 0x58u8, 0x36u8),
        block_color_table()[block_type_id(BlockType::Leaves) as int] == (0x6eu8, 0xacu8, 0x3fu8),
        block_color_table()[block_type_id(BlockType::Bricks) as int] == (0x95u8, 0x6bu8, 0x61u8),
        block_color_table()[block_type_id(BlockType::Wool) as int] == (0xe8u8, 0xebu8, 0xecu8),
        block_color_table()[block_type_id(BlockType::Sand) as int] == (0xdcu8, 0xd4u8, 0xa2u8),
        block_color_table()[block_type_id(BlockType::Gravel) as int] == (0x7eu8, 0x7cu8, 0x7bu8),
        block_color_table()[block_type_id(BlockType::Glass) as int] == (0xe0u8, 0xf6u8, 0xfau8),
        block_color_table()[block_type_id(BlockType::Bookshelf) as int] == (0x78u8, 0x59u8, 0x3fu8),
        block_color_table()[block_type_id(BlockType::Obsidian) as int] == (0x14u8, 0x12u8, 0x1eu8),
        block_color_table()[block_type_id(BlockType::StoneBricks) as int] == (0x7bu8, 0x7bu8, 0x7bu8),
        block_color_table()[block_type_id(BlockType::Sandstone) as int] == (0xd3u8, 0xccu8, 0x93u8),
        block_color_table()[block_type_id(BlockType::LapisBlock) as int] == (0x27u8, 0x43u8, 0x8bu8),
        block_color_table()[block_type_id(BlockType::IronBlock) as int] == (0xe7u8, 0xe7u8, 0xe7u8),
        block_color_table()[block_type_id(BlockType::GoldBlock) as int] == (0xfdu8, 0xf3u8, 0x54u8),
        block_color_table()[block_type_id(BlockType::DiamondBlock) as int] == (0x7eu8, 0xe1u8, 0xddu8),
        block_color_table()[block_type_id(BlockType::EmeraldBlock) as int] == (0x55u8, 0xdbu8, 0x78u8),
        block_color_table()[block_type_id(BlockType::RedstoneBlock) as int] == (0xacu8, 0x1du8, 0x0au8),
        block_color_table()[block_type_id(BlockType::QuartzBlock) as int] == (0xedu8, 0xeau8, 0xe3u8),
        block_color_table().len() == BLOCK_TYPE_COUNT,
{
}

/// A scaled channel is the channel times the factor over 256, rounded down,
/// for every channel and every factor in [0..0x100]:
/// `s * 256 <= c * f < (s + 1) * 256`.
pub proof fn lemma_scale_rounds_down(channel: u8, factor: u16)
    requires
        factor <= 0x100,
    ensures
        channel_scaled(channel, factor) * 256 <= (channel as int) * (factor as int),
        (channel as int) * (factor as int) < (channel_scaled(channel, factor) + 1) * 256,
{
    vstd::arithmetic::div_mod::lemma_fundamental_div_mod(channel as int * factor as int, 256);
}

} // verus!
