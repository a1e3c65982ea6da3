use minicrust::constants::{
    block_color_get, BlockType, Color, BLOCK_TYPE_COUNT, CHUNK_HEIGHT, CHUNK_VOLUME, CHUNK_WIDTH,
};

#[test]
fn chunk_dimensions() {
    assert_eq!(CHUNK_WIDTH, 1 << 4);
    assert_eq!(CHUNK_HEIGHT, 1 << 6);
    assert_eq!(CHUNK_VOLUME, 16 * 16 * 64);
}

#[test]
fn rgb_keeps_channels() {
    assert_eq!(Color::rgb(1, 2, 3), Color::rgb(1, 2, 3));
    assert_ne!(Color::rgb(1, 2, 3), Color::rgb(3, 2, 1));
}

#[test]
fn scale_by_half() {
    let c = Color::rgb(0x81, 0x5d, 0x42);
    assert_eq!(c.scale(0x80), Color::rgb(0x40, 0x2e, 0x21));
}

#[test]
fn scale_by_one_keeps_color() {
    let c = Color::rgb(0xff, 0x7b, 0x00);
    assert_eq!(c.scale(0x100), c);
}

#[test]
fn scale_by_zero_is_black() {
    let c = Color::rgb(0xff, 0x7b, 0x01);
    assert_eq!(c.scale(0), Color::rgb(0, 0, 0));
}

#[test]
fn scale_rounds_down() {
    // 0xff * 0xcc / 256 = 203.2
    let c = Color::rgb(0xff, 0x01, 0x02);
    assert_eq!(c.scale(0xcc), Color::rgb(203, 0, 1));
}

#[test]
fn block_ids_follow_declaration() {
    assert_eq!(u8::from(BlockType::Air), 0);
    assert_eq!(u8::from(BlockType::Stone), 1);
    assert_eq!(u8::from(BlockType::Wool), 10);
    assert_eq!(u8::from(BlockType::QuartzBlock), 24);
    assert_eq!(u8::from(BlockType::Count), BLOCK_TYPE_COUNT);
}

#[test]
fn from_id_round_trips() {
    for id in 0..BLOCK_TYPE_COUNT {
        assert_eq!(u8::from(BlockType::from_id(id)), id);
    }
    assert_eq!(BlockType::from_id(6), BlockType::Bedrock);
}

#[test]
fn block_colors_in_id_order() {
    assert_eq!(block_color_get(BlockType::Air), Color::rgb(0x00, 0x00, 0x00));
    assert_eq!(block_color_get(BlockType::Stone), Color::rgb(0x81, 0x81, 0x81));
    assert_eq!(block_color_get(BlockType::Grass), Color::rgb(0x72, 0xb1, 0x41));
    assert_eq!(block_color_get(BlockType::Dirt), Color::rgb(0x81, 0x5d, 0x42));
    assert_eq!(block_color_get(BlockType::Wool), Color::rgb(0xe8, 0xeb, 0xec));
    assert_eq!(block_color_get(BlockType::QuartzBlock), Color::rgb(0xed, 0xea, 0xe3));
}
