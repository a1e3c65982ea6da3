use minicrust::constants::BlockType;
use minicrust::world::World;

#[test]
fn spawn_point() {
    let w = World::new();
    assert_eq!(w.spawn_x, 0);
    assert_eq!(w.spawn_y, 13 << 8);
    assert_eq!(w.spawn_z, 0);
    assert_eq!(w.spawn_get(), (0, 13 << 8, 0));
}

#[test]
fn flat_layers() {
    let w = World::new();
    for x in 0..16u16 {
        for z in 0..16u16 {
            assert_eq!(w.block_get(x, 0, z), BlockType::Bedrock);
            assert_eq!(w.block_get(x, 1, z), BlockType::Stone);
            assert_eq!(w.block_get(x, 2, z), BlockType::Stone);
            assert_eq!(w.block_get(x, 3, z), BlockType::Dirt);
            assert_eq!(w.block_get(x, 5, z), BlockType::Dirt);
            assert_eq!(w.block_get(x, 6, z), BlockType::Grass);
            assert_eq!(w.block_get(x, 7, z), BlockType::Air);
            assert_eq!(w.block_get(x, 63, z), BlockType::Air);
        }
    }
}

#[test]
fn wool_on_even_columns() {
    let w = World::new();
    assert_eq!(w.block_get(0, 10, 0), BlockType::Wool);
    assert_eq!(w.block_get(2, 10, 4), BlockType::Wool);
    assert_eq!(w.block_get(14, 10, 14), BlockType::Wool);
    assert_eq!(w.block_get(1, 10, 0), BlockType::Air);
    assert_eq!(w.block_get(0, 10, 1), BlockType::Air);
    assert_eq!(w.block_get(3, 10, 5), BlockType::Air);
    assert_eq!(w.block_get(2, 9, 2), BlockType::Air);
    assert_eq!(w.block_get(2, 11, 2), BlockType::Air);
}

#[test]
fn outside_chunk_is_air() {
    let w = World::new();
    assert_eq!(w.block_get(16, 0, 0), BlockType::Air);
    assert_eq!(w.block_get(0, 0, 16), BlockType::Air);
    assert_eq!(w.block_get(0, 64, 0), BlockType::Air);
    assert_eq!(w.block_get(u16::MAX, 3, u16::MAX), BlockType::Air);
}

#[test]
fn block_index_layout() {
    assert_eq!(World::block_index_get(0, 0, 0), 0);
    assert_eq!(World::block_index_get(0, 5, 0), 5);
    assert_eq!(World::block_index_get(0, 0, 1), 64);
    assert_eq!(World::block_index_get(1, 0, 0), 1024);
    assert_eq!(World::block_index_get(15, 63, 15), 16383);
    // outside the chunk the bits of the coordinates are merged
    assert_eq!(World::block_index_get(0, 0, 17), (17 << 6) | 0);
    assert_eq!(World::block_index_get(1, 65, 0), (1 << 10) | 65);
}

#[test]
fn unchecked_reads_agree() {
    let w = World::new();
    assert_eq!(w.block_get_unchecked(2, 10, 2), BlockType::Wool);
    assert_eq!(w.block_get_unchecked_index(World::block_index_get(5, 6, 7)), BlockType::Grass);
    assert_eq!(w.block_get_unchecked_index(0), BlockType::Bedrock);
}

#[test]
fn generate_twice_is_once() {
    let mut w = World::new();
    w.chunk_generate();
    let fresh = World::new();
    for i in 0..16384usize {
        assert_eq!(w.block_get_unchecked_index(i), fresh.block_get_unchecked_index(i));
    }
}
