use minicrust::constants::BlockFace;
use minicrust::renderer::{ray_march, RayHit, Renderer, STEP_SCALE};
use minicrust::world::World;

const S: i32 = STEP_SCALE;

#[test]
fn step_scale_is_q22() {
    assert_eq!(STEP_SCALE, 1 << 22);
}

#[test]
fn looking_down_hits_wool() {
    let w = World::new();
    let hit = ray_march(&w, 128, 13 << 8, 128, 0, -S, 0);
    assert_eq!(hit, Some(RayHit { x: 0, y: 10, z: 0, face: BlockFace::Top }));
}

#[test]
fn looking_down_between_wool_hits_grass() {
    let w = World::new();
    let hit = ray_march(&w, 256 + 128, 13 << 8, 128, 0, -S, 0);
    assert_eq!(hit, Some(RayHit { x: 1, y: 6, z: 0, face: BlockFace::Top }));
}

#[test]
fn looking_up_sees_nothing() {
    let w = World::new();
    assert_eq!(ray_march(&w, 128, 13 << 8, 128, 0, S, 0), None);
}

#[test]
fn still_ray_sees_nothing() {
    let w = World::new();
    assert_eq!(ray_march(&w, 128, 13 << 8, 128, 0, 0, 0), None);
}

#[test]
fn looking_east_into_the_chunk() {
    let w = World::new();
    // standing two blocks west of the chunk, in the grass layer
    let hit = ray_march(&w, -512 + 128, 6 * 256 + 128, 128, S, 0, 0);
    assert_eq!(hit, Some(RayHit { x: 0, y: 6, z: 0, face: BlockFace::East }));
}

#[test]
fn looking_west_out_of_the_chunk() {
    let w = World::new();
    // in the air layer, nothing to the west
    assert_eq!(ray_march(&w, 128, 8 * 256 + 128, 128, -S, 0, 0), None);
}

#[test]
fn looking_north_and_south_at_wool() {
    let w = World::new();
    // at (2, 10, 5): wool at z = 4 and z = 6 in column x = 2
    let south = ray_march(&w, 2 * 256 + 128, 10 * 256 + 128, 5 * 256 + 128, 0, 0, S);
    assert_eq!(south, Some(RayHit { x: 2, y: 10, z: 6, face: BlockFace::South }));
    let north = ray_march(&w, 2 * 256 + 128, 10 * 256 + 128, 5 * 256 + 128, 0, 0, -S);
    assert_eq!(north, Some(RayHit { x: 2, y: 10, z: 4, face: BlockFace::North }));
}

#[test]
fn view_distance_is_sixteen_blocks() {
    let w = World::new();
    // the chunk begins 16.5 blocks east: too far
    assert_eq!(ray_march(&w, -16 * 256 - 128, 6 * 256 + 128, 128, S, 0, 0), None);
    // 15.5 blocks: seen
    let hit = ray_march(&w, -15 * 256 - 128, 6 * 256 + 128, 128, S, 0, 0);
    assert_eq!(hit, Some(RayHit { x: 0, y: 6, z: 0, face: BlockFace::East }));
}

#[test]
fn diagonal_down_hits_ground() {
    let w = World::new();
    // from (8.5, 8.5, 8.5) down and east at 45 degrees: 2^22 / sqrt 2
    let d = 2965821;
    let hit = ray_march(&w, 8 * 256 + 128, 8 * 256 + 128, 8 * 256 + 128, d, -d, 0).unwrap();
    assert_eq!(hit.y, 6);
    assert_eq!(hit.face, BlockFace::Top);
    assert_eq!(hit.z, 8);
    assert_eq!(hit.x, 9);
}

#[test]
fn framerate_reported_each_second() {
    let mut r = Renderer::new();
    assert!(r.frame_start_allowed(400_000_000));
    assert_eq!(r.frame_start(400_000_000), None);
    assert_eq!(r.frame_start(800_000_000), None);
    assert_eq!(r.frame_start(1_000_000_000), Some(3));
    assert_eq!(r.frame_start(1_500_000_000), None);
    assert_eq!(r.frame_start(2_600_000_000), Some(2));
}

#[test]
fn time_running_backwards_is_refused() {
    let mut r = Renderer::new();
    assert_eq!(r.frame_start(5_000_000_000), Some(1));
    assert!(!r.frame_start_allowed(4_000_000_000));
    assert!(r.frame_start_allowed(5_000_000_000));
}
