use ray_casting::casting::constants::{INFINITY, SCALE};
use ray_casting::casting::player::Player;
use ray_casting::casting::ray::{CastOutcome, Ray, RayHit};
use ray_casting::casting::types::Vector;
use ray_casting::utils::{parse_i32, Config};
use ray_casting::world_map::{get_world_map, WorldMap};

// fixed-point cosine/sine values, world value times SCALE
const COS_30: i64 = 866025;
const SIN_30: i64 = 500000;
const COS_45: i64 = 707107;
const SIN_45: i64 = 707107;
const COS_60: i64 = 500000;
const SIN_60: i64 = 866025;
const COS_90: i64 = 0;
const SIN_90: i64 = 1000000;
const COS_100: i64 = -173648;
const SIN_100: i64 = 984808;

fn close(a: i64, b: i64, tol: i64) -> bool {
    (a - b).abs() <= tol
}

#[test]
fn test_new() {
    let player = Player::new(3_000_000, 6_000_000);
    assert_eq!(
        Player {
            position: Vector { x: 3_000_000, y: 6_000_000 },
            plane: Vector { x: 0, y: 660_000 },
            direction: Vector { x: 1_000_000, y: 0 },
        },
        player
    );
}

#[test]
fn test_walk() {
    let mut player = Player::new(3_000_000, 6_000_000);
    let direction = Vector::new(1_000_000, 2_000_000);
    player.walk(direction);
    assert!(close(player.position.x, 3_447_214, 2));
    assert!(close(player.position.y, 6_894_427, 2));
}

#[test]
fn test_turn() {
    let mut player = Player::new(3_000_000, 6_000_000);
    player.turn(COS_100, SIN_100);
    assert!(player.direction.dot_product(player.plane).abs() <= 2);
}

#[test]
fn test_normalize() {
    let mut vector = Vector::new(1_000_000, 2_000_000);
    vector.normalize();
    assert!(close(vector.x.abs(), 447_213, 2));
    assert!(close(vector.y.abs(), 894_427, 2));
}

#[test]
fn test_rad_rotate() {
    let mut vector = Vector::new(1_000_000, 2_000_000);
    // PI/6
    vector.rotate(COS_30, SIN_30);
    assert!(close(vector.x, -133_974, 2));
    assert!(close(vector.y, 2_232_050, 2));
    // 2PI/6
    vector.rotate(COS_30, SIN_30);
    assert!(close(vector.x, -1_232_050, 3));
    assert!(close(vector.y, 1_866_025, 3));
    // 5PI/6
    vector.rotate(COS_90, SIN_90);
    assert!(close(vector.x, -1_866_025, 4));
    assert!(close(vector.y, -1_232_050, 4));
    // 7PI/6
    vector.rotate(COS_60, SIN_60);
    assert!(close(vector.x, 133_974, 5));
    assert!(close(vector.y, -2_232_050, 5));
}

#[test]
fn test_deg_rotate() {
    let mut vector = Vector::new(1_000_000, 2_000_000);
    // 30
    vector.rotate(COS_30, SIN_30);
    assert!(close(vector.x, -133_974, 2));
    assert!(close(vector.y, 2_232_050, 2));
    // 60
    vector.rotate(COS_30, SIN_30);
    assert!(close(vector.x, -1_232_050, 3));
    assert!(close(vector.y, 1_866_025, 3));
    // 150
    vector.rotate(COS_90, SIN_90);
    assert!(close(vector.x, -1_866_025, 4));
    assert!(close(vector.y, -1_232_050, 4));
    // 210
    vector.rotate(COS_60, SIN_60);
    assert!(close(vector.x, 133_974, 5));
    assert!(close(vector.y, -2_232_050, 5));
}

#[test]
fn test_cross_product() {
    let v_1 = Vector::new(1_000_000, 3_000_000);
    let v_2 = Vector::new(4_000_000, 3_000_000);
    assert_eq!(-9_000_000, v_1.cross_product(v_2));
}

#[test]
fn test_cross_product_paralell() {
    let v_1 = Vector::new(1_000_000, 4_000_000);
    let v_2 = Vector::new(250_000, 1_000_000);
    assert_eq!(0, v_1.cross_product(v_2));
}

#[test]
fn test_dot_product() {
    let v_1 = Vector::new(1_000_000, 2_000_000);
    let v_2 = Vector::new(1_000_000, 5_000_000);
    assert_eq!(11_000_000, v_1.dot_product(v_2));
}

#[test]
fn test_dot_product_perpendicular() {
    let v_1 = Vector::new(0, 4_000_000);
    let v_2 = Vector::new(3_000_000, 0);
    assert_eq!(0, v_1.dot_product(v_2));
}

#[test]
fn test_handle_infinite() {
    let mut v = Vector { x: 10_000_000, y: 4_000_000 };
    v.x = i64::MAX;
    v.y = i64::MAX;
    v.handle_infinite();
    assert_eq!(Vector { x: INFINITY, y: INFINITY }, v);
}

#[test]
fn test_new_ray() {
    let player = Player::new(1_000_000, 2_000_000);
    let ray = Ray::new(&player);
    assert!(close(ray.direction.x, 834_609, 2));
    assert!(close(ray.direction.y, -550_842, 2));
}

#[test]
fn test_update_ray_direction() {
    let player = Player::new(1_000_000, 2_000_000);
    let mut ray = Ray::new(&player);
    ray.update_direction(&player, SCALE);
    assert!(close(ray.direction.x, 834_609, 2));
    assert!(close(ray.direction.y, 550_842, 2));
    ray.update_direction(&player, 0);
    assert_eq!(ray.direction, Vector { x: SCALE, y: 0 });
}

#[test]
fn test_get_initial_deltas() {
    //
    // first quarter
    //
    let mut player = Player::new(1_800_000, 2_700_000);
    let mut ray = Ray::new(&player);
    // ray direction x-positive y-positive
    player.turn(COS_45, SIN_45);
    ray.update_direction(&player, 0);
    let deltas = ray.get_initial_deltas(&player);
    // 0.2 / cos(45 degrees) and 0.3 / sin(45 degrees)
    assert!(close(deltas.x, 282_842, 3));
    assert!(close(deltas.y, 424_264, 3));
    // ray direction x-negative y-positive
    player.turn(COS_90, SIN_90);
    ray.update_direction(&player, 0);
    let deltas = ray.get_initial_deltas(&player);
    // 0.8 / cos(45 degrees) and 0.3 / sin(45 degrees)
    assert!(close(deltas.x, 1_131_370, 4));
    assert!(close(deltas.y, 424_264, 3));

    //
    // third quarter
    //
    let mut player = Player::new(1_400_000, 2_300_000);
    player.turn(COS_45, SIN_45);
    let mut ray = Ray::new(&player);
    ray.update_direction(&player, 0);
    let deltas = ray.get_initial_deltas(&player);
    // 0.6 / cos(45 degrees) and 0.7 / sin(45 degrees)
    assert!(close(deltas.x, 848_528, 3));
    assert!(close(deltas.y, 989_949, 3));
}

#[test]
fn test_get_deltas() {
    let mut player = Player::new(1_400_000, 2_300_000);
    let mut ray = Ray::new(&player);
    player.turn(COS_45, SIN_45);
    ray.update_direction(&player, 0);
    let deltas = ray.get_deltas();
    // 1 / cos(45 degrees) on both axes
    assert!(close(deltas.x, 1_414_213, 3));
    assert!(close(deltas.y, 1_414_213, 3));
}

#[test]
fn test_map() {
    let map = get_world_map();
    let mut m = map;
    assert_eq!(1, m.lookup(0, 0));
    assert_eq!(1, m.lookup(23, 0));
    assert_eq!(5, m.lookup(6, 18));
    // out of range reads as the occupied boundary
    assert_eq!(1, m.lookup(-1, 3));
    assert_eq!(1, m.lookup(3, 24));
    m = map_all_empty(4, 4);
    assert_eq!(0, m.lookup(2, 2));
}

fn map_all_empty(width: usize, height: usize) -> WorldMap {
    WorldMap { width, height, mapping: vec![0; width * height] }
}

#[test]
fn test_cast_head_on_hit() {
    // a single wall cell five columns ahead of the player
    let mut tiles = vec![0u8; 24];
    tiles[8 + 5] = 7; // row 1, column 5
    let map = WorldMap { width: 8, height: 3, mapping: tiles };
    let player = Player::new(500_000, 1_500_000);
    let ray = Ray::new(&player);
    // aim straight along the facing direction
    let mut ray = ray;
    ray.update_direction(&player, 0);
    assert_eq!(ray.direction, Vector { x: SCALE, y: 0 });
    let outcome = ray.cast(&player, &map, 100);
    assert_eq!(
        CastOutcome::Hit(RayHit {
            // 5 - 0.5 world units, exactly
            perpendicular_distance: 4_500_000,
            cell_x: 5,
            cell_y: 1,
            side: 0,
            tile_code: 7,
            steps: 5,
        }),
        outcome
    );
}

#[test]
fn test_cast_empty_map_reports_no_hit() {
    let map = map_all_empty(50, 50);
    let player = Player::new(25_500_000, 25_500_000);
    let mut ray = Ray::new(&player);
    ray.update_direction(&player, 0);
    let outcome = ray.cast(&player, &map, 10);
    assert_eq!(CastOutcome::NoHit { steps: 10 }, outcome);
}

#[test]
fn test_cast_diagonal_hits_boundary() {
    // an empty map: the traversal stops at the out-of-range boundary
    let map = map_all_empty(4, 4);
    let mut player = Player::new(2_500_000, 2_500_000);
    player.turn(COS_45, SIN_45);
    let mut ray = Ray::new(&player);
    ray.update_direction(&player, 0);
    match ray.cast(&player, &map, 100) {
        CastOutcome::Hit(hit) => {
            assert_eq!(1, hit.tile_code);
            assert!(hit.cell_x == 4 || hit.cell_y == 4);
        }
        CastOutcome::NoHit { .. } => panic!("expected the boundary to stop the ray"),
    }
}

#[test]
fn test_walk_hint_magnitude_irrelevant() {
    // hints (2, 0) and (1, 0) move the player identically
    let mut a = Player::new(3_000_000, 6_000_000);
    let mut b = Player::new(3_000_000, 6_000_000);
    a.walk(Vector::new(2_000_000, 0));
    b.walk(Vector::new(1_000_000, 0));
    assert_eq!(a.position, b.position);
    assert_eq!(a.position, Vector { x: 4_000_000, y: 6_000_000 });
}

#[test]
fn test_turn_round_trip_quarter() {
    let mut player = Player::new(0, 0);
    let before = player;
    player.turn(COS_90, SIN_90);
    player.turn(COS_90, -SIN_90);
    assert_eq!(before.direction, player.direction);
    assert_eq!(before.plane, player.plane);
}

#[test]
fn test_rotate_preserves_magnitude_quarter() {
    let mut v = Vector::new(3_000_000, 4_000_000);
    v.rotate(COS_90, SIN_90);
    assert_eq!(Vector { x: -4_000_000, y: 3_000_000 }, v);
}

#[test]
fn test_config_new() {
    let c = Config::new(640, 480);
    assert_eq!(640, c.screen_width);
    assert_eq!(480, c.screen_height);
}

#[test]
fn test_config_from_args() {
    let args = vec![String::from("prog"), String::from("640"), String::from("-480")];
    let c = Config::from_args(args);
    assert_eq!(640, c.screen_width);
    assert_eq!(-480, c.screen_height);
}

#[test]
fn test_parse_i32() {
    assert_eq!(Some(0), parse_i32("0"));
    assert_eq!(Some(1234), parse_i32("1234"));
    assert_eq!(Some(-5), parse_i32("-5"));
    assert_eq!(Some(7), parse_i32("+7"));
    assert_eq!(Some(2147483647), parse_i32("2147483647"));
    assert_eq!(Some(-2147483648), parse_i32("-2147483648"));
    assert_eq!(None, parse_i32("2147483648"));
    assert_eq!(None, parse_i32(""));
    assert_eq!(None, parse_i32("-"));
    assert_eq!(None, parse_i32("12x"));
    assert_eq!(None, parse_i32("999999999999999999999"));
}
