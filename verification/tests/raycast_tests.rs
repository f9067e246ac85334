use raycaster::color::Rgba;
use raycaster::display::Settings;
use raycaster::fixed::{Vec2, Vec3, INFINITE, ONE};
use raycaster::map::{Texture, TextureRef, World};
use raycaster::player::Player;
use raycaster::raycast::{to_cell, Ray};

fn fx(v: f64) -> i64 {
    (v * 65536.0).floor() as i64
}

fn texture(id: u32, side: u32) -> Texture {
    let mut data = Vec::new();
    for i in 0..side * side {
        data.push(Rgba { r: i as u8, g: id as u8, b: 0, a: 255 });
    }
    Texture { texture: TextureRef { id, side }, texture_data: data }
}

fn player_in(map: Vec<u32>, columns: usize, width: u16, pos: (f64, f64), dir: (f64, f64)) -> Player {
    let textures = vec![texture(10, 2), texture(11, 4), texture(12, 2)];
    let world = World::new(map, columns, textures, Vec::new(), Vec::new()).unwrap();
    let mut p = Player::new(world, Settings::new(3, width, 8));
    p.pos = Vec3 { x: fx(pos.0), y: fx(pos.1), z: 0 };
    p.dir = Vec2 { x: fx(dir.0), y: fx(dir.1) };
    // the plane stands at right angles to the direction, 0.66 long
    p.plane = Vec2 { x: fx(dir.1 * 0.66), y: fx(-dir.0 * 0.66) };
    p
}

fn bordered_room() -> Vec<u32> {
    vec![
        1, 1, 1, 1, //
        1, 0, 0, 1, //
        1, 0, 0, 1, //
        1, 1, 1, 1, //
    ]
}

fn hall() -> Vec<u32> {
    vec![
        1, 1, 1, 1, 1, 1, //
        1, 0, 0, 0, 0, 1, //
        1, 0, 0, 2, 0, 1, //
        1, 0, 0, 0, 0, 1, //
        1, 0, 0, 0, 0, 3, //
        1, 1, 1, 1, 1, 1, //
    ]
}

fn cast(x: u32, p: &Player) -> Ray {
    let mut ray = Ray::new(x, p);
    ray.dda(p);
    ray
}

#[test]
fn new_sets_up_the_middle_ray() {
    let p = player_in(hall(), 6, 8, (3.5, 2.25), (-1.0, 0.0));
    let ray = Ray::new(4, &p);
    assert_eq!(ray.camera, 0);
    assert_eq!(ray.ray_dir, Vec2 { x: -ONE, y: 0 });
    assert_eq!(ray.map, (3, 2));
    assert_eq!(ray.delta_dist, Vec2 { x: ONE, y: INFINITE });
    assert_eq!(ray.side_dist, Vec2 { x: ONE / 2, y: INFINITE });
    assert_eq!(ray.step, (-1, 1));
    assert_eq!(ray.perp_wall_dist, 0);
    assert!(!ray.hit);
    assert!(!ray.side);
}

#[test]
fn new_sets_up_a_slanted_ray() {
    let p = player_in(hall(), 6, 8, (3.5, 2.25), (-1.0, 0.0));
    let ray = Ray::new(0, &p);
    assert_eq!(ray.camera, -ONE);
    assert_eq!(ray.ray_dir, Vec2 { x: -65536, y: -43253 });
    assert_eq!(ray.map, (3, 2));
    assert_eq!(ray.delta_dist, Vec2 { x: 65536, y: 99298 });
    assert_eq!(ray.side_dist, Vec2 { x: 32768, y: 24824 });
    assert_eq!(ray.step, (-1, -1));

    let ray = Ray::new(7, &p);
    assert_eq!(ray.camera, 49152);
    assert_eq!(ray.ray_dir, Vec2 { x: -65536, y: 32439 });
    assert_eq!(ray.step, (-1, 1));
    assert_eq!(ray.delta_dist, Vec2 { x: 65536, y: 132401 });
}

#[test]
fn camera_offset_runs_from_minus_one() {
    let p = player_in(hall(), 6, 8, (3.5, 2.25), (-1.0, 0.0));
    let offsets: Vec<i64> = (0..8).map(|x| Ray::new(x, &p).camera).collect();
    assert_eq!(offsets, vec![-65536, -49152, -32768, -16384, 0, 16384, 32768, 49152]);
}

#[test]
fn straight_corridor_reports_straight_line_distance() {
    // looking down the rows from x = 3.5: the wall's face is at x = 1
    let p = player_in(hall(), 6, 8, (3.5, 2.25), (-1.0, 0.0));
    let ray = cast(4, &p);
    assert!(ray.hit);
    assert!(!ray.side);
    assert_eq!(ray.map, (0, 2));
    assert_eq!(ray.perp_wall_dist, fx(2.5));

    // looking up the rows: the face is at x = 5
    let p = player_in(hall(), 6, 8, (3.5, 2.25), (1.0, 0.0));
    let ray = cast(4, &p);
    assert!(ray.hit && !ray.side);
    assert_eq!(ray.map, (5, 2));
    assert_eq!(ray.perp_wall_dist, fx(1.5));

    // looking down the columns from y = 2.25: the face is at y = 1
    let p = player_in(hall(), 6, 8, (3.5, 2.25), (0.0, -1.0));
    let ray = cast(4, &p);
    assert!(ray.hit && ray.side);
    assert_eq!(ray.map, (3, 0));
    assert_eq!(ray.perp_wall_dist, fx(1.25));

    // looking up the columns: the face is at y = 5
    let p = player_in(hall(), 6, 8, (3.5, 2.25), (0.0, 1.0));
    let ray = cast(4, &p);
    assert!(ray.hit && ray.side);
    assert_eq!(ray.map, (3, 5));
    assert_eq!(ray.perp_wall_dist, fx(2.75));
}

#[test]
fn corridor_ends_at_the_first_wall() {
    // from row 2 looking up the columns the pillar in (2, 3) is in the way
    let p = player_in(hall(), 6, 8, (2.5, 1.5), (0.0, 1.0));
    let ray = cast(4, &p);
    assert!(ray.hit && ray.side);
    assert_eq!(ray.map, (2, 3));
    assert_eq!(ray.perp_wall_dist, fx(1.5));
}

#[test]
fn every_column_sees_a_flat_wall_at_one_distance() {
    let p = player_in(hall(), 6, 8, (3.5, 2.25), (-1.0, 0.0));
    for x in 1..8 {
        let ray = cast(x, &p);
        assert!(ray.hit);
        assert!(!ray.side);
        assert_eq!(ray.map.0, 0);
        assert_eq!(ray.perp_wall_dist, fx(2.5));
    }
    // the leftmost ray reaches the side wall first
    let ray = cast(0, &p);
    assert!(ray.hit && ray.side);
    assert_eq!(ray.map, (1, 0));
    assert_eq!(ray.perp_wall_dist, 124122);
}

#[test]
fn hit_cell_is_a_wall_next_to_an_empty_cell() {
    for dir in [(-1.0, 0.0), (1.0, 0.0), (0.0, 1.0), (0.0, -1.0), (0.6, 0.8), (-0.8, 0.6)] {
        let p = player_in(hall(), 6, 16, (3.5, 2.25), dir);
        for x in 0..16 {
            let ray = cast(x, &p);
            assert!(ray.hit);
            assert!(p.world.get(ray.map.0, ray.map.1) > 0);
            let back = if ray.side {
                (ray.map.0, ray.map.1 - ray.step.1)
            } else {
                (ray.map.0 - ray.step.0, ray.map.1)
            };
            assert_ne!(back, ray.map);
            assert_eq!(p.world.tile_at(back.0, back.1), Some(0));
            let apart = (back.0 - ray.map.0).abs() + (back.1 - ray.map.1).abs();
            assert_eq!(apart, 1);
        }
    }
}

#[test]
fn bordered_room_from_its_centre() {
    let p = player_in(bordered_room(), 4, 8, (2.0, 2.0), (-1.0, 0.0));
    assert_eq!(p.plane, Vec2 { x: 0, y: 43253 });
    let mut dists = Vec::new();
    for x in 0..8 {
        let ray = cast(x, &p);
        assert!(ray.hit);
        assert!(ray.perp_wall_dist < INFINITE);
        assert!(!ray.side);
        assert_eq!(ray.map.0, 0);
        dists.push(ray.perp_wall_dist);
    }
    assert_eq!(dists, vec![ONE; 8]);
    for x in 0..8 {
        assert_eq!(dists[x], dists[7 - x]);
    }
}

#[test]
fn walls_all_around_stop_every_ray() {
    let turns = [
        (1.0, 0.0),
        (0.96, 0.28),
        (0.6, 0.8),
        (0.0, 1.0),
        (-0.6, 0.8),
        (-1.0, 0.0),
        (-0.8, -0.6),
        (0.0, -1.0),
        (0.8, -0.6),
        (0.001, 0.0),
        (0.0, -0.001),
    ];
    for pos in [(1.5, 1.5), (4.99, 4.99), (3.0, 2.0), (1.0, 4.0), (4.5, 1.01)] {
        for dir in turns {
            let p = player_in(hall(), 6, 32, pos, dir);
            assert!(p.world.is_enclosed());
            for x in 0..32 {
                let ray = cast(x, &p);
                assert!(ray.hit, "{:?} {:?} {}", pos, dir, x);
                assert!(ray.perp_wall_dist >= 0);
                assert!(ray.perp_wall_dist < INFINITE);
            }
        }
    }
}

#[test]
fn ray_without_direction_hits_nothing() {
    let p = player_in(hall(), 6, 8, (3.5, 2.25), (0.0, 0.0));
    let ray = cast(4, &p);
    assert!(!ray.hit);
    assert_eq!(ray.map, (3, 2));
    assert_eq!(ray.side_dist, Vec2 { x: INFINITE, y: INFINITE });
    assert_eq!(ray.perp_wall_dist, INFINITE);
}

#[test]
fn open_map_ends_the_walk_at_the_edge() {
    let p = player_in(vec![0; 12], 4, 8, (1.5, 1.5), (0.0, 1.0));
    for x in 0..8 {
        let ray = cast(x, &p);
        assert!(!ray.hit);
        assert_eq!(ray.perp_wall_dist, INFINITE);
        assert!(p.world.tile_at(ray.map.0, ray.map.1).is_some());
    }
    let ray = cast(4, &p);
    assert_eq!(ray.map, (1, 3));
}

#[test]
fn camera_outside_the_grid() {
    // one cell to the left of the grid, looking in: the ray enters and
    // hits the far wall
    let map = vec![
        0, 0, 1, //
        0, 0, 1, //
    ];
    let p = player_in(map.clone(), 3, 8, (0.5, -0.5), (0.0, 1.0));
    let ray = cast(4, &p);
    assert!(ray.hit && ray.side);
    assert_eq!(ray.map, (0, 2));
    assert_eq!(ray.perp_wall_dist, fx(2.5));
    // looking away: nothing
    let p = player_in(map.clone(), 3, 8, (0.5, -0.5), (0.0, -1.0));
    let ray = cast(4, &p);
    assert!(!ray.hit);
    assert_eq!(ray.map, (0, -1));
    // further out the first step does not reach the grid
    let p = player_in(map, 3, 8, (0.5, -1.5), (0.0, 1.0));
    let ray = cast(4, &p);
    assert!(!ray.hit);
    assert_eq!(ray.map, (0, -2));
    assert_eq!(ray.perp_wall_dist, INFINITE);
}

#[test]
fn camera_standing_in_a_wall_sees_the_next_one() {
    let p = player_in(hall(), 6, 8, (0.5, 2.5), (1.0, 0.0));
    let ray = cast(4, &p);
    assert!(ray.hit);
    assert_eq!(ray.map, (5, 2));
    assert_eq!(ray.perp_wall_dist, fx(4.5));
}

#[test]
fn dda_leaves_a_finished_ray_in_place() {
    let p = player_in(hall(), 6, 8, (3.5, 2.25), (-1.0, 0.0));
    let mut ray = cast(4, &p);
    let first = ray;
    ray.dda(&p);
    assert_eq!(ray, first);
}

#[test]
fn no_width_means_infinite_offset() {
    let p = player_in(hall(), 6, 0, (3.5, 2.25), (-1.0, 0.0));
    assert_eq!(Ray::new(0, &p).camera, -ONE);
    assert_eq!(Ray::new(1, &p).camera, INFINITE - ONE);
}

#[test]
fn cells_are_floors_kept_within_range() {
    assert_eq!(to_cell(fx(2.99)), 2);
    assert_eq!(to_cell(fx(-0.01)), -1);
    assert_eq!(to_cell(i64::MAX), i32::MAX);
    assert_eq!(to_cell(i64::MIN), i32::MIN);
}
