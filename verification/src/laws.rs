//! What holds of the renderer as a whole.

use vstd::prelude::*;
use crate::fixed::{
    floor, from_int, lemma_magnitudes, lemma_one_over_one, lemma_sign_kept, lemma_times_one,
    lemma_times_zero, minus, plus, Fixed, Vec2, INFINITE, ONE,
};
use crate::map::Sprite;
use crate::player::{Player, Strip};
use crate::walls::wall_height;
use crate::raycast::{
    camera_offset, cell_of, cell_span, first_crossing, magnitude, step_of, Ray,
};

verus! {

/// The ray through the middle of the screen, for a camera that looks along
/// the rows with a direction of length one.
proof fn lemma_middle_ray_x(player: &Player, x: u32)
    requires
        camera_offset(x, player.ds.width) == 0,
        player.dir.y == 0,
        player.dir.x == ONE || player.dir.x == -ONE,
        i32::MIN <= floor(player.pos.x) <= i32::MAX,
        i32::MIN <= floor(player.pos.y) <= i32::MAX,
    ensures
        ({
            let ray = Ray::initial(x, player);
            &&& !ray.hit
            &&& ray.map == (floor(player.pos.x) as i32, floor(player.pos.y) as i32)
            &&& ray.step.0 == step_of(player.dir.x)
            &&& ray.delta_dist.x == ONE
            &&& ray.side_dist.y == INFINITE
            &&& ray.side_dist.x == (if player.dir.x < 0 {
                player.pos.x - floor(player.pos.x) * ONE
            } else {
                (floor(player.pos.x) + 1) * ONE - player.pos.x
            })
            &&& 0 <= ray.side_dist.x <= ONE
        }),
{
    let ray = Ray::initial(x, player);
    lemma_times_zero(player.plane.x);
    lemma_times_zero(player.plane.y);
    lemma_one_over_one();
    assert(ray.ray_dir.x == player.dir.x);
    assert(ray.ray_dir.y == 0);
    assert(cell_span(player.dir.x) == ONE);
    let r = floor(player.pos.x);
    assert(cell_of(player.pos.x) == r);
    let to_line = if player.dir.x < 0 {
        minus(player.pos.x, from_int(r))
    } else {
        minus(plus(from_int(r), ONE), player.pos.x)
    };
    assert(0 <= to_line <= ONE);
    lemma_times_one(to_line);
    assert(ray.side_dist.x == first_crossing(player.pos.x, r as i32, player.dir.x));
}

/// A ray cast straight down a corridor along the rows reports the
/// straight-line distance to the wall at its end: for a camera in the grid
/// that looks along the rows with a direction of length one, with `k - 1`
/// empty cells before it and a wall in the `k`-th, the ray through the
/// middle of the screen ends in that wall, on a face across the x axis, and
/// its perpendicular distance is the distance from the camera to that face.
pub proof fn lemma_corridor_distance_x(player: &Player, x: u32, k: nat)
    requires
        player.world.wf(),
        camera_offset(x, player.ds.width) == 0,
        player.dir.y == 0,
        player.dir.x == ONE || player.dir.x == -ONE,
        player.world.in_grid(floor(player.pos.x) as int, floor(player.pos.y) as int),
        1 <= k,
        forall|i: int|
            1 <= i < k ==> player.world.is_open(
                #[trigger] Ray::ahead(floor(player.pos.x) as i32, step_of(player.dir.x), i),
                floor(player.pos.y) as int,
            ),
        player.world.is_wall(
            Ray::ahead(floor(player.pos.x) as i32, step_of(player.dir.x), k as int),
            floor(player.pos.y) as int,
        ),
    ensures
        ({
            let t = Ray::cast(x, player);
            &&& t.hit
            &&& !t.side
            &&& t.map.0 == Ray::ahead(floor(player.pos.x) as i32, step_of(player.dir.x), k as int)
            &&& t.map.1 == floor(player.pos.y)
            &&& t.perp_wall_dist == (if player.dir.x < 0 {
                player.pos.x - (t.map.0 + 1) * ONE
            } else {
                t.map.0 * ONE - player.pos.x
            })
        }),
{
    lemma_middle_ray_x(player, x);
    let ray = Ray::initial(x, player);
    let span = player.world.span() as nat;
    assert(k * ONE <= 0x8000_0000 * ONE) by (nonlinear_arith)
        requires
            k <= 0x8000_0000,
    ;
    Ray::lemma_straight_run_x(ray, &player.world, span, k);
}

/// The ray through the middle of the screen, for a camera that looks along
/// the columns with a direction of length one.
proof fn lemma_middle_ray_y(player: &Player, x: u32)
    requires
        camera_offset(x, player.ds.width) == 0,
        player.dir.x == 0,
        player.dir.y == ONE || player.dir.y == -ONE,
        i32::MIN <= floor(player.pos.x) <= i32::MAX,
        i32::MIN <= floor(player.pos.y) <= i32::MAX,
    ensures
        ({
            let ray = Ray::initial(x, player);
            &&& !ray.hit
            &&& ray.map == (floor(player.pos.x) as i32, floor(player.pos.y) as i32)
            &&& ray.step.1 == step_of(player.dir.y)
            &&& ray.delta_dist.y == ONE
            &&& ray.side_dist.x == INFINITE
            &&& ray.side_dist.y == (if player.dir.y < 0 {
                player.pos.y - floor(player.pos.y) * ONE
            } else {
                (floor(player.pos.y) + 1) * ONE - player.pos.y
            })
            &&& 0 <= ray.side_dist.y <= ONE
        }),
{
    let ray = Ray::initial(x, player);
    lemma_times_zero(player.plane.x);
    lemma_times_zero(player.plane.y);
    lemma_one_over_one();
    assert(ray.ray_dir.y == player.dir.y);
    assert(ray.ray_dir.x == 0);
    assert(cell_span(player.dir.y) == ONE);
    let c = floor(player.pos.y);
    assert(cell_of(player.pos.y) == c);
    let to_line = if player.dir.y < 0 {
        minus(player.pos.y, from_int(c))
    } else {
        minus(plus(from_int(c), ONE), player.pos.y)
    };
    assert(0 <= to_line <= ONE);
    lemma_times_one(to_line);
    assert(ray.side_dist.y == first_crossing(player.pos.y, c as i32, player.dir.y));
}

/// A ray cast straight down a corridor along the columns reports the
/// straight-line distance to the wall at its end, on a face across the y
/// axis.
pub proof fn lemma_corridor_distance_y(player: &Player, x: u32, k: nat)
    requires
        player.world.wf(),
        camera_offset(x, player.ds.width) == 0,
        player.dir.x == 0,
        player.dir.y == ONE || player.dir.y == -ONE,
        player.world.in_grid(floor(player.pos.x) as int, floor(player.pos.y) as int),
        1 <= k,
        forall|i: int|
            1 <= i < k ==> player.world.is_open(
                floor(player.pos.x) as int,
                #[trigger] Ray::ahead(floor(player.pos.y) as i32, step_of(player.dir.y), i),
            ),
        player.world.is_wall(
            floor(player.pos.x) as int,
            Ray::ahead(floor(player.pos.y) as i32, step_of(player.dir.y), k as int),
        ),
    ensures
        ({
            let t = Ray::cast(x, player);
            &&& t.hit
            &&& t.side
            &&& t.map.0 == floor(player.pos.x)
            &&& t.map.1 == Ray::ahead(floor(player.pos.y) as i32, step_of(player.dir.y), k as int)
            &&& t.perp_wall_dist == (if player.dir.y < 0 {
                player.pos.y - (t.map.1 + 1) * ONE
            } else {
                t.map.1 * ONE - player.pos.y
            })
        }),
{
    lemma_middle_ray_y(player, x);
    let ray = Ray::initial(x, player);
    let span = player.world.span() as nat;
    assert(k * ONE <= 0x8000_0000 * ONE) by (nonlinear_arith)
        requires
            k <= 0x8000_0000,
    ;
    Ray::lemma_straight_run_y(ray, &player.world, span, k);
}

/// The wall at the end of a corridor along the rows is drawn as high as
/// its straight-line distance asks: for the camera and the corridor of
/// `lemma_corridor_distance_x`, the strip of the middle column is as high
/// as the picture divided by the distance from the camera to the wall's
/// face, worked out from the camera's place and the cell of the wall alone.
pub proof fn lemma_wall_height_straight_ahead_x(player: &Player, x: u32, k: nat)
    requires
        player.world.wf(),
        camera_offset(x, player.ds.width) == 0,
        player.dir.y == 0,
        player.dir.x == ONE || player.dir.x == -ONE,
        player.world.in_grid(floor(player.pos.x) as int, floor(player.pos.y) as int),
        1 <= k,
        forall|i: int|
            1 <= i < k ==> player.world.is_open(
                #[trigger] Ray::ahead(floor(player.pos.x) as i32, step_of(player.dir.x), i),
                floor(player.pos.y) as int,
            ),
        player.world.is_wall(
            Ray::ahead(floor(player.pos.x) as i32, step_of(player.dir.x), k as int),
            floor(player.pos.y) as int,
        ),
    ensures
        ({
            let wall = Ray::ahead(floor(player.pos.x) as i32, step_of(player.dir.x), k as int);
            let distance = if player.dir.x < 0 {
                player.pos.x - (wall + 1) * ONE
            } else {
                wall * ONE - player.pos.x
            };
            &&& player.wall_strip(Ray::cast(x, player), x) matches Some(strip)
            &&& strip.dest_height == wall_height(player.ds.height, distance as Fixed)
        }),
{
    lemma_corridor_distance_x(player, x, k);
}

/// The same for a corridor along the columns.
pub proof fn lemma_wall_height_straight_ahead_y(player: &Player, x: u32, k: nat)
    requires
        player.world.wf(),
        camera_offset(x, player.ds.width) == 0,
        player.dir.x == 0,
        player.dir.y == ONE || player.dir.y == -ONE,
        player.world.in_grid(floor(player.pos.x) as int, floor(player.pos.y) as int),
        1 <= k,
        forall|i: int|
            1 <= i < k ==> player.world.is_open(
                floor(player.pos.x) as int,
                #[trigger] Ray::ahead(floor(player.pos.y) as i32, step_of(player.dir.y), i),
            ),
        player.world.is_wall(
            floor(player.pos.x) as int,
            Ray::ahead(floor(player.pos.y) as i32, step_of(player.dir.y), k as int),
        ),
    ensures
        ({
            let wall = Ray::ahead(floor(player.pos.y) as i32, step_of(player.dir.y), k as int);
            let distance = if player.dir.y < 0 {
                player.pos.y - (wall + 1) * ONE
            } else {
                wall * ONE - player.pos.y
            };
            &&& player.wall_strip(Ray::cast(x, player), x) matches Some(strip)
            &&& strip.dest_height == wall_height(player.ds.height, distance as Fixed)
        }),
{
    lemma_corridor_distance_y(player, x, k);
}

/// Whether one of the strips goes to screen column `x`.
pub open spec fn draws_column(strips: Seq<Strip>, x: u32) -> bool {
    exists|k: int| 0 <= k < strips.len() && (#[trigger] strips[k]).dest_x == x
}

/// Walls hide sprites: among the strips of a sprite in the screen columns
/// before `n` there is one for column `x` exactly if the sprite lands on
/// the screen, the column is one of the `n`, lies in the sprite's box and
/// on the screen, and the sprite's depth is less than the wall distance
/// noted for the column. So a sprite at or beyond the wall of a column
/// gets no strip there, and a nearer one gets one.
pub proof fn lemma_sprite_occlusion(player: &Player, s: Sprite, n: nat, x: u32)
    ensures
        draws_column(player.sprite_strips(s, n), x) <==> (x < n && player.sprite_visible(s, x)),
        match player.projected(s) {
            Some(b) => {
                &&& b.transform.y >= player.zbuffer@[x as int] ==> !draws_column(
                    player.sprite_strips(s, n),
                    x,
                )
                &&& (x < n && x < player.ds.width && b.left <= x < b.right && b.transform.y
                    < player.zbuffer@[x as int]) ==> draws_column(player.sprite_strips(s, n), x)
            },
            None => !draws_column(player.sprite_strips(s, n), x),
        },
    decreases n,
{
    let strips = player.sprite_strips(s, n);
    if n == 0 {
    } else {
        let last = (n - 1) as u32;
        let before = player.sprite_strips(s, (n - 1) as nat);
        lemma_sprite_occlusion(player, s, (n - 1) as nat, x);
        match player.projected(s) {
            Some(b) => {
                if player.sprite_shown(b, last) {
                    let strip = player.sprite_strip(s, b, last);
                    assert(strips == before.push(strip));
                    if draws_column(before, x) {
                        let k = choose|k: int|
                            0 <= k < before.len() && (#[trigger] before[k]).dest_x == x;
                        assert(strips[k].dest_x == x);
                    }
                    if last == x {
                        assert(strips[before.len() as int].dest_x == x);
                    }
                    if draws_column(strips, x) {
                        let k = choose|k: int|
                            0 <= k < strips.len() && (#[trigger] strips[k]).dest_x == x;
                        if k < before.len() {
                            assert(before[k].dest_x == x);
                        }
                    }
                }
            },
            None => {},
        }
    }
}

/// The ray through any screen column, for a camera in the grid: it has
/// steps of one cell and no negative ray length.
pub proof fn lemma_initial_ray(player: &Player, x: u32)
    requires
        i32::MIN <= floor(player.pos.x) <= i32::MAX,
        i32::MIN <= floor(player.pos.y) <= i32::MAX,
    ensures
        ({
            let ray = Ray::initial(x, player);
            &&& !ray.hit
            &&& ray.unit_steps()
            &&& ray.forward()
            &&& ray.map == (floor(player.pos.x) as i32, floor(player.pos.y) as i32)
        }),
{
    let ray = Ray::initial(x, player);
    lemma_sign_kept(ONE, magnitude(ray.ray_dir.x));
    lemma_sign_kept(ONE, magnitude(ray.ray_dir.y));
    let r = floor(player.pos.x);
    let c = floor(player.pos.y);
    assert(cell_of(player.pos.x) == r);
    assert(cell_of(player.pos.y) == c);
    let to_x = if ray.ray_dir.x < 0 {
        minus(player.pos.x, from_int(r))
    } else {
        minus(plus(from_int(r), ONE), player.pos.x)
    };
    let to_y = if ray.ray_dir.y < 0 {
        minus(player.pos.y, from_int(c))
    } else {
        minus(plus(from_int(c), ONE), player.pos.y)
    };
    assert(0 <= to_x <= ONE);
    assert(0 <= to_y <= ONE);
    lemma_sign_kept(to_x, cell_span(ray.ray_dir.x));
    lemma_sign_kept(to_y, cell_span(ray.ray_dir.y));
}

/// No fisheye: for a camera in the grid that looks along the rows with a
/// direction of length one and a plane along the columns, the ray of every
/// screen column that ends on a face across the x axis reports the
/// distance from the camera to that face along the view, not the length
/// of its own slanted path.
pub proof fn lemma_no_fisheye_x(player: &Player, x: u32)
    requires
        player.world.wf(),
        player.dir.y == 0,
        player.dir.x == ONE || player.dir.x == -ONE,
        player.plane.x == 0,
        player.world.in_grid(floor(player.pos.x) as int, floor(player.pos.y) as int),
    ensures
        ({
            let t = Ray::cast(x, player);
            t.hit && !t.side ==> t.perp_wall_dist == (if player.dir.x < 0 {
                player.pos.x - (t.map.0 + 1) * ONE
            } else {
                t.map.0 * ONE - player.pos.x
            })
        }),
{
    let ray = Ray::initial(x, player);
    let world = &player.world;
    let fuel = world.span() as nat;
    let t = ray.traced(world, fuel);
    lemma_initial_ray(player, x);
    lemma_times_zero(camera_offset(x, player.ds.width));
    lemma_one_over_one();
    assert(ray.ray_dir.x == player.dir.x);
    assert(ray.delta_dist.x == ONE);
    let r = floor(player.pos.x);
    let to_line = if player.dir.x < 0 {
        minus(player.pos.x, from_int(r))
    } else {
        minus(plus(from_int(r), ONE), player.pos.x)
    };
    assert(0 <= to_line <= ONE);
    lemma_times_one(to_line);
    assert(ray.side_dist.x == to_line);
    Ray::lemma_walk_lengths(ray, world, fuel);
    Ray::lemma_hit_cell(ray, world, fuel);
    if t.hit && !t.side {
        let kx = t.rows_crossed(ray);
        assert(1 <= kx <= 0x8000_0000);
        assert(kx * ONE <= 0x8000_0000 * ONE) by (nonlinear_arith)
            requires
                kx <= 0x8000_0000,
        ;
        assert(kx * ONE == kx * 65536);
    }
}

/// The same for a camera that looks along the columns, with a plane along
/// the rows, and a face across the y axis.
pub proof fn lemma_no_fisheye_y(player: &Player, x: u32)
    requires
        player.world.wf(),
        player.dir.x == 0,
        player.dir.y == ONE || player.dir.y == -ONE,
        player.plane.y == 0,
        player.world.in_grid(floor(player.pos.x) as int, floor(player.pos.y) as int),
    ensures
        ({
            let t = Ray::cast(x, player);
            t.hit && t.side ==> t.perp_wall_dist == (if player.dir.y < 0 {
                player.pos.y - (t.map.1 + 1) * ONE
            } else {
                t.map.1 * ONE - player.pos.y
            })
        }),
{
    let ray = Ray::initial(x, player);
    let world = &player.world;
    let fuel = world.span() as nat;
    let t = ray.traced(world, fuel);
    lemma_initial_ray(player, x);
    lemma_times_zero(camera_offset(x, player.ds.width));
    lemma_one_over_one();
    assert(ray.ray_dir.y == player.dir.y);
    assert(ray.delta_dist.y == ONE);
    let c = floor(player.pos.y);
    let to_line = if player.dir.y < 0 {
        minus(player.pos.y, from_int(c))
    } else {
        minus(plus(from_int(c), ONE), player.pos.y)
    };
    assert(0 <= to_line <= ONE);
    lemma_times_one(to_line);
    assert(ray.side_dist.y == to_line);
    Ray::lemma_walk_lengths(ray, world, fuel);
    Ray::lemma_hit_cell(ray, world, fuel);
    if t.hit && t.side {
        let ky = t.columns_crossed(ray);
        assert(1 <= ky <= 0x8000_0000);
        assert(ky * ONE <= 0x8000_0000 * ONE) by (nonlinear_arith)
            requires
                ky <= 0x8000_0000,
        ;
        assert(ky * ONE == ky * 65536);
    }
}

/// Walls all around mean a wall in every column: in a grid with walls all
/// around and no more than 2^30 rows and columns together, for a camera
/// that stands in an empty cell, every ray that has a direction ends its
/// walk in a wall, at a distance that is neither negative nor infinite.
pub proof fn lemma_enclosed_world_always_hits(player: &Player, x: u32)
    requires
        player.world.wf(),
        player.world.enclosed(),
        player.world.span() <= 0x4000_0000,
        player.world.is_open(floor(player.pos.x) as int, floor(player.pos.y) as int),
        Ray::initial(x, player).ray_dir != (Vec2 { x: 0, y: 0 }),
    ensures
        Ray::cast(x, player).hit,
        0 <= Ray::cast(x, player).perp_wall_dist < INFINITE,
{
    let ray = Ray::initial(x, player);
    let world = &player.world;
    lemma_initial_ray(player, x);
    let r = floor(player.pos.x);
    let c = floor(player.pos.y);
    let to_x = if ray.ray_dir.x < 0 {
        minus(player.pos.x, from_int(r))
    } else {
        minus(plus(from_int(r), ONE), player.pos.x)
    };
    let to_y = if ray.ray_dir.y < 0 {
        minus(player.pos.y, from_int(c))
    } else {
        minus(plus(from_int(c), ONE), player.pos.y)
    };
    assert(0 <= to_x <= ONE);
    assert(0 <= to_y <= ONE);
    let (rx, ry) = (ray.reach_x(world), ray.reach_y(world));
    assert(1 <= rx <= 0x4000_0000);
    assert(1 <= ry <= 0x4000_0000);
    if ray.ray_dir.x != 0 {
        let m = magnitude(ray.ray_dir.x);
        lemma_magnitudes(ONE, m);
        lemma_magnitudes(to_x, cell_span(ray.ray_dir.x));
        let d = ray.delta_dist.x as int;
        assert(d <= ONE * ONE);
        assert(ONE * ONE == 0x1_0000_0000) by (nonlinear_arith)
            requires
                ONE == 65536,
        ;
        assert(rx * d <= 0x4000_0000 * 0x1_0000_0000) by (nonlinear_arith)
            requires
                0 <= rx <= 0x4000_0000,
                0 <= d <= 0x1_0000_0000,
        ;
    }
    if ray.ray_dir.y != 0 {
        let m = magnitude(ray.ray_dir.y);
        lemma_magnitudes(ONE, m);
        lemma_magnitudes(to_y, cell_span(ray.ray_dir.y));
        let d = ray.delta_dist.y as int;
        assert(d <= ONE * ONE);
        assert(ONE * ONE == 0x1_0000_0000) by (nonlinear_arith)
            requires
                ONE == 65536,
        ;
        assert(ry * d <= 0x4000_0000 * 0x1_0000_0000) by (nonlinear_arith)
            requires
                0 <= ry <= 0x4000_0000,
                0 <= d <= 0x1_0000_0000,
        ;
    }
    Ray::lemma_enclosed_walk(ray, world, world.span() as nat);
}

} // verus!
