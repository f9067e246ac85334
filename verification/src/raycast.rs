//! One ray per screen column, walked through the grid cell by cell.

use vstd::prelude::*;
use crate::fixed::{
    floor, from_int, minus, over, plus, saturate, times, Fixed, Vec2, INFINITE, ONE,
};
use crate::map::World;
use crate::player::Player;

verus! {

/// A ray on its way through the grid.
#[derive(Clone, Copy, Debug, PartialEq, Eq)]
pub struct Ray {
    /// Where the ray's screen column lies on the camera plane, from -1 at
    /// the left edge to just under 1 at the right.
    pub camera: Fixed,
    pub ray_dir: Vec2,
    /// The cell the ray is in, as row and column.
    pub map: (i32, i32),
    /// Along each axis, the ray length at which the next grid line of that
    /// axis is crossed.
    pub side_dist: Vec2,
    /// Along each axis, the ray length between two grid lines of that axis.
    pub delta_dist: Vec2,
    /// The distance from the camera plane to the wall that was hit.
    pub perp_wall_dist: Fixed,
    /// Along each axis, the way the ray moves from cell to cell: -1 or 1.
    pub step: (i32, i32),
    pub hit: bool,
    /// The axis of the last step: `false` for a step from row to row, which
    /// ends on a face across the x axis, `true` for a step from column to
    /// column.
    pub side: bool,
}

/// Where screen column `x` of `width` lies on the camera plane:
/// `2 * x / width - 1`.
pub open spec fn camera_offset(x: u32, width: u16) -> Fixed {
    minus(over(from_int((2 * x) as i64), from_int(width as i64)), ONE)
}

/// The absolute value.
pub open spec fn magnitude(v: Fixed) -> Fixed {
    if v < 0 {
        minus(0, v)
    } else {
        v
    }
}

/// The cell that a coordinate falls in, kept within `i32`.
pub open spec fn cell_of(v: Fixed) -> i32 {
    let f = floor(v);
    if f > i32::MAX {
        i32::MAX
    } else if f < i32::MIN {
        i32::MIN
    } else {
        f as i32
    }
}

/// The ray length between two grid lines of an axis along which the ray
/// direction has component `r`: `|1 / r|`, infinite for a ray that runs
/// parallel to the lines.
pub open spec fn cell_span(r: Fixed) -> Fixed {
    over(ONE, magnitude(r))
}

/// The ray length up to the first grid line of an axis, for a ray that
/// starts at coordinate `pos` in cell `cell` and has direction component
/// `r` along the axis.
pub open spec fn first_crossing(pos: Fixed, cell: i32, r: Fixed) -> Fixed {
    if r < 0 {
        times(minus(pos, from_int(cell as i64)), cell_span(r))
    } else if r == 0 {
        INFINITE
    } else {
        times(minus(plus(from_int(cell as i64), ONE), pos), cell_span(r))
    }
}

/// -1 for a negative direction component and 1 for any other.
pub open spec fn step_of(r: Fixed) -> i32 {
    if r < 0 {
        -1i32
    } else {
        1i32
    }
}

impl Ray {
    /// The ray through screen column `x` before its first step.
    pub open spec fn initial(x: u32, player: &Player) -> Ray {
        let camera = camera_offset(x, player.ds.width);
        let ray_dir = Vec2 {
            x: plus(player.dir.x, times(player.plane.x, camera)),
            y: plus(player.dir.y, times(player.plane.y, camera)),
        };
        let map = (cell_of(player.pos.x), cell_of(player.pos.y));
        Ray {
            camera,
            ray_dir,
            map,
            side_dist: Vec2 {
                x: first_crossing(player.pos.x, map.0, ray_dir.x),
                y: first_crossing(player.pos.y, map.1, ray_dir.y),
            },
            delta_dist: Vec2 { x: cell_span(ray_dir.x), y: cell_span(ray_dir.y) },
            perp_wall_dist: 0,
            step: (step_of(ray_dir.x), step_of(ray_dir.y)),
            hit: false,
            side: false,
        }
    }

    /// Both steps are one cell long.
    pub open spec fn unit_steps(self) -> bool {
        &&& (self.step.0 == 1 || self.step.0 == -1)
        &&& (self.step.1 == 1 || self.step.1 == -1)
    }

    /// No ray length of the ray is negative.
    pub open spec fn forward(self) -> bool {
        &&& 0 <= self.side_dist.x
        &&& 0 <= self.side_dist.y
        &&& 0 <= self.delta_dist.x
        &&& 0 <= self.delta_dist.y
    }

    /// Neither axis will ever be crossed: the ray has no direction.
    pub open spec fn stalled(self) -> bool {
        self.side_dist.x == INFINITE && self.side_dist.y == INFINITE
    }

    /// Whether the next grid line that the ray crosses lies across the x
    /// axis. A tie goes to the y axis, and so does an infinite distance on
    /// the x axis.
    pub open spec fn crosses_x(self) -> bool {
        self.side_dist.x < self.side_dist.y
    }

    /// The cell on the far side of the next grid line.
    pub open spec fn next_cell(self) -> (int, int) {
        if self.crosses_x() {
            (self.map.0 + self.step.0, self.map.1 as int)
        } else {
            (self.map.0 as int, self.map.1 + self.step.1)
        }
    }

    /// The ray after it crossed the next grid line.
    pub open spec fn advanced(self) -> Ray {
        if self.crosses_x() {
            Ray {
                side_dist: Vec2 {
                    x: plus(self.side_dist.x, self.delta_dist.x),
                    y: self.side_dist.y,
                },
                map: ((self.map.0 + self.step.0) as i32, self.map.1),
                side: false,
                ..self
            }
        } else {
            Ray {
                side_dist: Vec2 {
                    x: self.side_dist.x,
                    y: plus(self.side_dist.y, self.delta_dist.y),
                },
                map: (self.map.0, (self.map.1 + self.step.1) as i32),
                side: true,
                ..self
            }
        }
    }

    /// The cell that the ray was in before its last step.
    pub open spec fn behind(self) -> (int, int) {
        if self.side {
            (self.map.0 as int, self.map.1 - self.step.1)
        } else {
            (self.map.0 - self.step.0, self.map.1 as int)
        }
    }

    /// The ray after at most `fuel` steps through `world`. It stops in the
    /// first cell that holds a wall, with `hit` set. It stops short, without
    /// a hit, before a step that would leave the grid, when it has no
    /// direction, and when the steps run out.
    pub open spec fn traced(self, world: &World, fuel: nat) -> Ray
        decreases fuel,
    {
        if fuel == 0 || self.hit || self.stalled() {
            self
        } else {
            let (r, c) = self.next_cell();
            if !world.in_grid(r, c) {
                self
            } else if world.tile(r, c) != 0 {
                Ray { hit: true, ..self.advanced() }
            } else {
                self.advanced().traced(world, (fuel - 1) as nat)
            }
        }
    }

    /// The ray with its perpendicular wall distance worked out: the ray
    /// length at the last grid line crossed, and infinite without a hit.
    pub open spec fn concluded(self) -> Ray {
        Ray {
            perp_wall_dist: if !self.hit {
                INFINITE
            } else if !self.side {
                minus(self.side_dist.x, self.delta_dist.x)
            } else {
                minus(self.side_dist.y, self.delta_dist.y)
            },
            ..self
        }
    }

    /// The ray through screen column `x` after its walk through the world
    /// of `player`.
    pub open spec fn cast(x: u32, player: &Player) -> Ray {
        Ray::initial(x, player).traced(&player.world, player.world.span() as nat).concluded()
    }

    /// Whether two cells share a side: they differ by one in one
    /// coordinate and agree in the other.
    pub open spec fn one_apart(a: (int, int), b: (int, int)) -> bool {
        ||| (a.1 == b.1 && (a.0 - b.0 == 1 || b.0 - a.0 == 1))
        ||| (a.0 == b.0 && (a.1 - b.1 == 1 || b.1 - a.1 == 1))
    }

    /// The coordinate `i` cells on from `from` in the way of `step`.
    pub open spec fn ahead(from: i32, step: i32, i: int) -> int {
        if step < 0 {
            from - i
        } else {
            from + i
        }
    }

    /// How many rows the ray has moved on from where `start` stood.
    pub open spec fn rows_crossed(self, start: Ray) -> int {
        if start.step.0 < 0 {
            start.map.0 - self.map.0
        } else {
            self.map.0 - start.map.0
        }
    }

    /// How many columns the ray has moved on from where `start` stood.
    pub open spec fn columns_crossed(self, start: Ray) -> int {
        if start.step.1 < 0 {
            start.map.1 - self.map.1
        } else {
            self.map.1 - start.map.1
        }
    }

    /// How many cells lie between the ray and the edge of the grid that
    /// it moves towards along the rows, its own cell counted.
    pub open spec fn reach_x(self, world: &World) -> int {
        if self.step.0 > 0 {
            world.rows_spec() - self.map.0
        } else {
            self.map.0 + 1
        }
    }

    /// How many cells lie between the ray and the edge of the grid that
    /// it moves towards along the columns, its own cell counted.
    pub open spec fn reach_y(self, world: &World) -> int {
        if self.step.1 > 0 {
            world.columns - self.map.1
        } else {
            self.map.1 + 1
        }
    }

    /// How many cells lie between the ray and the edge of the grid that
    /// it moves towards, along both axes together, the ray's own cell
    /// counted on each axis.
    pub open spec fn cells_to_edge(self, world: &World) -> int {
        self.reach_x(world) + self.reach_y(world)
    }

    /// The ray has a direction, and its ray lengths stay within the numbers
    /// all the way to the edge of the grid: along each axis the ray either
    /// never moves, or the length to the next grid line plus one span for
    /// every cell up to the edge is less than `INFINITE`.
    pub open spec fn steady(self, world: &World) -> bool {
        &&& self.forward()
        &&& (self.side_dist.x == INFINITE || self.side_dist.x + self.reach_x(world)
            * self.delta_dist.x < INFINITE)
        &&& (self.side_dist.y == INFINITE || self.side_dist.y + self.reach_y(world)
            * self.delta_dist.y < INFINITE)
        &&& !self.stalled()
    }

    /// Sets up the ray through screen column `x`.
    pub fn new(x: u32, player: &Player) -> (ray: Ray)
        ensures
            ray == Ray::initial(x, player),
    {
        let camera = minus(over(from_int(2 * x as i64), from_int(player.ds.width as i64)), ONE);
        let ray_dir = Vec2 {
            x: plus(player.dir.x, times(player.plane.x, camera)),
            y: plus(player.dir.y, times(player.plane.y, camera)),
        };
        let map = (to_cell(player.pos.x), to_cell(player.pos.y));
        let delta_dist = Vec2 { x: span(ray_dir.x), y: span(ray_dir.y) };
        let mut side_dist = Vec2 { x: 0, y: 0 };
        let mut step: (i32, i32) = (0, 0);
        if ray_dir.x < 0 {
            step.0 = -1;
            side_dist.x = times(minus(player.pos.x, from_int(map.0 as i64)), delta_dist.x);
        } else {
            step.0 = 1;
            side_dist.x = if ray_dir.x == 0 {
                INFINITE
            } else {
                times(minus(plus(from_int(map.0 as i64), ONE), player.pos.x), delta_dist.x)
            };
        }
        if ray_dir.y < 0 {
            step.1 = -1;
            side_dist.y = times(minus(player.pos.y, from_int(map.1 as i64)), delta_dist.y);
        } else {
            step.1 = 1;
            side_dist.y = if ray_dir.y == 0 {
                INFINITE
            } else {
                times(minus(plus(from_int(map.1 as i64), ONE), player.pos.y), delta_dist.y)
            };
        }
        Ray {
            camera,
            ray_dir,
            map,
            side_dist,
            delta_dist,
            perp_wall_dist: 0,
            step,
            hit: false,
            side: false,
        }
    }

    /// Walks the ray through the world of `player` until it stands in a
    /// wall, and works out the perpendicular distance to that wall. The
    /// walk ends without a hit where the next step would leave the grid.
    pub fn dda(&mut self, player: &Player)
        requires
            player.world.wf(),
        ensures
            *final(self) == old(self).traced(
                &player.world,
                player.world.span() as nat,
            ).concluded(),
            !old(self).hit && final(self).hit ==> {
                let back = final(self).behind();
                &&& player.world.is_wall(final(self).map.0 as int, final(self).map.1 as int)
                &&& (back == (old(self).map.0 as int, old(self).map.1 as int)
                    || player.world.is_open(back.0, back.1))
                &&& old(self).unit_steps() ==> Ray::one_apart(
                    back,
                    (final(self).map.0 as int, final(self).map.1 as int),
                )
            },
    {
        let world = &player.world;
        let ghost start = *self;
        proof {
            if !self.hit {
                Ray::lemma_hit_cell(*self, world, world.span() as nat);
            }
        }
        let mut fuel: usize = world.span();
        while !self.hit && fuel > 0
            invariant_except_break
                self.traced(world, fuel as nat) == start.traced(world, world.span() as nat),
            invariant
                world.wf(),
            ensures
                *self == start.traced(world, world.span() as nat),
            decreases fuel,
        {
            if self.side_dist.x == INFINITE && self.side_dist.y == INFINITE {
                break ;
            }
            let along_x = self.side_dist.x < self.side_dist.y;
            let r: i64 = if along_x {
                self.map.0 as i64 + self.step.0 as i64
            } else {
                self.map.0 as i64
            };
            let c: i64 = if along_x {
                self.map.1 as i64
            } else {
                self.map.1 as i64 + self.step.1 as i64
            };
            if r < 0 || c < 0 || r > i32::MAX as i64 || c > i32::MAX as i64 {
                break ;
            }
            match world.tile_at(r as i32, c as i32) {
                None => {
                    break ;
                },
                Some(tile) => {
                    if along_x {
                        self.side_dist.x = plus(self.side_dist.x, self.delta_dist.x);
                        self.side = false;
                    } else {
                        self.side_dist.y = plus(self.side_dist.y, self.delta_dist.y);
                        self.side = true;
                    }
                    self.map = (r as i32, c as i32);
                    if tile > 0 {
                        self.hit = true;
                    }
                },
            }
            fuel -= 1;
        }
        self.perp_wall_dist = if !self.hit {
            INFINITE
        } else if !self.side {
            minus(self.side_dist.x, self.delta_dist.x)
        } else {
            minus(self.side_dist.y, self.delta_dist.y)
        };
    }

    /// A ray that ends its walk with a hit stands in a wall cell of the
    /// grid, and the cell it stepped from is the cell it started in or an
    /// empty cell of the grid. With steps of one cell the two share a side.
    /// Direction, steps and spans are the same after the walk.
    pub proof fn lemma_hit_cell(ray: Ray, world: &World, fuel: nat)
        requires
            world.wf(),
            !ray.hit,
        ensures
            ({
                let t = ray.traced(world, fuel);
                let back = t.behind();
                &&& t.step == ray.step
                &&& t.delta_dist == ray.delta_dist
                &&& t.ray_dir == ray.ray_dir
                &&& t.camera == ray.camera
                &&& t.perp_wall_dist == ray.perp_wall_dist
                &&& !t.hit ==> (world.in_grid(ray.map.0 as int, ray.map.1 as int) ==> world.in_grid(
                    t.map.0 as int,
                    t.map.1 as int,
                ))
                &&& t.hit ==> {
                    &&& world.is_wall(t.map.0 as int, t.map.1 as int)
                    &&& (back == (ray.map.0 as int, ray.map.1 as int) || world.is_open(
                        back.0,
                        back.1,
                    ))
                    &&& ray.unit_steps() ==> Ray::one_apart(
                        back,
                        (t.map.0 as int, t.map.1 as int),
                    )
                }
            }),
        decreases fuel,
    {
        if fuel == 0 || ray.stalled() {
        } else {
            let (r, c) = ray.next_cell();
            if world.in_grid(r, c) && world.tile(r, c) == 0 {
                Ray::lemma_hit_cell(ray.advanced(), world, (fuel - 1) as nat);
            }
        }
    }

    /// The bound on the steps never cuts a walk short: a ray in the grid
    /// with steps of one cell ends its walk the same way with every number
    /// of steps from the number of cells to the edge on, and rows and
    /// columns together are at least that many.
    pub proof fn lemma_budget_suffices(ray: Ray, world: &World, fuel: nat, more: nat)
        requires
            world.wf(),
            ray.unit_steps(),
            world.in_grid(ray.map.0 as int, ray.map.1 as int),
            ray.cells_to_edge(world) <= fuel <= more,
        ensures
            ray.traced(world, fuel) == ray.traced(world, more),
            ray.cells_to_edge(world) <= world.span(),
        decreases fuel,
    {
        if ray.hit || ray.stalled() {
        } else {
            let (r, c) = ray.next_cell();
            if world.in_grid(r, c) && world.tile(r, c) == 0 {
                Ray::lemma_budget_suffices(
                    ray.advanced(),
                    world,
                    (fuel - 1) as nat,
                    (more - 1) as nat,
                );
            }
        }
    }

    /// After a walk, the ray length to the next grid line of an axis is
    /// the length to the first one plus one span for every cell crossed
    /// along that axis, as far as the numbers reach; and a hit took at
    /// least one step along the axis of its face.
    pub proof fn lemma_walk_lengths(ray: Ray, world: &World, fuel: nat)
        requires
            world.wf(),
            !ray.hit,
            ray.unit_steps(),
            ray.forward(),
        ensures
            ({
                let t = ray.traced(world, fuel);
                let kx = t.rows_crossed(ray);
                let ky = t.columns_crossed(ray);
                &&& kx >= 0
                &&& ky >= 0
                &&& t.side_dist.x == saturate(ray.side_dist.x + kx * ray.delta_dist.x)
                &&& t.side_dist.y == saturate(ray.side_dist.y + ky * ray.delta_dist.y)
                &&& t.hit && !t.side ==> kx >= 1
                &&& t.hit && t.side ==> ky >= 1
            }),
        decreases fuel,
    {
        let t = ray.traced(world, fuel);
        let (ax, dx) = (ray.side_dist.x as int, ray.delta_dist.x as int);
        let (ay, dy) = (ray.side_dist.y as int, ray.delta_dist.y as int);
        assert(0 * dx == 0) by (nonlinear_arith);
        assert(0 * dy == 0) by (nonlinear_arith);
        assert(1 * dx == dx) by (nonlinear_arith);
        assert(1 * dy == dy) by (nonlinear_arith);
        if fuel == 0 || ray.stalled() {
        } else {
            let (r, c) = ray.next_cell();
            if world.in_grid(r, c) && world.tile(r, c) == 0 {
                let adv = ray.advanced();
                Ray::lemma_walk_lengths(adv, world, (fuel - 1) as nat);
                Ray::lemma_hit_cell(adv, world, (fuel - 1) as nat);
                let kx = t.rows_crossed(adv);
                let ky = t.columns_crossed(adv);
                assert((kx + 1) * dx == kx * dx + dx) by (nonlinear_arith);
                assert((ky + 1) * dy == ky * dy + dy) by (nonlinear_arith);
                assert(0 <= kx * dx) by (nonlinear_arith)
                    requires
                        0 <= kx,
                        0 <= dx,
                ;
                assert(0 <= ky * dy) by (nonlinear_arith)
                    requires
                        0 <= ky,
                        0 <= dy,
                ;
            }
        }
    }

    /// A ray that can only move from row to row, with `k - 1` empty cells
    /// of its column before it and a wall in the `k`-th, ends in that wall;
    /// the distance it reports is the ray length at the first grid line
    /// plus `k - 1` spans.
    pub proof fn lemma_straight_run_x(ray: Ray, world: &World, fuel: nat, k: nat)
        requires
            world.wf(),
            !ray.hit,
            ray.step.0 == 1 || ray.step.0 == -1,
            ray.side_dist.y == INFINITE,
            0 <= ray.side_dist.x,
            0 <= ray.delta_dist.x,
            ray.side_dist.x + k * ray.delta_dist.x < INFINITE,
            1 <= k <= fuel,
            forall|i: int|
                1 <= i < k ==> world.is_open(
                    #[trigger] Ray::ahead(ray.map.0, ray.step.0, i),
                    ray.map.1 as int,
                ),
            world.is_wall(Ray::ahead(ray.map.0, ray.step.0, k as int), ray.map.1 as int),
        ensures
            ({
                let t = ray.traced(world, fuel).concluded();
                &&& t.hit
                &&& !t.side
                &&& t.map.0 == Ray::ahead(ray.map.0, ray.step.0, k as int)
                &&& t.map.1 == ray.map.1
                &&& t.perp_wall_dist == ray.side_dist.x + (k - 1) * ray.delta_dist.x
            }),
        decreases k,
    {
        let d = ray.delta_dist.x as int;
        assert(k * d == (k - 1) * d + d) by (nonlinear_arith);
        assert(k == 1 ==> (k - 1) * d == 0) by (nonlinear_arith);
        assert(0 <= (k - 1) * d) by (nonlinear_arith)
            requires
                0 <= d,
                1 <= k,
        ;
        let adv = ray.advanced();
        assert(ray.crosses_x());
        assert(Ray::ahead(ray.map.0, ray.step.0, 1) == ray.map.0 + ray.step.0);
        if k == 1 {
            assert(world.is_wall(ray.map.0 + ray.step.0, ray.map.1 as int));
        } else {
            assert(world.is_open(Ray::ahead(ray.map.0, ray.step.0, 1), ray.map.1 as int));
            assert forall|i: int| 1 <= i < k - 1 implies world.is_open(
                #[trigger] Ray::ahead(adv.map.0, adv.step.0, i),
                adv.map.1 as int,
            ) by {
                assert(world.is_open(Ray::ahead(ray.map.0, ray.step.0, i + 1), ray.map.1 as int));
            }
            assert((k - 1) * d == (k - 2) * d + d) by (nonlinear_arith);
            Ray::lemma_straight_run_x(adv, world, (fuel - 1) as nat, (k - 1) as nat);
        }
    }

    /// The same for a ray that can only move from column to column.
    pub proof fn lemma_straight_run_y(ray: Ray, world: &World, fuel: nat, k: nat)
        requires
            world.wf(),
            !ray.hit,
            ray.step.1 == 1 || ray.step.1 == -1,
            ray.side_dist.x == INFINITE,
            0 <= ray.side_dist.y,
            0 <= ray.delta_dist.y,
            ray.side_dist.y + k * ray.delta_dist.y < INFINITE,
            1 <= k <= fuel,
            forall|i: int|
                1 <= i < k ==> world.is_open(
                    ray.map.0 as int,
                    #[trigger] Ray::ahead(ray.map.1, ray.step.1, i),
                ),
            world.is_wall(ray.map.0 as int, Ray::ahead(ray.map.1, ray.step.1, k as int)),
        ensures
            ({
                let t = ray.traced(world, fuel).concluded();
                &&& t.hit
                &&& t.side
                &&& t.map.0 == ray.map.0
                &&& t.map.1 == Ray::ahead(ray.map.1, ray.step.1, k as int)
                &&& t.perp_wall_dist == ray.side_dist.y + (k - 1) * ray.delta_dist.y
            }),
        decreases k,
    {
        let d = ray.delta_dist.y as int;
        assert(k * d == (k - 1) * d + d) by (nonlinear_arith);
        assert(k == 1 ==> (k - 1) * d == 0) by (nonlinear_arith);
        assert(0 <= (k - 1) * d) by (nonlinear_arith)
            requires
                0 <= d,
                1 <= k,
        ;
        let adv = ray.advanced();
        assert(!ray.crosses_x());
        assert(Ray::ahead(ray.map.1, ray.step.1, 1) == ray.map.1 + ray.step.1);
        if k == 1 {
            assert(world.is_wall(ray.map.0 as int, ray.map.1 + ray.step.1));
        } else {
            assert(world.is_open(ray.map.0 as int, Ray::ahead(ray.map.1, ray.step.1, 1)));
            assert forall|i: int| 1 <= i < k - 1 implies world.is_open(
                adv.map.0 as int,
                #[trigger] Ray::ahead(adv.map.1, adv.step.1, i),
            ) by {
                assert(world.is_open(ray.map.0 as int, Ray::ahead(ray.map.1, ray.step.1, i + 1)));
            }
            assert((k - 1) * d == (k - 2) * d + d) by (nonlinear_arith);
            Ray::lemma_straight_run_y(adv, world, (fuel - 1) as nat, (k - 1) as nat);
        }
    }

    /// In a grid with walls all around, a steady ray that stands in an
    /// empty cell ends its walk in a wall, at a distance that is neither
    /// negative nor infinite, given steps for every cell up to the edge.
    pub proof fn lemma_enclosed_walk(ray: Ray, world: &World, fuel: nat)
        requires
            world.wf(),
            world.enclosed(),
            !ray.hit,
            ray.unit_steps(),
            ray.steady(world),
            world.is_open(ray.map.0 as int, ray.map.1 as int),
            ray.reach_x(world) + ray.reach_y(world) <= fuel,
        ensures
            ray.traced(world, fuel).hit,
            0 <= ray.traced(world, fuel).concluded().perp_wall_dist < INFINITE,
        decreases fuel,
    {
        let (r, c) = ray.next_cell();
        let adv = ray.advanced();
        let (rx, dx) = (ray.reach_x(world), ray.delta_dist.x as int);
        let (ry, dy) = (ray.reach_y(world), ray.delta_dist.y as int);
        assert(rx * dx == (rx - 1) * dx + dx) by (nonlinear_arith);
        assert(ry * dy == (ry - 1) * dy + dy) by (nonlinear_arith);
        assert(0 <= (rx - 1) * dx) by (nonlinear_arith)
            requires
                1 <= rx,
                0 <= dx,
        ;
        assert(0 <= (ry - 1) * dy) by (nonlinear_arith)
            requires
                1 <= ry,
                0 <= dy,
        ;
        assert(!world.on_border(ray.map.0 as int, ray.map.1 as int));
        assert(world.in_grid(r, c));
        if world.tile(r, c) == 0 {
            assert(adv.reach_x(world) + adv.reach_y(world) == rx + ry - 1);
            Ray::lemma_enclosed_walk(adv, world, (fuel - 1) as nat);
        }
    }
}

/// The cell that a coordinate falls in, kept within `i32`.
pub fn to_cell(v: Fixed) -> (cell: i32)
    ensures
        cell == cell_of(v),
{
    let f = floor(v);
    if f > i32::MAX as i64 {
        i32::MAX
    } else if f < i32::MIN as i64 {
        i32::MIN
    } else {
        f as i32
    }
}

/// The ray length between two grid lines of an axis.
fn span(r: Fixed) -> (d: Fixed)
    ensures
        d == cell_span(r),
{
    let m = if r < 0 {
        minus(0, r)
    } else {
        r
    };
    over(ONE, m)
}

} // verus!
