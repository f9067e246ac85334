//! The floor pass: the picture of floor and ceiling, row by row.

use vstd::prelude::*;
use crate::color::{floor_shaded, Rgba};
use crate::fixed::{floor, from_int, minus, over, plus, scaled, times, Vec2};
use crate::player::{lemma_pixel_index, Player};

verus! {

/// What one screen row of floor or ceiling is painted from.
#[derive(Clone, Copy, Debug, PartialEq, Eq, Structural)]
pub struct FloorRow {
    /// The row lies on the horizon, where nothing can be sampled.
    pub level: bool,
    /// The row lies below the horizon and shows the floor.
    pub below: bool,
    /// The world point under the left edge of the row.
    pub start: Vec2,
    /// How far the world point moves from one pixel to the next.
    pub step: Vec2,
}

/// The flat colour of the floor when textures are bypassed.
pub open spec fn flat_floor() -> Rgba {
    Rgba { r: 112, g: 112, b: 112, a: 255 }
}

/// The flat colour of the ceiling when textures are bypassed.
pub open spec fn flat_ceiling() -> Rgba {
    Rgba { r: 56, g: 56, b: 56, a: 255 }
}

/// Pixels are numbered row by row, and from the left within a row.
proof fn lemma_pixel_order(i: int, j: int, x: int, y: int, w: int)
    by (nonlinear_arith)
    requires
        0 <= i < w,
        0 <= x < w,
        0 <= j,
        j < y || (j == y && i < x),
    ensures
        j * w + i < y * w + x,
{
}

impl Player {
    /// The screen row of the horizon: the middle row, shifted by the pitch.
    pub open spec fn horizon(&self) -> i64 {
        floor(plus(self.ds.half_height(), self.pitch))
    }

    /// What screen row `y` is painted from. The distance of the row is the
    /// eye's height over the floor, or under the ceiling, divided by the
    /// row's offset from the horizon; the world point under a pixel moves
    /// evenly from the point under the leftmost ray to the one under the
    /// rightmost.
    pub open spec fn floor_row(&self, y: u32) -> FloorRow {
        let horizon = self.horizon();
        let below = y > horizon;
        let row_distance = if below {
            over(plus(self.ds.half_height(), self.pos.z), from_int((y - horizon) as i64))
        } else {
            over(minus(self.ds.half_height(), self.pos.z), from_int((horizon - y) as i64))
        };
        let left = Vec2 {
            x: minus(self.dir.x, self.plane.x),
            y: minus(self.dir.y, self.plane.y),
        };
        let right = Vec2 { x: plus(self.dir.x, self.plane.x), y: plus(self.dir.y, self.plane.y) };
        let width = from_int(self.ds.width as i64);
        FloorRow {
            level: y == horizon,
            below,
            start: Vec2 {
                x: plus(self.pos.x, times(row_distance, left.x)),
                y: plus(self.pos.y, times(row_distance, left.y)),
            },
            step: Vec2 {
                x: over(times(row_distance, minus(right.x, left.x)), width),
                y: over(times(row_distance, minus(right.y, left.y)), width),
            },
        }
    }

    /// The colour of the pixel in column `x` of a row of floor or ceiling.
    pub open spec fn row_pixel(&self, row: FloorRow, x: u32, y: u32) -> Rgba {
        if row.level {
            Rgba::black()
        } else {
            let at = Vec2 {
                x: plus(row.start.x, scaled(row.step.x, x as i64)),
                y: plus(row.start.y, scaled(row.step.y, x as i64)),
            };
            let base = if self.ds.fast_floors {
                if row.below {
                    flat_floor()
                } else {
                    flat_ceiling()
                }
            } else if row.below {
                self.world.textures@[self.ds.floor_texture as int].sampled(at.x, at.y)
            } else {
                self.world.textures@[self.ds.ceil_texture as int].sampled(at.x, at.y)
            };
            if self.ds.nightvision {
                base
            } else if row.below {
                floor_shaded(
                    base,
                    (self.ds.height + 50) as i32,
                    y as i32,
                    self.ds.floor_shading_multiplier,
                    self.ds.dark_shading,
                )
            } else {
                floor_shaded(
                    base,
                    (self.ds.height + 30) as i32,
                    y as i32,
                    self.ds.ceil_shading_multiplier,
                    self.ds.dark_shading,
                )
            }
        }
    }

    /// The colour of the pixel in column `x` of screen row `y` of the
    /// picture of floor and ceiling. The row of the horizon is black.
    pub open spec fn floor_pixel(&self, x: u32, y: u32) -> Rgba {
        self.row_pixel(self.floor_row(y), x, y)
    }

    fn row_setup(&self, y: u32) -> (row: FloorRow)
        ensures
            row == self.floor_row(y),
    {
        let horizon: i64 = floor(plus(self.ds.half_height(), self.pitch));
        let is_floor = y as i64 > horizon;
        let ray_dir_0 = Vec2 {
            x: minus(self.dir.x, self.plane.x),
            y: minus(self.dir.y, self.plane.y),
        };
        let ray_dir_1 = Vec2 {
            x: plus(self.dir.x, self.plane.x),
            y: plus(self.dir.y, self.plane.y),
        };
        let p: i64 = if is_floor {
            y as i64 - horizon
        } else {
            horizon - y as i64
        };
        let cam_z = if is_floor {
            plus(self.ds.half_height(), self.pos.z)
        } else {
            minus(self.ds.half_height(), self.pos.z)
        };
        let row_distance = over(cam_z, from_int(p));
        let width = from_int(self.ds.width as i64);
        FloorRow {
            level: y as i64 == horizon,
            below: is_floor,
            start: Vec2 {
                x: plus(self.pos.x, times(row_distance, ray_dir_0.x)),
                y: plus(self.pos.y, times(row_distance, ray_dir_0.y)),
            },
            step: Vec2 {
                x: over(times(row_distance, minus(ray_dir_1.x, ray_dir_0.x)), width),
                y: over(times(row_distance, minus(ray_dir_1.y, ray_dir_0.y)), width),
            },
        }
    }

    fn row_color(&self, row: &FloorRow, x: u32, y: u32) -> (c: Rgba)
        requires
            self.wf(),
            y < self.ds.height,
        ensures
            c == self.row_pixel(*row, x, y),
    {
        if row.level {
            return Rgba::black();
        }
        let base = if self.ds.fast_floors {
            if row.below {
                Rgba { r: 112, g: 112, b: 112, a: 255 }
            } else {
                Rgba { r: 56, g: 56, b: 56, a: 255 }
            }
        } else {
            let at = Vec2 {
                x: plus(row.start.x, scaled(row.step.x, x as i64)),
                y: plus(row.start.y, scaled(row.step.y, x as i64)),
            };
            if row.below {
                self.world.textures[self.ds.floor_texture].sample(at.x, at.y)
            } else {
                self.world.textures[self.ds.ceil_texture].sample(at.x, at.y)
            }
        };
        if self.ds.nightvision {
            base
        } else if row.below {
            self.world.floor_shading(
                base,
                self.ds.height as i32 + 50,
                y as i32,
                self.ds.floor_shading_multiplier,
                self.ds.dark_shading,
            )
        } else {
            self.world.floor_shading(
                base,
                self.ds.height as i32 + 30,
                y as i32,
                self.ds.ceil_shading_multiplier,
                self.ds.dark_shading,
            )
        }
    }

    /// The floor pass: paints every pixel of the picture of floor and
    /// ceiling, and hands back the tint to draw the picture with.
    pub fn draw_floor(&mut self) -> (tint: Rgba)
        requires
            old(self).wf(),
        ensures
            forall|x: u32, y: u32|
                x < old(self).ds.width && y < old(self).ds.height
                    ==> final(self).background.pixels()[y * old(self).ds.width + x]
                    == #[trigger] old(self).floor_pixel(x, y),
            tint == (if old(self).ds.nightvision {
                Rgba::night_green()
            } else {
                Rgba::white()
            }),
            final(self).same_but_canvas(old(self)),
            final(self).wf(),
    {
        let w: u32 = self.ds.width as u32;
        let h: u32 = self.ds.height as u32;
        let mut y: u32 = 0;
        while y < h
            invariant
                y <= h,
                w == old(self).ds.width,
                h == old(self).ds.height,
                self.wf(),
                self.same_but_canvas(old(self)),
                forall|i: u32, j: u32|
                    i < w && j < y ==> self.background.pixels()[j * w + i]
                        == #[trigger] old(self).floor_pixel(i, j),
            decreases h - y,
        {
            let row = self.row_setup(y);
            let mut x: u32 = 0;
            while x < w
                invariant
                    x <= w,
                    y < h,
                    w == old(self).ds.width,
                    h == old(self).ds.height,
                    self.wf(),
                    self.same_but_canvas(old(self)),
                    row == old(self).floor_row(y),
                    forall|i: u32, j: u32|
                        i < w && (j < y || (j == y && i < x)) ==> self.background.pixels()[j * w
                            + i] == #[trigger] old(self).floor_pixel(i, j),
                decreases w - x,
            {
                let color = self.row_color(&row, x, y);
                let ghost before = self.background.pixels();
                self.background.set_pixel(x, y, color);
                proof {
                    lemma_pixel_index(x as int, y as int, w as int, h as int);
                    assert forall|i: u32, j: u32|
                        i < w && (j < y || (j == y && i < x + 1)) implies self.background.pixels()[j
                        * w + i] == #[trigger] old(self).floor_pixel(i, j) by {
                        if j == y && i == x {
                        } else {
                            lemma_pixel_order(i as int, j as int, x as int, y as int, w as int);
                            lemma_pixel_index(i as int, j as int, w as int, h as int);
                            assert(before[j * w + i] == old(self).floor_pixel(i, j));
                        }
                    }
                }
                x += 1;
            }
            y += 1;
        }
        if self.ds.nightvision {
            Rgba::night_green()
        } else {
            Rgba::white()
        }
    }
}

} // verus!
