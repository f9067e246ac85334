//! The wall pass: from the hit of a ray to a textured strip on screen.

use vstd::prelude::*;
use crate::color::{wall_shaded, Rgba};
use crate::fixed::{frac, from_int, halved, negated, over, plus, times, Fixed, ONE};
use crate::map::TextureRef;
use crate::player::{Player, Strip};
use crate::raycast::Ray;

verus! {

/// The height on screen of a wall at perpendicular distance `d`: the
/// height of the picture divided by the distance.
pub open spec fn wall_height(height: u16, d: Fixed) -> Fixed {
    over(from_int(height as i64), d)
}

/// The screen row where a wall strip of height `line_height` begins: it
/// is centred on the middle row, shifted by the pitch and by the camera
/// height as seen at distance `d`.
pub open spec fn wall_top(
    line_height: Fixed,
    pitch: Fixed,
    half_height: Fixed,
    z: Fixed,
    d: Fixed,
) -> Fixed {
    plus(plus(plus(halved(negated(line_height)), pitch), half_height), over(z, d))
}

/// Where along its face a wall was hit, as a fraction of a cell in
/// `[0, ONE)`: the fractional part of the hit point's coordinate along the
/// face, where `along` is the camera's coordinate and `r` the ray
/// direction's component on that axis.
pub open spec fn wall_fraction(along: Fixed, d: Fixed, r: Fixed) -> Fixed {
    frac(plus(along, times(d, r)))
}

/// The texture column for a hit at fraction `wall_x` of the face, counted
/// from the other end when `mirrored`.
pub open spec fn wall_texel(wall_x: Fixed, side: u32, mirrored: bool) -> u32 {
    let tex_x = (wall_x * side) / (ONE as int);
    if mirrored {
        (side - tex_x - 1) as u32
    } else {
        tex_x as u32
    }
}

impl Player {
    /// The tint of a wall strip: the night-vision green, or else white
    /// shaded by distance and face.
    pub open spec fn wall_tint(&self, ray: Ray) -> Rgba {
        if self.ds.nightvision {
            Rgba::night_green()
        } else {
            wall_shaded(
                ray.side,
                ray.perp_wall_dist,
                self.ds.shadows,
                self.ds.dark_shading,
                self.ds.wall_shading_multiplier,
            )
        }
    }

    /// The strip that shows what `ray` hit in screen column `x`, and
    /// `None` for a ray that did not end in a wall of the grid.
    pub open spec fn wall_strip(&self, ray: Ray, x: u32) -> Option<Strip> {
        if ray.hit && self.world.is_wall(ray.map.0 as int, ray.map.1 as int) {
            let d = ray.perp_wall_dist;
            let texture = self.world.textures@[self.world.tile(
                ray.map.0 as int,
                ray.map.1 as int,
            ) - 1].texture;
            let line_height = wall_height(self.ds.height, d);
            let wall_x = if !ray.side {
                wall_fraction(self.pos.y, d, ray.ray_dir.y)
            } else {
                wall_fraction(self.pos.x, d, ray.ray_dir.x)
            };
            let mirrored = (!ray.side && ray.ray_dir.x > 0) || (ray.side && ray.ray_dir.y < 0);
            Some(
                Strip {
                    texture,
                    source_x: wall_texel(wall_x, texture.side, mirrored),
                    dest_x: x,
                    dest_y: wall_top(
                        line_height,
                        self.pitch,
                        self.ds.half_height(),
                        self.pos.z,
                        d,
                    ),
                    dest_height: line_height,
                    tint: self.wall_tint(ray),
                },
            )
        } else {
            None
        }
    }

    /// Turns the hit of `ray` into the wall strip of screen column `x` and
    /// notes the ray's perpendicular distance in the depth buffer.
    pub fn draw_walls(&mut self, ray: Ray, x: u32) -> (strip: Option<Strip>)
        requires
            old(self).wf(),
            x < old(self).ds.width,
        ensures
            strip == old(self).wall_strip(ray, x),
            final(self).zbuffer@ == old(self).zbuffer@.update(x as int, ray.perp_wall_dist),
            final(self).same_but_depth(old(self)),
            final(self).wf(),
            strip matches Some(s) ==> s.source_x < s.texture.side,
    {
        self.zbuffer.set(x as usize, ray.perp_wall_dist);
        if !ray.hit {
            return None;
        }
        let tile = match self.world.tile_at(ray.map.0, ray.map.1) {
            Some(tile) => tile,
            None => {
                return None;
            },
        };
        if tile == 0 {
            return None;
        }
        let c: Rgba = if self.ds.nightvision {
            Rgba::night_green()
        } else {
            self.world.wall_shading(
                ray.side,
                ray.perp_wall_dist,
                self.ds.shadows,
                self.ds.dark_shading,
                self.ds.wall_shading_multiplier,
            )
        };
        let t: TextureRef = self.world.texture(ray.map);
        proof {
            self.world.lemma_cell_in_map(ray.map.0 as int, ray.map.1 as int);
            assert(tile == self.world.world_map@[self.world.columns * ray.map.0 + ray.map.1]);
            assert(self.world.textures@[tile - 1].wf());
        }

        let line_height: Fixed = over(from_int(self.ds.height as i64), ray.perp_wall_dist);
        let draw_start: Fixed = plus(
            plus(plus(halved(negated(line_height)), self.pitch), self.ds.half_height()),
            over(self.pos.z, ray.perp_wall_dist),
        );

        let wall_x: Fixed = if !ray.side {
            frac(plus(self.pos.y, times(ray.perp_wall_dist, ray.ray_dir.y)))
        } else {
            frac(plus(self.pos.x, times(ray.perp_wall_dist, ray.ray_dir.x)))
        };

        assert(0 <= (wall_x * t.side) / (ONE as int) < t.side) by (nonlinear_arith)
            requires
                0 <= wall_x < ONE,
                0 < t.side <= 32768,
                ONE == 65536,
        ;
        assert(wall_x * t.side <= 65536 * 32768) by (nonlinear_arith)
            requires
                0 <= wall_x < 65536,
                0 < t.side <= 32768,
        ;
        let mut tex_x: u32 = ((wall_x * t.side as i64) / ONE) as u32;
        if !ray.side && ray.ray_dir.x > 0 {
            tex_x = t.side - tex_x - 1;
        }
        if ray.side && ray.ray_dir.y < 0 {
            tex_x = t.side - tex_x - 1;
        }
        Some(
            Strip {
                texture: t,
                source_x: tex_x,
                dest_x: x,
                dest_y: draw_start,
                dest_height: line_height,
                tint: c,
            },
        )
    }

    /// The wall strips of the screen columns before `n`, from the left;
    /// a column whose ray hits nothing contributes none.
    pub open spec fn wall_strips(&self, n: nat) -> Seq<Strip>
        decreases n,
    {
        if n == 0 {
            Seq::empty()
        } else {
            let x = (n - 1) as u32;
            let before = self.wall_strips((n - 1) as nat);
            match self.wall_strip(Ray::cast(x, self), x) {
                Some(strip) => before.push(strip),
                None => before,
            }
        }
    }

    /// The wall pass: casts one ray per screen column, from the left, and
    /// hands back the wall strips to draw. Afterwards the depth buffer
    /// holds the perpendicular wall distance of every column.
    pub fn raycast(&mut self) -> (strips: Vec<Strip>)
        requires
            old(self).wf(),
        ensures
            strips@ == old(self).wall_strips(old(self).ds.width as nat),
            final(self).zbuffer@.len() == old(self).ds.width,
            forall|x: int|
                0 <= x < old(self).ds.width ==> #[trigger] final(self).zbuffer@[x] == Ray::cast(
                    x as u32,
                    old(self),
                ).perp_wall_dist,
            final(self).same_but_depth(old(self)),
            final(self).wf(),
    {
        let mut strips: Vec<Strip> = Vec::new();
        let width: u32 = self.ds.width as u32;
        let mut x: u32 = 0;
        while x < width
            invariant
                x <= width,
                width == old(self).ds.width,
                self.wf(),
                self.same_but_depth(old(self)),
                strips@ == old(self).wall_strips(x as nat),
                forall|i: int|
                    0 <= i < x ==> #[trigger] self.zbuffer@[i] == Ray::cast(
                        i as u32,
                        old(self),
                    ).perp_wall_dist,
            decreases width - x,
        {
            let mut ray: Ray = Ray::new(x, self);
            ray.dda(self);
            assert(ray == Ray::cast(x, old(self)));
            assert(self.wall_strip(ray, x) == old(self).wall_strip(ray, x));
            match self.draw_walls(ray, x) {
                Some(strip) => {
                    strips.push(strip);
                },
                None => {},
            }
            x += 1;
        }
        strips
    }
}

} // verus!
