//! The sprite pass: billboards projected, sorted and hidden by walls.

use vstd::prelude::*;
use crate::color::{sprite_shaded, Rgba};
use crate::fixed::{floor, from_int, minus, negated, over, plus, times, Fixed, Vec2, ONE};
use crate::map::{back_to_front, sort_sprites, Sprite};
use crate::player::{Player, Strip};

verus! {

/// Where a sprite lands on the screen.
#[derive(Clone, Copy, Debug, PartialEq, Eq, Structural)]
pub struct SpriteBox {
    /// The sprite in camera space: `x` across the view, `y` its depth
    /// along the view.
    pub transform: Vec2,
    /// The first screen column of the sprite.
    pub left: i64,
    /// The screen column after its last.
    pub right: i64,
    /// The first screen row of the sprite.
    pub top: i64,
    /// The screen row after its last.
    pub bottom: i64,
    /// Its height, and its width, in pixels.
    pub height: i64,
}

impl Player {
    /// The squared distance from the camera to a sprite.
    pub open spec fn sprite_distance(&self, s: Sprite) -> Fixed {
        let dx = minus(self.pos.x, s.x);
        let dy = minus(self.pos.y, s.y);
        plus(times(dx, dx), times(dy, dy))
    }

    /// The sprites with their distances to the camera brought up to date.
    pub open spec fn measured(&self, sprites: Seq<Sprite>) -> Seq<Sprite> {
        Seq::new(
            sprites.len(),
            |i: int| Sprite { dist: self.sprite_distance(sprites[i]), ..sprites[i] },
        )
    }

    /// Where a sprite lands on the screen: its offset from the camera,
    /// taken through the inverse of the matrix of direction and plane,
    /// gives its place across the view and its depth; the depth sets its
    /// size. `None` for a sprite at or behind the camera, and for every
    /// sprite when direction and plane are parallel.
    pub open spec fn projected(&self, s: Sprite) -> Option<SpriteBox> {
        let det = minus(times(self.plane.x, self.dir.y), times(self.dir.x, self.plane.y));
        let rel = Vec2 { x: minus(s.x, self.pos.x), y: minus(s.y, self.pos.y) };
        let transform = Vec2 {
            x: over(minus(times(self.dir.y, rel.x), times(self.dir.x, rel.y)), det),
            y: over(plus(times(negated(self.plane.y), rel.x), times(self.plane.x, rel.y)), det),
        };
        if det == 0 || transform.y <= 0 {
            None
        } else {
            let v_move = floor(plus(self.pitch, over(self.pos.z, transform.y)));
            let centre = floor(
                times(self.ds.half_width(), plus(ONE, over(transform.x, transform.y))),
            );
            let height = floor(over(from_int(self.ds.height as i64), transform.y));
            let half = height / 2;
            let middle = floor(self.ds.half_height()) + v_move;
            Some(
                SpriteBox {
                    transform,
                    left: (centre - half) as i64,
                    right: (centre + half) as i64,
                    top: (middle - half) as i64,
                    bottom: (middle + half) as i64,
                    height,
                },
            )
        }
    }

    /// Whether the sprite shows in screen column `x`: the column lies in
    /// the sprite's box and on the screen, and the sprite is nearer than
    /// the wall noted for that column.
    pub open spec fn sprite_shown(&self, b: SpriteBox, x: u32) -> bool {
        &&& b.left <= x < b.right
        &&& x < self.ds.width
        &&& b.transform.y < self.zbuffer@[x as int]
    }

    /// Whether the sprite lands on the screen and shows in column `x`.
    pub open spec fn sprite_visible(&self, s: Sprite, x: u32) -> bool {
        match self.projected(s) {
            Some(b) => self.sprite_shown(b, x),
            None => false,
        }
    }

    /// The tint of a sprite: the night-vision green, or else white shaded
    /// by the sprite's squared distance.
    pub open spec fn sprite_tint(&self, s: Sprite) -> Rgba {
        if self.ds.nightvision {
            Rgba::night_green()
        } else {
            sprite_shaded(s.dist, self.ds.dark_shading, self.ds.sprite_shading_multiplier)
        }
    }

    /// The strip of a sprite in screen column `x`.
    pub open spec fn sprite_strip(&self, s: Sprite, b: SpriteBox, x: u32) -> Strip {
        Strip {
            texture: s.texture,
            source_x: (((x - b.left) * s.texture.side) / (b.height as int)) as u32,
            dest_x: x,
            dest_y: from_int(b.top),
            dest_height: from_int((b.bottom - b.top) as i64),
            tint: self.sprite_tint(s),
        }
    }

    /// The strips of a sprite in the screen columns before `n`, from the
    /// left: one for each column in which the sprite shows.
    pub open spec fn sprite_strips(&self, s: Sprite, n: nat) -> Seq<Strip>
        decreases n,
    {
        if n == 0 {
            Seq::empty()
        } else {
            let x = (n - 1) as u32;
            let before = self.sprite_strips(s, (n - 1) as nat);
            match self.projected(s) {
                Some(b) => if self.sprite_shown(b, x) {
                    before.push(self.sprite_strip(s, b, x))
                } else {
                    before
                },
                None => before,
            }
        }
    }

    /// The strips of the first `k` of the sprites, sprite after sprite.
    pub open spec fn sprite_pass(&self, sprites: Seq<Sprite>, k: nat) -> Seq<Strip>
        decreases k,
    {
        if k == 0 {
            Seq::empty()
        } else {
            self.sprite_pass(sprites, (k - 1) as nat) + self.sprite_strips(
                sprites[k - 1],
                self.ds.width as nat,
            )
        }
    }

    /// A sprite that does not land on the screen has no strips.
    pub proof fn lemma_unprojected_has_no_strips(&self, s: Sprite, n: nat)
        requires
            self.projected(s) is None,
        ensures
            self.sprite_strips(s, n) == Seq::<Strip>::empty(),
        decreases n,
    {
        if n > 0 {
            self.lemma_unprojected_has_no_strips(s, (n - 1) as nat);
        }
    }

    /// Works out where a sprite lands on the screen.
    pub fn project(&self, s: &Sprite) -> (b: Option<SpriteBox>)
        ensures
            b == self.projected(*s),
    {
        let det = minus(times(self.plane.x, self.dir.y), times(self.dir.x, self.plane.y));
        if det == 0 {
            return None;
        }
        let sprite = Vec2 { x: minus(s.x, self.pos.x), y: minus(s.y, self.pos.y) };
        let transform = Vec2 {
            x: over(minus(times(self.dir.y, sprite.x), times(self.dir.x, sprite.y)), det),
            y: over(
                plus(times(negated(self.plane.y), sprite.x), times(self.plane.x, sprite.y)),
                det,
            ),
        };
        if transform.y <= 0 {
            return None;
        }
        let v_move_screen: i64 = floor(plus(self.pitch, over(self.pos.z, transform.y)));
        let sprite_screen: i64 = floor(
            times(self.ds.half_width(), plus(ONE, over(transform.x, transform.y))),
        );
        let sprite_height: i64 = floor(over(from_int(self.ds.height as i64), transform.y));
        let half: i64 = match sprite_height.checked_div_euclid(2) {
            Some(half) => half,
            None => 0,
        };
        let middle: i64 = floor(self.ds.half_height()) + v_move_screen;
        Some(
            SpriteBox {
                transform,
                left: sprite_screen - half,
                right: sprite_screen + half,
                top: middle - half,
                bottom: middle + half,
                height: sprite_height,
            },
        )
    }

    /// Appends the strips of one sprite, from the left: one for each
    /// screen column in which the sprite shows.
    pub fn sprite_columns(&self, s: &Sprite, strips: &mut Vec<Strip>)
        requires
            self.wf(),
        ensures
            final(strips)@ == old(strips)@ + self.sprite_strips(*s, self.ds.width as nat),
    {
        let b = match self.project(s) {
            Some(b) => b,
            None => {
                proof {
                    self.lemma_unprojected_has_no_strips(*s, self.ds.width as nat);
                    assert(strips@ =~= old(strips)@ + Seq::<Strip>::empty());
                }
                return ;
            },
        };
        let c: Rgba = if self.ds.nightvision {
            Rgba::night_green()
        } else {
            self.world.sprite_shading(
                s.dist,
                self.ds.dark_shading,
                self.ds.sprite_shading_multiplier,
            )
        };
        let width: u32 = self.ds.width as u32;
        let mut x: u32 = 0;
        assert(strips@ =~= old(strips)@ + self.sprite_strips(*s, 0));
        while x < width
            invariant
                x <= width,
                width == self.ds.width,
                self.wf(),
                self.projected(*s) == Some(b),
                c == self.sprite_tint(*s),
                strips@ == old(strips)@ + self.sprite_strips(*s, x as nat),
            decreases width - x,
        {
            if b.left <= x as i64 && (x as i64) < b.right
                && b.transform.y < self.zbuffer[x as usize] {
                let across: i128 = x as i128 - b.left as i128;
                assert(0 <= (across * s.texture.side) / (b.height as int) <= s.texture.side
                    && across * s.texture.side <= 0x1_0000_0000_0000_0000 * 0x1_0000_0000)
                    by (nonlinear_arith)
                    requires
                        0 <= across < b.height,
                        across < 0x1_0000_0000_0000_0000,
                        0 <= s.texture.side < 0x1_0000_0000,
                ;
                let tex_x: u32 = ((across * s.texture.side as i128) / b.height as i128) as u32;
                strips.push(
                    Strip {
                        texture: s.texture,
                        source_x: tex_x,
                        dest_x: x,
                        dest_y: from_int(b.top),
                        dest_height: from_int(b.bottom - b.top),
                        tint: c,
                    },
                );
                assert(strips@ =~= old(strips)@ + self.sprite_strips(*s, (x + 1) as nat));
            } else {
                assert(strips@ =~= old(strips)@ + self.sprite_strips(*s, (x + 1) as nat));
            }
            x += 1;
        }
    }

    /// The sprite pass: brings the distance of every sprite up to date,
    /// sorts the sprites back to front, and hands back their strips in
    /// that order, each sprite's from the left. A sprite shows in a column
    /// only where it is nearer than the wall noted in the depth buffer.
    pub fn draw_sprites(&mut self) -> (strips: Vec<Strip>)
        requires
            old(self).wf(),
        ensures
            back_to_front(
                old(self).measured(old(self).world.sprite_map@),
                final(self).world.sprite_map@,
            ),
            strips@ == old(self).sprite_pass(
                final(self).world.sprite_map@,
                final(self).world.sprite_map@.len(),
            ),
            final(self).same_but_sprites(old(self)),
            final(self).wf(),
    {
        let num_sprites = self.world.sprite_map.len();
        let mut i: usize = 0;
        while i < num_sprites
            invariant
                i <= num_sprites,
                num_sprites == old(self).world.sprite_map@.len(),
                self.world.sprite_map@.len() == num_sprites,
                self.same_but_sprites(old(self)),
                self.wf(),
                forall|k: int|
                    0 <= k < i ==> #[trigger] self.world.sprite_map@[k] == old(self).measured(
                        old(self).world.sprite_map@,
                    )[k],
                forall|k: int|
                    i <= k < num_sprites ==> #[trigger] self.world.sprite_map@[k] == old(
                        self,
                    ).world.sprite_map@[k],
            decreases num_sprites - i,
        {
            let mut sprite = self.world.sprite_map[i];
            let dx = minus(self.pos.x, sprite.x);
            let dy = minus(self.pos.y, sprite.y);
            sprite.dist = plus(times(dx, dx), times(dy, dy));
            self.world.sprite_map.set(i, sprite);
            i += 1;
        }
        assert(self.world.sprite_map@ =~= old(self).measured(old(self).world.sprite_map@));

        sort_sprites(&mut self.world.sprite_map);

        let mut strips: Vec<Strip> = Vec::new();
        let mut k: usize = 0;
        while k < num_sprites
            invariant
                k <= num_sprites,
                self.world.sprite_map@.len() == num_sprites,
                self.same_but_sprites(old(self)),
                self.wf(),
                strips@ == old(self).sprite_pass(self.world.sprite_map@, k as nat),
            decreases num_sprites - k,
        {
            let sprite = self.world.sprite_map[k];
            proof {
                old(self).lemma_strips_read_no_sprites(self, sprite, self.ds.width as nat);
            }
            self.sprite_columns(&sprite, &mut strips);
            k += 1;
        }
        strips
    }

    /// The strips of a sprite do not depend on the list of sprites.
    pub proof fn lemma_strips_read_no_sprites(&self, other: &Player, s: Sprite, n: nat)
        requires
            other.same_but_sprites(self),
        ensures
            self.sprite_strips(s, n) == other.sprite_strips(s, n),
        decreases n,
    {
        if n > 0 {
            self.lemma_strips_read_no_sprites(other, s, (n - 1) as nat);
        }
    }
}

} // verus!
