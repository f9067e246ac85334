//! The camera in its world, and the buffers it renders into.

use vstd::prelude::*;
use macroquad::texture::Image;
use crate::canvas::{
    blank_image, height_of, image_height, image_pixels, image_width, put_pixel, sound, width_of,
};
use crate::color::Rgba;
use crate::display::Settings;
use crate::fixed::{Fixed, Vec2, Vec3, INFINITE, ONE};
use crate::map::{TextureRef, World};

verus! {

/// Pixel `i` of row `j` has its own place among the `w * h` pixels.
pub proof fn lemma_pixel_index(i: int, j: int, w: int, h: int)
    by (nonlinear_arith)
    requires
        0 <= i < w,
        0 <= j < h,
    ensures
        0 <= j * w + i < w * h,
{
}

/// The picture of floor and ceiling, painted anew each frame. It always
/// holds one pixel for every place in its rows and columns.
pub struct Background {
    img: Image,
}

impl Background {
    #[verifier::type_invariant]
    spec fn full(&self) -> bool {
        sound(self.img)
    }

    /// The pixels row after row from the top, each row from the left.
    pub closed spec fn pixels(&self) -> Seq<Rgba> {
        image_pixels(self.img)
    }

    /// The number of pixels in a row.
    pub closed spec fn spec_width(&self) -> nat {
        image_width(self.img)
    }

    /// The number of rows.
    pub closed spec fn spec_height(&self) -> nat {
        image_height(self.img)
    }

    /// A black picture of the given size.
    pub fn new(width: u16, height: u16) -> (b: Background)
        ensures
            b.spec_width() == width,
            b.spec_height() == height,
            b.pixels().len() == width * height,
            forall|i: int| 0 <= i < width * height ==> #[trigger] b.pixels()[i] == Rgba::black(),
    {
        Background { img: blank_image(width, height) }
    }

    /// The number of pixels in a row.
    pub fn width(&self) -> (w: usize)
        ensures
            w == self.spec_width(),
            self.pixels().len() == self.spec_width() * self.spec_height(),
    {
        proof {
            use_type_invariant(self);
        }
        width_of(&self.img)
    }

    /// The number of rows.
    pub fn height(&self) -> (h: usize)
        ensures
            h == self.spec_height(),
            self.pixels().len() == self.spec_width() * self.spec_height(),
    {
        proof {
            use_type_invariant(self);
        }
        height_of(&self.img)
    }

    /// Gives the pixel in column `x` of row `y` a colour.
    pub fn set_pixel(&mut self, x: u32, y: u32, color: Rgba)
        requires
            x < old(self).spec_width(),
            y < old(self).spec_height(),
        ensures
            final(self).spec_width() == old(self).spec_width(),
            final(self).spec_height() == old(self).spec_height(),
            old(self).pixels().len() == old(self).spec_width() * old(self).spec_height(),
            final(self).pixels() == old(self).pixels().update(
                y * old(self).spec_width() + x,
                color,
            ),
    {
        proof {
            use_type_invariant(&*self);
            lemma_pixel_index(
                x as int,
                y as int,
                image_width(self.img) as int,
                image_height(self.img) as int,
            );
        }
        put_pixel(&mut self.img, x, y, color);
    }

    /// The picture as an image of macroquad, for the host to show.
    pub fn image(&self) -> (img: &Image)
        ensures
            sound(*img),
            image_pixels(*img) == self.pixels(),
            image_width(*img) == self.spec_width(),
            image_height(*img) == self.spec_height(),
    {
        proof {
            use_type_invariant(self);
        }
        &self.img
    }
}

/// One upright strip for the host to draw: column `source_x` of the
/// texture, over its whole height, goes to screen column `dest_x`, one
/// pixel wide, from `dest_y` down over `dest_height` pixels, multiplied by
/// the tint.
#[derive(Clone, Copy, Debug, PartialEq, Eq, Structural)]
pub struct Strip {
    pub texture: TextureRef,
    pub source_x: u32,
    pub dest_x: u32,
    pub dest_y: Fixed,
    pub dest_height: Fixed,
    pub tint: Rgba,
}

/// The camera in its world: where it stands and looks, the parameters it
/// renders with, and the two buffers that live from frame to frame.
pub struct Player {
    /// Position in the grid, in cells, and the eye's height above level.
    pub pos: Vec3,
    /// The direction of view; its length scales every distance reported.
    pub dir: Vec2,
    /// The camera plane, at right angles to `dir`; its length sets the
    /// field of view.
    pub plane: Vec2,
    pub world: World,
    pub ds: Settings,
    /// How far the horizon is shifted down the screen, in pixels.
    pub pitch: Fixed,
    /// Phase of the head bob.
    pub timer: Fixed,
    /// The picture of floor and ceiling.
    pub background: Background,
    /// The depth buffer: the perpendicular wall distance of each screen
    /// column, as the last wall pass left it.
    pub zbuffer: Vec<Fixed>,
}

impl Player {
    /// Both buffers have the size that the settings ask for.
    pub open spec fn buffers_fit(&self) -> bool {
        &&& self.zbuffer@.len() == self.ds.width
        &&& self.background.spec_width() == self.ds.width
        &&& self.background.spec_height() == self.ds.height
        &&& self.background.pixels().len() == self.ds.width * self.ds.height
    }

    /// A sound world, buffers of the right size, and textures behind the
    /// floor and the ceiling.
    pub open spec fn wf(&self) -> bool {
        &&& self.world.wf()
        &&& self.buffers_fit()
        &&& self.ds.floor_texture < self.world.textures@.len()
        &&& self.ds.ceil_texture < self.world.textures@.len()
    }

    /// Everything but the depth buffer is as in `before`.
    pub open spec fn same_but_depth(&self, before: &Player) -> bool {
        &&& self.pos == before.pos
        &&& self.dir == before.dir
        &&& self.plane == before.plane
        &&& self.world == before.world
        &&& self.ds == before.ds
        &&& self.pitch == before.pitch
        &&& self.timer == before.timer
        &&& self.background == before.background
    }

    /// Everything but the picture of floor and ceiling is as in `before`.
    pub open spec fn same_but_canvas(&self, before: &Player) -> bool {
        &&& self.pos == before.pos
        &&& self.dir == before.dir
        &&& self.plane == before.plane
        &&& self.world == before.world
        &&& self.ds == before.ds
        &&& self.pitch == before.pitch
        &&& self.timer == before.timer
        &&& self.zbuffer == before.zbuffer
    }

    /// Everything but the list of sprites is as in `before`.
    pub open spec fn same_but_sprites(&self, before: &Player) -> bool {
        &&& self.pos == before.pos
        &&& self.dir == before.dir
        &&& self.plane == before.plane
        &&& self.world.world_map == before.world.world_map
        &&& self.world.textures == before.world.textures
        &&& self.world.entities == before.world.entities
        &&& self.world.columns == before.world.columns
        &&& self.ds == before.ds
        &&& self.pitch == before.pitch
        &&& self.timer == before.timer
        &&& self.background == before.background
        &&& self.zbuffer == before.zbuffer
    }

    /// World, settings and buffers are as in `before`.
    pub open spec fn same_but_pose(&self, before: &Player) -> bool {
        &&& self.world == before.world
        &&& self.ds == before.ds
        &&& self.background == before.background
        &&& self.zbuffer == before.zbuffer
    }

    /// A camera at its starting place, looking down the rows, with a black
    /// picture and nothing in sight.
    pub fn new(world: World, display_settings: Settings) -> (p: Player)
        ensures
            p.pos == (Vec3 { x: 1441792, y: 753664, z: 0 }),
            p.dir == (Vec2 { x: -65536i64, y: 0 }),
            p.plane == (Vec2 { x: 0, y: 43253 }),
            p.world == world,
            p.ds == display_settings,
            p.pitch == 0,
            p.timer == 0,
            p.buffers_fit(),
            forall|i: int| 0 <= i < p.zbuffer@.len() ==> #[trigger] p.zbuffer@[i] == INFINITE,
            forall|i: int|
                0 <= i < p.background.pixels().len() ==> #[trigger] p.background.pixels()[i]
                    == Rgba::black(),
    {
        let background = Background::new(display_settings.width, display_settings.height);
        let zbuffer = far_depths(display_settings.width as usize);
        Player {
            pos: Vec3 { x: 22 * ONE, y: 11 * ONE + ONE / 2, z: 0 },
            dir: Vec2 { x: -ONE, y: 0 },
            plane: Vec2 { x: 0, y: 43253 },
            world,
            ds: display_settings,
            pitch: 0,
            timer: 0,
            background,
            zbuffer,
        }
    }

    /// Replaces both buffers by fresh ones of the size that the settings
    /// ask for now: a black picture and nothing in sight.
    pub fn fit_buffers(&mut self)
        ensures
            final(self).buffers_fit(),
            final(self).pos == old(self).pos,
            final(self).dir == old(self).dir,
            final(self).plane == old(self).plane,
            final(self).world == old(self).world,
            final(self).ds == old(self).ds,
            final(self).pitch == old(self).pitch,
            final(self).timer == old(self).timer,
            forall|i: int|
                0 <= i < final(self).zbuffer@.len() ==> #[trigger] final(self).zbuffer@[i]
                    == INFINITE,
            forall|i: int|
                0 <= i < final(self).background.pixels().len()
                    ==> #[trigger] final(self).background.pixels()[i] == Rgba::black(),
    {
        self.background = Background::new(self.ds.width, self.ds.height);
        self.zbuffer = far_depths(self.ds.width as usize);
    }

    /// Tells whether the camera is fit to render.
    pub fn is_wf(&self) -> (ok: bool)
        ensures
            ok == self.wf(),
    {
        let w = self.ds.width as usize;
        let h = self.ds.height as usize;
        self.world.is_wf() && self.zbuffer.len() == w && self.background.width() == w
            && self.background.height() == h
            && self.ds.floor_texture < self.world.textures.len()
            && self.ds.ceil_texture < self.world.textures.len()
    }
}

/// A depth buffer with nothing in sight.
fn far_depths(n: usize) -> (v: Vec<Fixed>)
    ensures
        v@.len() == n,
        forall|i: int| 0 <= i < n ==> #[trigger] v@[i] == INFINITE,
{
    let mut v: Vec<Fixed> = Vec::new();
    while v.len() < n
        invariant
            v@.len() <= n,
            forall|i: int| 0 <= i < v@.len() ==> #[trigger] v@[i] == INFINITE,
        decreases n - v@.len(),
    {
        v.push(INFINITE);
    }
    v
}

} // verus!
