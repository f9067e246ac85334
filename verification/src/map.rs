//! The tile grid, its textures and the things that stand in it.

use vstd::prelude::*;
use macroquad::texture::Image;
use crate::canvas::{image_pixels, is_sound, pixels_of, sound};
use crate::color::{floor_shaded, sprite_shaded, wall_shaded, Rgba};
use crate::fixed::{floor, frac, from_int, times, Fixed, Vec3, ONE};

verus! {

/// The largest side a texture may have, in texels.
pub const MAX_TEXTURE_SIDE: u32 = 32768;

/// Stands for an image that the host keeps on the graphics card: a key by
/// which the host finds it again, and the side of the square in texels.
#[derive(Clone, Copy, Debug, PartialEq, Eq, Structural)]
pub struct TextureRef {
    pub id: u32,
    pub side: u32,
}

/// A billboard: a position in the world, the squared distance to the camera
/// as of the last sprite pass, and the image to show.
#[derive(Clone, Copy, Debug, PartialEq, Eq, Structural)]
pub struct Sprite {
    pub x: Fixed,
    pub y: Fixed,
    pub dist: Fixed,
    pub texture: TextureRef,
}

/// A wall texture together with its texels in processor memory. The texel
/// at texture coordinates `(x, y)` sits at index `side * x + y`.
#[derive(Clone, Debug)]
pub struct Texture {
    pub texture: TextureRef,
    pub texture_data: Vec<Rgba>,
}

/// Something in the map that switches a cell between two tile codes: the
/// pair of codes, then the cell as row and column.
#[derive(Clone, Copy, Debug, PartialEq, Eq)]
pub enum Entity {
    Door((u32, u32), (i32, i32)),
    Power((u32, u32), (i32, i32)),
}

/// Why a world could not be put together.
#[derive(Clone, Copy, Debug, PartialEq, Eq, Structural)]
pub enum WorldError {
    /// The grid was declared with no columns.
    NoColumns,
    /// The grid has more rows or columns than a cell coordinate can name.
    TooLarge,
    /// The last row of the grid is incomplete.
    Ragged,
    /// The texture at this index is not a square with a power-of-two side
    /// of at most `MAX_TEXTURE_SIDE`, or its texel count is off.
    BadTexture(usize),
    /// The cell at this index of the grid names a texture that is not there.
    MissingTexture(usize),
}

/// The grid of tile codes with everything bound to it. Code 0 is empty
/// floor; code `n > 0` is a wall that shows texture `n - 1`.
pub struct World {
    pub world_map: Vec<u32>,
    pub textures: Vec<Texture>,
    pub sprite_map: Vec<Sprite>,
    pub entities: Vec<Entity>,
    pub columns: usize,
}

/// Whether sprite `a`, which stood at index `ia`, is drawn before sprite
/// `b`, which stood at index `ib`: the farther one first, and of two
/// equally far the one that stood first.
pub open spec fn drawn_before(a: Sprite, ia: int, b: Sprite, ib: int) -> bool {
    a.dist > b.dist || (a.dist == b.dist && ia < ib)
}

/// `after` holds the sprites of `before`, each once, `after[i]` being the
/// one that stood at `from[i]`, in the order in which they are drawn.
pub open spec fn reordered(before: Seq<Sprite>, after: Seq<Sprite>, from: Seq<int>) -> bool {
    &&& after.len() == before.len()
    &&& from.len() == before.len()
    &&& forall|i: int| 0 <= i < from.len() ==> 0 <= #[trigger] from[i] < before.len()
    &&& forall|i: int, j: int| 0 <= i < j < from.len() ==> #[trigger] from[i] != #[trigger] from[j]
    &&& forall|i: int| 0 <= i < from.len() ==> #[trigger] after[i] == before[from[i]]
    &&& forall|i: int, j: int|
        0 <= i < j < from.len() ==> drawn_before(
            #[trigger] after[i],
            from[i],
            #[trigger] after[j],
            from[j],
        )
}

/// `after` is `before` sorted back to front: by falling distance, sprites
/// of equal distance in the order they had.
pub open spec fn back_to_front(before: Seq<Sprite>, after: Seq<Sprite>) -> bool {
    exists|from: Seq<int>| reordered(before, after, from)
}

/// Sorts the sprites back to front: by falling distance, and sprites of
/// equal distance stay in the order they had.
pub fn sort_sprites(sprites: &mut Vec<Sprite>)
    ensures
        back_to_front(old(sprites)@, final(sprites)@),
{
    let ghost before = sprites@;
    let ghost mut from: Seq<int> = Seq::new(sprites@.len(), |i: int| i);
    let n = sprites.len();
    let mut i: usize = 1;
    if n == 0 {
        assert(reordered(before, sprites@, from));
        return ;
    }
    while i < n
        invariant
            1 <= i <= n,
            n == before.len(),
            sprites@.len() == n,
            from.len() == n,
            forall|k: int| 0 <= k < n ==> 0 <= #[trigger] from[k] < n,
            forall|a: int, b: int| 0 <= a < b < n ==> #[trigger] from[a] != #[trigger] from[b],
            forall|k: int| 0 <= k < n ==> #[trigger] sprites@[k] == before[from[k]],
            forall|k: int| i <= k < n ==> #[trigger] from[k] == k,
            forall|k: int| 0 <= k < i ==> #[trigger] from[k] < i,
            forall|a: int, b: int|
                0 <= a < b < i ==> drawn_before(
                    #[trigger] sprites@[a],
                    from[a],
                    #[trigger] sprites@[b],
                    from[b],
                ),
        decreases n - i,
    {
        let mut j: usize = i;
        while j > 0 && sprites[j - 1].dist < sprites[j].dist
            invariant
                0 <= j <= i < n,
                n == before.len(),
                sprites@.len() == n,
                from.len() == n,
                forall|k: int| 0 <= k < n ==> 0 <= #[trigger] from[k] < n,
                forall|a: int, b: int|
                    0 <= a < b < n ==> #[trigger] from[a] != #[trigger] from[b],
                forall|k: int| 0 <= k < n ==> #[trigger] sprites@[k] == before[from[k]],
                forall|k: int| i < k < n ==> #[trigger] from[k] == k,
                from[j as int] == i,
                forall|k: int| 0 <= k <= i && k != j ==> #[trigger] from[k] < i,
                forall|a: int, b: int|
                    0 <= a < b <= i && a != j && b != j ==> drawn_before(
                        #[trigger] sprites@[a],
                        from[a],
                        #[trigger] sprites@[b],
                        from[b],
                    ),
                forall|b: int|
                    j < b <= i ==> drawn_before(
                        sprites@[j as int],
                        from[j as int],
                        #[trigger] sprites@[b],
                        from[b],
                    ),
            decreases j,
        {
            let nearer = sprites[j - 1];
            let farther = sprites[j];
            sprites.set(j - 1, farther);
            sprites.set(j, nearer);
            proof {
                let moved = from[j as int];
                let passed = from[j - 1];
                from = from.update(j - 1, moved).update(j as int, passed);
            }
            j -= 1;
        }
        proof {
            assert forall|a: int, b: int| 0 <= a < b < i + 1 implies drawn_before(
                #[trigger] sprites@[a],
                from[a],
                #[trigger] sprites@[b],
                from[b],
            ) by {
                if a == j {
                } else if b == j {
                    if a < j - 1 {
                        assert(drawn_before(sprites@[a], from[a], sprites@[j - 1], from[j - 1]));
                    }
                } else {
                }
            }
        }
        i += 1;
    }
    assert(reordered(before, sprites@, from));
}

/// Whether `n` is a power of two, told by its bits.
pub open spec fn power_of_two(n: u32) -> bool {
    n > 0 && n & ((n - 1) as u32) == 0
}

/// The texel coordinate under world coordinate `v` for a texture of the
/// given side that repeats once per cell: the whole part of `side * v`,
/// wrapped into `[0, side)`.
pub open spec fn tex_coord(v: Fixed, side: u32) -> u32 {
    (((side * v) / (ONE as int)) % (side as int)) as u32
}

/// A power of two up to `MAX_TEXTURE_SIDE` is one of sixteen numbers.
proof fn lemma_power_of_two_cases(m: u32)
    by (bit_vector)
    requires
        0 < m <= 32768,
        m & ((m - 1) as u32) == 0,
    ensures
        m == 1 || m == 2 || m == 4 || m == 8 || m == 16 || m == 32 || m == 64 || m == 128 || m
            == 256 || m == 512 || m == 1024 || m == 2048 || m == 4096 || m == 8192 || m == 16384
            || m == 32768,
{
}

/// Masking with a power of two less one wraps a signed number into
/// `[0, side)` as the remainder does.
proof fn lemma_mask_wraps(q: i64, side: u32)
    requires
        power_of_two(side),
        side <= MAX_TEXTURE_SIDE,
    ensures
        q & ((side - 1) as i64) == (q as int) % (side as int),
{
    lemma_power_of_two_cases(side);
    assert(q & 0 == q % 1) by (bit_vector);
    assert(q & 1 == q % 2) by (bit_vector);
    assert(q & 3 == q % 4) by (bit_vector);
    assert(q & 7 == q % 8) by (bit_vector);
    assert(q & 15 == q % 16) by (bit_vector);
    assert(q & 31 == q % 32) by (bit_vector);
    assert(q & 63 == q % 64) by (bit_vector);
    assert(q & 127 == q % 128) by (bit_vector);
    assert(q & 255 == q % 256) by (bit_vector);
    assert(q & 511 == q % 512) by (bit_vector);
    assert(q & 1023 == q % 1024) by (bit_vector);
    assert(q & 2047 == q % 2048) by (bit_vector);
    assert(q & 4095 == q % 4096) by (bit_vector);
    assert(q & 8191 == q % 8192) by (bit_vector);
    assert(q & 16383 == q % 16384) by (bit_vector);
    assert(q & 32767 == q % 32768) by (bit_vector);
}

/// The texel coordinate under world coordinate `v`, found with a bit mask.
pub fn texel_coord(v: Fixed, side: u32) -> (t: u32)
    requires
        power_of_two(side),
        side <= MAX_TEXTURE_SIDE,
    ensures
        t == tex_coord(v, side),
        t < side,
{
    assert(-0x4000_0000_0000_0000_0000 <= side * v <= 0x4000_0000_0000_0000_0000)
        by (nonlinear_arith)
        requires
            0 < side <= 32768,
            -0x8000_0000_0000_0000 <= v <= 0x7fff_ffff_ffff_ffff,
    ;
    let wide: i128 = side as i128 * v as i128;
    let q: i64 = match wide.checked_div_euclid(ONE as i128) {
        Some(q) => q as i64,
        None => 0,
    };
    proof {
        lemma_mask_wraps(q, side);
    }
    (q & (side as i64 - 1)) as u32
}

/// The texel coordinate depends on the fractional part of the world
/// coordinate alone: it is the whole part of `side` times that fraction.
/// So a coordinate just below a cell boundary lands on the last texel, and
/// one on the boundary wraps to texel 0 and never reaches `side`.
pub proof fn lemma_tex_coord_wraps(v: Fixed, side: u32)
    requires
        side > 0,
    ensures
        tex_coord(v, side) == (side * frac(v)) / (ONE as int),
        tex_coord(v, side) < side,
        frac(v) == 0 ==> tex_coord(v, side) == 0,
{
    let w = floor(v) as int;
    let f = frac(v) as int;
    let s = side as int;
    let one = ONE as int;
    assert(v == one * w + f) by {
        vstd::arithmetic::div_mod::lemma_fundamental_div_mod(v as int, one);
    }
    assert(s * v == (s * w) * one + s * f) by (nonlinear_arith)
        requires
            v == one * w + f,
    ;
    let inner = (s * f) / one;
    assert(0 <= inner < s) by (nonlinear_arith)
        requires
            inner == (s * f) / one,
            0 <= f < one,
            0 < s,
            one == 65536,
    ;
    assert((s * v) / one == s * w + inner) by {
        vstd::arithmetic::div_mod::lemma_hoist_over_denominator(s * f, s * w, one as nat);
    }
    assert((s * w + inner) % s == inner) by {
        vstd::arithmetic::div_mod::lemma_mod_multiples_vanish(w, inner, s);
        vstd::arithmetic::div_mod::lemma_small_mod(inner as nat, s as nat);
    }
    if f == 0 {
        assert(s * f == 0) by (nonlinear_arith)
            requires
                f == 0,
        ;
    }
}

impl Texture {
    /// A square with a power-of-two side and one texel per position.
    pub open spec fn wf(&self) -> bool {
        &&& power_of_two(self.texture.side)
        &&& self.texture.side <= MAX_TEXTURE_SIDE
        &&& self.texture_data@.len() == self.texture.side * self.texture.side
    }

    /// The texture with the texels of a picture in processor memory,
    /// taken row after row; `None` for a picture that does not hold one
    /// pixel for every place in its rows and columns.
    pub fn from_image(texture: TextureRef, img: &Image) -> (t: Option<Texture>)
        ensures
            match t {
                Some(t) => sound(*img) && t.texture == texture && t.texture_data@ == image_pixels(
                    *img,
                ),
                None => !sound(*img),
            },
    {
        if is_sound(img) {
            Some(Texture { texture, texture_data: pixels_of(img) })
        } else {
            None
        }
    }

    /// The texel under the world point `(x, y)`, for a texture that
    /// repeats once per cell.
    pub open spec fn sampled(&self, x: Fixed, y: Fixed) -> Rgba {
        self.texture_data@[self.texture.side * tex_coord(x, self.texture.side) + tex_coord(
            y,
            self.texture.side,
        )]
    }

    /// The texel under the world point `(x, y)`.
    pub fn sample(&self, x: Fixed, y: Fixed) -> (c: Rgba)
        requires
            self.wf(),
        ensures
            c == self.sampled(x, y),
    {
        let side = self.texture.side;
        let tx = texel_coord(x, side);
        let ty = texel_coord(y, side);
        assert(side * tx + ty < side * side) by (nonlinear_arith)
            requires
                tx < side,
                ty < side,
        ;
        assert(side * side <= 32768 * 32768) by (nonlinear_arith)
            requires
                0 < side <= 32768,
        ;
        self.texture_data[(side * tx + ty) as usize]
    }

    /// Tells whether the texture is well formed.
    pub fn is_wf(&self) -> (ok: bool)
        ensures
            ok == self.wf(),
    {
        let side = self.texture.side;
        if side == 0 || side > MAX_TEXTURE_SIDE || side & (side - 1) != 0 {
            return false;
        }
        assert(side * side <= 32768 * 32768) by (nonlinear_arith)
            requires
                0 < side <= 32768,
        ;
        self.texture_data.len() == (side as usize) * (side as usize)
    }
}

/// Row `r` counted in whole rows of `columns` cells reaches cell `c` of it
/// before the `rows * columns` cells run out.
proof fn lemma_cell_index(r: int, c: int, rows: int, columns: int)
    by (nonlinear_arith)
    requires
        0 <= r < rows,
        0 <= c < columns,
    ensures
        0 <= columns * r + c < rows * columns,
        columns * r + c == r * columns + c,
{
}

impl World {
    /// The number of complete rows.
    pub open spec fn rows_spec(&self) -> usize {
        if self.columns == 0 {
            0
        } else {
            self.world_map.len() / self.columns
        }
    }

    /// Rows and columns together: no ray takes more steps than this
    /// before it leaves the grid.
    pub open spec fn span_spec(&self) -> usize {
        if self.rows_spec() + self.columns <= usize::MAX {
            (self.rows_spec() + self.columns) as usize
        } else {
            usize::MAX
        }
    }

    /// A rectangular grid small enough for `i32` cell coordinates, sound
    /// textures, and a texture behind every wall code.
    pub open spec fn wf(&self) -> bool {
        &&& self.columns > 0
        &&& self.columns <= i32::MAX
        &&& self.world_map@.len() / (self.columns as nat) <= i32::MAX
        &&& self.world_map@.len() % (self.columns as nat) == 0
        &&& forall|i: int| 0 <= i < self.textures@.len() ==> (#[trigger] self.textures@[i]).wf()
        &&& forall|i: int|
            0 <= i < self.world_map@.len() ==> #[trigger] self.world_map@[i]
                <= self.textures@.len()
    }

    /// Whether row `r`, column `c` names a cell of the grid.
    pub open spec fn in_grid(&self, r: int, c: int) -> bool {
        0 <= r < self.rows_spec() && 0 <= c < self.columns
    }

    /// The tile code at row `r`, column `c`.
    pub open spec fn tile(&self, r: int, c: int) -> u32 {
        self.world_map@[self.columns * r + c]
    }

    /// Whether the cell is in the grid and empty.
    pub open spec fn is_open(&self, r: int, c: int) -> bool {
        self.in_grid(r, c) && self.tile(r, c) == 0
    }

    /// Whether the cell is in the grid and holds a wall.
    pub open spec fn is_wall(&self, r: int, c: int) -> bool {
        self.in_grid(r, c) && self.tile(r, c) != 0
    }

    /// Whether the cell lies in the first or last row or column.
    pub open spec fn on_border(&self, r: int, c: int) -> bool {
        r == 0 || c == 0 || r == self.rows_spec() - 1 || c == self.columns - 1
    }

    /// Whether walls stand all around the grid.
    pub open spec fn enclosed(&self) -> bool {
        forall|r: int, c: int|
            self.in_grid(r, c) && self.on_border(r, c) ==> #[trigger] self.tile(r, c) != 0
    }

    /// A cell of the grid has its place in the sequence of tile codes.
    pub proof fn lemma_cell_in_map(&self, r: int, c: int)
        requires
            self.wf(),
            self.in_grid(r, c),
        ensures
            0 <= self.columns * r + c < self.world_map@.len(),
            0 <= self.columns * r <= self.columns * r + c,
            self.rows_spec() * self.columns == self.world_map@.len(),
    {
        let len = self.world_map@.len() as int;
        let cols = self.columns as int;
        vstd::arithmetic::div_mod::lemma_fundamental_div_mod(len, cols);
        assert(len == cols * (len / cols));
        assert(self.rows_spec() == len / cols);
        lemma_cell_index(r, c, len / cols, cols);
        assert(cols * (len / cols) == (len / cols) * cols) by (nonlinear_arith);
        assert(0 <= cols * r) by (nonlinear_arith)
            requires
                0 <= r,
                0 < cols,
        ;
    }

    /// Puts a world together after checking the grid and the textures. The
    /// checks run in a fixed order and the first failure is reported: the
    /// column count, then the size, then the last row, then the textures
    /// from the first on, then the cells from the first on.
    pub fn new(
        world_map: Vec<u32>,
        columns: usize,
        textures: Vec<Texture>,
        sprite_map: Vec<Sprite>,
        entities: Vec<Entity>,
    ) -> (res: Result<World, WorldError>)
        ensures
            match res {
                Ok(w) => {
                    &&& w.wf()
                    &&& w.world_map == world_map
                    &&& w.columns == columns
                    &&& w.textures == textures
                    &&& w.sprite_map == sprite_map
                    &&& w.entities == entities
                },
                Err(WorldError::NoColumns) => columns == 0,
                Err(WorldError::TooLarge) => {
                    &&& columns > 0
                    &&& (columns > i32::MAX || world_map@.len() / (columns as nat) > i32::MAX)
                },
                Err(WorldError::Ragged) => {
                    &&& 0 < columns <= i32::MAX
                    &&& world_map@.len() / (columns as nat) <= i32::MAX
                    &&& world_map@.len() % (columns as nat) != 0
                },
                Err(WorldError::BadTexture(k)) => {
                    &&& 0 < columns <= i32::MAX
                    &&& world_map@.len() / (columns as nat) <= i32::MAX
                    &&& world_map@.len() % (columns as nat) == 0
                    &&& k < textures@.len()
                    &&& !textures@[k as int].wf()
                    &&& forall|i: int| 0 <= i < k ==> (#[trigger] textures@[i]).wf()
                },
                Err(WorldError::MissingTexture(k)) => {
                    &&& 0 < columns <= i32::MAX
                    &&& world_map@.len() / (columns as nat) <= i32::MAX
                    &&& world_map@.len() % (columns as nat) == 0
                    &&& forall|i: int| 0 <= i < textures@.len() ==> (#[trigger] textures@[i]).wf()
                    &&& k < world_map@.len()
                    &&& world_map@[k as int] > textures@.len()
                    &&& forall|i: int| 0 <= i < k ==> #[trigger] world_map@[i] <= textures@.len()
                },
            },
    {
        if columns == 0 {
            return Err(WorldError::NoColumns);
        }
        if columns > i32::MAX as usize || world_map.len() / columns > i32::MAX as usize {
            return Err(WorldError::TooLarge);
        }
        if world_map.len() % columns != 0 {
            return Err(WorldError::Ragged);
        }
        let mut t: usize = 0;
        while t < textures.len()
            invariant
                0 < columns <= i32::MAX,
                world_map@.len() / (columns as nat) <= i32::MAX,
                world_map@.len() % (columns as nat) == 0,
                t <= textures@.len(),
                forall|i: int| 0 <= i < t ==> (#[trigger] textures@[i]).wf(),
            decreases textures@.len() - t,
        {
            if !textures[t].is_wf() {
                return Err(WorldError::BadTexture(t));
            }
            t += 1;
        }
        let mut k: usize = 0;
        while k < world_map.len()
            invariant
                0 < columns <= i32::MAX,
                world_map@.len() / (columns as nat) <= i32::MAX,
                world_map@.len() % (columns as nat) == 0,
                forall|i: int| 0 <= i < textures@.len() ==> (#[trigger] textures@[i]).wf(),
                k <= world_map@.len(),
                forall|i: int| 0 <= i < k ==> #[trigger] world_map@[i] <= textures@.len(),
            decreases world_map@.len() - k,
        {
            if world_map[k] as usize > textures.len() {
                return Err(WorldError::MissingTexture(k));
            }
            k += 1;
        }
        Ok(World { world_map, textures, sprite_map, entities, columns })
    }

    /// The number of complete rows.
    #[verifier::when_used_as_spec(rows_spec)]
    pub fn rows(&self) -> (n: usize)
        ensures
            n == self.rows_spec(),
    {
        if self.columns == 0 {
            0
        } else {
            self.world_map.len() / self.columns
        }
    }

    /// Rows and columns together.
    #[verifier::when_used_as_spec(span_spec)]
    pub fn span(&self) -> (n: usize)
        ensures
            n == self.span_spec(),
    {
        self.rows().saturating_add(self.columns)
    }

    /// Tells whether the world is well formed.
    pub fn is_wf(&self) -> (ok: bool)
        ensures
            ok == self.wf(),
    {
        if self.columns == 0 || self.columns > i32::MAX as usize
            || self.world_map.len() / self.columns > i32::MAX as usize
            || self.world_map.len() % self.columns != 0 {
            return false;
        }
        let mut t: usize = 0;
        while t < self.textures.len()
            invariant
                0 < self.columns <= i32::MAX,
                self.world_map@.len() / (self.columns as nat) <= i32::MAX,
                self.world_map@.len() % (self.columns as nat) == 0,
                t <= self.textures@.len(),
                forall|i: int| 0 <= i < t ==> (#[trigger] self.textures@[i]).wf(),
            decreases self.textures@.len() - t,
        {
            if !self.textures[t].is_wf() {
                return false;
            }
            t += 1;
        }
        let mut k: usize = 0;
        while k < self.world_map.len()
            invariant
                0 < self.columns <= i32::MAX,
                self.world_map@.len() / (self.columns as nat) <= i32::MAX,
                self.world_map@.len() % (self.columns as nat) == 0,
                forall|i: int|
                    0 <= i < self.textures@.len() ==> (#[trigger] self.textures@[i]).wf(),
                k <= self.world_map@.len(),
                forall|i: int|
                    0 <= i < k ==> #[trigger] self.world_map@[i] <= self.textures@.len(),
            decreases self.world_map@.len() - k,
        {
            if self.world_map[k] as usize > self.textures.len() {
                return false;
            }
            k += 1;
        }
        true
    }

    /// Tells whether walls stand all around the grid.
    pub fn is_enclosed(&self) -> (ok: bool)
        requires
            self.wf(),
        ensures
            ok == self.enclosed(),
    {
        let rows = self.rows();
        let columns = self.columns;
        if rows == 0 {
            return true;
        }
        let mut c: usize = 0;
        while c < columns
            invariant
                self.wf(),
                0 < rows == self.rows_spec(),
                columns == self.columns,
                c <= columns,
                forall|j: int| 0 <= j < c ==> #[trigger] self.tile(0, j) != 0,
                forall|j: int| 0 <= j < c ==> #[trigger] self.tile(rows - 1, j) != 0,
            decreases columns - c,
        {
            if self.get(0, c as i32) == 0 || self.get((rows - 1) as i32, c as i32) == 0 {
                assert(self.in_grid(0, c as int) && self.on_border(0, c as int));
                assert(self.in_grid(rows - 1, c as int) && self.on_border(rows - 1, c as int));
                return false;
            }
            c += 1;
        }
        let mut r: usize = 0;
        while r < rows
            invariant
                self.wf(),
                0 < rows == self.rows_spec(),
                columns == self.columns,
                r <= rows,
                forall|j: int| 0 <= j < columns ==> #[trigger] self.tile(0, j) != 0,
                forall|j: int| 0 <= j < columns ==> #[trigger] self.tile(rows - 1, j) != 0,
                forall|i: int| 0 <= i < r ==> #[trigger] self.tile(i, 0) != 0,
                forall|i: int| 0 <= i < r ==> #[trigger] self.tile(i, columns - 1) != 0,
            decreases rows - r,
        {
            if self.get(r as i32, 0) == 0 || self.get(r as i32, (columns - 1) as i32) == 0 {
                assert(self.in_grid(r as int, 0) && self.on_border(r as int, 0));
                assert(self.in_grid(r as int, columns - 1) && self.on_border(
                    r as int,
                    columns - 1,
                ));
                return false;
            }
            r += 1;
        }
        true
    }

    /// The tile code at row `r`, column `c`, or `None` outside the grid.
    pub fn tile_at(&self, r: i32, c: i32) -> (t: Option<u32>)
        requires
            self.wf(),
        ensures
            t == (if self.in_grid(r as int, c as int) {
                Some(self.tile(r as int, c as int))
            } else {
                None
            }),
    {
        if r < 0 || c < 0 || r as usize >= self.rows() || c as usize >= self.columns {
            None
        } else {
            Some(self.get(r, c))
        }
    }

    /// The tile code at row `r`, column `c` of the grid.
    pub fn get(&self, r: i32, c: i32) -> (t: u32)
        requires
            self.wf(),
            self.in_grid(r as int, c as int),
        ensures
            t == self.tile(r as int, c as int),
    {
        proof {
            self.lemma_cell_in_map(r as int, c as int);
        }
        self.world_map[self.columns * r as usize + c as usize]
    }

    /// The code that `change` leaves in the cell `coords`: the first code of
    /// the pair unless it is there already; then the second, unless the
    /// camera at `pos` stands in that very cell.
    pub open spec fn switched(&self, pos: Vec3, texture: (u32, u32), coords: (i32, i32)) -> u32 {
        let now = self.tile(coords.0 as int, coords.1 as int);
        if now != texture.0 {
            texture.0
        } else if coords.0 != floor(pos.x) || coords.1 != floor(pos.y) {
            texture.1
        } else {
            now
        }
    }

    /// Switches the cell `coords` between the two tile codes of `texture`.
    pub fn change(&mut self, pos: Vec3, texture: (u32, u32), coords: (i32, i32))
        requires
            old(self).wf(),
            old(self).in_grid(coords.0 as int, coords.1 as int),
            texture.0 <= old(self).textures@.len(),
            texture.1 <= old(self).textures@.len(),
        ensures
            final(self).wf(),
            final(self).world_map@ == old(self).world_map@.update(
                old(self).columns * coords.0 + coords.1,
                old(self).switched(pos, texture, coords),
            ),
            final(self).columns == old(self).columns,
            final(self).textures == old(self).textures,
            final(self).sprite_map == old(self).sprite_map,
            final(self).entities == old(self).entities,
    {
        proof {
            self.lemma_cell_in_map(coords.0 as int, coords.1 as int);
        }
        let at: usize = self.columns * coords.0 as usize + coords.1 as usize;
        if self.get(coords.0, coords.1) != texture.0 {
            self.world_map.set(at, texture.0);
        } else if coords.0 as i64 != floor(pos.x) || coords.1 as i64 != floor(pos.y) {
            self.world_map.set(at, texture.1);
        } else {
            assert(self.world_map@ =~= old(self).world_map@.update(
                at as int,
                old(self).switched(pos, texture, coords),
            ));
        }
    }

    /// The texture that the wall in the cell `map` shows.
    pub fn texture(&self, map: (i32, i32)) -> (t: TextureRef)
        requires
            self.wf(),
            self.is_wall(map.0 as int, map.1 as int),
        ensures
            t == self.textures@[self.tile(map.0 as int, map.1 as int) - 1].texture,
    {
        proof {
            self.lemma_cell_in_map(map.0 as int, map.1 as int);
        }
        self.textures[(self.get(map.0, map.1) - 1) as usize].texture
    }

    /// Shades a texel of the floor or the ceiling on screen row `dist`:
    /// with dark shading on, each channel is divided by the number of rows
    /// from there down to row `height`, times the multiplier.
    pub fn floor_shading(
        &self,
        color: Rgba,
        height: i32,
        dist: i32,
        multiplier: Fixed,
        dark_shading: bool,
    ) -> (c: Rgba)
        ensures
            c == floor_shaded(color, height, dist, multiplier, dark_shading),
            !dark_shading ==> c == color,
    {
        if dark_shading {
            color.dim(times(from_int(height as i64 - dist as i64), multiplier))
        } else {
            color
        }
    }

    /// The tint of a wall strip at perpendicular distance `dist`.
    pub fn wall_shading(
        &self,
        side: bool,
        dist: Fixed,
        shadows: bool,
        dark_shading: bool,
        shading_multiplier: Fixed,
    ) -> (c: Rgba)
        ensures
            c == wall_shaded(side, dist, shadows, dark_shading, shading_multiplier),
            !dark_shading && !(shadows && side) ==> c == Rgba::white(),
    {
        let mut color = Rgba::white();
        if dark_shading {
            color = color.dim(times(dist, shading_multiplier));
        }
        if shadows {
            if side {
                color = color.shadow();
            }
        }
        color
    }

    /// The tint of a sprite at distance measure `dist`.
    pub fn sprite_shading(&self, dist: Fixed, dark_shading: bool, shading_multiplier: Fixed) -> (c:
        Rgba)
        ensures
            c == sprite_shaded(dist, dark_shading, shading_multiplier),
            !dark_shading ==> c == Rgba::white(),
    {
        let mut color = Rgba::white();
        if dark_shading {
            color = color.dim(times(dist, shading_multiplier));
        }
        color
    }
}

} // verus!
