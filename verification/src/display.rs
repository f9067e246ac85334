//! The table of rendering parameters.

use vstd::prelude::*;
use crate::fixed::{Fixed, ONE};

verus! {

/// Everything the host can tune: the size of the picture, the shading
/// modes and their strengths, and the camera's speeds and limits.
#[derive(Clone, Copy, Debug, PartialEq, Eq, Structural)]
pub struct Settings {
    /// Width of the picture in pixels.
    pub width: u16,
    /// Height of the picture in pixels.
    pub height: u16,
    /// How many wall textures there are to choose from.
    pub num_textures: usize,
    /// Whether the settings window is shown.
    pub settings: bool,
    /// Whether the screen filter is on.
    pub shaders: bool,
    /// Replaces every tint by one fixed green.
    pub nightvision: bool,
    /// Paints floor and ceiling in flat colours instead of textures.
    pub fast_floors: bool,
    /// Darkens walls hit on a horizontal grid line.
    pub shadows: bool,
    /// Darkens everything with distance.
    pub dark_shading: bool,
    /// How fast walls darken with their perpendicular distance.
    pub wall_shading_multiplier: Fixed,
    /// How fast the floor darkens from the lower edge of the picture up.
    pub floor_shading_multiplier: Fixed,
    /// How fast the ceiling darkens from the lower edge of the picture up.
    pub ceil_shading_multiplier: Fixed,
    /// How fast sprites darken with their squared distance.
    pub sprite_shading_multiplier: Fixed,
    /// Index of the texture laid on the floor.
    pub floor_texture: usize,
    /// Index of the texture laid on the ceiling.
    pub ceil_texture: usize,
    /// Width of the render target that the host draws into.
    pub resolution_x: u16,
    /// Height of the render target that the host draws into.
    pub resolution_y: u16,
    /// Cells per second.
    pub move_speed: Fixed,
    /// Radians per second.
    pub rot_speed: Fixed,
    /// Scales the speed of looking up and down and of rising and sinking.
    pub look_speed: Fixed,
    /// Whether walking bobs the camera.
    pub headbob: bool,
    /// How fast the phase of the bob moves on, in radians per second.
    pub headbob_speed: Fixed,
    /// How far the eye moves at the top of a bob.
    pub headbob_amount: Fixed,
    /// The pitch stays within this many pixels of level.
    pub pitch_limit: Fixed,
    /// The camera height stays within this distance of eye level.
    pub height_limit: Fixed,
}

impl Settings {
    /// The parameters a fresh session starts with, for a picture of the
    /// given size.
    pub fn new(num_textures: usize, width: u16, height: u16) -> (s: Settings)
        ensures
            s == (Settings {
                width,
                height,
                num_textures,
                settings: false,
                shaders: false,
                nightvision: false,
                fast_floors: false,
                shadows: true,
                dark_shading: false,
                wall_shading_multiplier: 131072,
                floor_shading_multiplier: 5242,
                ceil_shading_multiplier: 6553,
                sprite_shading_multiplier: 65536,
                floor_texture: 1,
                ceil_texture: 2,
                resolution_x: 640,
                resolution_y: 480,
                move_speed: 262144,
                rot_speed: 196608,
                look_speed: 6553600,
                headbob: false,
                headbob_speed: 655360,
                headbob_amount: 65536,
                pitch_limit: 32768000,
                height_limit: 13107200,
            }),
    {
        Settings {
            width,
            height,
            num_textures,
            settings: false,
            shaders: false,
            nightvision: false,
            fast_floors: false,
            shadows: true,
            dark_shading: false,
            wall_shading_multiplier: 2 * ONE,
            floor_shading_multiplier: 5242,
            ceil_shading_multiplier: 6553,
            sprite_shading_multiplier: ONE,
            floor_texture: 1,
            ceil_texture: 2,
            resolution_x: 640,
            resolution_y: 480,
            move_speed: 4 * ONE,
            rot_speed: 3 * ONE,
            look_speed: 100 * ONE,
            headbob: false,
            headbob_speed: 10 * ONE,
            headbob_amount: ONE,
            pitch_limit: 500 * ONE,
            height_limit: 200 * ONE,
        }
    }

    /// Half the width of the picture.
    pub open spec fn half_width_spec(&self) -> Fixed {
        (self.width * ONE / 2) as i64
    }

    /// Half the height of the picture.
    pub open spec fn half_height_spec(&self) -> Fixed {
        (self.height * ONE / 2) as i64
    }

    /// Half the width of the picture.
    #[verifier::when_used_as_spec(half_width_spec)]
    pub fn half_width(&self) -> (h: Fixed)
        ensures
            h == self.half_width_spec(),
    {
        self.width as i64 * ONE / 2
    }

    /// Half the height of the picture.
    #[verifier::when_used_as_spec(half_height_spec)]
    pub fn half_height(&self) -> (h: Fixed)
        ensures
            h == self.half_height_spec(),
    {
        self.height as i64 * ONE / 2
    }
}

} // verus!
