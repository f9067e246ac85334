//! How the camera moves: walking with collision, turning, looking.

use vstd::prelude::*;
use crate::display::Settings;
use crate::fixed::{minus, negated, plus, scaled, times, Fixed, Vec2, Vec3};
use crate::map::World;
use crate::player::Player;
use crate::raycast::{cell_of, to_cell};

verus! {

/// A full turn in radians: the phase at which the head bob starts over.
pub const FULL_TURN: Fixed = 411774;

/// The keys that matter to the camera, as the host found them this frame.
#[derive(Clone, Copy, Debug, PartialEq, Eq, Structural)]
pub struct Keys {
    pub forward: bool,
    pub back: bool,
    pub right: bool,
    pub left: bool,
    pub look_up: bool,
    pub look_down: bool,
    pub rise: bool,
    pub sink: bool,
    /// The key that shows and hides the settings went down this frame.
    pub toggle_settings: bool,
}

/// What the host measures and works out for one frame: the time since the
/// last frame in seconds, the cosine and sine of the angle turned in that
/// time at the rotation speed, and the sine of the bob phase that the
/// timer reaches in that time.
#[derive(Clone, Copy, Debug, PartialEq, Eq, Structural)]
pub struct Frame {
    pub frame_time: Fixed,
    pub turn_cos: Fixed,
    pub turn_sin: Fixed,
    pub bob_sine: Fixed,
}

/// The part of the camera that moves.
#[derive(Clone, Copy, Debug, PartialEq, Eq, Structural)]
pub struct Pose {
    pub pos: Vec3,
    pub dir: Vec2,
    pub plane: Vec2,
    pub pitch: Fixed,
    pub timer: Fixed,
}

/// The vector turned by the angle with the given cosine and sine.
pub open spec fn turned(v: Vec2, cos: Fixed, sin: Fixed) -> Vec2 {
    Vec2 {
        x: minus(times(v.x, cos), times(v.y, sin)),
        y: plus(times(v.x, sin), times(v.y, cos)),
    }
}

/// The value kept within `limit` of zero.
pub open spec fn within(v: Fixed, limit: Fixed) -> Fixed {
    if v > limit {
        limit
    } else if v < negated(limit) {
        negated(limit)
    } else {
        v
    }
}

impl Pose {
    /// Whether the camera stands in an empty cell of the grid.
    pub open spec fn stands_open(self, world: &World) -> bool {
        world.is_open(cell_of(self.pos.x) as int, cell_of(self.pos.y) as int)
    }

    /// The pose after a walk of length `m` along the direction of view,
    /// or against it. Each coordinate moves on its own, and only into an
    /// empty cell of the grid.
    pub open spec fn walk(self, world: &World, m: Fixed, forward: bool) -> Pose {
        let nx = if forward {
            plus(self.pos.x, times(self.dir.x, m))
        } else {
            minus(self.pos.x, times(self.dir.x, m))
        };
        let x = if world.is_open(cell_of(nx) as int, cell_of(self.pos.y) as int) {
            nx
        } else {
            self.pos.x
        };
        let ny = if forward {
            plus(self.pos.y, times(self.dir.y, m))
        } else {
            minus(self.pos.y, times(self.dir.y, m))
        };
        let y = if world.is_open(cell_of(x) as int, cell_of(ny) as int) {
            ny
        } else {
            self.pos.y
        };
        Pose { pos: Vec3 { x, y, z: self.pos.z }, ..self }
    }

    /// The pose after a turn by the angle with the given cosine and sine.
    pub open spec fn turn(self, cos: Fixed, sin: Fixed) -> Pose {
        Pose { dir: turned(self.dir, cos, sin), plane: turned(self.plane, cos, sin), ..self }
    }

    /// The pose after one beat of the head bob: the timer moves on and
    /// starts over after a full turn, and the eye moves by the sine of
    /// the phase times the amount.
    pub open spec fn bob(
        self,
        frame_time: Fixed,
        speed: Fixed,
        amount: Fixed,
        sine: Fixed,
    ) -> Pose {
        let timer = plus(self.timer, times(frame_time, speed));
        Pose {
            timer: if timer > FULL_TURN {
                0
            } else {
                timer
            },
            pos: Vec3 { z: plus(self.pos.z, times(sine, amount)), ..self.pos },
            ..self
        }
    }

    /// The pose after a walk with the head bob of one step, where the
    /// settings ask for it.
    pub open spec fn stride(
        self,
        world: &World,
        ds: &Settings,
        frame: &Frame,
        forward: bool,
    ) -> Pose {
        let walked = self.walk(world, times(frame.frame_time, ds.move_speed), forward);
        if ds.headbob {
            walked.bob(frame.frame_time, ds.headbob_speed, ds.headbob_amount, frame.bob_sine)
        } else {
            walked
        }
    }

    /// The pose after the walking keys had their way: forward first, then
    /// back.
    pub open spec fn steered(
        self,
        world: &World,
        ds: &Settings,
        keys: &Keys,
        frame: &Frame,
    ) -> Pose {
        let a = if keys.forward {
            self.stride(world, ds, frame, true)
        } else {
            self
        };
        if keys.back {
            a.stride(world, ds, frame, false)
        } else {
            a
        }
    }

    /// The pose after the turning keys had their way: right first, then
    /// left.
    pub open spec fn swung(self, keys: &Keys, frame: &Frame) -> Pose {
        let a = if keys.right {
            self.turn(frame.turn_cos, negated(frame.turn_sin))
        } else {
            self
        };
        if keys.left {
            a.turn(frame.turn_cos, frame.turn_sin)
        } else {
            a
        }
    }

    /// The pose after looking up, then down, by `look` each, the pitch
    /// held at the limit it would pass.
    pub open spec fn tilted(self, ds: &Settings, keys: &Keys, look: Fixed) -> Pose {
        let up = if keys.look_up {
            let pitch = plus(self.pitch, look);
            if pitch > ds.pitch_limit {
                ds.pitch_limit
            } else {
                pitch
            }
        } else {
            self.pitch
        };
        let pitch = if keys.look_down {
            let pitch = minus(up, look);
            if pitch < negated(ds.pitch_limit) {
                negated(ds.pitch_limit)
            } else {
                pitch
            }
        } else {
            up
        };
        Pose { pitch, ..self }
    }

    /// The pose after rising, then sinking, by `look` each, with the eye
    /// then brought back within the height limit.
    pub open spec fn lifted(self, ds: &Settings, keys: &Keys, look: Fixed) -> Pose {
        let risen = if keys.rise {
            plus(self.pos.z, look)
        } else {
            self.pos.z
        };
        let z = if keys.sink {
            minus(risen, look)
        } else {
            risen
        };
        Pose { pos: Vec3 { z: within(z, ds.height_limit), ..self.pos }, ..self }
    }

    /// The pose after one frame with the given keys held: walking, then
    /// turning, then looking up and down, then rising and sinking.
    pub open spec fn moved(self, world: &World, ds: &Settings, keys: &Keys, frame: &Frame) -> Pose {
        let look = times(scaled(frame.frame_time, 3), ds.look_speed);
        self.steered(world, ds, keys, frame).swung(keys, frame).tilted(ds, keys, look).lifted(
            ds,
            keys,
            look,
        )
    }
}

impl Player {
    /// The part of the camera that moves.
    pub open spec fn pose(&self) -> Pose {
        Pose {
            pos: self.pos,
            dir: self.dir,
            plane: self.plane,
            pitch: self.pitch,
            timer: self.timer,
        }
    }

    /// One beat of the head bob, for the time `frame_time` since the last
    /// frame and the sine of the phase that the timer reaches in it.
    pub fn headbob(&mut self, frame_time: Fixed, sine: Fixed)
        ensures
            final(self).pose() == old(self).pose().bob(
                frame_time,
                old(self).ds.headbob_speed,
                old(self).ds.headbob_amount,
                sine,
            ),
            final(self).same_but_pose(old(self)),
    {
        self.timer = plus(self.timer, times(frame_time, self.ds.headbob_speed));
        self.pos.z = plus(self.pos.z, times(sine, self.ds.headbob_amount));
        if self.timer > FULL_TURN {
            self.timer = 0;
        }
    }

    /// Moves the camera for one frame as the keys ask, and shows or hides
    /// the settings. A walk never enters a wall or leaves the grid.
    pub fn movement(&mut self, keys: &Keys, frame: &Frame)
        requires
            old(self).world.wf(),
        ensures
            final(self).pose() == old(self).pose().moved(
                &old(self).world,
                &old(self).ds,
                keys,
                frame,
            ),
            final(self).ds == (Settings {
                settings: old(self).ds.settings != keys.toggle_settings,
                ..old(self).ds
            }),
            final(self).world == old(self).world,
            final(self).background == old(self).background,
            final(self).zbuffer == old(self).zbuffer,
            old(self).pose().stands_open(&old(self).world) ==> final(self).pose().stands_open(
                &final(self).world,
            ),
    {
        let look: Fixed = times(scaled(frame.frame_time, 3), self.ds.look_speed);
        self.steer(keys, frame);
        self.swing(keys, frame);
        self.tilt(keys, look);
        self.lift(keys, look);
        if keys.toggle_settings {
            self.ds.settings = !self.ds.settings;
        }
    }

    fn steer(&mut self, keys: &Keys, frame: &Frame)
        requires
            old(self).world.wf(),
        ensures
            final(self).pose() == old(self).pose().steered(
                &old(self).world,
                &old(self).ds,
                keys,
                frame,
            ),
            final(self).same_but_pose(old(self)),
            old(self).pose().stands_open(&old(self).world) ==> final(self).pose().stands_open(
                &old(self).world,
            ),
    {
        if keys.forward {
            self.move_forward(frame.frame_time);
            if self.ds.headbob {
                self.headbob(frame.frame_time, frame.bob_sine);
            }
        }
        if keys.back {
            self.move_down(frame.frame_time);
            if self.ds.headbob {
                self.headbob(frame.frame_time, frame.bob_sine);
            }
        }
    }

    fn swing(&mut self, keys: &Keys, frame: &Frame)
        ensures
            final(self).pose() == old(self).pose().swung(keys, frame),
            final(self).same_but_pose(old(self)),
    {
        if keys.right {
            self.move_right(frame.turn_cos, frame.turn_sin);
        }
        if keys.left {
            self.move_left(frame.turn_cos, frame.turn_sin);
        }
    }

    fn tilt(&mut self, keys: &Keys, look: Fixed)
        ensures
            final(self).pose() == old(self).pose().tilted(&old(self).ds, keys, look),
            final(self).same_but_pose(old(self)),
    {
        if keys.look_up {
            self.pitch = plus(self.pitch, look);
            if self.pitch > self.ds.pitch_limit {
                self.pitch = self.ds.pitch_limit;
            }
        }
        if keys.look_down {
            self.pitch = minus(self.pitch, look);
            if self.pitch < negated(self.ds.pitch_limit) {
                self.pitch = negated(self.ds.pitch_limit);
            }
        }
    }

    fn lift(&mut self, keys: &Keys, look: Fixed)
        ensures
            final(self).pose() == old(self).pose().lifted(&old(self).ds, keys, look),
            final(self).same_but_pose(old(self)),
    {
        if keys.rise {
            self.pos.z = plus(self.pos.z, look);
        }
        if keys.sink {
            self.pos.z = minus(self.pos.z, look);
        }
        if self.pos.z > self.ds.height_limit {
            self.pos.z = self.ds.height_limit;
        } else if self.pos.z < negated(self.ds.height_limit) {
            self.pos.z = negated(self.ds.height_limit);
        }
    }

    fn is_free(&self, x: Fixed, y: Fixed) -> (free: bool)
        requires
            self.world.wf(),
        ensures
            free == self.world.is_open(cell_of(x) as int, cell_of(y) as int),
    {
        match self.world.tile_at(to_cell(x), to_cell(y)) {
            Some(tile) => tile == 0,
            None => false,
        }
    }

    fn move_forward(&mut self, frame_time: Fixed)
        requires
            old(self).world.wf(),
        ensures
            final(self).pose() == old(self).pose().walk(
                &old(self).world,
                times(frame_time, old(self).ds.move_speed),
                true,
            ),
            final(self).same_but_pose(old(self)),
    {
        let m: Fixed = times(frame_time, self.ds.move_speed);
        let nx = plus(self.pos.x, times(self.dir.x, m));
        if self.is_free(nx, self.pos.y) {
            self.pos.x = nx;
        }
        let ny = plus(self.pos.y, times(self.dir.y, m));
        if self.is_free(self.pos.x, ny) {
            self.pos.y = ny;
        }
    }

    fn move_down(&mut self, frame_time: Fixed)
        requires
            old(self).world.wf(),
        ensures
            final(self).pose() == old(self).pose().walk(
                &old(self).world,
                times(frame_time, old(self).ds.move_speed),
                false,
            ),
            final(self).same_but_pose(old(self)),
    {
        let m: Fixed = times(frame_time, self.ds.move_speed);
        let nx = minus(self.pos.x, times(self.dir.x, m));
        if self.is_free(nx, self.pos.y) {
            self.pos.x = nx;
        }
        let ny = minus(self.pos.y, times(self.dir.y, m));
        if self.is_free(self.pos.x, ny) {
            self.pos.y = ny;
        }
    }

    fn move_right(&mut self, cos: Fixed, sin: Fixed)
        ensures
            final(self).pose() == old(self).pose().turn(cos, negated(sin)),
            final(self).same_but_pose(old(self)),
    {
        self.move_left(cos, negated(sin));
    }

    fn move_left(&mut self, cos: Fixed, sin: Fixed)
        ensures
            final(self).pose() == old(self).pose().turn(cos, sin),
            final(self).same_but_pose(old(self)),
    {
        let old_dir_x: Fixed = self.dir.x;
        self.dir.x = minus(times(self.dir.x, cos), times(self.dir.y, sin));
        self.dir.y = plus(times(old_dir_x, sin), times(self.dir.y, cos));
        let old_plane_x: Fixed = self.plane.x;
        self.plane.x = minus(times(self.plane.x, cos), times(self.plane.y, sin));
        self.plane.y = plus(times(old_plane_x, sin), times(self.plane.y, cos));
    }
}

} // verus!
