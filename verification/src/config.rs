//! Play-field configuration: the fixed per-frame speed step, the play-field
//! rectangle derived from the window size, the player's half-extent, the
//! projectile's upward velocity, and the player's spawn margin.

use vstd::prelude::*;

verus! {

/// Largest per-frame speed step, in subunits per frame per steering unit.
pub const MAX_STEP: i64 = 1_000_000;

/// Largest half-dimension of the play-field, in subunits.
pub const MAX_HALF_EXTENT: i64 = 1_000_000_000;

/// Largest projectile velocity, in steering units.
pub const MAX_LASER_VELOCITY: i64 = 1_000;

/// The window size reported by the display host, in subunits.
///
/// The play-field rectangle is centered on the origin and spans half of each
/// window dimension in each direction.
#[derive(Clone, Copy, Debug, PartialEq, Eq, Structural)]
pub struct WinSize {
    pub w: i64,
    pub h: i64,
}

/// The immutable simulation configuration, established once at startup.
///
/// All lengths are in subunits; velocities are in the steering scale, where
/// one steering unit advances a position by `step` subunits per frame.
#[derive(Clone, Copy, Debug, PartialEq, Eq, Structural)]
pub struct Config {
    /// Displacement per frame per steering unit, in subunits: the product of
    /// the base speed and the fixed timestep, expressed in subunits.
    pub step: i64,
    /// Half the play-field width, in subunits.
    pub half_w: i64,
    /// Half the play-field height, in subunits.
    pub half_h: i64,
    /// Half the player ship's width, in subunits.
    pub half_px: i64,
    /// Half the player ship's height, in subunits.
    pub half_py: i64,
    /// Upward velocity of a projectile, in steering units.
    pub laser_vy: i64,
    /// Distance above the bottom clamp bound at which the player spawns,
    /// in subunits.
    pub spawn_margin: i64,
}

impl Config {
    /// Well-formedness: every dimension is positive and small enough that a
    /// frame update cannot overflow, the player fits inside the play-field,
    /// and the spawn point lies between the clamp bounds.
    pub open spec fn wf(self) -> bool {
        &&& 0 < self.step <= MAX_STEP
        &&& 0 < self.half_w <= MAX_HALF_EXTENT
        &&& 0 < self.half_h <= MAX_HALF_EXTENT
        &&& 0 <= self.half_px <= self.half_w
        &&& 0 <= self.half_py <= self.half_h
        &&& 0 < self.laser_vy <= MAX_LASER_VELOCITY
        &&& 0 <= self.spawn_margin
        &&& 2 * self.half_py + self.spawn_margin <= 2 * self.half_h
    }

    /// Smallest x the player's center may occupy.
    pub open spec fn min_x(self) -> int {
        -self.half_w + self.half_px
    }

    /// Largest x the player's center may occupy.
    pub open spec fn max_x(self) -> int {
        self.half_w - self.half_px
    }

    /// Smallest y the player's center may occupy.
    pub open spec fn min_y(self) -> int {
        -self.half_h + self.half_py
    }

    /// Largest y the player's center may occupy.
    pub open spec fn max_y(self) -> int {
        self.half_h - self.half_py
    }

    /// The y coordinate above which an auto-despawning entity is removed.
    pub open spec fn despawn_y(self) -> int {
        self.half_h as int
    }

    /// Whether the given startup parameters yield a well-formed configuration.
    pub open spec fn new_ok(
        win: WinSize,
        step: i64,
        half_px: i64,
        half_py: i64,
        laser_vy: i64,
        spawn_margin: i64,
    ) -> bool {
        &&& 0 < step <= MAX_STEP
        &&& 0 < win.w / 2 <= MAX_HALF_EXTENT
        &&& 0 < win.h / 2 <= MAX_HALF_EXTENT
        &&& 0 <= half_px <= win.w / 2
        &&& 0 <= half_py <= win.h / 2
        &&& 0 < laser_vy <= MAX_LASER_VELOCITY
        &&& 0 <= spawn_margin
        &&& 2 * half_py + spawn_margin <= 2 * (win.h / 2)
    }

    /// Builds the configuration from the window size and the startup
    /// parameters, validating that the play-field exceeds the player's size
    /// and that nothing can overflow; returns `None` exactly when some
    /// parameter is out of range.
    pub fn new(
        win: WinSize,
        step: i64,
        half_px: i64,
        half_py: i64,
        laser_vy: i64,
        spawn_margin: i64,
    ) -> (r: Option<Config>)
        ensures
            r.is_some() <==> Self::new_ok(win, step, half_px, half_py, laser_vy, spawn_margin),
            r.is_some() ==> {
                let c = r.unwrap();
                &&& c.step == step
                &&& c.half_w == win.w / 2
                &&& c.half_h == win.h / 2
                &&& c.half_px == half_px
                &&& c.half_py == half_py
                &&& c.laser_vy == laser_vy
                &&& c.spawn_margin == spawn_margin
                &&& c.wf()
            },
    {
        if win.w <= 0 || win.h <= 0 {
            return None;
        }
        let half_w: i64 = win.w / 2;
        let half_h: i64 = win.h / 2;
        if step <= 0 || step > MAX_STEP {
            return None;
        }
        if half_w <= 0 || half_w > MAX_HALF_EXTENT {
            return None;
        }
        if half_h <= 0 || half_h > MAX_HALF_EXTENT {
            return None;
        }
        if half_px < 0 || half_px > half_w {
            return None;
        }
        if half_py < 0 || half_py > half_h {
            return None;
        }
        if laser_vy <= 0 || laser_vy > MAX_LASER_VELOCITY {
            return None;
        }
        if spawn_margin < 0 || spawn_margin > 2 * half_h - 2 * half_py {
            return None;
        }
        Some(
            Config {
                step,
                half_w,
                half_h,
                half_px,
                half_py,
                laser_vy,
                spawn_margin,
            },
        )
    }
}

} // verus!
