use vstd::prelude::*;

use crate::random::{random_direction, random_offset, random_tint};

verus! {

/// Sub-pixels per pixel: positions are stored in sixteenths of a pixel.
pub const SUBPIXELS: i64 = 16;

/// Length of one full simulation sub-step, in milliseconds.
pub const FRAME_MS: u64 = 16;

/// A sign of motion along one axis: the only two values a direction component takes.
#[derive(Clone, Copy, Debug, PartialEq, Eq, Structural)]
pub enum Sign {
    Neg,
    Pos,
}

impl Sign {
    /// The component as a number: -1 or +1.
    pub open spec fn value(self) -> int {
        match self {
            Sign::Neg => -1,
            Sign::Pos => 1,
        }
    }
}

/// An RGB tint multiplier, one byte per channel (0 is black, 255 is full);
/// alpha is always full.
#[derive(Clone, Copy, Debug, PartialEq, Eq, Structural)]
pub struct Tint {
    pub r: u8,
    pub g: u8,
    pub b: u8,
}

/// A width and a height in pixels (of the viewport, or of a sprite).
#[derive(Clone, Copy, Debug, PartialEq, Eq, Structural)]
pub struct Extent {
    pub width: u32,
    pub height: u32,
}

/// One bouncing icon: top-left corner in sub-pixels, diagonal direction, tint.
#[derive(Clone, Copy, Debug, PartialEq, Eq, Structural)]
pub struct Sprite {
    pub x: i64,
    pub y: i64,
    pub dir_x: Sign,
    pub dir_y: Sign,
    pub tint: Tint,
}

/// The moving part of a sprite, over unbounded integers.
pub ghost struct Motion {
    pub x: int,
    pub y: int,
    pub dx: Sign,
    pub dy: Sign,
}

impl Sprite {
    pub open spec fn motion(self) -> Motion {
        Motion { x: self.x as int, y: self.y as int, dx: self.dir_x, dy: self.dir_y }
    }
}

/// The largest legal coordinate along one axis, in sub-pixels: the viewport
/// extent minus the sprite extent, or 0 where the sprite does not fit.
pub open spec fn limit_of(view: u32, size: u32) -> int {
    if view > size {
        (view - size) * SUBPIXELS
    } else {
        0
    }
}

/// A coordinate is past a wall: before the start, or beyond the legal limit.
pub open spec fn hits(pos: int, lim: int) -> bool {
    pos < 0 || pos > lim
}

/// The direction after the boundary test: pointing back inside past a wall,
/// unchanged otherwise.
pub open spec fn bounce(pos: int, dir: Sign, lim: int) -> Sign {
    if pos < 0 {
        Sign::Pos
    } else if pos > lim {
        Sign::Neg
    } else {
        dir
    }
}

/// The boundary test of a sub-step hits at least one wall.
pub open spec fn collides(m: Motion, lx: int, ly: int) -> bool {
    hits(m.x, lx) || hits(m.y, ly)
}

/// One sub-step: correct the direction at the walls, then move `dist`
/// sub-pixels along each axis in the corrected direction.
pub open spec fn substep(m: Motion, lx: int, ly: int, dist: int) -> Motion {
    let dx = bounce(m.x, m.dx, lx);
    let dy = bounce(m.y, m.dy, ly);
    Motion { x: m.x + dx.value() * dist, y: m.y + dy.value() * dist, dx, dy }
}

/// `n` full sub-steps of `FRAME_MS` each, at `speed` pixels per frame
/// (which is `speed` sub-pixels per millisecond).
pub open spec fn frames(m: Motion, n: nat, lx: int, ly: int, speed: int) -> Motion
    decreases n,
{
    if n == 0 {
        m
    } else {
        substep(frames(m, (n - 1) as nat, lx, ly, speed), lx, ly, speed * FRAME_MS)
    }
}

/// Some sub-step among the first `n` full ones collides.
pub open spec fn frames_collide(m: Motion, n: nat, lx: int, ly: int, speed: int) -> bool
    decreases n,
{
    if n == 0 {
        false
    } else {
        frames_collide(m, (n - 1) as nat, lx, ly, speed)
            || collides(frames(m, (n - 1) as nat, lx, ly, speed), lx, ly)
    }
}

/// The motion after `elapsed` milliseconds: every whole frame as a full
/// sub-step, then the remainder as one shorter sub-step (none if it is zero).
pub open spec fn advanced(m: Motion, elapsed: nat, lx: int, ly: int, speed: int) -> Motion {
    let f = frames(m, elapsed / FRAME_MS as nat, lx, ly, speed);
    if elapsed % FRAME_MS as nat == 0 {
        f
    } else {
        substep(f, lx, ly, speed * (elapsed % FRAME_MS as nat))
    }
}

/// Some sub-step of an advance by `elapsed` milliseconds collides.
pub open spec fn advance_collides(m: Motion, elapsed: nat, lx: int, ly: int, speed: int) -> bool {
    let n = elapsed / FRAME_MS as nat;
    frames_collide(m, n, lx, ly, speed)
        || (elapsed % FRAME_MS as nat != 0 && collides(frames(m, n, lx, ly, speed), lx, ly))
}

/// The legal limit along one axis, in sub-pixels.
pub fn axis_limit(view: u32, size: u32) -> (r: i64)
    ensures
        r == limit_of(view, size),
        0 <= r <= u32::MAX * SUBPIXELS,
{
    if view > size {
        (view - size) as i64 * SUBPIXELS
    } else {
        0
    }
}

/// A freshly placed coordinate: uniform in `[0, lim)`, or 0 where that is empty.
pub open spec fn placed(pos: int, lim: int) -> bool {
    if lim == 0 {
        pos == 0
    } else {
        0 <= pos < lim
    }
}

impl Sprite {
    /// A new sprite at a random legal position, with a random diagonal
    /// direction and a random tint.
    pub fn random(lx: i64, ly: i64) -> (s: Sprite)
        requires
            0 <= lx,
            0 <= ly,
        ensures
            placed(s.x as int, lx as int),
            placed(s.y as int, ly as int),
    {
        let x = random_offset(lx as u64);
        let y = random_offset(ly as u64);
        let (dir_x, dir_y) = random_direction();
        Sprite { x: x as i64, y: y as i64, dir_x, dir_y, tint: random_tint() }
    }

    /// The boundary test: turns the direction back inside along each axis that
    /// is past a wall, and tells whether any was.
    pub fn collide(&mut self, lx: i64, ly: i64) -> (collided: bool)
        ensures
            final(self).motion() == (Motion {
                dx: bounce(old(self).x as int, old(self).dir_x, lx as int),
                dy: bounce(old(self).y as int, old(self).dir_y, ly as int),
                ..old(self).motion()
            }),
            final(self).tint == old(self).tint,
            collided == collides(old(self).motion(), lx as int, ly as int),
    {
        let mut collided = false;
        if self.x < 0 {
            self.dir_x = Sign::Pos;
            collided = true;
        } else if self.x > lx {
            self.dir_x = Sign::Neg;
            collided = true;
        }
        if self.y < 0 {
            self.dir_y = Sign::Pos;
            collided = true;
        } else if self.y > ly {
            self.dir_y = Sign::Neg;
            collided = true;
        }
        collided
    }

    /// Moves `dist` sub-pixels along each axis in the current direction.
    pub fn step(&mut self, dist: i64)
        requires
            i64::MIN <= old(self).x + old(self).dir_x.value() * dist <= i64::MAX,
            i64::MIN <= old(self).y + old(self).dir_y.value() * dist <= i64::MAX,
        ensures
            final(self).motion() == (Motion {
                x: old(self).x + old(self).dir_x.value() * dist,
                y: old(self).y + old(self).dir_y.value() * dist,
                ..old(self).motion()
            }),
            final(self).tint == old(self).tint,
    {
        match self.dir_x {
            Sign::Pos => self.x = self.x + dist,
            Sign::Neg => self.x = self.x - dist,
        }
        match self.dir_y {
            Sign::Pos => self.y = self.y + dist,
            Sign::Neg => self.y = self.y - dist,
        }
    }

    /// One sub-step of `dist` sub-pixels: boundary test, motion, and a fresh
    /// tint if a wall was hit. Tells whether one was.
    pub fn substep(&mut self, lx: i64, ly: i64, dist: i64) -> (collided: bool)
        requires
            0 <= lx <= u32::MAX * SUBPIXELS,
            0 <= ly <= u32::MAX * SUBPIXELS,
            0 <= dist <= u32::MAX * SUBPIXELS,
        ensures
            final(self).motion() == substep(old(self).motion(), lx as int, ly as int, dist as int),
            collided == collides(old(self).motion(), lx as int, ly as int),
            !collided ==> final(self).tint == old(self).tint,
    {
        let collided = self.collide(lx, ly);
        self.step(dist);
        if collided {
            self.tint = random_tint();
        }
        collided
    }
    /// Advances this sprite by `elapsed` milliseconds at `speed` pixels per
    /// frame: `elapsed / FRAME_MS` full sub-steps, then one sub-step of the
    /// remainder if it is not zero. The tint is redrawn after each sub-step
    /// that hit a wall, and kept when none did.
    pub fn simulate(&mut self, elapsed: u64, lx: i64, ly: i64, speed: u32)
        requires
            0 <= lx <= u32::MAX * SUBPIXELS,
            0 <= ly <= u32::MAX * SUBPIXELS,
        ensures
            final(self).motion() == advanced(
                old(self).motion(),
                elapsed as nat,
                lx as int,
                ly as int,
                speed as int,
            ),
            !advance_collides(old(self).motion(), elapsed as nat, lx as int, ly as int, speed as int)
                ==> final(self).tint == old(self).tint,
    {
        let ghost m0 = self.motion();
        let ghost t0 = self.tint;
        let whole: u64 = elapsed / FRAME_MS;
        let rest: u64 = elapsed % FRAME_MS;
        let full: i64 = speed as i64 * FRAME_MS as i64;
        let mut i: u64 = 0;
        while i < whole
            invariant
                0 <= lx <= u32::MAX * SUBPIXELS,
                0 <= ly <= u32::MAX * SUBPIXELS,
                i <= whole,
                whole == elapsed / FRAME_MS,
                full == speed * FRAME_MS,
                self.motion() == frames(m0, i as nat, lx as int, ly as int, speed as int),
                !frames_collide(m0, i as nat, lx as int, ly as int, speed as int) ==> self.tint == t0,
            decreases whole - i,
        {
            self.substep(lx, ly, full);
            i = i + 1;
        }
        if rest != 0 {
            assert(speed * rest <= u32::MAX * SUBPIXELS) by (nonlinear_arith)
                requires
                    speed <= u32::MAX,
                    rest < FRAME_MS,
                    FRAME_MS == SUBPIXELS,
            ;
            self.substep(lx, ly, speed as i64 * rest as i64);
        }
    }
}

} // verus!
