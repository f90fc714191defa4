use vstd::prelude::*;

use crate::sprite::{
    advance_collides, advanced, axis_limit, limit_of, placed, Extent, Sprite, SUBPIXELS,
};

verus! {

/// What the embedding reads from its settings each tick.
#[derive(Clone, Copy, Debug, PartialEq, Eq, Structural)]
pub struct Config {
    /// Target number of sprites.
    pub sprite_count: u32,
    /// Pixels travelled per axis in one 16 ms frame.
    pub speed: u32,
    /// Keep simulating and drawing while the host is in the background.
    pub visible_in_background: bool,
    /// Draw sprites at a fifth of their size while the host is in the background.
    pub shrink_in_background: bool,
}

/// A sprite footprint reduced to a fifth of its width and height.
pub open spec fn shrunk(e: Extent) -> Extent {
    Extent { width: e.width / 5, height: e.height / 5 }
}

/// The footprint that the simulation uses for a sprite of `base` pixels.
pub open spec fn effective(base: Extent, config: Config, is_background: bool) -> Extent {
    if config.shrink_in_background && is_background {
        shrunk(base)
    } else {
        base
    }
}

/// Whether the simulation runs (and sprites are drawn) in this state.
pub open spec fn visible(config: Config, is_background: bool) -> bool {
    config.visible_in_background || !is_background
}

/// The effective sprite footprint for the current background state.
pub fn effective_size(base: Extent, config: &Config, is_background: bool) -> (r: Extent)
    ensures
        r == effective(base, *config, is_background),
{
    if config.shrink_in_background && is_background {
        Extent { width: base.width / 5, height: base.height / 5 }
    } else {
        base
    }
}

/// Whether the simulation runs in this state.
pub fn is_visible(config: &Config, is_background: bool) -> (r: bool)
    ensures
        r == visible(*config, is_background),
{
    config.visible_in_background || !is_background
}

/// `new` is `old` brought to length `n`: the first sprites kept as they were,
/// the tail dropped, and any new ones placed at legal positions.
pub open spec fn reconciled(old: Seq<Sprite>, new: Seq<Sprite>, n: nat, lx: int, ly: int) -> bool {
    &&& new.len() == n
    &&& forall|i: int| 0 <= i < n && i < old.len() ==> #[trigger] new[i] == old[i]
    &&& forall|i: int|
        old.len() <= i < n ==> placed(#[trigger] new[i].x as int, lx) && placed(new[i].y as int, ly)
}

/// `new` is every sprite of `old` advanced by `elapsed` milliseconds, its tint
/// kept where no sub-step hit a wall.
pub open spec fn stepped(
    old: Seq<Sprite>,
    new: Seq<Sprite>,
    elapsed: nat,
    lx: int,
    ly: int,
    speed: int,
) -> bool {
    &&& new.len() == old.len()
    &&& forall|i: int|
        0 <= i < old.len() ==> #[trigger] new[i].motion() == advanced(
            old[i].motion(),
            elapsed,
            lx,
            ly,
            speed,
        )
    &&& forall|i: int|
        0 <= i < old.len() && !advance_collides(old[i].motion(), elapsed, lx, ly, speed)
            ==> #[trigger] new[i].tint == old[i].tint
}

/// The live sprites, in a stable order: a sprite's index is its identity
/// from one frame to the next.
pub struct Simulation {
    pub sprites: Vec<Sprite>,
}

impl Simulation {
    /// An empty pool.
    pub fn new() -> (s: Simulation)
        ensures
            s.sprites@.len() == 0,
    {
        Simulation { sprites: Vec::new() }
    }

    /// Brings the pool to `target` sprites: appends freshly randomised ones
    /// while it is short, drops the tail while it is long.
    pub fn reconcile(&mut self, target: u32, viewport: Extent, size: Extent)
        ensures
            reconciled(
                old(self).sprites@,
                final(self).sprites@,
                target as nat,
                limit_of(viewport.width, size.width),
                limit_of(viewport.height, size.height),
            ),
    {
        let lx = axis_limit(viewport.width, size.width);
        let ly = axis_limit(viewport.height, size.height);
        let ghost before = self.sprites@;
        while self.sprites.len() < target as usize
            invariant
                lx == limit_of(viewport.width, size.width),
                ly == limit_of(viewport.height, size.height),
                0 <= lx,
                0 <= ly,
                before.len() <= self.sprites@.len(),
                self.sprites@.len() > before.len() ==> self.sprites@.len() <= target,
                forall|i: int|
                    0 <= i < before.len() && i < self.sprites@.len() ==> #[trigger] self.sprites@[i]
                        == before[i],
                forall|i: int|
                    before.len() <= i < self.sprites@.len() ==> placed(
                        #[trigger] self.sprites@[i].x as int,
                        lx as int,
                    ) && placed(self.sprites@[i].y as int, ly as int),
            decreases target - self.sprites@.len(),
        {
            let s = Sprite::random(lx, ly);
            self.sprites.push(s);
        }
        self.sprites.truncate(target as usize);
    }

    /// Advances every sprite by `elapsed` milliseconds inside `viewport`, for
    /// sprites of footprint `size`, at `speed` pixels per frame.
    pub fn advance(&mut self, elapsed: u64, viewport: Extent, size: Extent, speed: u32)
        ensures
            stepped(
                old(self).sprites@,
                final(self).sprites@,
                elapsed as nat,
                limit_of(viewport.width, size.width),
                limit_of(viewport.height, size.height),
                speed as int,
            ),
    {
        let lx = axis_limit(viewport.width, size.width);
        let ly = axis_limit(viewport.height, size.height);
        let ghost before = self.sprites@;
        let n = self.sprites.len();
        let mut i: usize = 0;
        while i < n
            invariant
                lx == limit_of(viewport.width, size.width),
                ly == limit_of(viewport.height, size.height),
                0 <= lx <= u32::MAX * SUBPIXELS,
                0 <= ly <= u32::MAX * SUBPIXELS,
                n == before.len(),
                i <= n,
                self.sprites@.len() == n,
                forall|j: int| i <= j < n ==> #[trigger] self.sprites@[j] == before[j],
                forall|j: int|
                    0 <= j < i ==> #[trigger] self.sprites@[j].motion() == advanced(
                        before[j].motion(),
                        elapsed as nat,
                        lx as int,
                        ly as int,
                        speed as int,
                    ),
                forall|j: int|
                    0 <= j < i && !advance_collides(
                        before[j].motion(),
                        elapsed as nat,
                        lx as int,
                        ly as int,
                        speed as int,
                    ) ==> #[trigger] self.sprites@[j].tint == before[j].tint,
            decreases n - i,
        {
            let mut s = self.sprites[i];
            s.simulate(elapsed, lx, ly, speed);
            self.sprites.set(i, s);
            i = i + 1;
        }
    }
    /// One tick of the embedding loop. Where the simulation is not visible in
    /// this state nothing changes and `false` comes back. Otherwise the pool is
    /// reconciled to the configured count and advanced by `elapsed`
    /// milliseconds, both with the effective footprint of a `base`-sized
    /// sprite, and `true` comes back: the sprites are to be drawn.
    pub fn tick(
        &mut self,
        config: &Config,
        viewport: Extent,
        is_background: bool,
        base: Extent,
        elapsed: u64,
    ) -> (shown: bool)
        ensures
            shown == visible(*config, is_background),
            !shown ==> final(self).sprites@ == old(self).sprites@,
            shown ==> ({
                let size = effective(base, *config, is_background);
                let lx = limit_of(viewport.width, size.width);
                let ly = limit_of(viewport.height, size.height);
                exists|mid: Seq<Sprite>|
                    #[trigger] reconciled(old(self).sprites@, mid, config.sprite_count as nat, lx, ly)
                        && stepped(mid, final(self).sprites@, elapsed as nat, lx, ly, config.speed as int)
            }),
    {
        if !is_visible(config, is_background) {
            return false;
        }
        let size = effective_size(base, config, is_background);
        self.reconcile(config.sprite_count, viewport, size);
        self.advance(elapsed, viewport, size, config.speed);
        true
    }
}

} // verus!
