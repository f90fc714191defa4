use vstd::prelude::*;

use crate::pool::{reconciled, stepped};
use crate::sprite::{
    advanced, collides, frames, placed, substep, Motion, Sign, Sprite, FRAME_MS,
};

verus! {

/// A motion lies within `reach` sub-pixels of the legal box `[0, lx] x [0, ly]`.
pub open spec fn within(m: Motion, lx: int, ly: int, reach: int) -> bool {
    &&& -reach <= m.x <= lx + reach
    &&& -reach <= m.y <= ly + reach
}

/// `k` successive advances by one full frame each.
pub open spec fn repeated(m: Motion, k: nat, lx: int, ly: int, speed: int) -> Motion
    decreases k,
{
    if k == 0 {
        m
    } else {
        advanced(repeated(m, (k - 1) as nat, lx, ly, speed), FRAME_MS as nat, lx, ly, speed)
    }
}

/// A motion shifted by `d` sub-pixels along each axis in its own direction.
pub open spec fn shifted(m: Motion, d: int) -> Motion {
    Motion { x: m.x + m.dx.value() * d, y: m.y + m.dy.value() * d, ..m }
}

/// A direction component is always exactly -1 or +1.
pub proof fn lemma_direction_is_unit(s: Sign)
    ensures
        s.value() == 1 || s.value() == -1,
{
}

/// A freshly placed sprite lies inside the legal box, hence within any reach of it.
pub proof fn lemma_placed_within(m: Motion, lx: int, ly: int, reach: int)
    requires
        0 <= lx,
        0 <= ly,
        0 <= reach,
        placed(m.x, lx),
        placed(m.y, ly),
    ensures
        within(m, lx, ly, reach),
{
}

/// A sub-step of at most `reach` sub-pixels keeps a motion within `reach` of
/// the legal box: the direction is turned inward before it moves.
pub proof fn lemma_substep_within(m: Motion, lx: int, ly: int, dist: int, reach: int)
    requires
        0 <= lx,
        0 <= ly,
        0 <= dist <= reach,
        within(m, lx, ly, reach),
    ensures
        within(substep(m, lx, ly, dist), lx, ly, reach),
{
}

/// Containment: a sprite within one frame's travel of the legal box stays
/// within it after any advance. (The boundary test comes before the move, so a
/// sprite may end a sub-step up to one move past a wall; the next sub-step
/// turns it back.)
pub proof fn lemma_advance_within(m: Motion, elapsed: nat, lx: int, ly: int, speed: int)
    requires
        0 <= lx,
        0 <= ly,
        0 <= speed,
        within(m, lx, ly, speed * FRAME_MS),
    ensures
        within(advanced(m, elapsed, lx, ly, speed), lx, ly, speed * FRAME_MS),
{
    lemma_frames_within(m, elapsed / FRAME_MS as nat, lx, ly, speed);
    let r = elapsed % FRAME_MS as nat;
    if r != 0 {
        assert(speed * r <= speed * FRAME_MS) by (nonlinear_arith)
            requires
                0 <= speed,
                r < FRAME_MS,
        ;
        assert(0 <= speed * r) by (nonlinear_arith)
            requires
                0 <= speed,
                0 <= r,
        ;
        lemma_substep_within(
            frames(m, elapsed / FRAME_MS as nat, lx, ly, speed),
            lx,
            ly,
            speed * r,
            speed * FRAME_MS,
        );
    }
}

/// Any number of full frames keeps a motion within one frame's travel of the box.
pub proof fn lemma_frames_within(m: Motion, n: nat, lx: int, ly: int, speed: int)
    requires
        0 <= lx,
        0 <= ly,
        0 <= speed,
        within(m, lx, ly, speed * FRAME_MS),
    ensures
        within(frames(m, n, lx, ly, speed), lx, ly, speed * FRAME_MS),
    decreases n,
{
    if n > 0 {
        lemma_frames_within(m, (n - 1) as nat, lx, ly, speed);
        lemma_substep_within(
            frames(m, (n - 1) as nat, lx, ly, speed),
            lx,
            ly,
            speed * FRAME_MS,
            speed * FRAME_MS,
        );
    }
}

/// Containment for a whole pool: if every sprite was within one frame's travel
/// of the legal box before an advance, every sprite is after it.
pub proof fn lemma_pool_within(
    old: Seq<Sprite>,
    new: Seq<Sprite>,
    elapsed: nat,
    lx: int,
    ly: int,
    speed: int,
)
    requires
        0 <= lx,
        0 <= ly,
        0 <= speed,
        stepped(old, new, elapsed, lx, ly, speed),
        forall|i: int| 0 <= i < old.len() ==> within(#[trigger] old[i].motion(), lx, ly, speed * FRAME_MS),
    ensures
        forall|i: int| 0 <= i < new.len() ==> within(#[trigger] new[i].motion(), lx, ly, speed * FRAME_MS),
{
    assert forall|i: int| 0 <= i < new.len() implies within(#[trigger] new[i].motion(), lx, ly, speed * FRAME_MS) by {
        lemma_advance_within(old[i].motion(), elapsed, lx, ly, speed);
    }
}

/// Reconciling twice with the same target changes nothing the second time.
pub proof fn lemma_reconcile_idempotent(
    a: Seq<Sprite>,
    b: Seq<Sprite>,
    c: Seq<Sprite>,
    n: nat,
    lx: int,
    ly: int,
)
    requires
        reconciled(a, b, n, lx, ly),
        reconciled(b, c, n, lx, ly),
    ensures
        c == b,
        c.len() == n,
{
    assert(c =~= b);
}

/// One full frame without a collision moves a sprite by exactly `speed`
/// pixels along each axis in its direction, which is unchanged.
pub proof fn lemma_frame_linear(m: Motion, lx: int, ly: int, speed: int)
    requires
        !collides(m, lx, ly),
    ensures
        advanced(m, FRAME_MS as nat, lx, ly, speed) == shifted(m, speed * FRAME_MS),
{
    assert(frames(m, 0, lx, ly, speed) == m);
}

/// A run of `k` full-frame advances with no collision along the way moves a
/// sprite linearly: `k` times `speed` pixels along each axis in its direction.
pub proof fn lemma_frames_linear(m: Motion, k: nat, lx: int, ly: int, speed: int)
    requires
        forall|i: nat| i < k ==> !collides(#[trigger] repeated(m, i, lx, ly, speed), lx, ly),
    ensures
        repeated(m, k, lx, ly, speed) == shifted(m, k * (speed * FRAME_MS)),
    decreases k,
{
    let d = speed * FRAME_MS;
    if k == 0 {
        assert(k * d == 0) by (nonlinear_arith)
            requires
                k == 0,
        ;
        assert(shifted(m, 0) == m);
    } else {
        let p = repeated(m, (k - 1) as nat, lx, ly, speed);
        assert(!collides(repeated(m, (k - 1) as nat, lx, ly, speed), lx, ly));
        lemma_frames_linear(m, (k - 1) as nat, lx, ly, speed);
        lemma_frame_linear(p, lx, ly, speed);
        assert(p == shifted(m, (k - 1) * d));
        assert(m.dx.value() * ((k - 1) * (speed * FRAME_MS)) + m.dx.value() * (speed * FRAME_MS)
            == m.dx.value() * (k * (speed * FRAME_MS))) by (nonlinear_arith);
        assert(m.dy.value() * ((k - 1) * (speed * FRAME_MS)) + m.dy.value() * (speed * FRAME_MS)
            == m.dy.value() * (k * (speed * FRAME_MS))) by (nonlinear_arith);
    }
}

/// `k` full-frame advances are the same as `k` full sub-steps.
pub proof fn lemma_repeated_is_frames(m: Motion, k: nat, lx: int, ly: int, speed: int)
    ensures
        repeated(m, k, lx, ly, speed) == frames(m, k, lx, ly, speed),
    decreases k,
{
    if k > 0 {
        lemma_repeated_is_frames(m, (k - 1) as nat, lx, ly, speed);
        let p = frames(m, (k - 1) as nat, lx, ly, speed);
        assert(frames(p, 0, lx, ly, speed) == p);
    }
}

/// Stall replay: advancing by `elapsed` milliseconds at once moves every
/// sprite as `elapsed / 16` advances by one full frame each, followed by one
/// advance by the remaining `elapsed % 16` milliseconds.
pub proof fn lemma_stall_replay(m: Motion, elapsed: nat, lx: int, ly: int, speed: int)
    ensures
        advanced(m, elapsed, lx, ly, speed) == advanced(
            repeated(m, elapsed / FRAME_MS as nat, lx, ly, speed),
            elapsed % FRAME_MS as nat,
            lx,
            ly,
            speed,
        ),
{
    let k = elapsed / FRAME_MS as nat;
    let r = elapsed % FRAME_MS as nat;
    lemma_repeated_is_frames(m, k, lx, ly, speed);
    let f = frames(m, k, lx, ly, speed);
    assert(r / FRAME_MS as nat == 0);
    assert(r % FRAME_MS as nat == r);
    assert(frames(f, 0, lx, ly, speed) == f);
}

} // verus!
