//! The cyclic frame cursor: a signed raw index over a frame count, resolved
//! with a Euclidean (always non-negative) remainder so that stepping below
//! zero wraps to the last frame and stepping past the last wraps to zero.

use vstd::prelude::*;
use vstd::arithmetic::div_mod::{
    lemma_fundamental_div_mod, lemma_fundamental_div_mod_converse_mod,
    lemma_mod_division_less_than_divisor,
};

verus! {

/// The logical frame index that a raw cursor position `raw` selects among
/// `nframes` frames: absent when there is no frame, otherwise the Euclidean
/// remainder of `raw` modulo `nframes` (`%` on `int` is Euclidean for a
/// positive divisor).
pub open spec fn cursor_index_of(raw: int, nframes: int) -> Option<int> {
    if nframes <= 0 {
        None
    } else {
        Some(raw % nframes)
    }
}

/// The raw cursor position reached from `start` after applying each step of
/// `deltas` in order.
pub open spec fn raw_after_advances(start: int, deltas: Seq<int>) -> int
    decreases deltas.len(),
{
    if deltas.len() == 0 {
        start
    } else {
        raw_after_advances(start, deltas.drop_last()) + deltas.last()
    }
}

/// A cyclic index over the frames of a trajectory.  The only mutations are
/// unit advances (keyboard stepping) and a reset to the first frame when the
/// trajectory is replaced.
pub struct FrameCursor {
    raw_index: isize,
}

impl View for FrameCursor {
    type V = int;

    closed spec fn view(&self) -> int {
        self.raw_index as int
    }
}

impl Default for FrameCursor {
    fn default() -> (c: Self)
        ensures
            c@ == 0,
    {
        FrameCursor { raw_index: 0 }
    }
}

impl FrameCursor {
    /// A cursor at the first frame.
    pub fn new() -> (c: Self)
        ensures
            c@ == 0,
    {
        FrameCursor { raw_index: 0 }
    }

    /// Step the cursor by one frame in either direction.
    pub fn advance(&mut self, delta: isize)
        requires
            delta == 1 || delta == -1,
            isize::MIN <= old(self)@ + delta <= isize::MAX,
        ensures
            final(self)@ == old(self)@ + delta,
    {
        self.raw_index = self.raw_index + delta;
    }

    /// Step forward to the next frame.
    pub fn next(&mut self)
        requires
            old(self)@ + 1 <= isize::MAX,
        ensures
            final(self)@ == old(self)@ + 1,
    {
        self.advance(1);
    }

    /// Step backward to the previous frame.
    pub fn prev(&mut self)
        requires
            old(self)@ - 1 >= isize::MIN,
        ensures
            final(self)@ == old(self)@ - 1,
    {
        self.advance(-1);
    }

    /// Move the cursor back to the first frame.
    pub fn reset(&mut self)
        ensures
            final(self)@ == 0,
    {
        self.raw_index = 0;
    }

    /// The logical frame index among `nframes` frames: absent when there is
    /// no frame, otherwise the Euclidean remainder of the raw index, so a
    /// cursor stepped below zero selects the last frame.
    pub fn current(&self, nframes: usize) -> (r: Option<usize>)
        ensures
            nframes == 0 ==> r is None,
            nframes > 0 ==> (r matches Some(i) && cursor_index_of(self@, nframes as int)
                == Some(i as int)),
    {
        if nframes == 0 {
            None
        } else {
            let r = self.raw_index;
            if r >= 0 {
                Some((r as usize) % nframes)
            } else {
                let q = (-(r + 1)) as usize;
                let m = q % nframes;
                let idx = nframes - 1 - m;
                proof {
                    let rawi = self.raw_index as int;
                    let n = nframes as int;
                    let qi = q as int;
                    lemma_mod_division_less_than_divisor(qi, n);
                    lemma_fundamental_div_mod(qi, n);
                    assert((-(qi / n) - 1) * n + (n - 1 - qi % n) == rawi) by (nonlinear_arith)
                        requires
                            qi == n * (qi / n) + qi % n,
                            rawi == -qi - 1,
                    ;
                    lemma_fundamental_div_mod_converse_mod(rawi, n, -(qi / n) - 1, n - 1 - qi % n);
                }
                Some(idx)
            }
        }
    }
}

/// Map the two discrete stepping inputs ("next", "previous") onto the cursor:
/// the forward input wins when both are raised, and with neither the cursor
/// is untouched.
pub fn keyboard_animation_control(cursor: &mut FrameCursor, next_pressed: bool, prev_pressed: bool)
    requires
        next_pressed ==> old(cursor)@ + 1 <= isize::MAX,
        !next_pressed && prev_pressed ==> old(cursor)@ - 1 >= isize::MIN,
    ensures
        final(cursor)@ == if next_pressed {
            old(cursor)@ + 1
        } else if prev_pressed {
            old(cursor)@ - 1
        } else {
            old(cursor)@
        },
{
    if next_pressed {
        cursor.next();
    } else if prev_pressed {
        cursor.prev();
    }
}

/// Law: starting from a reset cursor, `k` unit advances of step `d` (`+1` or
/// `-1`) leave the raw index at `d * k`, and with `nframes > 0` the logical
/// index is its Euclidean remainder, always within `[0, nframes)` — stepping
/// backward never yields a negative index.
pub proof fn lemma_unit_advances(k: nat, d: int, nframes: int)
    requires
        d == 1 || d == -1,
        nframes > 0,
    ensures
        raw_after_advances(0, Seq::new(k, |i: int| d)) == d * k,
        cursor_index_of(d * k, nframes) == Some((d * k) % nframes),
        0 <= (d * k) % nframes < nframes,
    decreases k,
{
    lemma_mod_division_less_than_divisor(d * k, nframes);
    if k == 0 {
        assert(Seq::new(k, |i: int| d).len() == 0);
        assert(raw_after_advances(0, Seq::new(k, |i: int| d)) == 0);
        assert(d * k == 0) by (nonlinear_arith)
            requires
                k == 0,
        ;
    } else {
        lemma_unit_advances((k - 1) as nat, d, nframes);
        let s = Seq::new(k, |i: int| d);
        assert(s.drop_last() =~= Seq::new((k - 1) as nat, |i: int| d));
        assert(s.last() == d);
        assert(raw_after_advances(0, s) == raw_after_advances(0, s.drop_last()) + d);
        assert(raw_after_advances(0, s) == d * ((k - 1) as nat) + d);
        assert(d * ((k - 1) as nat) + d == d * k) by (nonlinear_arith)
            requires
                k >= 1,
        ;
    }
}

/// Law: with zero frames the logical index is absent, whatever raw position
/// prior advances have reached.
pub proof fn lemma_current_of_zero_frames(raw: int)
    ensures
        cursor_index_of(raw, 0) is None,
{
}

} // verus!
