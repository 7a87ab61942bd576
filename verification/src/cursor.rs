//! The picker-grid cursor: two independent wrapping indices selecting the
//! current root pitch class and chord shape.
//!
//! The indices themselves are unbounded signed counters; the *effective*
//! selection is always `index mod N` with floor-style (never negative)
//! remainder, where N is 12 for the pitch axis and 7 for the chord axis.

use vstd::arithmetic::div_mod::{
    lemma_fundamental_div_mod, lemma_mod_multiples_vanish, lemma_small_mod,
};
use vstd::prelude::*;

use crate::chord::{chord_at, spec_chord_at, Chord};
use crate::note::{note_at, spec_note_at, Key};

verus! {

/// The always-non-negative remainder of `dividend` modulo `divisor`:
/// floor-division semantics, so a negative index wraps backward correctly.
pub fn positive_remainder(dividend: i32, divisor: usize) -> (r: usize)
    requires
        0 < divisor <= i32::MAX as usize,
    ensures
        r as int == (dividend as int) % (divisor as int),
        r < divisor,
{
    if dividend >= 0 {
        (dividend as usize) % divisor
    } else {
        let neg: usize = (-(dividend as i64)) as usize;
        let m: usize = neg % divisor;
        proof {
            let d = divisor as int;
            let qn = (neg as int) / d;
            lemma_fundamental_div_mod(neg as int, d);
            assert(d * (-qn) == -(d * qn)) by (nonlinear_arith);
            lemma_mod_multiples_vanish(-qn, -(m as int), d);
            if m == 0 {
                lemma_small_mod(0, d as nat);
            } else {
                lemma_mod_multiples_vanish(-1, d - m, d);
                lemma_small_mod((d - m) as nat, d as nat);
            }
        }
        if m == 0 {
            0
        } else {
            divisor - m
        }
    }
}

/// Going once around an axis of length `n` lands on the same effective
/// index: `(i + n) mod n == i mod n` for every index `i`.
pub proof fn lemma_effective_index_wraps(i: int, n: int)
    requires
        0 < n,
    ensures
        (i + n) % n == i % n,
{
    lemma_mod_multiples_vanish(1, i, n);
}

/// The cursor over the picker grid: a wrapping pitch-class axis and a
/// wrapping chord-shape axis, both starting at 0.
pub struct ChordTable {
    pub note_index: i32,
    pub chord_index: i32,
}

impl ChordTable {
    /// The effective pitch-class selection, always in 0..12.
    pub open spec fn effective_note_index(self) -> int {
        (self.note_index as int) % 12
    }

    /// The effective chord-shape selection, always in 0..7.
    pub open spec fn effective_chord_index(self) -> int {
        (self.chord_index as int) % 7
    }

    /// A cursor at the start of both axes.
    pub fn new() -> (t: ChordTable)
        ensures
            t.note_index == 0,
            t.chord_index == 0,
    {
        ChordTable { note_index: 0, chord_index: 0 }
    }

    /// Move to the next root pitch class.
    pub fn right(&mut self)
        requires
            old(self).note_index < i32::MAX,
        ensures
            final(self).note_index == old(self).note_index + 1,
            final(self).chord_index == old(self).chord_index,
    {
        self.note_index = self.note_index + 1;
    }

    /// Move to the previous root pitch class.
    pub fn left(&mut self)
        requires
            old(self).note_index > i32::MIN,
        ensures
            final(self).note_index == old(self).note_index - 1,
            final(self).chord_index == old(self).chord_index,
    {
        self.note_index = self.note_index - 1;
    }

    /// Move to the previous chord shape.
    pub fn up(&mut self)
        requires
            old(self).chord_index > i32::MIN,
        ensures
            final(self).chord_index == old(self).chord_index - 1,
            final(self).note_index == old(self).note_index,
    {
        self.chord_index = self.chord_index - 1;
    }

    /// Move to the next chord shape.
    pub fn down(&mut self)
        requires
            old(self).chord_index < i32::MAX,
        ensures
            final(self).chord_index == old(self).chord_index + 1,
            final(self).note_index == old(self).note_index,
    {
        self.chord_index = self.chord_index + 1;
    }

    /// The current selection: the effective pitch class at octave 3 together
    /// with the effective chord shape.
    pub fn current_chord(&self) -> (r: (Key, Chord))
        ensures
            r.0 == (Key { note: spec_note_at(self.effective_note_index()), octave: 3 }),
            r.1 == spec_chord_at(self.effective_chord_index()),
    {
        let note = note_at(positive_remainder(self.note_index, 12));
        (Key::new(note, 3), chord_at(positive_remainder(self.chord_index, 7)))
    }
}

} // verus!
