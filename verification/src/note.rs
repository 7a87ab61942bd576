//! Absolute-pitch representation and transposition arithmetic over the
//! 12-tone chromatic space.
//!
//! A [`Key`] is a pitch class plus an octave; its semitone index is
//! `ordinal(note) + 12 * octave`. Transposition adds a signed semitone delta
//! to that index and renormalizes with floor-division semantics, so the
//! stored pitch class is always a valid cyclic index.

use vstd::arithmetic::div_mod::{
    lemma_div_is_ordered, lemma_div_multiples_vanish_fancy, lemma_fundamental_div_mod,
    lemma_hoist_over_denominator, lemma_mod_multiples_vanish, lemma_small_mod,
};
use vstd::prelude::*;

use crate::display::{decimal_string, spec_decimal};

verus! {

/// One of the twelve chromatic pitch classes, in the canonical ascending
/// enumeration order starting at C that indexing and modular arithmetic use.
#[derive(Clone, Copy, Debug, Hash, PartialEq, Eq, Structural)]
pub enum Note {
    C,
    CSharp,
    D,
    DSharp,
    E,
    F,
    FSharp,
    G,
    GSharp,
    A,
    ASharp,
    B,
}

/// The position of a pitch class in the canonical enumeration (C is 0, B is 11).
pub open spec fn note_ord(n: Note) -> int {
    match n {
        Note::C => 0,
        Note::CSharp => 1,
        Note::D => 2,
        Note::DSharp => 3,
        Note::E => 4,
        Note::F => 5,
        Note::FSharp => 6,
        Note::G => 7,
        Note::GSharp => 8,
        Note::A => 9,
        Note::ASharp => 10,
        Note::B => 11,
    }
}

/// The pitch class at position `i` of the canonical enumeration.
pub open spec fn spec_note_at(i: int) -> Note
    recommends
        0 <= i < 12,
{
    if i == 0 {
        Note::C
    } else if i == 1 {
        Note::CSharp
    } else if i == 2 {
        Note::D
    } else if i == 3 {
        Note::DSharp
    } else if i == 4 {
        Note::E
    } else if i == 5 {
        Note::F
    } else if i == 6 {
        Note::FSharp
    } else if i == 7 {
        Note::G
    } else if i == 8 {
        Note::GSharp
    } else if i == 9 {
        Note::A
    } else if i == 10 {
        Note::ASharp
    } else {
        Note::B
    }
}

/// The display spelling of a pitch class, preferring flats for the sharps.
pub open spec fn spec_note_text(n: Note) -> Seq<char> {
    match n {
        Note::C => "C"@,
        Note::CSharp => "Db"@,
        Note::D => "D"@,
        Note::DSharp => "Eb"@,
        Note::E => "E"@,
        Note::F => "F"@,
        Note::FSharp => "Gb"@,
        Note::G => "G"@,
        Note::GSharp => "Ab"@,
        Note::A => "A"@,
        Note::ASharp => "Bb"@,
        Note::B => "B"@,
    }
}

/// The pitch class at position `i` of the canonical enumeration.
pub fn note_at(i: usize) -> (r: Note)
    requires
        i < 12,
    ensures
        r == spec_note_at(i as int),
{
    if i == 0 {
        Note::C
    } else if i == 1 {
        Note::CSharp
    } else if i == 2 {
        Note::D
    } else if i == 3 {
        Note::DSharp
    } else if i == 4 {
        Note::E
    } else if i == 5 {
        Note::F
    } else if i == 6 {
        Note::FSharp
    } else if i == 7 {
        Note::G
    } else if i == 8 {
        Note::GSharp
    } else if i == 9 {
        Note::A
    } else if i == 10 {
        Note::ASharp
    } else {
        Note::B
    }
}

impl Note {
    /// The position of this pitch class in the canonical enumeration.
    pub fn ordinal(&self) -> (r: u8)
        ensures
            r as int == note_ord(*self),
    {
        match self {
            Note::C => 0,
            Note::CSharp => 1,
            Note::D => 2,
            Note::DSharp => 3,
            Note::E => 4,
            Note::F => 5,
            Note::FSharp => 6,
            Note::G => 7,
            Note::GSharp => 8,
            Note::A => 9,
            Note::ASharp => 10,
            Note::B => 11,
        }
    }

    /// The display spelling of this pitch class.
    pub fn text(&self) -> (r: &'static str)
        ensures
            r@ == spec_note_text(*self),
    {
        match self {
            Note::A => "A",
            Note::ASharp => "Bb",
            Note::B => "B",
            Note::C => "C",
            Note::CSharp => "Db",
            Note::D => "D",
            Note::DSharp => "Eb",
            Note::E => "E",
            Note::F => "F",
            Note::FSharp => "Gb",
            Note::G => "G",
            Note::GSharp => "Ab",
        }
    }
}

/// An absolute pitch: a pitch class together with an octave number.
#[derive(Clone, Copy, Debug, Hash, PartialEq, Eq, Structural)]
pub struct Key {
    pub note: Note,
    pub octave: i32,
}

/// The semitone index of an absolute pitch: `ordinal(note) + 12 * octave`.
/// It determines the pitch uniquely.
pub open spec fn key_index(k: Key) -> int {
    note_ord(k.note) + 12 * k.octave
}

/// Whether a semitone index can be stored in a [`Key`], that is, whether the
/// octave it implies fits in an `i32`.
pub open spec fn index_in_range(i: int) -> bool {
    12 * (i32::MIN as int) <= i <= 12 * (i32::MAX as int) + 11
}

/// The unique pitch whose semitone index is `i`: pitch class `i mod 12`
/// (always in 0..12) and octave `i div 12`, with floor-division semantics.
pub open spec fn key_at_index(i: int) -> Key
    recommends
        index_in_range(i),
{
    Key { note: spec_note_at(i % 12), octave: (i / 12) as i32 }
}

/// The pitch `k` moved by `amount` semitones.
pub open spec fn spec_transpose(k: Key, amount: int) -> Key {
    key_at_index(key_index(k) + amount)
}

/// Every semitone index maps back to itself through [`key_at_index`].
pub proof fn lemma_key_index_at(i: int)
    requires
        index_in_range(i),
    ensures
        key_index(key_at_index(i)) == i,
        index_in_range(key_index(key_at_index(i))),
{
    lemma_fundamental_div_mod(i, 12);
    lemma_div_is_ordered(12 * (i32::MIN as int), i, 12);
    lemma_div_is_ordered(i, 12 * (i32::MAX as int) + 11, 12);
    lemma_div_multiples_vanish_fancy(i32::MIN as int, 0, 12);
    lemma_div_multiples_vanish_fancy(i32::MAX as int, 11, 12);
}

/// Every pitch maps back to itself through its semitone index.
pub proof fn lemma_key_at_index_of(k: Key)
    ensures
        key_at_index(key_index(k)) == k,
        index_in_range(key_index(k)),
{
    lemma_mod_multiples_vanish(k.octave as int, note_ord(k.note), 12);
    lemma_small_mod(note_ord(k.note) as nat, 12);
    lemma_div_multiples_vanish_fancy(k.octave as int, note_ord(k.note), 12);
}

/// Transposing twice is transposing by the sum: for every pitch `p` and all
/// deltas `a` and `b` whose results are representable,
/// `transpose(transpose(p, a), b) == transpose(p, a + b)`.
pub proof fn lemma_transpose_transpose(p: Key, a: int, b: int)
    requires
        index_in_range(key_index(p) + a),
        index_in_range(key_index(p) + a + b),
    ensures
        spec_transpose(spec_transpose(p, a), b) == spec_transpose(p, a + b),
{
    lemma_key_index_at(key_index(p) + a);
}

/// Transposition and signed distance are inverses: for every pitch `p` and
/// representable delta `n`, `difference(transpose(p, n), p) == n`.
pub proof fn lemma_difference_transpose(p: Key, n: int)
    requires
        index_in_range(key_index(p) + n),
    ensures
        key_index(spec_transpose(p, n)) - key_index(p) == n,
{
    lemma_key_index_at(key_index(p) + n);
}

impl Key {
    /// The pitch with the given pitch class and octave.
    pub fn new(note: Note, octave: i32) -> (r: Key)
        ensures
            r.note == note,
            r.octave == octave,
    {
        Key { note, octave }
    }

    /// The pitch `amount` semitones away from this one. The new octave is the
    /// floor of the new semitone index divided by 12, so the stored pitch
    /// class is always a valid cyclic index and the index is preserved
    /// exactly.
    pub fn transpose(&self, amount: i32) -> (r: Key)
        requires
            index_in_range(key_index(*self) + amount),
        ensures
            r == spec_transpose(*self, amount as int),
            key_index(r) == key_index(*self) + amount,
    {
        let ghost target = key_index(*self) + amount;
        let ord: u8 = self.note.ordinal();
        let idx: i64 = ord as i64 + 12 * (self.octave as i64) + (amount as i64);
        let shifted: u64 = (idx - 12 * (i32::MIN as i64)) as u64;
        let q: u64 = shifted / 12;
        let rem: u64 = shifted % 12;
        proof {
            lemma_hoist_over_denominator(target, -(i32::MIN as int), 12);
            lemma_mod_multiples_vanish(-(i32::MIN as int), target, 12);
            lemma_div_is_ordered(12 * (i32::MIN as int), target, 12);
            lemma_div_is_ordered(target, 12 * (i32::MAX as int) + 11, 12);
            lemma_div_multiples_vanish_fancy(i32::MIN as int, 0, 12);
            lemma_div_multiples_vanish_fancy(i32::MAX as int, 11, 12);
            assert(q as int + (i32::MIN as int) == target / 12);
            assert(rem as int == target % 12);
        }
        let octave: i32 = (q as i64 + (i32::MIN as i64)) as i32;
        let note = note_at(rem as usize);
        let r = Key { note, octave };
        proof {
            lemma_key_index_at(target);
        }
        r
    }

    /// The signed semitone distance from `rhs` up to this pitch.
    pub fn difference(&self, rhs: Key) -> (r: i32)
        requires
            i32::MIN <= key_index(*self) - key_index(rhs) <= i32::MAX,
        ensures
            r as int == key_index(*self) - key_index(rhs),
    {
        let a: i64 = self.note.ordinal() as i64 + 12 * (self.octave as i64);
        let b: i64 = rhs.note.ordinal() as i64 + 12 * (rhs.octave as i64);
        (a - b) as i32
    }

    /// The pitch class of this pitch.
    pub fn note(&self) -> (r: Note)
        ensures
            r == self.note,
    {
        self.note
    }

    /// The octave of this pitch.
    pub fn octave(&self) -> (r: i32)
        ensures
            r == self.octave,
    {
        self.octave
    }

    /// The display label of this pitch: the pitch-class spelling followed by
    /// the decimal octave number.
    pub fn text(&self) -> (r: String)
        ensures
            r@ == spec_note_text(self.note) + spec_decimal(self.octave as int),
    {
        let mut s = String::from_str(self.note.text());
        let octave = decimal_string(self.octave);
        s.append(octave.as_str());
        s
    }
}

} // verus!
