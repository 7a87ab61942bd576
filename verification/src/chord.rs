//! Named chord shapes as fixed tables of semitone intervals, resolved
//! against a root pitch.

use vstd::prelude::*;

use crate::note::{index_in_range, key_index, lemma_key_at_index_of, spec_transpose, Key};

verus! {

/// The closed set of chord shapes the picker offers. `All` is the full
/// chromatic octave, for reference mode.
#[derive(Clone, Copy, Debug, Hash, PartialEq, Eq, Structural)]
pub enum Chord {
    Major,
    Minor,
    Seventh,
    MajorSeventh,
    MinorSeventh,
    Diminished,
    All,
}

/// The fixed interval table of each chord shape: ascending semitone offsets
/// from the root, always starting at 0.
pub open spec fn spec_intervals(c: Chord) -> Seq<i32> {
    match c {
        Chord::Major => seq![0i32, 4i32, 7i32],
        Chord::Minor => seq![0i32, 3i32, 7i32],
        Chord::Seventh => seq![0i32, 4i32, 7i32, 10i32],
        Chord::MajorSeventh => seq![0i32, 4i32, 7i32, 11i32],
        Chord::MinorSeventh => seq![0i32, 3i32, 7i32, 10i32],
        Chord::Diminished => seq![0i32, 3i32, 6i32, 9i32],
        Chord::All => seq![
            0i32,
            1i32,
            2i32,
            3i32,
            4i32,
            5i32,
            6i32,
            7i32,
            8i32,
            9i32,
            10i32,
            11i32,
            12i32,
        ],
    }
}

/// The display suffix of each chord shape.
pub open spec fn spec_chord_text(c: Chord) -> Seq<char> {
    match c {
        Chord::Major => ""@,
        Chord::Minor => "m"@,
        Chord::Seventh => "7"@,
        Chord::MinorSeventh => "m7"@,
        Chord::MajorSeventh => "maj7"@,
        Chord::Diminished => "dim"@,
        Chord::All => "(All)"@,
    }
}

/// The chord shape at position `i` of the fixed picker order.
pub open spec fn spec_chord_at(i: int) -> Chord
    recommends
        0 <= i < 7,
{
    if i == 0 {
        Chord::Major
    } else if i == 1 {
        Chord::Minor
    } else if i == 2 {
        Chord::Seventh
    } else if i == 3 {
        Chord::MajorSeventh
    } else if i == 4 {
        Chord::MinorSeventh
    } else if i == 5 {
        Chord::Diminished
    } else {
        Chord::All
    }
}

/// Every interval table is non-empty, starts at 0, stays within the octave
/// span 0..=12, and ascends strictly.
pub proof fn lemma_intervals_wf(c: Chord)
    ensures
        spec_intervals(c).len() >= 1,
        spec_intervals(c)[0] == 0i32,
        forall|i: int| 0 <= i < spec_intervals(c).len() ==> 0 <= #[trigger] spec_intervals(c)[i] <= 12,
        forall|i: int, j: int|
            0 <= i < j < spec_intervals(c).len() ==> spec_intervals(c)[i] < spec_intervals(c)[j],
{
}

/// The chord shape at position `i` of the fixed picker order.
pub fn chord_at(i: usize) -> (r: Chord)
    requires
        i < 7,
    ensures
        r == spec_chord_at(i as int),
{
    if i == 0 {
        Chord::Major
    } else if i == 1 {
        Chord::Minor
    } else if i == 2 {
        Chord::Seventh
    } else if i == 3 {
        Chord::MajorSeventh
    } else if i == 4 {
        Chord::MinorSeventh
    } else if i == 5 {
        Chord::Diminished
    } else {
        Chord::All
    }
}

impl Chord {
    /// The display suffix of this chord shape.
    pub fn get_text(&self) -> (r: &'static str)
        ensures
            r@ == spec_chord_text(*self),
    {
        match self {
            Chord::Major => "",
            Chord::Minor => "m",
            Chord::Seventh => "7",
            Chord::MinorSeventh => "m7",
            Chord::MajorSeventh => "maj7",
            Chord::Diminished => "dim",
            Chord::All => "(All)",
        }
    }

    /// The interval table of this chord shape.
    pub fn get_chord_intervals(&self) -> (r: Vec<i32>)
        ensures
            r@ == spec_intervals(*self),
    {
        match self {
            Chord::Major => {
                let v = vec![0, 4, 7];
                proof {
                    assert(v@ =~= spec_intervals(Chord::Major));
                }
                v
            },
            Chord::Minor => {
                let v = vec![0, 3, 7];
                proof {
                    assert(v@ =~= spec_intervals(Chord::Minor));
                }
                v
            },
            Chord::Seventh => {
                let v = vec![0, 4, 7, 10];
                proof {
                    assert(v@ =~= spec_intervals(Chord::Seventh));
                }
                v
            },
            Chord::MajorSeventh => {
                let v = vec![0, 4, 7, 11];
                proof {
                    assert(v@ =~= spec_intervals(Chord::MajorSeventh));
                }
                v
            },
            Chord::MinorSeventh => {
                let v = vec![0, 3, 7, 10];
                proof {
                    assert(v@ =~= spec_intervals(Chord::MinorSeventh));
                }
                v
            },
            Chord::Diminished => {
                let v = vec![0, 3, 6, 9];
                proof {
                    assert(v@ =~= spec_intervals(Chord::Diminished));
                }
                v
            },
            Chord::All => {
                let v = vec![0, 1, 2, 3, 4, 5, 6, 7, 8, 9, 10, 11, 12];
                proof {
                    assert(v@ =~= spec_intervals(Chord::All));
                }
                v
            },
        }
    }

    /// The chord resolved against the root pitch `base`: one pitch per table
    /// interval, in table order, so the result ascends strictly. The root
    /// pitch itself is always the first element.
    pub fn get_keys(&self, base: Key) -> (r: Vec<Key>)
        requires
            index_in_range(key_index(base) + 12),
        ensures
            r@.len() == spec_intervals(*self).len(),
            r@.len() >= 1 && r@[0] == base,
            forall|i: int|
                0 <= i < r@.len() ==> r@[i] == spec_transpose(
                    base,
                    spec_intervals(*self)[i] as int,
                ),
            forall|i: int|
                0 <= i < r@.len() ==> key_index(#[trigger] r@[i]) == key_index(base)
                    + spec_intervals(*self)[i],
            forall|i: int, j: int| 0 <= i < j < r@.len() ==> key_index(r@[i]) < key_index(r@[j]),
    {
        proof {
            lemma_intervals_wf(*self);
            lemma_key_at_index_of(base);
        }
        let intervals = self.get_chord_intervals();
        let mut keys: Vec<Key> = Vec::new();
        let mut i: usize = 0;
        while i < intervals.len()
            invariant
                index_in_range(key_index(base) + 12),
                intervals@ == spec_intervals(*self),
                forall|j: int|
                    0 <= j < intervals@.len() ==> 0 <= #[trigger] intervals@[j] <= 12,
                i <= intervals@.len(),
                keys@.len() == i as int,
                forall|j: int|
                    0 <= j < i ==> keys@[j] == spec_transpose(base, intervals@[j] as int),
                forall|j: int|
                    0 <= j < i ==> key_index(#[trigger] keys@[j]) == key_index(base)
                        + intervals@[j],
            decreases intervals@.len() - i,
        {
            keys.push(base.transpose(intervals[i]));
            i += 1;
        }
        keys
    }
}

} // verus!
