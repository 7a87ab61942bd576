//! The per-key display records the renderer consumes, and the layout of the
//! two-octave keyboard widget: which pitch each white or black key position
//! carries, and the record computed for every tone of the current chord.

#![allow(non_camel_case_types)]

use vstd::prelude::*;

use crate::chord::{lemma_intervals_wf, spec_intervals, Chord};
use crate::display::{get_interval_text, spec_interval_text};
use crate::note::{index_in_range, key_index, spec_transpose, Key, Note};
use crate::scheduler::Scheduler;

verus! {

/// The visual state of one keyboard key.
#[derive(Clone, Copy, Debug, PartialEq, Eq, Structural)]
pub enum State {
    NORMAL,
    PRESSED,
    HIGHLIGHTED,
    SOUNDING,
}

impl Default for State {
    /// A key with no entry is drawn as normal.
    fn default() -> (r: Self)
        ensures
            r == State::NORMAL,
    {
        State::NORMAL
    }
}

/// The display record of one keyboard key: its visual state and an optional
/// label drawn on the key.
#[derive(Debug)]
pub struct KeyState {
    pub state: State,
    pub text: Option<String>,
}

impl KeyState {
    /// A display record with the given state and label.
    pub fn new(state: State, text: Option<String>) -> (r: Self)
        ensures
            r.state == state,
            r.text == text,
    {
        KeyState { state, text }
    }
}

impl Default for KeyState {
    /// A key with no entry is drawn as normal, with no label.
    fn default() -> (r: Self)
        ensures
            r.state == State::NORMAL,
            r.text is None,
    {
        KeyState { state: State::NORMAL, text: None }
    }
}

/// The pitch class of the white key at position `i` within one octave.
pub open spec fn spec_white_note(i: int) -> Note
    recommends
        0 <= i < 7,
{
    if i == 0 {
        Note::C
    } else if i == 1 {
        Note::D
    } else if i == 2 {
        Note::E
    } else if i == 3 {
        Note::F
    } else if i == 4 {
        Note::G
    } else if i == 5 {
        Note::A
    } else {
        Note::B
    }
}

/// The pitch class of the black key over white position `i`, if that gap has
/// one (there is none after E and after B).
pub open spec fn spec_black_note(i: int) -> Option<Note>
    recommends
        0 <= i < 7,
{
    if i == 0 {
        Some(Note::CSharp)
    } else if i == 1 {
        Some(Note::DSharp)
    } else if i == 2 {
        None
    } else if i == 3 {
        Some(Note::FSharp)
    } else if i == 4 {
        Some(Note::GSharp)
    } else if i == 5 {
        Some(Note::ASharp)
    } else {
        None
    }
}

/// The pitch of white key position `index` on a keyboard whose first octave
/// is 3: position advances through C D E F G A B, then the next octave.
pub fn white_key_at(index: usize) -> (r: Key)
    requires
        3 + (index as int) / 7 <= i32::MAX,
    ensures
        r.note == spec_white_note((index as int) % 7),
        r.octave == 3 + (index as int) / 7,
{
    let pos = index % 7;
    let note = if pos == 0 {
        Note::C
    } else if pos == 1 {
        Note::D
    } else if pos == 2 {
        Note::E
    } else if pos == 3 {
        Note::F
    } else if pos == 4 {
        Note::G
    } else {
        if pos == 5 {
            Note::A
        } else {
            Note::B
        }
    };
    Key::new(note, 3 + (index / 7) as i32)
}

/// The pitch of the black key over white position `index`, if any, on the
/// same keyboard layout as [`white_key_at`].
pub fn black_key_at(index: usize) -> (r: Option<Key>)
    requires
        3 + (index as int) / 7 <= i32::MAX,
    ensures
        r == (match spec_black_note((index as int) % 7) {
            Some(n) => Some(Key { note: n, octave: (3 + (index as int) / 7) as i32 }),
            None => None,
        }),
{
    let pos = index % 7;
    let octave: i32 = 3 + (index / 7) as i32;
    if pos == 0 {
        Some(Key::new(Note::CSharp, octave))
    } else if pos == 1 {
        Some(Key::new(Note::DSharp, octave))
    } else if pos == 3 {
        Some(Key::new(Note::FSharp, octave))
    } else if pos == 4 {
        Some(Key::new(Note::GSharp, octave))
    } else if pos == 5 {
        Some(Key::new(Note::ASharp, octave))
    } else {
        None
    }
}

/// The display record of every tone of `chord` resolved on `chord_key`: each
/// tone is drawn as sounding while the scheduler still holds it audible at
/// `now`, as pressed otherwise, and is labelled with its degree relative to
/// the root.
pub fn chord_key_states(chord_key: Key, chord: Chord, sched: &Scheduler, now: u32) -> (r: Vec<
    (Key, KeyState),
>)
    requires
        index_in_range(key_index(chord_key) + 12),
    ensures
        r@.len() == spec_intervals(chord).len(),
        forall|i: int|
            0 <= i < r@.len() ==> (#[trigger] r@[i]).0 == spec_transpose(
                chord_key,
                spec_intervals(chord)[i] as int,
            ),
        forall|i: int|
            0 <= i < r@.len() ==> (#[trigger] r@[i]).1.state == (if sched.spec_is_sounding(
                spec_transpose(chord_key, spec_intervals(chord)[i] as int),
                now,
            ) {
                State::SOUNDING
            } else {
                State::PRESSED
            }),
        forall|i: int|
            0 <= i < r@.len() ==> (match (#[trigger] r@[i]).1.text {
                Some(s) => s@ == spec_interval_text(spec_intervals(chord)[i] as int),
                None => false,
            }),
{
    proof {
        lemma_intervals_wf(chord);
    }
    let keys = chord.get_keys(chord_key);
    let mut out: Vec<(Key, KeyState)> = Vec::new();
    let mut i: usize = 0;
    while i < keys.len()
        invariant
            keys@.len() == spec_intervals(chord).len(),
            forall|j: int|
                0 <= j < keys@.len() ==> #[trigger] keys@[j] == spec_transpose(
                    chord_key,
                    spec_intervals(chord)[j] as int,
                ),
            forall|j: int|
                0 <= j < keys@.len() ==> key_index(#[trigger] keys@[j]) == key_index(chord_key)
                    + spec_intervals(chord)[j],
            forall|j: int|
                0 <= j < spec_intervals(chord).len() ==> 0 <= #[trigger] spec_intervals(
                    chord,
                )[j] <= 12,
            i <= keys@.len(),
            out@.len() == i as int,
            forall|j: int|
                0 <= j < i ==> (#[trigger] out@[j]).0 == spec_transpose(
                    chord_key,
                    spec_intervals(chord)[j] as int,
                ),
            forall|j: int|
                0 <= j < i ==> (#[trigger] out@[j]).1.state == (if sched.spec_is_sounding(
                    spec_transpose(chord_key, spec_intervals(chord)[j] as int),
                    now,
                ) {
                    State::SOUNDING
                } else {
                    State::PRESSED
                }),
            forall|j: int|
                0 <= j < i ==> (match (#[trigger] out@[j]).1.text {
                    Some(s) => s@ == spec_interval_text(spec_intervals(chord)[j] as int),
                    None => false,
                }),
        decreases keys@.len() - i,
    {
        let k = keys[i];
        let interval = k.difference(chord_key);
        let state = if sched.is_sounding(k, now) {
            State::SOUNDING
        } else {
            State::PRESSED
        };
        let text = get_interval_text(interval);
        out.push((k, KeyState::new(state, Some(text))));
        i += 1;
    }
    out
}

} // verus!
