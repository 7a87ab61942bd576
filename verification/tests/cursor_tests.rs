use chord_trainer::chord::Chord;
use chord_trainer::cursor::{positive_remainder, ChordTable};
use chord_trainer::note::{Key, Note};

#[test]
fn starts_on_c_major() {
    let table = ChordTable::new();
    let (key, chord) = table.current_chord();
    assert_eq!(key, Key::new(Note::C, 3));
    assert_eq!(chord, Chord::Major);
}

#[test]
fn twelve_rights_cycle_back() {
    let mut table = ChordTable::new();
    let (start_key, start_chord) = table.current_chord();
    for _ in 0..12 {
        table.right();
    }
    let (key, chord) = table.current_chord();
    assert_eq!(key, start_key);
    assert_eq!(chord, start_chord);
}

#[test]
fn left_from_zero_wraps_to_eleven() {
    let mut table = ChordTable::new();
    table.left();
    let (key, _) = table.current_chord();
    assert_eq!(key, Key::new(Note::B, 3));
}

#[test]
fn right_steps_through_the_chromatic_scale() {
    let mut table = ChordTable::new();
    table.right();
    assert_eq!(table.current_chord().0, Key::new(Note::CSharp, 3));
    table.right();
    assert_eq!(table.current_chord().0, Key::new(Note::D, 3));
}

#[test]
fn seven_downs_cycle_chords() {
    let mut table = ChordTable::new();
    for _ in 0..7 {
        table.down();
    }
    assert_eq!(table.current_chord().1, Chord::Major);
}

#[test]
fn up_from_zero_wraps_to_last_chord() {
    let mut table = ChordTable::new();
    table.up();
    assert_eq!(table.current_chord().1, Chord::All);
}

#[test]
fn down_steps_through_chords() {
    let mut table = ChordTable::new();
    table.down();
    assert_eq!(table.current_chord().1, Chord::Minor);
    table.down();
    assert_eq!(table.current_chord().1, Chord::Seventh);
}

#[test]
fn axes_are_independent() {
    let mut table = ChordTable::new();
    table.right();
    table.down();
    table.right();
    let (key, chord) = table.current_chord();
    assert_eq!(key, Key::new(Note::D, 3));
    assert_eq!(chord, Chord::Minor);
}

#[test]
fn positive_remainder_never_negative() {
    assert_eq!(positive_remainder(0, 12), 0);
    assert_eq!(positive_remainder(13, 12), 1);
    assert_eq!(positive_remainder(-1, 12), 11);
    assert_eq!(positive_remainder(-12, 12), 0);
    assert_eq!(positive_remainder(-13, 12), 11);
    assert_eq!(positive_remainder(-1, 7), 6);
    assert_eq!(positive_remainder(20, 7), 6);
}
