use chord_trainer::chord::Chord;
use chord_trainer::note::{Key, Note};

#[test]
fn resolve_major_on_c3() {
    let c3 = Key::new(Note::C, 3);
    let keys = Chord::Major.get_keys(c3);
    assert_eq!(
        keys,
        vec![
            Key::new(Note::C, 3),
            Key::new(Note::E, 3),
            Key::new(Note::G, 3),
        ]
    );
}

#[test]
fn resolve_minor_on_c3() {
    let c3 = Key::new(Note::C, 3);
    let keys = Chord::Minor.get_keys(c3);
    assert_eq!(
        keys,
        vec![
            Key::new(Note::C, 3),
            Key::new(Note::DSharp, 3),
            Key::new(Note::G, 3),
        ]
    );
}

#[test]
fn resolve_all_on_c3_is_full_chromatic_octave() {
    let c3 = Key::new(Note::C, 3);
    let keys = Chord::All.get_keys(c3);
    assert_eq!(keys.len(), 13);
    let expected = vec![
        Key::new(Note::C, 3),
        Key::new(Note::CSharp, 3),
        Key::new(Note::D, 3),
        Key::new(Note::DSharp, 3),
        Key::new(Note::E, 3),
        Key::new(Note::F, 3),
        Key::new(Note::FSharp, 3),
        Key::new(Note::G, 3),
        Key::new(Note::GSharp, 3),
        Key::new(Note::A, 3),
        Key::new(Note::ASharp, 3),
        Key::new(Note::B, 3),
        Key::new(Note::C, 4),
    ];
    assert_eq!(keys, expected);
    for pair in keys.windows(2) {
        let lower = pair[0].note() as i32 + 12 * pair[0].octave();
        let upper = pair[1].note() as i32 + 12 * pair[1].octave();
        assert!(lower < upper);
    }
}

#[test]
fn resolve_crosses_octave_boundary() {
    let b3 = Key::new(Note::B, 3);
    let keys = Chord::Major.get_keys(b3);
    assert_eq!(
        keys,
        vec![
            Key::new(Note::B, 3),
            Key::new(Note::DSharp, 4),
            Key::new(Note::FSharp, 4),
        ]
    );
}

#[test]
fn interval_tables() {
    assert_eq!(Chord::Major.get_chord_intervals(), vec![0, 4, 7]);
    assert_eq!(Chord::Minor.get_chord_intervals(), vec![0, 3, 7]);
    assert_eq!(Chord::Seventh.get_chord_intervals(), vec![0, 4, 7, 10]);
    assert_eq!(Chord::MajorSeventh.get_chord_intervals(), vec![0, 4, 7, 11]);
    assert_eq!(Chord::MinorSeventh.get_chord_intervals(), vec![0, 3, 7, 10]);
    assert_eq!(Chord::Diminished.get_chord_intervals(), vec![0, 3, 6, 9]);
    assert_eq!(
        Chord::All.get_chord_intervals(),
        vec![0, 1, 2, 3, 4, 5, 6, 7, 8, 9, 10, 11, 12]
    );
}

#[test]
fn chord_suffixes() {
    assert_eq!(Chord::Major.get_text(), "");
    assert_eq!(Chord::Minor.get_text(), "m");
    assert_eq!(Chord::Seventh.get_text(), "7");
    assert_eq!(Chord::MinorSeventh.get_text(), "m7");
    assert_eq!(Chord::MajorSeventh.get_text(), "maj7");
    assert_eq!(Chord::Diminished.get_text(), "dim");
    assert_eq!(Chord::All.get_text(), "(All)");
}

#[test]
fn every_resolution_starts_at_the_root() {
    let root = Key::new(Note::FSharp, 2);
    for chord in [
        Chord::Major,
        Chord::Minor,
        Chord::Seventh,
        Chord::MajorSeventh,
        Chord::MinorSeventh,
        Chord::Diminished,
        Chord::All,
    ] {
        let keys = chord.get_keys(root);
        assert!(!keys.is_empty());
        assert_eq!(keys[0], root);
    }
}
