use chord_trainer::note::{Key, Note};

#[test]
fn transpose_within_octave() {
    let c3 = Key::new(Note::C, 3);
    assert_eq!(c3.transpose(4), Key::new(Note::E, 3));
    assert_eq!(c3.transpose(7), Key::new(Note::G, 3));
    assert_eq!(c3.transpose(0), c3);
}

#[test]
fn transpose_wraps_forward() {
    let c3 = Key::new(Note::C, 3);
    assert_eq!(c3.transpose(12), Key::new(Note::C, 4));
    let b3 = Key::new(Note::B, 3);
    assert_eq!(b3.transpose(1), Key::new(Note::C, 4));
    assert_eq!(b3.transpose(13), Key::new(Note::C, 5));
}

#[test]
fn transpose_wraps_backward() {
    let c3 = Key::new(Note::C, 3);
    assert_eq!(c3.transpose(-1), Key::new(Note::B, 2));
    assert_eq!(c3.transpose(-12), Key::new(Note::C, 2));
    assert_eq!(c3.transpose(-13), Key::new(Note::B, 1));
}

#[test]
fn transpose_through_negative_octaves() {
    let c0 = Key::new(Note::C, 0);
    assert_eq!(c0.transpose(-1), Key::new(Note::B, -1));
    assert_eq!(c0.transpose(-25), Key::new(Note::B, -3));
}

#[test]
fn transpose_composes_as_sum() {
    let targets = [
        (Key::new(Note::C, 3), 5, 7),
        (Key::new(Note::FSharp, 2), -3, 8),
        (Key::new(Note::A, 0), -14, -1),
        (Key::new(Note::B, 7), 25, -25),
    ];
    for (p, a, b) in targets {
        assert_eq!(p.transpose(a).transpose(b), p.transpose(a + b));
    }
}

#[test]
fn difference_inverts_transpose() {
    let targets = [
        (Key::new(Note::C, 3), 0),
        (Key::new(Note::C, 3), 7),
        (Key::new(Note::DSharp, 4), -13),
        (Key::new(Note::G, -2), 31),
    ];
    for (p, n) in targets {
        assert_eq!(p.transpose(n).difference(p), n);
    }
}

#[test]
fn difference_counts_semitones() {
    let c3 = Key::new(Note::C, 3);
    let e3 = Key::new(Note::E, 3);
    let c4 = Key::new(Note::C, 4);
    assert_eq!(e3.difference(c3), 4);
    assert_eq!(c3.difference(e3), -4);
    assert_eq!(c4.difference(c3), 12);
}

#[test]
fn note_text_prefers_flats() {
    assert_eq!(Note::C.text(), "C");
    assert_eq!(Note::CSharp.text(), "Db");
    assert_eq!(Note::D.text(), "D");
    assert_eq!(Note::DSharp.text(), "Eb");
    assert_eq!(Note::E.text(), "E");
    assert_eq!(Note::F.text(), "F");
    assert_eq!(Note::FSharp.text(), "Gb");
    assert_eq!(Note::G.text(), "G");
    assert_eq!(Note::GSharp.text(), "Ab");
    assert_eq!(Note::A.text(), "A");
    assert_eq!(Note::ASharp.text(), "Bb");
    assert_eq!(Note::B.text(), "B");
}

#[test]
fn key_text_is_spelling_then_octave() {
    assert_eq!(Key::new(Note::C, 3).text(), "C3");
    assert_eq!(Key::new(Note::ASharp, 2).text(), "Bb2");
    assert_eq!(Key::new(Note::A, 0).text(), "A0");
    assert_eq!(Key::new(Note::FSharp, 10).text(), "Gb10");
    assert_eq!(Key::new(Note::A, -1).text(), "A-1");
}

#[test]
fn key_accessors() {
    let k = Key::new(Note::GSharp, 5);
    assert_eq!(k.note(), Note::GSharp);
    assert_eq!(k.octave(), 5);
}
