use breakers::chromatic::{Acc, Angle, Aug, Augs, Chord, Mode, Note, Octave, PitchClass};
use breakers::grid::GridToken;
use breakers::pipeline::{Pipeline, Playable};
use breakers::sampler::SampleSet;
use breakers::util::Node;

fn chords_convert(node: tree_sitter::Node, source: &str, field: Option<&str>) -> Node {
    let mut children = Vec::new();
    let mut cursor = node.walk();
    if cursor.goto_first_child() {
        loop {
            if cursor.node().kind() != "comment" {
                children.push(chords_convert(cursor.node(), source, cursor.field_name()));
            }
            if !cursor.goto_next_sibling() {
                break;
            }
        }
    }
    Node {
        kind: node.kind().to_string(),
        text: node.utf8_text(source.as_bytes()).unwrap().to_string(),
        field: field.map(|f| f.to_string()),
        children,
    }
}

fn chords_test_tree() -> Node {
    let source = "grid chordName {\n  Cm\n}\n";
    let mut parser = tree_sitter::Parser::new();
    parser.set_language(tree_sitter_breaker::language()).unwrap();
    let tree = parser.parse(source, None).unwrap();
    chords_convert(tree.root_node(), source, None)
}

fn hertz(micro: u64) -> f64 {
    micro as f64 / 1_000_000.0
}

#[test]
fn chords_chord_parse_and_freqs() {
    let tree = chords_test_tree();

    let playables = Pipeline::from_tree(&tree, &SampleSet::new()).unwrap().playables;

    let grid = &playables
        .iter()
        .find(|p| p.0 == "chordName")
        .expect("chordName not found")
        .1;

    let chord = match grid {
        Playable::Grid(g) => g.tokens.first().unwrap(),
    };

    match chord {
        GridToken::Chord(c) => {
            let freqs = c.as_freqs();
            assert!(freqs.len() == 3, "Chord length is not 3, but {:?}", freqs);
        }
        _ => panic!("GridToken is not a chord"),
    }
}

#[test]
fn note_count_is_root_plus_offsets_plus_bass() {
    let root = Note(PitchClass::D, Octave::Four);
    let plain = Chord(root, Mode::Sus4, Augs(vec![]), None);
    assert_eq!(plain.to_notes().len(), 3);
    let rich = Chord(
        root,
        Mode::Dim,
        Augs(vec![Aug::Seven, Aug::Nine, Aug::MajThirteen]),
        Some(Note(PitchClass::A, Octave::Six)),
    );
    assert_eq!(rich.to_notes().len(), 1 + 2 + 3 + 1);
    assert_eq!(
        rich.to_notes().len(),
        1 + rich.1.as_relatives().len() + rich.2.as_relatives().len() + 1
    );
}

#[test]
fn c_major_notes_and_frequencies() {
    let c4 = Note(PitchClass::C, Octave::Four);
    assert!((hertz(c4.to_freq()) - 261.63).abs() < 0.01);
    let chord = Chord(c4, Mode::Major, Augs(vec![]), None);
    assert_eq!(
        chord.to_notes(),
        vec![c4, Note(PitchClass::E, Octave::Four), Note(PitchClass::G, Octave::Four)]
    );
    let freqs = chord.as_freqs();
    let expected = [261.63, 329.63, 392.00];
    assert_eq!(freqs.len(), expected.len());
    for (f, e) in freqs.iter().zip(expected.iter()) {
        assert!((hertz(*f) - e).abs() < 0.01, "{} is not {}", hertz(*f), e);
    }
}

#[test]
fn frequency_table_is_exact_to_the_microhertz() {
    assert_eq!(PitchClass::A.to_freq(), 440_000_000);
    assert_eq!(PitchClass::C.to_freq(), 261_625_565);
    assert_eq!(PitchClass::B.to_freq(), 493_883_301);
    let all = [
        PitchClass::C,
        PitchClass::Cs,
        PitchClass::D,
        PitchClass::Ds,
        PitchClass::E,
        PitchClass::F,
        PitchClass::Fs,
        PitchClass::G,
        PitchClass::Gs,
        PitchClass::A,
        PitchClass::As,
        PitchClass::B,
    ];
    for (n, p) in all.iter().enumerate() {
        let exact = 440.0 * 2f64.powf((n as f64 - 9.0) / 12.0);
        assert!((hertz(p.to_freq()) - exact).abs() < 0.000_001);
        assert_eq!(p.to_index() as usize, n);
        assert_eq!(PitchClass::from_index(n as u8), *p);
    }
}

#[test]
fn octaves_double_and_halve() {
    let a = PitchClass::A;
    assert_eq!(Note(a, Octave::One).to_freq(), 55_000_000);
    assert_eq!(Note(a, Octave::Three).to_freq(), 220_000_000);
    assert_eq!(Note(a, Octave::Four).to_freq(), 440_000_000);
    assert_eq!(Note(a, Octave::Five).to_freq(), 880_000_000);
    assert_eq!(Note(a, Octave::Seven).to_freq(), 3_520_000_000);
    assert_eq!(Note(PitchClass::C, Octave::Two).to_freq(), 261_625_565 / 4);
}

#[test]
fn transposition_carries_one_octave_at_most() {
    let b4 = Note(PitchClass::B, Octave::Four);
    assert_eq!(b4.add(0), b4);
    assert_eq!(b4.add(1), Note(PitchClass::C, Octave::Five));
    assert_eq!(b4.add(14), Note(PitchClass::Cs, Octave::Five));
    assert_eq!(b4.add(21), Note(PitchClass::Gs, Octave::Five));
    let c4 = Note(PitchClass::C, Octave::Four);
    assert_eq!(c4.add(11), Note(PitchClass::B, Octave::Four));
    assert_eq!(c4.add(12), Note(PitchClass::C, Octave::Five));
    assert_eq!(c4.add(255), Note(PitchClass::Ds, Octave::Five));
    assert_eq!(Note(PitchClass::G, Octave::Seven).add(7), Note(PitchClass::D, Octave::Seven));
}

#[test]
fn octave_arithmetic_clamps_to_seven() {
    assert_eq!(Octave::Four.add(1), Octave::Five);
    assert_eq!(Octave::Four.add(-3), Octave::One);
    assert_eq!(Octave::Seven.add(1), Octave::Seven);
    assert_eq!(Octave::One.add(-1), Octave::Seven);
    assert_eq!(Octave::Six.add(127), Octave::Seven);
    assert_eq!(Octave::Two.add(-128), Octave::Seven);
    assert_eq!(Octave::from_number(0), Octave::Seven);
    assert_eq!(Octave::from_number(3), Octave::Three);
    assert_eq!(Octave::default(), Octave::Four);
    assert_eq!(Octave::Five.to_number(), 5);
}

#[test]
fn accidentals_wrap_round() {
    assert_eq!(PitchClass::C.add(Acc::Flat), PitchClass::B);
    assert_eq!(PitchClass::B.add(Acc::Sharp), PitchClass::C);
    assert_eq!(PitchClass::E.add(Acc::Natural), PitchClass::E);
    assert_eq!(PitchClass::F.add(Acc::Sharp), PitchClass::Fs);
    let mut p = PitchClass::A;
    p.add_assign(Acc::Flat);
    assert_eq!(p, PitchClass::Gs);
    assert_eq!(Acc::default(), Acc::Natural);
}

#[test]
fn bass_note_sounds_an_octave_below_the_root() {
    let chord = Chord(
        Note(PitchClass::B, Octave::Four),
        Mode::Minor,
        Augs(vec![]),
        Some(Note(PitchClass::F, Octave::Six)),
    );
    let notes = chord.to_notes();
    assert_eq!(notes.len(), 4);
    assert_eq!(notes[3], Note(PitchClass::F, Octave::Three));
    let low = Chord(
        Note(PitchClass::C, Octave::One),
        Mode::Major,
        Augs(vec![]),
        Some(Note(PitchClass::G, Octave::Two)),
    );
    assert_eq!(low.to_notes()[3], Note(PitchClass::G, Octave::Seven));
}

#[test]
fn offsets_of_modes_and_extensions() {
    assert_eq!(Mode::Major.as_relatives(), vec![4, 7]);
    assert_eq!(Mode::Minor.as_relatives(), vec![3, 7]);
    assert_eq!(Mode::Dim.as_relatives(), vec![3, 6]);
    assert_eq!(Mode::Aug.as_relatives(), vec![4, 8]);
    assert_eq!(Mode::Sus4.as_relatives(), vec![5, 7]);
    assert_eq!(Mode::Sus2.as_relatives(), vec![2, 7]);
    assert_eq!(Aug::Six.as_relatives(), vec![8]);
    assert_eq!(Aug::MajSix.as_relatives(), vec![9]);
    assert_eq!(Aug::Seven.as_relatives(), vec![10]);
    assert_eq!(Aug::MajSeven.as_relatives(), vec![11]);
    assert_eq!(Aug::Nine.as_relatives(), vec![13]);
    assert_eq!(Aug::MajNine.as_relatives(), vec![14]);
    assert_eq!(Aug::Eleven.as_relatives(), vec![16]);
    assert_eq!(Aug::MajEleven.as_relatives(), vec![17]);
    assert_eq!(Aug::Thirteen.as_relatives(), vec![20]);
    assert_eq!(Aug::MajThirteen.as_relatives(), vec![21]);
    assert_eq!(Augs(vec![Aug::Seven, Aug::Nine]).as_relatives(), vec![10, 13]);
    assert_eq!(Augs(vec![]).as_relatives(), Vec::<u8>::new());
    assert_eq!(Mode::default(), Mode::Major);
}

#[test]
fn reading_names_of_music_theory() {
    assert_eq!(PitchClass::try_from("A"), Ok(PitchClass::A));
    assert_eq!(PitchClass::try_from("t"), Ok(PitchClass::B));
    assert_eq!(PitchClass::try_from("g"), Ok(PitchClass::G));
    assert_eq!(PitchClass::try_from("H"), Err("Invalid note"));
    assert_eq!(PitchClass::try_from(""), Err("Invalid note"));
    assert_eq!(Acc::try_from("b"), Ok(Acc::Flat));
    assert_eq!(Acc::try_from("#"), Ok(Acc::Sharp));
    assert_eq!(Acc::try_from("n"), Err("Invalid acc"));
    assert_eq!(Octave::try_from("1"), Ok(Octave::One));
    assert_eq!(Octave::try_from("7"), Ok(Octave::Seven));
    assert_eq!(Octave::try_from("8"), Err("Invalid octave"));
    assert_eq!(Mode::try_from("m"), Ok(Mode::Minor));
    assert_eq!(Mode::try_from("sus2"), Ok(Mode::Sus2));
    assert_eq!(Mode::try_from("maj"), Err("Unrecognized mode"));
    assert_eq!(Aug::try_from("M13"), Ok(Aug::MajThirteen));
    assert_eq!(Aug::try_from("11"), Ok(Aug::Eleven));
    assert_eq!(Aug::try_from("12"), Err("Invalid aug"));
}

#[test]
fn writing_notes_and_chords() {
    assert_eq!(PitchClass::Cs.to_string(), "Cs");
    assert_eq!(Octave::Three.to_string(), "3");
    assert_eq!(Acc::Natural.to_string(), "");
    assert_eq!(Acc::Sharp.to_string(), "#");
    assert_eq!(Mode::Major.to_string(), "");
    assert_eq!(Mode::Sus4.to_string(), "sus4");
    assert_eq!(Aug::MajNine.to_string(), "M9");
    assert_eq!(Note(PitchClass::A, Octave::Four).to_string(), "A");
    assert_eq!(Note(PitchClass::Fs, Octave::Two).to_string(), "[2]Fs");
    let chord = Chord(
        Note(PitchClass::B, Octave::Four),
        Mode::Minor,
        Augs(vec![Aug::Seven, Aug::MajNine]),
        Some(Note(PitchClass::F, Octave::Three)),
    );
    assert_eq!(chord.to_string(), "Bm7M9/[3]F");
    assert_eq!(chord.duplicate(), chord);
}

#[test]
fn the_angle_of_a_partial() {
    let a4 = Note(PitchClass::A, Octave::Four);
    assert_eq!(a4.angle(1, 0, 44000), Angle { num: 0, den: 44_000_000_000 });
    assert_eq!(a4.angle(1, 25, 44000), Angle { num: 11_000_000_000, den: 44_000_000_000 });
    assert_eq!(a4.angle(1, 100, 44000), Angle { num: 0, den: 44_000_000_000 });
    assert_eq!(a4.angle(1, 125, 44000), a4.angle(1, 25, 44000));
    assert_eq!(a4.angle(3, 25, 44000), Angle { num: 33_000_000_000, den: 44_000_000_000 });
    assert_eq!(a4.angle(5, 25, 44000), a4.angle(1, 25, 44000));
    assert_eq!(a4.angle(0, 25, 44000).num, 0);
    assert_eq!(a4.angle(1, 25, 0), Angle { num: 0, den: 1 });
}

#[test]
fn the_angle_stays_exact_for_ever() {
    let a4 = Note(PitchClass::A, Octave::Four);
    assert_eq!(
        a4.angle(3, u128::MAX, 44100),
        Angle { num: 21_600_000_000, den: 44_100_000_000 }
    );
    let c2 = Note(PitchClass::C, Octave::Two);
    assert_eq!(c2.to_freq(), 65_406_391);
    assert_eq!(
        c2.angle(39, 123_456_789_012_345_678_901_234_567_890, 48000),
        Angle { num: 35_046_014_610, den: 48_000_000_000 }
    );
    let b7 = Note(PitchClass::B, Octave::Seven);
    let a = b7.angle(u32::MAX, u128::MAX, u32::MAX);
    assert_eq!(a.den, 4_294_967_295_000_000);
    assert!(a.num < a.den);
}
