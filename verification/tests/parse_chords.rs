use breakers::chromatic::{Chord, Mode, Note, Octave, PitchClass};
use breakers::grid::GridToken;
use breakers::pipeline::{Pipeline, Playable};
use breakers::sampler::SampleSet;
use breakers::util::{FromNode, Node};

fn parse_chords_convert(node: tree_sitter::Node, source: &str, field: Option<&str>) -> Node {
    let mut children = Vec::new();
    let mut cursor = node.walk();
    if cursor.goto_first_child() {
        loop {
            if cursor.node().kind() != "comment" {
                children.push(parse_chords_convert(cursor.node(), source, cursor.field_name()));
            }
            if !cursor.goto_next_sibling() {
                break;
            }
        }
    }
    Node {
        kind: node.kind().to_string(),
        text: node.utf8_text(source.as_bytes()).unwrap().to_string(),
        field: field.map(|f| f.to_string()),
        children,
    }
}

fn parse_chords_tree(source: &str) -> Node {
    let mut parser = tree_sitter::Parser::new();
    parser.set_language(tree_sitter_breaker::language()).unwrap();
    let tree = parser.parse(source, None).unwrap();
    parse_chords_convert(tree.root_node(), source, None)
}

fn test_freqs(freqs: Vec<f64>, expected: &[f64]) {
    // first test lengths
    assert_eq!(
        freqs.len(),
        expected.len(),
        "Lengths don't match: expected {}, got {}",
        expected.len(),
        freqs.len()
    );

    // then test values
    freqs.iter().zip(expected.iter()).for_each(|(a, b)| {
        assert!(
            (a - b).abs() < 0.0001,
            "Expected {:?}, got {:?}",
            expected,
            freqs
        )
    });
}

#[test]
fn parse_chords_chord_parse_and_freqs() {
    let tree = parse_chords_tree("grid chordName {\n  Bm7M9/F\n}\n");

    let playables = Pipeline::from_tree(&tree, &SampleSet::new()).unwrap().playables;

    let grid = &playables
        .iter()
        .find(|p| {
            println!("Found this: {:?}", p);
            p.0 == "chordName"
        })
        .expect("chordName not found")
        .1;

    let chord = match grid {
        Playable::Grid(g) => g.tokens.first().unwrap(),
    };

    match chord {
        GridToken::Chord(c) => {
            let freqs = c.as_freqs().iter().map(|f| *f as f64 / 1_000_000.0).collect();
            test_freqs(
                freqs,
                &[
                    493.8833012561241,
                    587.3295358348151,
                    739.9888454232688,
                    880.0,
                    554.3652619537442,
                    174.61411571650194,
                ],
            )
        }
        _ => panic!("GridToken is not a chord"),
    }
}

fn first_token(source: &str) -> Node {
    let mut tree = parse_chords_tree(source);
    let mut grid = tree.children.remove(0);
    let entry = grid
        .children
        .iter()
        .position(|c| c.field.as_deref() == Some("token"))
        .unwrap();
    grid.children.remove(entry).children.remove(0)
}

#[test]
fn reads_a_single_note_with_octave_and_accidental() {
    let node = first_token("grid g {\n [3]c#\n}\n");
    assert_eq!(node.kind, "single_note");
    assert_eq!(Note::from_node(&node), Some(Note(PitchClass::Cs, Octave::Three)));
    let flat = first_token("grid g {\n cb\n}\n");
    assert_eq!(Note::from_node(&flat), Some(Note(PitchClass::B, Octave::Four)));
    let t = first_token("grid g {\n t\n}\n");
    assert_eq!(Note::from_node(&t), Some(Note(PitchClass::B, Octave::Four)));
}

#[test]
fn reads_a_chord_with_all_its_parts() {
    let node = first_token("grid g {\n [5]Ebsus27M13/G#\n}\n");
    assert_eq!(node.kind, "chord");
    let chord = Chord::from_node(&node).unwrap();
    assert_eq!(chord.0, Note(PitchClass::Ds, Octave::Five));
    assert_eq!(chord.1, Mode::Sus2);
    assert_eq!(chord.2.as_relatives(), vec![10, 21]);
    assert_eq!(chord.3, Some(Note(PitchClass::Gs, Octave::Four)));
    assert_eq!(chord.to_string(), "[5]Dssus27M13/Gs");
}

#[test]
fn a_written_major_mode_is_major() {
    let node = first_token("grid g {\n Cmaj\n}\n");
    let chord = Chord::from_node(&node).unwrap();
    assert_eq!(chord.1, Mode::Major);
}

#[test]
fn a_node_without_a_letter_is_no_note() {
    let node = Node::new("note", "");
    assert_eq!(Note::from_node(&node), None);
    let mut letter = Node::new("bass", "H");
    letter.field = Some("bass".to_string());
    let mut note = Node::new("note", "H");
    note.children.push(letter);
    assert_eq!(Note::from_node(&note), None);
    let chord = Node::new("chord", "");
    assert!(Chord::from_node(&chord).is_none());
}

#[test]
fn a_letter_under_small_bass_is_read_too() {
    let mut letter = Node::new("small_bass", "d");
    letter.field = Some("small_bass".to_string());
    let mut note = Node::new("single_note", "d");
    note.children.push(letter);
    assert_eq!(Note::from_node(&note), Some(Note(PitchClass::D, Octave::Four)));
}
