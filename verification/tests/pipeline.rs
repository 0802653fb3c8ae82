use std::sync::Arc;

use breakers::grid::{Grid, GridToken, Sound};
use breakers::keyed::{find_name, put_entry};
use breakers::mix::{rescale_mix, Weight};
use breakers::pipeline::{samples_per_bar, Pipeline, PipelineConfig, Playable};
use breakers::score::BuildError;
use breakers::postproc::{Effect, Response};
use breakers::sampler::{Sample, SamplePlayer, SampleSet};
use breakers::text::Decimal;
use breakers::util::Node;
use rand::rngs::StdRng;
use rand::SeedableRng;

fn pipeline_convert(node: tree_sitter::Node, source: &str, field: Option<&str>) -> Node {
    let mut children = Vec::new();
    let mut cursor = node.walk();
    if cursor.goto_first_child() {
        loop {
            if cursor.node().kind() != "comment" {
                children.push(pipeline_convert(cursor.node(), source, cursor.field_name()));
            }
            if !cursor.goto_next_sibling() {
                break;
            }
        }
    }
    Node {
        kind: node.kind().to_string(),
        text: node.utf8_text(source.as_bytes()).unwrap().to_string(),
        field: field.map(|f| f.to_string()),
        children,
    }
}

fn pipeline_tree(source: &str) -> Node {
    let mut parser = tree_sitter::Parser::new();
    parser.set_language(tree_sitter_breaker::language()).unwrap();
    let tree = parser.parse(source, None).unwrap();
    pipeline_convert(tree.root_node(), source, None)
}

fn get_test_tree() -> Node {
    pipeline_tree("// a single grid\ngrid veryfunname {\n  x _ x _\n}\n")
}

fn build(source: &str) -> Result<Pipeline, BuildError> {
    let mut set = SampleSet::new();
    set.insert("kick", Arc::new(Sample::try_new("kick.wav", &vec![100; 64], 1, 48000).unwrap()));
    set.insert("snare", Arc::new(Sample::try_new("snare.wav", &vec![200; 64], 1, 48000).unwrap()));
    Pipeline::from_tree(&pipeline_tree(source), &set)
}

fn failure(source: &str) -> BuildError {
    match build(source) {
        Ok(_) => panic!("built: {:?}", source),
        Err(e) => e,
    }
}

fn grid<'a>(p: &'a Pipeline, name: &str) -> &'a Grid {
    match &p.playables[find_name(&p.playables, name)].1 {
        Playable::Grid(g) => g,
    }
}

fn names(p: &Pipeline) -> Vec<&str> {
    p.playables.iter().map(|t| t.0.as_str()).collect()
}

fn statement(kind: &str, parts: Vec<(&str, &str)>) -> Node {
    let mut node = Node::new(kind, "");
    for (field, text) in parts {
        let mut child = Node::new("part", text);
        child.field = Some(field.to_string());
        node.children.push(child);
    }
    node
}

fn score(statements: Vec<Node>) -> Node {
    let mut root = Node::new("source_file", "");
    root.children = statements;
    root
}

#[test]
fn named_grid() {
    let tree = get_test_tree();

    let playables = Pipeline::from_tree(&tree, &SampleSet::new()).unwrap().playables;

    assert!(
        playables.len() == 1,
        "Playables length is not 1, but {}",
        playables.len()
    );
    assert!(find_name(&playables, "veryfunname") < playables.len());
}

#[test]
fn a_fresh_pipeline() {
    let p = build("grid a {\n x\n}\n").unwrap();
    assert_eq!(p.time, 0);
    assert_eq!(p.bar_length, 96000);
    assert_eq!(p.sample_rate, 48000);
    assert!(p.next.is_none());
    assert!(p.effects.is_empty());
    assert_eq!(p.mix, vec![("a".to_string(), Weight { num: 1_000_000, den: 1_000_000 })]);
    let empty = build("").unwrap();
    assert!(empty.playables.is_empty());
    assert!(empty.mix.is_empty());
}

#[test]
fn tracks_keep_document_order_and_a_later_grid_replaces_its_namesake() {
    let p = build("grid b {\n x\n}\ngrid a {\n _ _\n}\ngrid b {\n & & &\n}\n").unwrap();
    assert_eq!(names(&p), vec!["b", "a"]);
    assert_eq!(grid(&p, "b").tokens.len(), 3);
    assert_eq!(grid(&p, "a").tokens.len(), 2);
    assert_eq!(p.mix.len(), 2);
}

#[test]
fn a_mapping_resolves_the_names_of_its_grid_only() {
    let p = build("grid a {\n x 1 x 2\n}\ngrid b {\n x\n}\nmap a {\n x: kick,\n 1: snare 30%,\n}\n")
        .unwrap();
    let a: Vec<String> = grid(&p, "a").tokens.iter().map(|t| t.to_string()).collect();
    assert_eq!(a, vec!["x", "?", "x", "_"]);
    assert!(matches!(&grid(&p, "a").tokens[0], GridToken::Hit(s) if s.sample.name == "kick.wav"));
    assert!(matches!(
        &grid(&p, "a").tokens[1],
        GridToken::Prob(chance, s) if chance.micros == 30_000_000 && s.sample.name == "snare.wav"
    ));
    assert!(matches!(&grid(&p, "b").tokens[0], GridToken::Unresolved(n) if n == "x"));
}

#[test]
fn a_mapping_may_come_before_its_grid() {
    let p = build("map a {\n x: kick,\n}\ngrid a {\n x\n}\n").unwrap();
    assert!(matches!(&grid(&p, "a").tokens[0], GridToken::Hit(_)));
}

#[test]
fn a_sample_that_is_not_there_binds_nothing() {
    let p = build("grid a {\n x\n}\nmap a {\n x: cowbell,\n}\n").unwrap();
    assert!(matches!(&grid(&p, "a").tokens[0], GridToken::Pause));
}

#[test]
fn tempo_reaches_every_grid_and_the_bar() {
    let p = build("grid a {\n x\n}\ntempo 90 3/8\ngrid b {\n x\n}\n").unwrap();
    for name in ["a", "b"] {
        assert_eq!(grid(&p, name).tempo, Decimal { micros: 90_000_000 });
        assert_eq!(grid(&p, name).time_sign, (3, 8));
    }
    assert_eq!(p.bar_length, 60 * 48000 * 3 / 90);
    let q = build("tempo 87.5 4/4\n").unwrap();
    assert_eq!(q.bar_length, 60 * 48000 * 4 / 87);
    let slow = build("tempo 0.5 4/4\n").unwrap();
    assert_eq!(slow.bar_length, 0);
}

#[test]
fn bar_lengths() {
    assert_eq!(samples_per_bar(Decimal::from_int(120), (4, 4), 48000), 96000);
    assert_eq!(samples_per_bar(Decimal::from_int(120), (4, 4), 44100), 88200);
    assert_eq!(samples_per_bar(Decimal::from_int(7), (5, 4), 44100), 1_890_000);
    assert_eq!(samples_per_bar(Decimal { micros: 999_999 }, (4, 4), 48000), 0);
    assert_eq!(samples_per_bar(Decimal::from_int(1), (u32::MAX, 1), u32::MAX), 60 * (u32::MAX as u128).pow(2));
    assert_eq!(samples_per_bar(Decimal::from_int(120), (0, 4), 48000), 0);
}

#[test]
fn speed_sets_the_note_length_of_its_grid() {
    let p = build("grid a {\n x\n}\ngrid b {\n x\n}\nnote b 1/8\n").unwrap();
    assert_eq!(grid(&p, "a").note_length, (1, 16));
    assert_eq!(grid(&p, "b").note_length, (1, 8));
}

#[test]
fn mix_weights_sum_to_one() {
    let p = build("grid a {\n x\n}\ngrid b {\n x\n}\ngrid c {\n x\n}\nmix a 0.5\nmix c 0.25\nmix a 0.75\nmix ghost 2.0\n")
        .unwrap();
    let entries: Vec<(&str, u64)> = p.mix.iter().map(|m| (m.0.as_str(), m.1.num)).collect();
    assert_eq!(
        entries,
        vec![("a", 750_000), ("b", 1_000_000), ("c", 250_000), ("ghost", 2_000_000)]
    );
    assert!(p.mix.iter().all(|m| m.1.den == 4_000_000));
    let total: u128 = p.mix.iter().map(|m| m.1.num as u128).sum();
    assert_eq!(total, p.mix[0].1.den);
    let sum: f64 = p.mix.iter().map(|m| m.1.num as f64 / m.1.den as f64).sum();
    assert!((sum - 1.0).abs() < 1e-3);
}

#[test]
fn rescaling_by_hand() {
    let raw = vec![
        ("a".to_string(), Decimal { micros: 1 }),
        ("b".to_string(), Decimal { micros: u64::MAX }),
        ("c".to_string(), Decimal { micros: u64::MAX }),
    ];
    let mix = rescale_mix(&raw);
    let den = 2 * (u64::MAX as u128) + 1;
    assert_eq!(
        mix,
        vec![
            ("a".to_string(), Weight { num: 1, den }),
            ("b".to_string(), Weight { num: u64::MAX, den }),
            ("c".to_string(), Weight { num: u64::MAX, den }),
        ]
    );
    assert!(rescale_mix(&vec![]).is_empty());
    let silent = rescale_mix(&vec![("a".to_string(), Decimal { micros: 0 })]);
    assert_eq!(silent, vec![("a".to_string(), Weight { num: 0, den: 0 })]);
}

#[test]
fn setters_append_effects_in_order() {
    let p = build("grid a {\n x\n}\ngrid b {\n x\n}\nset b lp_cutoff = 2800\nset a lp_cutoff = 440.5\nset b lp_cutoff = 100\n")
        .unwrap();
    let chains: Vec<(&str, usize)> = p.effects.iter().map(|e| (e.0.as_str(), e.1.len())).collect();
    assert_eq!(chains, vec![("b", 2), ("a", 1)]);
    match p.effects[0].1[0] {
        Effect::FIR(f) => {
            assert_eq!(f.response, Response::LowPass);
            assert_eq!(f.cutoff, Decimal::from_int(2800));
            assert_eq!(f.sample_rate, 48000);
            assert_eq!(f.taps, 34);
        }
        other => panic!("not a filter: {:?}", other),
    }
    assert!(matches!(p.effects[0].1[1], Effect::FIR(f) if f.taps == 100));
    assert!(matches!(p.effects[1].1[0], Effect::FIR(f) if f.cutoff.micros == 440_500_000));
}

#[test]
fn setters_of_every_property() {
    let target = |prop: &str, value: &str| {
        score(vec![
            statement("grid", vec![("name", "a")]),
            statement("setter", vec![("name", "a"), ("prop", prop), ("value", value)]),
        ])
    };
    let set = SampleSet::new();
    let hp = Pipeline::from_tree(&target("hp_cutoff", "12000"), &set).unwrap();
    assert!(matches!(
        hp.effects[0].1[0],
        Effect::FIR(f) if f.response == Response::HighPass && f.taps == 8
    ));
    let gain = Pipeline::from_tree(&target("gain", "1.5"), &set).unwrap();
    assert!(matches!(gain.effects[0].1[0], Effect::Gain(g) if g.amount.micros == 1_500_000));
    let other = Pipeline::from_tree(&target("colour", "blue"), &set).unwrap();
    assert!(other.effects.is_empty());
    assert_eq!(
        Pipeline::from_tree(&target("gain", "loud"), &set).err(),
        Some(BuildError::InvalidNumber)
    );
}

#[test]
fn an_unknown_statement_ends_the_build() {
    assert_eq!(failure("grid a {\n x\n}\nplay a\n"), BuildError::UnknownStatement);
    assert_eq!(failure("stop a\n"), BuildError::UnknownStatement);
    assert_eq!(failure("grid a {\n x\n}\n}}}\n"), BuildError::UnknownStatement);
    let odd = score(vec![Node::new("riff", "riff")]);
    assert_eq!(
        Pipeline::from_tree(&odd, &SampleSet::new()).err(),
        Some(BuildError::UnknownStatement)
    );
}

#[test]
fn an_undeclared_target_ends_the_build() {
    assert_eq!(failure("grid a {\n x\n}\nmap b {\n x: kick,\n}\n"), BuildError::UnknownTarget);
    assert_eq!(failure("note b 1/8\n"), BuildError::UnknownTarget);
    assert_eq!(failure("set b lp_cutoff = 100\n"), BuildError::UnknownTarget);
}

#[test]
fn a_missing_part_ends_the_build() {
    let set = SampleSet::new();
    let cases = vec![
        score(vec![statement("grid", vec![])]),
        score(vec![statement("map", vec![])]),
        score(vec![statement("tempo", vec![("count", "4"), ("note", "4")])]),
        score(vec![statement("tempo", vec![("bpm", "120"), ("note", "4")])]),
        score(vec![statement("tempo", vec![("bpm", "120"), ("count", "4")])]),
        score(vec![statement("mix", vec![("value", "0.5")])]),
        score(vec![statement("mix", vec![("name", "a")])]),
        score(vec![statement("grid", vec![("name", "a")]), statement("speed", vec![("name", "a")])]),
        score(vec![
            statement("grid", vec![("name", "a")]),
            statement("setter", vec![("name", "a"), ("value", "1")]),
        ]),
        score(vec![
            statement("grid", vec![("name", "a")]),
            statement("setter", vec![("name", "a"), ("prop", "gain")]),
        ]),
    ];
    for case in cases {
        assert_eq!(
            Pipeline::from_tree(&case, &set).err(),
            Some(BuildError::MissingField),
            "{:?}",
            case
        );
    }
}

#[test]
fn a_number_that_is_none_ends_the_build() {
    let set = SampleSet::new();
    let cases = vec![
        score(vec![statement("tempo", vec![("bpm", "fast"), ("count", "4"), ("note", "4")])]),
        score(vec![statement("tempo", vec![("bpm", "120"), ("count", "4.5"), ("note", "4")])]),
        score(vec![statement("tempo", vec![("bpm", "120"), ("count", "4"), ("note", "4294967296")])]),
        score(vec![statement("mix", vec![("name", "a"), ("value", "-1")])]),
        score(vec![statement("mix", vec![("name", "a"), ("value", "18446744073710")])]),
    ];
    for case in cases {
        assert_eq!(
            Pipeline::from_tree(&case, &set).err(),
            Some(BuildError::InvalidNumber),
            "{:?}",
            case
        );
    }
}

#[test]
fn the_first_error_counts_declarations_first() {
    let set = SampleSet::new();
    let tree = score(vec![Node::new("riff", ""), statement("grid", vec![])]);
    assert_eq!(Pipeline::from_tree(&tree, &set).err(), Some(BuildError::MissingField));
    let tree = score(vec![
        statement("mix", vec![("name", "a"), ("value", "x")]),
        Node::new("riff", ""),
    ]);
    assert_eq!(Pipeline::from_tree(&tree, &set).err(), Some(BuildError::InvalidNumber));
}

#[test]
fn keyed_lists() {
    let mut list: Vec<(String, Decimal)> = Vec::new();
    assert_eq!(find_name(&list, "a"), 0);
    put_entry(&mut list, "a", Decimal { micros: 1 });
    put_entry(&mut list, "b", Decimal { micros: 2 });
    put_entry(&mut list, "a", Decimal { micros: 3 });
    assert_eq!(
        list,
        vec![("a".to_string(), Decimal { micros: 3 }), ("b".to_string(), Decimal { micros: 2 })]
    );
    assert_eq!(find_name(&list, "a"), 0);
    assert_eq!(find_name(&list, "b"), 1);
    assert_eq!(find_name(&list, "c"), 2);
}

fn tiny(names: &[&str], bar_length: u128) -> Pipeline {
    let mut source = String::new();
    for name in names {
        source.push_str(&format!("grid {} {{\n x _\n}}\nmap {} {{\n x: kick,\n}}\n", name, name));
    }
    let mut p = build(&source).unwrap();
    p.bar_length = bar_length;
    p
}

#[test]
fn hot_reload_lands_on_the_phrase_boundary() {
    let mut rng = StdRng::seed_from_u64(0);
    let bar_length = 6;
    let mut live = tiny(&["drums", "bass"], bar_length);
    assert!(!live.send_sample(&mut rng).swapped);
    assert_eq!(live.time, 1);
    live.update(tiny(&["lead"], 10));
    assert_eq!(names(&live), vec!["drums", "bass"]);
    assert_eq!(live.time, 1);
    for step in 0..4 * bar_length - 1 {
        let tick = live.send_sample(&mut rng);
        assert!(!tick.swapped, "swapped at step {}", step);
        assert_eq!(tick.voices.len(), 2);
        assert_eq!(names(&live), vec!["drums", "bass"]);
        assert_eq!(live.bar_length, bar_length);
        assert!(live.next.is_some());
    }
    assert_eq!(live.time, 4 * bar_length);
    let tick = live.send_sample(&mut rng);
    assert!(tick.swapped);
    assert_eq!(tick.time, 0);
    assert_eq!(tick.voices.len(), 1);
    assert_eq!(names(&live), vec!["lead"]);
    assert_eq!(live.bar_length, 10);
    assert!(live.next.is_none());
    assert_eq!(live.time, 1);
    assert_eq!(live.mix, vec![("lead".to_string(), Weight { num: 1_000_000, den: 1_000_000 })]);
}

#[test]
fn a_proposal_at_the_boundary_takes_over_at_once() {
    let mut rng = StdRng::seed_from_u64(0);
    let mut live = tiny(&["drums"], 6);
    live.update(tiny(&["lead"], 6));
    assert!(live.on_boundary());
    assert!(live.send_sample(&mut rng).swapped);
    assert_eq!(names(&live), vec!["lead"]);
    assert_eq!(live.time, 1);
    assert!(!live.on_boundary());
}

#[test]
fn without_a_proposal_the_clock_just_runs() {
    let mut rng = StdRng::seed_from_u64(0);
    let mut live = tiny(&["drums"], 2);
    for expected in 1..=20 {
        let tick = live.send_sample(&mut rng);
        assert!(!tick.swapped);
        assert_eq!(tick.time, expected - 1);
        assert_eq!(live.time, expected);
    }
    live.time = u128::MAX;
    live.send_sample(&mut rng);
    assert_eq!(live.time, 0);
}

#[test]
fn phrase_boundaries() {
    let mut p = tiny(&[], 5);
    for time in 0..100 {
        p.time = time;
        assert_eq!(p.on_boundary(), time % 20 == 0);
    }
    p.bar_length = 0;
    p.time = 7;
    assert!(p.on_boundary());
    p.bar_length = u128::MAX;
    assert!(!p.on_boundary());
    p.time = 0;
    assert!(p.on_boundary());
    p.bar_length = u128::MAX / 4;
    p.time = u128::MAX - 3;
    assert!(p.on_boundary());
}

#[test]
fn setting_by_hand() {
    let mut live = tiny(&["drums"], 6);
    live.set_output_config(44100);
    assert_eq!(live.sample_rate, 44100);
    live.set_to_new();
    assert_eq!(names(&live), vec!["drums"]);
    live.time = 3;
    live.update(tiny(&["lead", "pad"], 9));
    live.set_to_new();
    assert_eq!(names(&live), vec!["lead", "pad"]);
    assert_eq!(live.time, 0);
    assert_eq!(live.bar_length, 9);
    assert_eq!(live.sample_rate, 44100);
    assert!(live.next.is_none());
}

#[test]
fn every_track_gives_one_voice() {
    let mut rng = StdRng::seed_from_u64(0);
    let mut p = build(
        "grid drums {\n x _\n}\ngrid keys {\n [3]a\n}\ngrid rest {\n _\n}\nmap drums {\n x: kick,\n}\nmix drums 3.0\nset keys lp_cutoff = 2800\nset rest lp_cutoff = 1000\n",
    )
    .unwrap();
    let kick = Arc::new(Sample::try_new("kick.wav", &vec![100; 64], 1, 48000).unwrap());
    match &mut p.playables[0].1 {
        Playable::Grid(g) => {
            let mut player = SamplePlayer::new(kick);
            player.speed = Decimal { micros: 1_000_000 };
            g.tokens[0] = GridToken::Hit(player);
        }
    }
    let tick = p.send_sample(&mut rng);
    assert_eq!(tick.voices.len(), 3);
    assert!(matches!(&tick.voices[0].sound, Sound::Sample(r) if r.low == 100 && r.num == 0));
    assert!(matches!(&tick.voices[1].sound, Sound::Note(n) if n.to_string() == "[3]A"));
    assert!(matches!(&tick.voices[2].sound, Sound::Silence));
    assert_eq!(tick.voices[0].weight, Weight { num: 3_000_000, den: 5_000_000 });
    assert_eq!(tick.voices[1].weight, Weight { num: 1_000_000, den: 5_000_000 });
    assert_eq!(tick.voices[0].chain, None);
    assert_eq!(tick.voices[1].chain, Some(0));
    assert_eq!(tick.voices[2].chain, Some(1));
    p.mix.remove(2);
    let tick = p.send_sample(&mut rng);
    assert_eq!(tick.voices[2].weight, Weight { num: 0, den: 1 });
}

#[test]
fn a_configuration_names_the_sample_directory() {
    let config = PipelineConfig { samples_dir: "samples".to_string() };
    assert_eq!(config.samples_dir, "samples");
}
