//! Building a score from its syntax tree: what each statement does to the
//! tracks, the effect chains, the mix and the bar length.

use crate::grid::all_resolved;
use crate::grid::bindings_of;
use crate::grid::grid_of;
use crate::grid::Grid;
use crate::grid::GridView;
use crate::keyed::covers;
use crate::keyed::distinct;
use crate::keyed::find_name;
use crate::keyed::keys;
use crate::keyed::lemma_name_found;
use crate::keyed::lemma_name_index;
use crate::keyed::lemma_put_keys;
use crate::keyed::name_index;
use crate::keyed::named;
use crate::keyed::names_of;
use crate::keyed::put;
use crate::keyed::put_entry;
use crate::pipeline::bar_samples;
use crate::pipeline::samples_per_bar;
use crate::pipeline::Playable;
use crate::postproc::fir_length;
use crate::postproc::Effect;
use crate::postproc::FIRBuilder;
use crate::postproc::Gain;
use crate::postproc::Response;
use crate::postproc::FIR;
use crate::sampler::Sample;
use crate::sampler::SampleSet;
use crate::text::parse_decimal;
use crate::text::parse_integer;
use crate::text::parse_u32;
use crate::text::str_eq;
use crate::text::Decimal;
use crate::util::FromNode;
use crate::util::Node;
use std::sync::Arc;
use vstd::prelude::*;

verus! {

/// Why a score could not be built.
#[derive(Debug, Clone, Copy, PartialEq, Eq, Structural)]
pub enum BuildError {
    /// A top-level statement is of no known kind.
    UnknownStatement,
    /// A statement names a track that the score does not declare.
    UnknownTarget,
    /// A statement lacks one of its parts.
    MissingField,
    /// A number is not written as one, or is too large.
    InvalidNumber,
}

/// The rate, in frames per second, that a score is built for.
pub const BUILD_SAMPLE_RATE: u32 = 48000;

/// The mathematical value of a score while it is built: its tracks, effect
/// chains and raw mix weights, each keyed by the track's name, and the
/// length of a bar.
pub struct ScoreView {
    pub playables: Seq<(Seq<char>, GridView)>,
    pub effects: Seq<(Seq<char>, Seq<Effect>)>,
    pub mix: Seq<(Seq<char>, Decimal)>,
    pub bar_length: u128,
}

/// The text of the child under `field`, read as a decimal number.
pub open spec fn decimal_field(node: Node, field: Seq<char>) -> Result<Decimal, BuildError> {
    match node.field_child(field) {
        Some(child) => match parse_decimal(child.text@) {
            Some(v) => if v <= u64::MAX {
                Ok(Decimal { micros: v as u64 })
            } else {
                Err(BuildError::InvalidNumber)
            },
            None => Err(BuildError::InvalidNumber),
        },
        None => Err(BuildError::MissingField),
    }
}

/// The text of the child under `field`, read as a whole number.
pub open spec fn integer_field(node: Node, field: Seq<char>) -> Result<u32, BuildError> {
    match node.field_child(field) {
        Some(child) => match parse_integer(child.text@) {
            Some(v) => if v <= u32::MAX {
                Ok(v as u32)
            } else {
                Err(BuildError::InvalidNumber)
            },
            None => Err(BuildError::InvalidNumber),
        },
        None => Err(BuildError::MissingField),
    }
}

/// The position of the track that a statement names under `name`.
pub open spec fn target_of(playables: Seq<(Seq<char>, GridView)>, node: Node) -> Result<
    int,
    BuildError,
> {
    match node.field_child("name"@) {
        Some(name) => {
            let i = name_index(keys(playables), name.text@);
            if i < playables.len() {
                Ok(i)
            } else {
                Err(BuildError::UnknownTarget)
            }
        },
        None => Err(BuildError::MissingField),
    }
}

/// The tracks after a grid declaration: the grid it writes, under its name.
/// Any other statement declares nothing.
pub open spec fn declare(playables: Seq<(Seq<char>, GridView)>, node: Node) -> Result<
    Seq<(Seq<char>, GridView)>,
    BuildError,
> {
    if node.kind@ == "grid"@ {
        match node.field_child("name"@) {
            Some(name) => Ok(put(playables, name.text@, grid_of(node))),
            None => Err(BuildError::MissingField),
        }
    } else {
        Ok(playables)
    }
}

/// The tracks that a run of statements declares, in document order.
pub open spec fn declared(nodes: Seq<Node>) -> Result<Seq<(Seq<char>, GridView)>, BuildError>
    decreases nodes.len(),
{
    if nodes.len() == 0 {
        Ok(Seq::empty())
    } else {
        match declared(nodes.drop_last()) {
            Ok(playables) => declare(playables, nodes.last()),
            Err(e) => Err(e),
        }
    }
}

/// The bar length before any tempo statement: that of 120 beats per minute
/// in 4/4.
pub open spec fn default_bar() -> u128 {
    bar_samples(Decimal { micros: 120_000_000 }, (4u32, 4u32), BUILD_SAMPLE_RATE) as u128
}

/// The mix before any mix statement: every track at weight one.
pub open spec fn even_mix(playables: Seq<(Seq<char>, GridView)>) -> Seq<(Seq<char>, Decimal)> {
    Seq::new(playables.len(), |i: int| (playables[i].0, Decimal { micros: 1_000_000 }))
}

/// A mapping statement resolves the names of the grid it targets.
pub open spec fn apply_map(
    score: ScoreView,
    node: Node,
    samples: Seq<(String, Arc<Sample>)>,
) -> Result<ScoreView, BuildError> {
    match target_of(score.playables, node) {
        Ok(i) => {
            let grid = score.playables[i].1;
            let mapped = GridView {
                tokens: all_resolved(
                    grid.tokens,
                    bindings_of(node.field_children("pair"@), samples),
                ),
                ..grid
            };
            Ok(
                ScoreView {
                    playables: score.playables.update(i, (score.playables[i].0, mapped)),
                    ..score
                },
            )
        },
        Err(e) => Err(e),
    }
}

/// A tempo statement sets the bar length, and the tempo and time signature
/// of every grid.
pub open spec fn apply_tempo(score: ScoreView, node: Node) -> Result<ScoreView, BuildError> {
    match decimal_field(node, "bpm"@) {
        Ok(bpm) => match integer_field(node, "count"@) {
            Ok(count) => match integer_field(node, "note"@) {
                Ok(note) => Ok(
                    ScoreView {
                        playables: Seq::new(
                            score.playables.len(),
                            |i: int|
                                (
                                    score.playables[i].0,
                                    GridView {
                                        tempo: bpm,
                                        time_sign: (count, note),
                                        ..score.playables[i].1
                                    },
                                ),
                        ),
                        bar_length: bar_samples(bpm, (count, note), BUILD_SAMPLE_RATE) as u128,
                        ..score
                    },
                ),
                Err(e) => Err(e),
            },
            Err(e) => Err(e),
        },
        Err(e) => Err(e),
    }
}

/// A speed statement sets the note length of the grid it targets to the
/// fraction written by its third child.
pub open spec fn apply_speed(score: ScoreView, node: Node) -> Result<ScoreView, BuildError> {
    match target_of(score.playables, node) {
        Ok(i) => match node.nth_child(2) {
            Some(sign) => match integer_field(sign, "numer"@) {
                Ok(numer) => match integer_field(sign, "denom"@) {
                    Ok(denom) => Ok(
                        ScoreView {
                            playables: score.playables.update(
                                i,
                                (
                                    score.playables[i].0,
                                    GridView { note_length: (numer, denom), ..score.playables[i].1 },
                                ),
                            ),
                            ..score
                        },
                    ),
                    Err(e) => Err(e),
                },
                Err(e) => Err(e),
            },
            None => Err(BuildError::MissingField),
        },
        Err(e) => Err(e),
    }
}

/// A mix statement sets the raw weight of the track it names.
pub open spec fn apply_mix(score: ScoreView, node: Node) -> Result<ScoreView, BuildError> {
    match node.field_child("name"@) {
        Some(name) => match decimal_field(node, "value"@) {
            Ok(value) => Ok(ScoreView { mix: put(score.mix, name.text@, value), ..score }),
            Err(e) => Err(e),
        },
        None => Err(BuildError::MissingField),
    }
}

/// The effect that a setter makes of a property and a value, if the
/// property is one of `lp_cutoff`, `hp_cutoff` and `gain`.
pub open spec fn effect_of(prop: Seq<char>, value: Decimal) -> Option<Effect> {
    if prop == "lp_cutoff"@ {
        Some(
            Effect::FIR(
                FIR {
                    response: Response::LowPass,
                    cutoff: value,
                    sample_rate: BUILD_SAMPLE_RATE,
                    taps: fir_length(value, BUILD_SAMPLE_RATE) as usize,
                },
            ),
        )
    } else if prop == "hp_cutoff"@ {
        Some(
            Effect::FIR(
                FIR {
                    response: Response::HighPass,
                    cutoff: value,
                    sample_rate: BUILD_SAMPLE_RATE,
                    taps: fir_length(value, BUILD_SAMPLE_RATE) as usize,
                },
            ),
        )
    } else if prop == "gain"@ {
        Some(Effect::Gain(Gain { amount: value }))
    } else {
        None
    }
}

/// The effect chains with `effect` added at the end of the chain of the
/// track `name`; a track without a chain gets one.
pub open spec fn chained(effects: Seq<(Seq<char>, Seq<Effect>)>, name: Seq<char>, effect: Effect) -> Seq<
    (Seq<char>, Seq<Effect>),
> {
    let i = name_index(keys(effects), name);
    if i < effects.len() {
        effects.update(i, (effects[i].0, effects[i].1.push(effect)))
    } else {
        effects.push((name, seq![effect]))
    }
}

/// Whether a setter knows the property.
pub open spec fn known_property(prop: Seq<char>) -> bool {
    prop == "lp_cutoff"@ || prop == "hp_cutoff"@ || prop == "gain"@
}

/// A setter statement adds an effect to the chain of the track it targets.
/// A property that is none of the known ones changes nothing.
pub open spec fn apply_setter(score: ScoreView, node: Node) -> Result<ScoreView, BuildError> {
    match target_of(score.playables, node) {
        Ok(i) => match (node.field_child("prop"@), node.field_child("value"@)) {
            (Some(prop), Some(_)) => if known_property(prop.text@) {
                match decimal_field(node, "value"@) {
                    Ok(value) => Ok(
                        ScoreView {
                            effects: chained(
                                score.effects,
                                score.playables[i].0,
                                effect_of(prop.text@, value)->0,
                            ),
                            ..score
                        },
                    ),
                    Err(e) => Err(e),
                }
            } else {
                Ok(score)
            },
            _ => Err(BuildError::MissingField),
        },
        Err(e) => Err(e),
    }
}

/// The score after one top-level statement. A statement of no known kind is
/// an error.
pub open spec fn apply(score: ScoreView, node: Node, samples: Seq<(String, Arc<Sample>)>) -> Result<
    ScoreView,
    BuildError,
> {
    if node.kind@ == "grid"@ {
        Ok(score)
    } else if node.kind@ == "map"@ {
        apply_map(score, node, samples)
    } else if node.kind@ == "tempo"@ {
        apply_tempo(score, node)
    } else if node.kind@ == "speed"@ {
        apply_speed(score, node)
    } else if node.kind@ == "mix"@ {
        apply_mix(score, node)
    } else if node.kind@ == "setter"@ {
        apply_setter(score, node)
    } else {
        Err(BuildError::UnknownStatement)
    }
}

/// The score after a run of top-level statements, in document order.
pub open spec fn applied(
    score: ScoreView,
    nodes: Seq<Node>,
    samples: Seq<(String, Arc<Sample>)>,
) -> Result<ScoreView, BuildError>
    decreases nodes.len(),
{
    if nodes.len() == 0 {
        Ok(score)
    } else {
        match applied(score, nodes.drop_last(), samples) {
            Ok(so_far) => apply(so_far, nodes.last(), samples),
            Err(e) => Err(e),
        }
    }
}

/// The score that a syntax tree writes.
///
/// First every grid declaration declares its track. Then every track gets
/// the weight one, the bar length is that of 120 beats per minute in 4/4,
/// and the statements are applied in document order. The first error ends
/// the build.
pub open spec fn built(root: Node, samples: Seq<(String, Arc<Sample>)>) -> Result<
    ScoreView,
    BuildError,
> {
    match declared(root.children@) {
        Ok(playables) => applied(
            ScoreView {
                playables,
                effects: Seq::empty(),
                mix: even_mix(playables),
                bar_length: default_bar(),
            },
            root.children@,
            samples,
        ),
        Err(e) => Err(e),
    }
}

/// A score while it is built.
#[derive(Debug)]
pub struct Draft {
    pub playables: Vec<(String, Playable)>,
    pub effects: Vec<(String, Vec<Effect>)>,
    pub mix: Vec<(String, Decimal)>,
    pub bar_length: u128,
}

impl View for Draft {
    type V = ScoreView;

    open spec fn view(&self) -> ScoreView {
        ScoreView {
            playables: named(self.playables@),
            effects: named(self.effects@),
            mix: named(self.mix@),
            bar_length: self.bar_length,
        }
    }
}

/// Reads the text of the child under `field` as a decimal number.
pub fn read_decimal(node: &Node, field: &str) -> (r: Result<Decimal, BuildError>)
    ensures
        r == decimal_field(*node, field@),
{
    match node.child_by_field_name(field) {
        Some(child) => match Decimal::parse(child.text.as_str()) {
            Some(d) => Ok(d),
            None => Err(BuildError::InvalidNumber),
        },
        None => Err(BuildError::MissingField),
    }
}

/// Reads the text of the child under `field` as a whole number.
pub fn read_integer(node: &Node, field: &str) -> (r: Result<u32, BuildError>)
    ensures
        r == integer_field(*node, field@),
{
    match node.child_by_field_name(field) {
        Some(child) => match parse_u32(child.text.as_str()) {
            Some(n) => Ok(n),
            None => Err(BuildError::InvalidNumber),
        },
        None => Err(BuildError::MissingField),
    }
}

/// Declares the track of a grid declaration; any other statement declares
/// nothing.
pub fn declare_playable(playables: &mut Vec<(String, Playable)>, node: &Node) -> (r: Result<
    (),
    BuildError,
>)
    ensures
        match r {
            Ok(_) => declare(named(old(playables)@), *node) == Ok::<
                Seq<(Seq<char>, GridView)>,
                BuildError,
            >(named(final(playables)@)),
            Err(e) => declare(named(old(playables)@), *node) == Err::<
                Seq<(Seq<char>, GridView)>,
                BuildError,
            >(e),
        },
{
    if !node.is_kind("grid") {
        return Ok(());
    }
    let name = match node.child_by_field_name("name") {
        Some(name) => name,
        None => {
            return Err(BuildError::MissingField);
        },
    };
    match Grid::from_node(node) {
        Some(grid) => {
            assert(grid@ == grid_of(*node));
            put_entry(playables, name.text.as_str(), Playable::Grid(grid));
            Ok(())
        },
        None => Ok(()),
    }
}

impl Draft {
    /// Finds the track that a statement names under `name`.
    pub fn find_target(&self, node: &Node) -> (r: Result<usize, BuildError>)
        ensures
            match r {
                Ok(i) => target_of(self@.playables, *node) == Ok::<int, BuildError>(i as int) && i
                    < self.playables@.len(),
                Err(e) => target_of(self@.playables, *node) == Err::<int, BuildError>(e),
            },
    {
        let name = match node.child_by_field_name("name") {
            Some(name) => name,
            None => {
                return Err(BuildError::MissingField);
            },
        };
        let i = find_name(&self.playables, name.text.as_str());
        assert(names_of(self.playables@) =~= keys(self@.playables));
        if i < self.playables.len() {
            Ok(i)
        } else {
            Err(BuildError::UnknownTarget)
        }
    }

    /// Applies a mapping statement.
    pub fn apply_map(&mut self, node: &Node, sampleset: &SampleSet) -> (r: Result<(), BuildError>)
        ensures
            match r {
                Ok(_) => apply_map(old(self)@, *node, sampleset.samples@) == Ok::<ScoreView, BuildError>(
                    final(self)@,
                ),
                Err(e) => apply_map(old(self)@, *node, sampleset.samples@) == Err::<
                    ScoreView,
                    BuildError,
                >(e) && *final(self) == *old(self),
            },
    {
        let i = match self.find_target(node) {
            Ok(i) => i,
            Err(e) => {
                return Err(e);
            },
        };
        let ghost before = self.playables@;
        match &mut self.playables[i].1 {
            Playable::Grid(g) => g.map_from_node(node, sampleset),
        }
        assert(named(self.playables@) =~= named(before).update(
            i as int,
            (named(before)[i as int].0, self.playables@[i as int].1@),
        ));
        Ok(())
    }

    /// Applies a speed statement.
    pub fn apply_speed(&mut self, node: &Node) -> (r: Result<(), BuildError>)
        ensures
            match r {
                Ok(_) => apply_speed(old(self)@, *node) == Ok::<ScoreView, BuildError>(
                    final(self)@,
                ),
                Err(e) => apply_speed(old(self)@, *node) == Err::<ScoreView, BuildError>(e)
                    && *final(self) == *old(self),
            },
    {
        let i = match self.find_target(node) {
            Ok(i) => i,
            Err(e) => {
                return Err(e);
            },
        };
        let sign = match node.child(2) {
            Some(sign) => sign,
            None => {
                return Err(BuildError::MissingField);
            },
        };
        let numer = match read_integer(sign, "numer") {
            Ok(n) => n,
            Err(e) => {
                return Err(e);
            },
        };
        let denom = match read_integer(sign, "denom") {
            Ok(n) => n,
            Err(e) => {
                return Err(e);
            },
        };
        let ghost before = self.playables@;
        match &mut self.playables[i].1 {
            Playable::Grid(g) => g.set_note_length((numer, denom)),
        }
        assert(named(self.playables@) =~= named(before).update(
            i as int,
            (named(before)[i as int].0, self.playables@[i as int].1@),
        ));
        Ok(())
    }

    /// Applies a mix statement.
    pub fn apply_mix(&mut self, node: &Node) -> (r: Result<(), BuildError>)
        ensures
            match r {
                Ok(_) => apply_mix(old(self)@, *node) == Ok::<ScoreView, BuildError>(
                    final(self)@,
                ),
                Err(e) => apply_mix(old(self)@, *node) == Err::<ScoreView, BuildError>(e)
                    && *final(self) == *old(self),
            },
    {
        let name = match node.child_by_field_name("name") {
            Some(name) => name,
            None => {
                return Err(BuildError::MissingField);
            },
        };
        let value = match read_decimal(node, "value") {
            Ok(v) => v,
            Err(e) => {
                return Err(e);
            },
        };
        put_entry(&mut self.mix, name.text.as_str(), value);
        Ok(())
    }
}

/// Makes the effect that a setter makes of a property and a value.
pub fn make_effect(prop: &str, value: Decimal) -> (r: Option<Effect>)
    ensures
        r == effect_of(prop@, value),
{
    if str_eq(prop, "lp_cutoff") {
        Some(Effect::FIR(FIRBuilder::new().low_pass(value, BUILD_SAMPLE_RATE).build()))
    } else if str_eq(prop, "hp_cutoff") {
        Some(Effect::FIR(FIRBuilder::new().high_pass(value, BUILD_SAMPLE_RATE).build()))
    } else if str_eq(prop, "gain") {
        Some(Effect::Gain(Gain::new(value)))
    } else {
        None
    }
}

/// Adds `effect` at the end of the chain of the track `name`; a track
/// without a chain gets one.
pub fn chain_effect(effects: &mut Vec<(String, Vec<Effect>)>, name: &str, effect: Effect)
    ensures
        named(final(effects)@) == chained(named(old(effects)@), name@, effect),
{
    let ghost before = named(effects@);
    let i = find_name(effects, name);
    assert(names_of(effects@) =~= keys(before));
    if i < effects.len() {
        effects[i].1.push(effect);
        assert(named(effects@) =~= before.update(
            i as int,
            (before[i as int].0, before[i as int].1.push(effect)),
        ));
    } else {
        let mut chain: Vec<Effect> = Vec::new();
        chain.push(effect);
        assert(chain@ =~= seq![effect]);
        effects.push((name.to_owned(), chain));
        assert(named(effects@) =~= before.push((name@, seq![effect])));
    }
}

impl Draft {
    /// Applies a tempo statement.
    pub fn apply_tempo(&mut self, node: &Node) -> (r: Result<(), BuildError>)
        ensures
            match r {
                Ok(_) => apply_tempo(old(self)@, *node) == Ok::<ScoreView, BuildError>(
                    final(self)@,
                ),
                Err(e) => apply_tempo(old(self)@, *node) == Err::<ScoreView, BuildError>(e)
                    && *final(self) == *old(self),
            },
    {
        let bpm = match read_decimal(node, "bpm") {
            Ok(v) => v,
            Err(e) => {
                return Err(e);
            },
        };
        let count = match read_integer(node, "count") {
            Ok(n) => n,
            Err(e) => {
                return Err(e);
            },
        };
        let note = match read_integer(node, "note") {
            Ok(n) => n,
            Err(e) => {
                return Err(e);
            },
        };
        self.bar_length = samples_per_bar(bpm, (count, note), BUILD_SAMPLE_RATE);
        let ghost before = named(self.playables@);
        let mut k: usize = 0;
        while k < self.playables.len()
            invariant
                k <= self.playables@.len() == before.len(),
                self.effects == old(self).effects,
                self.mix == old(self).mix,
                self.bar_length == bar_samples(bpm, (count, note), BUILD_SAMPLE_RATE),
                forall|j: int|
                    0 <= j < k ==> (#[trigger] named(self.playables@)[j]) == (
                        before[j].0,
                        GridView { tempo: bpm, time_sign: (count, note), ..before[j].1 },
                    ),
                forall|j: int|
                    k <= j < before.len() ==> (#[trigger] named(self.playables@)[j]) == before[j],
            decreases self.playables@.len() - k,
        {
            let ghost earlier = named(self.playables@);
            match &mut self.playables[k].1 {
                Playable::Grid(g) => g.set_tempo_and_time(bpm, (count, note)),
            }
            assert forall|j: int| 0 <= j < before.len() && j != k implies (#[trigger] named(
                self.playables@,
            )[j]) == earlier[j] by {}
            assert(earlier[k as int] == before[k as int]);
            assert(named(self.playables@)[k as int] == (
                before[k as int].0,
                GridView { tempo: bpm, time_sign: (count, note), ..before[k as int].1 },
            ));
            k += 1;
        }
        assert(named(self.playables@) =~= apply_tempo(old(self)@, *node)->Ok_0.playables);
        Ok(())
    }

    /// Applies a setter statement.
    pub fn apply_setter(&mut self, node: &Node) -> (r: Result<(), BuildError>)
        ensures
            match r {
                Ok(_) => apply_setter(old(self)@, *node) == Ok::<ScoreView, BuildError>(
                    final(self)@,
                ),
                Err(e) => apply_setter(old(self)@, *node) == Err::<ScoreView, BuildError>(e)
                    && *final(self) == *old(self),
            },
    {
        let i = match self.find_target(node) {
            Ok(i) => i,
            Err(e) => {
                return Err(e);
            },
        };
        let prop = match node.child_by_field_name("prop") {
            Some(prop) => prop,
            None => {
                return Err(BuildError::MissingField);
            },
        };
        if node.child_by_field_name("value").is_none() {
            return Err(BuildError::MissingField);
        }
        if make_effect(prop.text.as_str(), Decimal { micros: 0 }).is_none() {
            assert(self@ =~= old(self)@);
            return Ok(());
        }
        let value = match read_decimal(node, "value") {
            Ok(v) => v,
            Err(e) => {
                return Err(e);
            },
        };
        match make_effect(prop.text.as_str(), value) {
            Some(effect) => {
                chain_effect(&mut self.effects, self.playables[i].0.as_str(), effect);
            },
            None => {},
        }
        Ok(())
    }

    /// Applies one top-level statement.
    pub fn apply(&mut self, node: &Node, sampleset: &SampleSet) -> (r: Result<(), BuildError>)
        ensures
            match r {
                Ok(_) => apply(old(self)@, *node, sampleset.samples@) == Ok::<
                    ScoreView,
                    BuildError,
                >(final(self)@),
                Err(e) => apply(old(self)@, *node, sampleset.samples@) == Err::<
                    ScoreView,
                    BuildError,
                >(e) && *final(self) == *old(self),
            },
    {
        if node.is_kind("grid") {
            Ok(())
        } else if node.is_kind("map") {
            self.apply_map(node, sampleset)
        } else if node.is_kind("tempo") {
            self.apply_tempo(node)
        } else if node.is_kind("speed") {
            self.apply_speed(node)
        } else if node.is_kind("mix") {
            self.apply_mix(node)
        } else if node.is_kind("setter") {
            self.apply_setter(node)
        } else {
            Err(BuildError::UnknownStatement)
        }
    }
}

/// Once a prefix of the statements fails to declare its tracks, the whole
/// run fails with the same error.
pub proof fn lemma_declared_fails(nodes: Seq<Node>, k: int)
    requires
        0 <= k <= nodes.len(),
        declared(nodes.take(k)) is Err,
    ensures
        declared(nodes) == declared(nodes.take(k)),
    decreases nodes.len(),
{
    if k == nodes.len() {
        assert(nodes.take(k) =~= nodes);
    } else {
        assert(nodes.drop_last().take(k) =~= nodes.take(k));
        lemma_declared_fails(nodes.drop_last(), k);
    }
}

/// Once a prefix of the statements fails to apply, the whole run fails with
/// the same error.
pub proof fn lemma_applied_fails(
    score: ScoreView,
    nodes: Seq<Node>,
    samples: Seq<(String, Arc<Sample>)>,
    k: int,
)
    requires
        0 <= k <= nodes.len(),
        applied(score, nodes.take(k), samples) is Err,
    ensures
        applied(score, nodes, samples) == applied(score, nodes.take(k), samples),
    decreases nodes.len(),
{
    if k == nodes.len() {
        assert(nodes.take(k) =~= nodes);
    } else {
        assert(nodes.drop_last().take(k) =~= nodes.take(k));
        lemma_applied_fails(score, nodes.drop_last(), samples, k);
    }
}

/// Whether a score is well formed: no track, effect chain or mix weight is
/// entered twice under one name, and every track has a mix weight.
pub open spec fn well_formed(score: ScoreView) -> bool {
    &&& distinct(keys(score.playables))
    &&& distinct(keys(score.effects))
    &&& distinct(keys(score.mix))
    &&& covers(keys(score.mix), keys(score.playables))
}

/// Adding an effect to a chain enters no name twice.
pub proof fn lemma_chained_keys(
    effects: Seq<(Seq<char>, Seq<Effect>)>,
    name: Seq<char>,
    effect: Effect,
)
    requires
        distinct(keys(effects)),
    ensures
        distinct(keys(chained(effects, name, effect))),
{
    let before = keys(effects);
    let after = keys(chained(effects, name, effect));
    lemma_name_index(before, name);
    if name_index(before, name) < effects.len() {
        assert(after =~= before);
    } else {
        assert(after =~= before.push(name));
    }
}

/// The tracks that a run of statements declares have distinct names.
pub proof fn lemma_declared_distinct(nodes: Seq<Node>)
    ensures
        declared(nodes) matches Ok(playables) ==> distinct(keys(playables)),
    decreases nodes.len(),
{
    if nodes.len() > 0 {
        lemma_declared_distinct(nodes.drop_last());
        if let Ok(playables) = declared(nodes.drop_last()) {
            let node = nodes.last();
            if node.kind@ == "grid"@ {
                if let Some(name) = node.field_child("name"@) {
                    lemma_put_keys(playables, name.text@, grid_of(node));
                }
            }
        }
    } else {
        assert(keys(Seq::<(Seq<char>, GridView)>::empty()) =~= Seq::empty());
    }
}

/// One statement keeps a well-formed score well formed.
pub proof fn lemma_apply_well_formed(
    score: ScoreView,
    node: Node,
    samples: Seq<(String, Arc<Sample>)>,
)
    requires
        well_formed(score),
    ensures
        apply(score, node, samples) matches Ok(after) ==> well_formed(after),
{
    if let Ok(after) = apply(score, node, samples) {
        if let Some(name) = node.field_child("name"@) {
            lemma_name_index(keys(score.playables), name.text@);
        }
        if node.kind@ == "grid"@ {
        } else if node.kind@ == "map"@ || node.kind@ == "tempo"@ || node.kind@ == "speed"@ {
            assert(keys(after.playables) =~= keys(score.playables));
        } else if node.kind@ == "mix"@ {
            let name = node.field_child("name"@)->0;
            let value = decimal_field(node, "value"@)->Ok_0;
            lemma_put_keys(score.mix, name.text@, value);
        } else if node.kind@ == "setter"@ {
            let i = target_of(score.playables, node)->Ok_0;
            let prop = node.field_child("prop"@)->0;
            if known_property(prop.text@) {
                let value = decimal_field(node, "value"@)->Ok_0;
                lemma_chained_keys(
                    score.effects,
                    score.playables[i].0,
                    effect_of(prop.text@, value)->0,
                );
            }
        }
    }
}

/// A run of statements keeps a well-formed score well formed.
pub proof fn lemma_applied_well_formed(
    score: ScoreView,
    nodes: Seq<Node>,
    samples: Seq<(String, Arc<Sample>)>,
)
    requires
        well_formed(score),
    ensures
        applied(score, nodes, samples) matches Ok(after) ==> well_formed(after),
    decreases nodes.len(),
{
    if nodes.len() > 0 {
        lemma_applied_well_formed(score, nodes.drop_last(), samples);
        if let Ok(so_far) = applied(score, nodes.drop_last(), samples) {
            lemma_apply_well_formed(so_far, nodes.last(), samples);
        }
    }
}

/// Every score that is built is well formed.
pub proof fn lemma_built_well_formed(root: Node, samples: Seq<(String, Arc<Sample>)>)
    ensures
        built(root, samples) matches Ok(score) ==> well_formed(score),
{
    lemma_declared_distinct(root.children@);
    if let Ok(playables) = declared(root.children@) {
        let initial = ScoreView {
            playables,
            effects: Seq::empty(),
            mix: even_mix(playables),
            bar_length: default_bar(),
        };
        assert(keys(initial.mix) =~= keys(playables));
        assert(keys(initial.effects) =~= Seq::empty());
        assert forall|i: int| 0 <= i < playables.len() implies name_index(
            keys(initial.mix),
            #[trigger] keys(playables)[i],
        ) < initial.mix.len() by {
            lemma_name_found(keys(initial.mix), keys(playables)[i], i);
        }
        lemma_applied_well_formed(initial, root.children@, samples);
    }
}

} // verus!
