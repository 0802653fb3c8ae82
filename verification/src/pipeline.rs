//! The pipeline: the named tracks of a score with their effect chains and
//! mix weights, the sample clock, and the swap to an edited score at a
//! phrase boundary.

use crate::arith::mul_rate;
use crate::grid::Grid;
use crate::grid::GridView;
use crate::grid::Sound;
use crate::grid::SoundView;
use crate::keyed::covers;
use crate::keyed::distinct;
use crate::keyed::find_name;
use crate::keyed::keys;
use crate::keyed::name_index;
use crate::keyed::named;
use crate::keyed::names_of;
use crate::mix::lemma_rescaled_normalised;
use crate::mix::normalised;
use crate::mix::rescale_mix;
use crate::mix::rescaled;
use crate::mix::Weight;
use crate::postproc::Effect;
use crate::sampler::SampleSet;
use crate::score::applied;
use crate::score::built;
use crate::score::declare_playable;
use crate::score::declared;
use crate::score::even_mix;
use crate::score::lemma_applied_fails;
use crate::score::lemma_built_well_formed;
use crate::score::lemma_declared_fails;
use crate::score::BuildError;
use crate::score::Draft;
use crate::score::ScoreView;
use crate::score::BUILD_SAMPLE_RATE;
use crate::text::Decimal;
use crate::util::Node;
use rand::rngs::StdRng;
use vstd::prelude::*;

verus! {

/// Something that plays on a track. For now, only grids do.
#[derive(Debug)]
pub enum Playable {
    Grid(Grid),
}

/// Where a pipeline finds what it needs outside the score.
#[derive(Debug)]
pub struct PipelineConfig {
    pub samples_dir: String,
}

/// A running pipeline.
///
/// Tracks, effect chains and mix weights are lists of entries keyed by the
/// track's name, each name at most once. `time` counts the samples produced
/// since the last swap, `bar_length` is the length of a bar in samples, and
/// `next`, if there is one, is the score that takes over at the next phrase
/// boundary.
#[derive(Debug)]
pub struct Pipeline {
    pub playables: Vec<(String, Playable)>,
    pub effects: Vec<(String, Vec<Effect>)>,
    pub mix: Vec<(String, Weight)>,
    pub time: u128,
    pub bar_length: u128,
    pub sample_rate: u32,
    pub next: Option<Box<Pipeline>>,
}

impl View for Playable {
    type V = GridView;

    open spec fn view(&self) -> GridView {
        match self {
            Playable::Grid(g) => g@,
        }
    }
}

/// The bar length in samples: `60 * sample_rate * beats` over the whole
/// beats per minute. It is 0 at less than one beat per minute.
pub open spec fn bar_samples(tempo: Decimal, time_signature: (u32, u32), sample_rate: u32) -> int {
    if tempo.micros < 1_000_000 {
        0
    } else {
        60 * sample_rate * time_signature.0 / (tempo.micros as int / 1_000_000)
    }
}

/// The length of a bar in samples.
pub fn samples_per_bar(tempo: Decimal, time_signature: (u32, u32), sample_rate: u32) -> (samples:
    u128)
    ensures
        samples == bar_samples(tempo, time_signature, sample_rate),
{
    let beats: u64 = tempo.floor();
    if beats == 0 {
        return 0;
    }
    let a: u128 = 60u128 * (sample_rate as u128);
    let b: u128 = mul_rate(a, time_signature.0);
    b / (beats as u128)
}

/// What one track contributes to one output sample: what it sounds, its mix
/// weight, and the position of its effect chain among the pipeline's chains,
/// if it has one.
#[derive(Debug, Clone, PartialEq)]
pub struct Voice {
    pub sound: Sound,
    pub weight: Weight,
    pub chain: Option<usize>,
}

/// What one step of the pipeline produced: whether the pending score took
/// over at this step, the instant of the clock that the step was for, and
/// the voices of the tracks at that instant, in the order of the tracks.
#[derive(Debug, Clone, PartialEq)]
pub struct Tick {
    pub swapped: bool,
    pub time: u128,
    pub voices: Vec<Voice>,
}

/// Whether `time` is a phrase boundary: a multiple of four bars. With bars of
/// no length every instant is one.
pub open spec fn at_boundary(time: u128, bar_length: u128) -> bool {
    bar_length == 0 || time as int % (4 * bar_length) == 0
}

/// The mix weight of the track `name`: that of its entry in the mix, or
/// nothing at all where it has none.
pub open spec fn weight_for(mix: Seq<(String, Weight)>, name: Seq<char>) -> Weight {
    let i = name_index(names_of(mix), name);
    if i < mix.len() {
        mix[i].1
    } else {
        Weight { num: 0, den: 1 }
    }
}

/// The position of the effect chain of the track `name`, if it has one.
pub open spec fn chain_for(effects: Seq<(String, Vec<Effect>)>, name: Seq<char>) -> Option<usize> {
    let i = name_index(names_of(effects), name);
    if i < effects.len() {
        Some(i as usize)
    } else {
        None
    }
}

/// Whether `after` is the grid `before` once it has seen the instant `time`,
/// and `sound` what it then sounds: the cursor has moved as
/// `Grid::schedule` says, for some possible outcome of the trial of a
/// probabilistic hit, and nothing else has changed.
pub open spec fn grid_stepped(
    before: Grid,
    after: Grid,
    sound: SoundView,
    time: u128,
    sample_rate: u32,
) -> bool {
    &&& after.same_score(&before)
    &&& after.next_scheduled == before.next_after(time, sample_rate)
    &&& exists|draw: bool|
        before.possible_at(time, sample_rate, draw) && after.now_playing == before.active_after(
            time,
            sample_rate,
            draw,
        )
    &&& sound == after.sounding(time, sample_rate)
}

/// Whether a track has made its step and `voice` is its contribution.
pub open spec fn track_stepped(
    before: (String, Playable),
    after: (String, Playable),
    voice: Voice,
    start: Pipeline,
) -> bool {
    &&& after.0 == before.0
    &&& match (before.1, after.1) {
        (Playable::Grid(b), Playable::Grid(a)) => grid_stepped(
            b,
            a,
            voice.sound@,
            start.time,
            start.sample_rate,
        ),
    }
    &&& voice.weight == weight_for(start.mix@, before.0@)
    &&& voice.chain == chain_for(start.effects@, before.0@)
}

/// The sample clock one tick after `time`. It wraps round at the end of its
/// range.
pub open spec fn tick_after(time: u128) -> u128 {
    if time == u128::MAX {
        0
    } else {
        (time + 1) as u128
    }
}

/// What hot reload is about: the clock, the bar length, the names of the
/// tracks that play, and, where a score is pending, the names of its tracks
/// and its bar length.
pub struct Phase {
    pub time: u128,
    pub bar_length: u128,
    pub tracks: Seq<Seq<char>>,
    pub pending: Option<Pending>,
}

/// A pending score, as far as hot reload goes: the names of its tracks and
/// its bar length.
pub struct Pending {
    pub tracks: Seq<Seq<char>>,
    pub bar_length: u128,
}

/// One step of the pipeline, as far as hot reload goes. With a score pending
/// at a phrase boundary, its tracks and bar length take over and the clock
/// restarts: this step is instant 0 of the new score, so the clock reads 1
/// after it. Otherwise the clock moves on by one tick and nothing else
/// changes.
pub open spec fn phase_step(p: Phase) -> Phase {
    if p.pending is Some && at_boundary(p.time, p.bar_length) {
        Phase {
            time: 1,
            bar_length: p.pending->0.bar_length,
            tracks: p.pending->0.tracks,
            pending: None,
        }
    } else {
        Phase { time: tick_after(p.time), ..p }
    }
}

/// `steps` steps of the pipeline, as far as hot reload goes.
pub open spec fn phase_run(p: Phase, steps: nat) -> Phase
    decreases steps,
{
    if steps == 0 {
        p
    } else {
        phase_step(phase_run(p, (steps - 1) as nat))
    }
}

impl Pipeline {
    /// Whether the pending score takes over at the next step: there is one,
    /// and the clock stands at a phrase boundary.
    pub open spec fn swap_due(&self) -> bool {
        self.next is Some && at_boundary(self.time, self.bar_length)
    }

    /// Whether the score that plays is sound: no track, effect chain or mix
    /// weight is entered twice under one name, every track has a mix weight,
    /// and the mix weights are fractions of their sum.
    pub open spec fn sound_score(&self) -> bool {
        &&& distinct(names_of(self.playables@))
        &&& distinct(names_of(self.effects@))
        &&& distinct(names_of(self.mix@))
        &&& covers(names_of(self.mix@), names_of(self.playables@))
        &&& normalised(self.mix@)
    }

    /// Whether the pipeline is well formed: the score that plays is sound,
    /// and so is the pending one, if there is one.
    pub open spec fn is_well_formed(&self) -> bool {
        &&& self.sound_score()
        &&& self.next matches Some(n) ==> n.sound_score()
    }

    /// The pipeline as hot reload sees it.
    pub open spec fn phase(&self) -> Phase {
        Phase {
            time: self.time,
            bar_length: self.bar_length,
            tracks: names_of(self.playables@),
            pending: match self.next {
                Some(n) => Some(
                    Pending { tracks: names_of(n.playables@), bar_length: n.bar_length },
                ),
                None => None,
            },
        }
    }

    /// The pipeline as the next step starts from it: with the tracks, effect
    /// chains, mix and bar length of the pending score and the clock at 0
    /// where the swap is due, and as it is where it is not.
    pub open spec fn started(&self) -> Pipeline {
        if self.swap_due() {
            Pipeline {
                playables: self.next->0.playables,
                effects: self.next->0.effects,
                mix: self.next->0.mix,
                time: 0,
                bar_length: self.next->0.bar_length,
                sample_rate: self.sample_rate,
                next: None,
            }
        } else {
            *self
        }
    }

    /// Sets the rate, in frames per second, of the output.
    pub fn set_output_config(&mut self, sample_rate: u32)
        ensures
            *final(self) == (Pipeline { sample_rate, ..*old(self) }),
            old(self).is_well_formed() ==> final(self).is_well_formed(),
    {
        self.sample_rate = sample_rate;
    }

    /// Proposes `other` as the score to play from the next phrase boundary
    /// on. Nothing that is playing changes.
    pub fn update(&mut self, other: Pipeline)
        ensures
            *final(self) == (Pipeline { next: Some(Box::new(other)), ..*old(self) }),
            old(self).is_well_formed() && other.sound_score() ==> final(self).is_well_formed(),
    {
        self.next = Some(Box::new(other));
    }

    /// Puts the pending score, if there is one, in the place of the running
    /// one and sets the clock to 0.
    pub fn set_to_new(&mut self)
        ensures
            old(self).next is None ==> *final(self) == *old(self),
            old(self).next matches Some(n) ==> *final(self) == (Pipeline {
                playables: n.playables,
                effects: n.effects,
                mix: n.mix,
                time: 0,
                bar_length: n.bar_length,
                sample_rate: old(self).sample_rate,
                next: None,
            }),
            old(self).is_well_formed() ==> final(self).is_well_formed(),
    {
        if let Some(next) = self.next.take() {
            let next = *next;
            self.time = 0;
            self.playables = next.playables;
            self.effects = next.effects;
            self.mix = next.mix;
            self.bar_length = next.bar_length;
        }
    }

    /// Whether the clock stands at a phrase boundary.
    pub fn on_boundary(&self) -> (yes: bool)
        ensures
            yes == at_boundary(self.time, self.bar_length),
    {
        match self.bar_length.checked_mul(4) {
            Some(period) => period == 0 || self.time % period == 0,
            None => {
                proof {
                    vstd::arithmetic::div_mod::lemma_small_mod(
                        self.time as nat,
                        (4 * self.bar_length) as nat,
                    );
                }
                self.time == 0
            },
        }
    }

    /// Advances the pipeline by one sample.
    ///
    /// If a score is pending and the clock stands at a phrase boundary, the
    /// pending score takes over first and the clock restarts at 0. Then
    /// every track sees the instant of the clock and contributes one voice,
    /// and the clock moves on by one tick.
    pub fn send_sample(&mut self, rng: &mut StdRng) -> (tick: Tick)
        ensures
            tick.swapped == old(self).swap_due(),
            tick.time == old(self).started().time,
            old(self).is_well_formed() ==> final(self).is_well_formed(),
            final(self).phase() == phase_step(old(self).phase()),
            final(self).effects == old(self).started().effects,
            final(self).mix == old(self).started().mix,
            final(self).bar_length == old(self).started().bar_length,
            final(self).sample_rate == old(self).started().sample_rate,
            final(self).next == old(self).started().next,
            final(self).time == tick_after(old(self).started().time),
            final(self).playables@.len() == old(self).started().playables@.len(),
            tick.voices@.len() == old(self).started().playables@.len(),
            forall|i: int|
                0 <= i < tick.voices@.len() ==> track_stepped(
                    old(self).started().playables@[i],
                    final(self).playables@[i],
                    #[trigger] tick.voices@[i],
                    old(self).started(),
                ),
    {
        let swapped = self.next.is_some() && self.on_boundary();
        if swapped {
            self.set_to_new();
        }
        let ghost start = *self;
        assert(start == old(self).started());
        assert(names_of(start.playables@) =~= phase_step(old(self).phase()).tracks);
        let time = self.time;
        let rate = self.sample_rate;
        let mut voices: Vec<Voice> = Vec::new();
        let mut i: usize = 0;
        while i < self.playables.len()
            invariant
                i <= self.playables@.len() == start.playables@.len(),
                self.effects == start.effects,
                self.mix == start.mix,
                self.bar_length == start.bar_length,
                self.sample_rate == start.sample_rate,
                self.next == start.next,
                self.time == start.time,
                time == start.time,
                rate == start.sample_rate,
                voices@.len() == i,
                forall|j: int|
                    0 <= j < i ==> track_stepped(
                        start.playables@[j],
                        self.playables@[j],
                        #[trigger] voices@[j],
                        start,
                    ),
                forall|j: int|
                    i <= j < start.playables@.len() ==> #[trigger] self.playables@[j]
                        == start.playables@[j],
                forall|j: int|
                    0 <= j < start.playables@.len() ==> (#[trigger] self.playables@[j]).0
                        == start.playables@[j].0,
            decreases self.playables@.len() - i,
        {
            let at = find_name(&self.mix, self.playables[i].0.as_str());
            let weight = if at < self.mix.len() {
                self.mix[at].1
            } else {
                Weight { num: 0, den: 1 }
            };
            let found = find_name(&self.effects, self.playables[i].0.as_str());
            let chain = if found < self.effects.len() {
                Some(found)
            } else {
                None
            };
            let sound = match &mut self.playables[i].1 {
                Playable::Grid(g) => g.get_sample(time, rate, rng),
            };
            voices.push(Voice { sound, weight, chain });
            i += 1;
        }
        self.time = if time == u128::MAX {
            0
        } else {
            time + 1
        };
        assert(names_of(self.playables@) =~= names_of(start.playables@));
        Tick { swapped, time, voices }
    }

    /// Builds the pipeline that a syntax tree writes, with the samples of
    /// `sampleset` for its mappings to name.
    ///
    /// The build succeeds exactly when `built` gives a score. The pipeline
    /// then has that score's tracks, effect chains and bar length, and its
    /// mix weights rescaled to sum to one; its clock stands at 0 and nothing
    /// is pending. Otherwise the error is the one `built` gives.
    pub fn from_tree(tree: &Node, sampleset: &SampleSet) -> (r: Result<Pipeline, BuildError>)
        ensures
            match r {
                Ok(p) => built(*tree, sampleset.samples@) matches Ok(score) && named(p.playables@)
                    == score.playables && named(p.effects@) == score.effects && rescaled(
                    score.mix,
                    p.mix@,
                ) && p.bar_length == score.bar_length && p.time == 0 && p.sample_rate
                    == BUILD_SAMPLE_RATE && p.next is None && p.is_well_formed(),
                Err(e) => built(*tree, sampleset.samples@) == Err::<ScoreView, BuildError>(e),
            },
    {
        let ghost nodes = tree.children@;
        let ghost samples = sampleset.samples@;
        let mut playables: Vec<(String, Playable)> = Vec::new();
        let mut i: usize = 0;
        assert(named(playables@) =~= Seq::empty());
        while i < tree.children.len()
            invariant
                i <= tree.children@.len(),
                nodes == tree.children@,
                declared(nodes.take(i as int)) == Ok::<Seq<(Seq<char>, GridView)>, BuildError>(
                    named(playables@),
                ),
            decreases tree.children@.len() - i,
        {
            proof {
                assert(nodes.take(i + 1).drop_last() =~= nodes.take(i as int));
                assert(nodes.take(i + 1).last() == nodes[i as int]);
            }
            match declare_playable(&mut playables, &tree.children[i]) {
                Ok(_) => {},
                Err(e) => {
                    proof {
                        lemma_declared_fails(nodes, i + 1);
                    }
                    return Err(e);
                },
            }
            i += 1;
        }
        assert(nodes.take(i as int) =~= nodes);

        let mut mix: Vec<(String, Decimal)> = Vec::new();
        let mut k: usize = 0;
        while k < playables.len()
            invariant
                k <= playables@.len(),
                mix@.len() == k,
                forall|j: int|
                    0 <= j < k ==> (#[trigger] named(mix@)[j]) == (
                        playables@[j].0@,
                        Decimal { micros: 1_000_000 },
                    ),
            decreases playables@.len() - k,
        {
            let ghost earlier = named(mix@);
            mix.push((playables[k].0.clone(), Decimal { micros: 1_000_000 }));
            assert forall|j: int| 0 <= j < k implies (#[trigger] named(mix@)[j]) == earlier[j] by {}
            k += 1;
        }
        assert(named(mix@) =~= even_mix(named(playables@)));

        let tempo = Decimal { micros: 120_000_000 };
        let bar_length = samples_per_bar(tempo, (4, 4), BUILD_SAMPLE_RATE);
        let mut draft = Draft { playables, effects: Vec::new(), mix, bar_length };
        let ghost initial = draft@;
        assert(initial.effects =~= Seq::empty());
        assert(built(*tree, samples) == applied(initial, nodes, samples));
        let mut n: usize = 0;
        while n < tree.children.len()
            invariant
                n <= tree.children@.len(),
                nodes == tree.children@,
                samples == sampleset.samples@,
                built(*tree, samples) == applied(initial, nodes, samples),
                applied(initial, nodes.take(n as int), samples) == Ok::<ScoreView, BuildError>(
                    draft@,
                ),
            decreases tree.children@.len() - n,
        {
            proof {
                assert(nodes.take(n + 1).drop_last() =~= nodes.take(n as int));
                assert(nodes.take(n + 1).last() == nodes[n as int]);
            }
            match draft.apply(&tree.children[n], sampleset) {
                Ok(_) => {},
                Err(e) => {
                    proof {
                        assert(applied(initial, nodes.take(n + 1), samples) == Err::<
                            ScoreView,
                            BuildError,
                        >(e));
                        lemma_applied_fails(initial, nodes, samples, n + 1);
                    }
                    return Err(e);
                },
            }
            n += 1;
        }
        assert(nodes.take(n as int) =~= nodes);

        let mix = rescale_mix(&draft.mix);
        proof {
            lemma_built_well_formed(*tree, samples);
            assert(draft@.mix.len() == draft.mix.len());
            lemma_rescaled_normalised(draft@.mix, mix@);
            assert(names_of(draft.playables@) =~= keys(draft@.playables));
            assert(names_of(draft.effects@) =~= keys(draft@.effects));
        }
        Ok(
            Pipeline {
                playables: draft.playables,
                effects: draft.effects,
                mix,
                time: 0,
                bar_length: draft.bar_length,
                sample_rate: BUILD_SAMPLE_RATE,
                next: None,
            },
        )
    }
}

/// Hot reload lands on the phrase boundary, and only there.
///
/// Take a pipeline with a score pending, bars of some length, and the clock
/// off the phrase boundary, `k` ticks before the next one. Through each of
/// the next `k` steps the tracks that play stay the same and the score
/// stays pending, while the clock counts on. The step after those puts the
/// pending score's tracks and bar length in place, leaves nothing pending,
/// and restarts the clock.
pub proof fn lemma_hot_reload(p: Phase, k: nat, j: nat)
    requires
        p.pending is Some,
        p.bar_length > 0,
        p.time as int % (4 * p.bar_length) != 0,
        k == 4 * p.bar_length - p.time as int % (4 * p.bar_length),
        p.time + k <= u128::MAX,
        j <= k,
    ensures
        phase_run(p, j) == (Phase { time: (p.time + j) as u128, ..p }),
        phase_run(p, k + 1) == (Phase {
            time: 1,
            bar_length: p.pending->0.bar_length,
            tracks: p.pending->0.tracks,
            pending: None,
        }),
{
    let period = 4 * p.bar_length;
    lemma_run_before_boundary(p, j);
    lemma_run_before_boundary(p, k);
    let last = phase_run(p, k);
    assert(last.time as int % period == 0) by {
        vstd::arithmetic::div_mod::lemma_fundamental_div_mod(p.time as int, period);
        vstd::arithmetic::div_mod::lemma_mod_bound(p.time as int, period);
        let q = p.time as int / period;
        assert(p.time + k == (q + 1) * period + 0) by (nonlinear_arith)
            requires
                p.time == period * q + (p.time as int % period),
                k == period - p.time as int % period,
        ;
        vstd::arithmetic::div_mod::lemma_fundamental_div_mod_converse(
            p.time + k,
            period,
            q + 1,
            0,
        );
    }
    assert(phase_run(p, k + 1) == phase_step(last));
}

/// Off the phrase boundary nothing but the clock moves.
proof fn lemma_run_before_boundary(p: Phase, j: nat)
    requires
        p.pending is Some,
        p.bar_length > 0,
        p.time as int % (4 * p.bar_length) != 0,
        j <= 4 * p.bar_length - p.time as int % (4 * p.bar_length),
        p.time + j <= u128::MAX,
    ensures
        phase_run(p, j) == (Phase { time: (p.time + j) as u128, ..p }),
    decreases j,
{
    if j > 0 {
        let period = 4 * p.bar_length;
        lemma_run_before_boundary(p, (j - 1) as nat);
        let before = phase_run(p, (j - 1) as nat);
        assert(before.time as int % period != 0) by {
            vstd::arithmetic::div_mod::lemma_fundamental_div_mod(p.time as int, period);
            vstd::arithmetic::div_mod::lemma_mod_bound(p.time as int, period);
            let q = p.time as int / period;
            let r = p.time as int % period;
            assert(p.time + j - 1 == q * period + (r + j - 1)) by (nonlinear_arith)
                requires
                    p.time == period * q + r,
            ;
            vstd::arithmetic::div_mod::lemma_fundamental_div_mod_converse(
                p.time + j - 1,
                period,
                q,
                r + j - 1,
            );
        }
    }
}

} // verus!
