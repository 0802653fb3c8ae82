//! The grid sequencer: an ordered run of tokens, one per rhythmic slot, and
//! the cursor that decides, slot by slot, which of them sounds.

use crate::arith::mul_rate;
use crate::arith::mul_wide;
use crate::chromatic::chord_of;
use crate::chromatic::note_of;
use crate::chromatic::notes_of;
use crate::chromatic::Aug;
use crate::chromatic::Chord;
use crate::chromatic::Mode;
use crate::chromatic::Note;
use crate::sampler::sample_named;
use crate::sampler::Reading;
use crate::sampler::Sample;
use crate::sampler::SamplePlayer;
use crate::sampler::SampleSet;
use crate::text::parse_decimal;
use crate::text::str_eq;
use crate::text::Decimal;
use crate::util::FromNode;
use crate::util::Node;
use rand::rngs::StdRng;
use rand::Rng;
use std::sync::Arc;
use vstd::prelude::*;
use vstd::string::StringExecFns;

verus! {

/// What can stand in a slot of a grid.
#[derive(Debug, Clone, PartialEq)]
pub enum GridToken {
    /// Hit a sample.
    Hit(SamplePlayer),
    /// Silence.
    Pause,
    /// Hit a sample with the given probability, in percent.
    Prob(Decimal, SamplePlayer),
    /// Sound a chord.
    Chord(Chord),
    /// Sound a single note.
    Note(Note),
    /// Let whatever was triggered last go on sounding.
    Repeat,
    /// A name that a mapping has yet to bind to a sample or a chord.
    Unresolved(String),
}

/// The mathematical value of a grid token.
pub enum TokenView {
    Hit(SamplePlayer),
    Pause,
    Prob(Decimal, SamplePlayer),
    Chord((Note, Mode, Seq<Aug>, Option<Note>)),
    Note(Note),
    Repeat,
    Unresolved(Seq<char>),
}

impl View for GridToken {
    type V = TokenView;

    open spec fn view(&self) -> TokenView {
        match self {
            GridToken::Hit(s) => TokenView::Hit(*s),
            GridToken::Pause => TokenView::Pause,
            GridToken::Prob(p, s) => TokenView::Prob(*p, *s),
            GridToken::Chord(c) => TokenView::Chord(c@),
            GridToken::Note(n) => TokenView::Note(*n),
            GridToken::Repeat => TokenView::Repeat,
            GridToken::Unresolved(name) => TokenView::Unresolved(name@),
        }
    }
}

/// What a track sounds at one instant, before it is turned into a waveform.
#[derive(Debug, Clone, PartialEq)]
pub enum Sound {
    /// Nothing.
    Silence,
    /// A reading of a sample.
    Sample(Reading),
    /// A single note, to be synthesized.
    Note(Note),
    /// The notes of a chord, to be synthesized and averaged.
    Chord(Vec<Note>),
}

/// The mathematical value of a sound.
pub enum SoundView {
    Silence,
    Sample(Reading),
    Note(Note),
    Chord(Seq<Note>),
}

impl View for Sound {
    type V = SoundView;

    open spec fn view(&self) -> SoundView {
        match self {
            Sound::Silence => SoundView::Silence,
            Sound::Sample(r) => SoundView::Sample(*r),
            Sound::Note(n) => SoundView::Note(*n),
            Sound::Chord(notes) => SoundView::Chord(notes@),
        }
    }
}

/// What a token sounds at `time` for an output of `sample_rate` frames per
/// second: a sample token reads its sample, a chord or a note is handed on
/// for synthesis, and everything else is silent.
pub open spec fn rendered(token: TokenView, time: u128, sample_rate: u32) -> SoundView {
    match token {
        TokenView::Hit(s) => SoundView::Sample(s.reading(time, sample_rate)),
        TokenView::Prob(_, s) => SoundView::Sample(s.reading(time, sample_rate)),
        TokenView::Chord(c) => SoundView::Chord(notes_of(c.0, c.1, c.2, c.3)),
        TokenView::Note(n) => SoundView::Note(n),
        TokenView::Pause => SoundView::Silence,
        TokenView::Repeat => SoundView::Silence,
        TokenView::Unresolved(_) => SoundView::Silence,
    }
}

/// The token a raw grid entry writes: `_` is a pause, `&` a repeat, and
/// anything else a name to be bound later.
pub open spec fn raw_token(text: Seq<char>) -> TokenView {
    if text == "_"@ {
        TokenView::Pause
    } else if text == "&"@ {
        TokenView::Repeat
    } else {
        TokenView::Unresolved(text)
    }
}

impl Default for GridToken {
    /// A pause.
    fn default() -> (token: GridToken)
        ensures
            token@ == TokenView::Pause,
    {
        GridToken::Pause
    }
}

impl GridToken {
    /// Reads a raw grid entry. Every text is a token, so this never fails.
    pub fn try_from(value: &str) -> (r: Result<GridToken, &'static str>)
        ensures
            r matches Ok(token) && token@ == raw_token(value@),
    {
        if str_eq(value, "_") {
            Ok(GridToken::Pause)
        } else if str_eq(value, "&") {
            Ok(GridToken::Repeat)
        } else {
            Ok(GridToken::Unresolved(value.to_owned()))
        }
    }

    /// A copy of the token; a copied sample token shares the sample.
    pub fn duplicate(&self) -> (copy: GridToken)
        ensures
            copy@ == self@,
    {
        match self {
            GridToken::Hit(s) => GridToken::Hit(s.duplicate()),
            GridToken::Pause => GridToken::Pause,
            GridToken::Prob(p, s) => GridToken::Prob(*p, s.duplicate()),
            GridToken::Chord(c) => GridToken::Chord(c.duplicate()),
            GridToken::Note(n) => GridToken::Note(*n),
            GridToken::Repeat => GridToken::Repeat,
            GridToken::Unresolved(name) => GridToken::Unresolved(name.clone()),
        }
    }

    /// What the token sounds at `time`.
    pub fn get_sample(&self, time: u128, sample_rate: u32) -> (sound: Sound)
        ensures
            sound@ == rendered(self@, time, sample_rate),
    {
        match self {
            GridToken::Hit(s) => Sound::Sample(s.get_sample(time, sample_rate)),
            GridToken::Prob(_, s) => Sound::Sample(s.get_sample(time, sample_rate)),
            GridToken::Chord(c) => Sound::Chord(c.to_notes()),
            GridToken::Note(n) => Sound::Note(*n),
            GridToken::Pause => Sound::Silence,
            GridToken::Repeat => Sound::Silence,
            GridToken::Unresolved(_) => Sound::Silence,
        }
    }
}

/// The seedable random number generator of the `rand` crate. The sequencer
/// draws from one that its caller hands in, so that a fixed seed gives a
/// fixed performance.
#[verifier::external_type_specification]
#[verifier::external_body]
pub struct ExStdRng(rand::rngs::StdRng);

/// One draw of `rand::Rng::gen_ratio` from the generator: `true` with a
/// chance of `numerator` in `denominator`. The crate documents two certain
/// outcomes, and the contract states those and nothing else: the draw is
/// `false` when the numerator is 0 and `true` when it equals the denominator.
/// It panics for a zero denominator or a numerator above it, which the
/// precondition rules out.
#[verifier::external_body]
fn draw_ratio(rng: &mut StdRng, numerator: u32, denominator: u32) -> (hit: bool)
    requires
        denominator > 0,
        numerator <= denominator,
    ensures
        numerator == 0 ==> !hit,
        numerator == denominator ==> hit,
{
    rng.gen_ratio(numerator, denominator)
}

/// Whether `draw` is a possible outcome of a trial that succeeds with a
/// chance of `percent` in a hundred: a chance of a hundred or more always
/// succeeds, a chance of zero never does.
pub open spec fn possible_draw(percent: Decimal, draw: bool) -> bool {
    &&& percent.micros >= 100_000_000 ==> draw
    &&& percent.micros == 0 ==> !draw
}

/// Draws one trial that succeeds with a chance of `percent` in a hundred.
pub fn chance(rng: &mut StdRng, percent: Decimal) -> (hit: bool)
    ensures
        possible_draw(percent, hit),
{
    if percent.micros >= 100_000_000 {
        true
    } else {
        draw_ratio(rng, percent.micros as u32, 100_000_000)
    }
}

/// Whether a token, met at the edge of its slot, becomes the active one.
/// A probabilistic hit does so if its one trial succeeded, a repeat never
/// does, and every other token always does.
pub open spec fn triggers(token: TokenView, draw: bool) -> bool {
    match token {
        TokenView::Prob(_, _) => draw,
        TokenView::Repeat => false,
        _ => true,
    }
}

/// The length of one slot in output samples, rounded down:
/// `(note length) * (beat unit) * 60 * (output rate) / (beats per minute)`.
/// It is 0 where the note length's denominator or the tempo is 0.
pub open spec fn slot_samples(
    note_length: (u32, u32),
    time_sign: (u32, u32),
    tempo: Decimal,
    sample_rate: u32,
) -> int {
    let den = note_length.1 * tempo.micros;
    if den == 0 {
        0
    } else {
        (note_length.0 * time_sign.1 * 60 * sample_rate * 1_000_000) / den
    }
}

/// A grid: its tokens, one per slot, the tempo in beats per minute, the time
/// signature, the length of a slot as a fraction of a beat, and the cursor:
/// the slot that is scheduled next and the slot that is sounding.
#[derive(Debug)]
pub struct Grid {
    pub tokens: Vec<GridToken>,
    pub next_scheduled: usize,
    pub now_playing: usize,
    pub tempo: Decimal,
    pub time_sign: (u32, u32),
    pub note_length: (u32, u32),
}

impl Default for Grid {
    /// An empty grid at 120 beats per minute in 4/4, with slots of a
    /// sixteenth.
    fn default() -> (grid: Grid)
        ensures
            grid.tokens@.len() == 0,
            grid.next_scheduled == 0,
            grid.now_playing == 0,
            grid.tempo.micros == 120_000_000,
            grid.time_sign == (4u32, 4u32),
            grid.note_length == (1u32, 16u32),
    {
        Grid {
            tokens: Vec::new(),
            next_scheduled: 0,
            now_playing: 0,
            tempo: Decimal { micros: 120_000_000 },
            time_sign: (4, 4),
            note_length: (1, 16),
        }
    }
}

impl Grid {
    /// The length of one slot in samples at the given output rate.
    pub open spec fn slot_len(&self, sample_rate: u32) -> int {
        slot_samples(self.note_length, self.time_sign, self.tempo, sample_rate)
    }

    /// The slot that `time` falls in: slots follow one another and wrap
    /// round at the end of the grid.
    pub open spec fn slot_at(&self, time: u128, sample_rate: u32) -> int {
        (time as int / self.slot_len(sample_rate)) % (self.tokens@.len() as int)
    }

    /// Whether `time` is the first instant at which the cursor sees the slot
    /// it has scheduled next. Only then is anything decided.
    pub open spec fn at_edge(&self, time: u128, sample_rate: u32) -> bool {
        &&& self.tokens@.len() > 0
        &&& self.slot_len(sample_rate) > 0
        &&& self.slot_at(time, sample_rate) == self.next_scheduled
    }

    /// The slot scheduled next once `time` has been seen.
    pub open spec fn next_after(&self, time: u128, sample_rate: u32) -> int {
        if self.at_edge(time, sample_rate) {
            (self.slot_at(time, sample_rate) + 1) % (self.tokens@.len() as int)
        } else {
            self.next_scheduled as int
        }
    }

    /// The slot that sounds once `time` has been seen, where `draw` is the
    /// outcome of the trial of a probabilistic hit.
    pub open spec fn active_after(&self, time: u128, sample_rate: u32, draw: bool) -> int {
        if self.at_edge(time, sample_rate) && triggers(
            self.tokens@[self.slot_at(time, sample_rate)]@,
            draw,
        ) {
            self.slot_at(time, sample_rate)
        } else {
            self.now_playing as int
        }
    }

    /// Whether `draw` is a possible outcome of the trial made at `time`.
    /// It constrains `draw` only at the edge of a probabilistic hit.
    pub open spec fn possible_at(&self, time: u128, sample_rate: u32, draw: bool) -> bool {
        self.at_edge(time, sample_rate) ==> match self.tokens@[self.slot_at(time, sample_rate)]@ {
            TokenView::Prob(p, _) => possible_draw(p, draw),
            _ => true,
        }
    }

    /// What the grid sounds at `time`: the active token, or silence where
    /// the grid is empty, a slot has no length, or no token is active.
    pub open spec fn sounding(&self, time: u128, sample_rate: u32) -> SoundView {
        if self.slot_len(sample_rate) > 0 && self.now_playing < self.tokens@.len() {
            rendered(self.tokens@[self.now_playing as int]@, time, sample_rate)
        } else {
            SoundView::Silence
        }
    }

    /// Whether two grids differ in nothing but the cursor.
    pub open spec fn same_score(&self, other: &Grid) -> bool {
        &&& self.tokens == other.tokens
        &&& self.tempo == other.tempo
        &&& self.time_sign == other.time_sign
        &&& self.note_length == other.note_length
    }

    /// The length of one slot in samples at the given output rate.
    pub fn calc_samples_per_token(&self, sample_rate: u32) -> (samples: u128)
        ensures
            samples == self.slot_len(sample_rate),
    {
        let den: u128 = mul_wide(self.note_length.1 as u64, self.tempo.micros);
        if den == 0 {
            return 0;
        }
        let a: u128 = mul_wide(self.note_length.0 as u64, self.time_sign.1 as u64);
        assert(a <= 0xffff_ffff * 0xffff_ffff) by (nonlinear_arith)
            requires
                a == self.note_length.0 * self.time_sign.1,
                self.note_length.0 <= 0xffff_ffff,
                self.time_sign.1 <= 0xffff_ffff,
        ;
        let b: u128 = a * 60;
        let c: u128 = mul_rate(b, sample_rate);
        assert(c <= 0xffff_ffff * 0xffff_ffff * 60 * 0xffff_ffff) by (nonlinear_arith)
            requires
                c == b * sample_rate,
                0 <= b <= 0xffff_ffff * 0xffff_ffff * 60,
                0 <= sample_rate <= 0xffff_ffff,
        ;
        let num: u128 = c * 1_000_000;
        num / den
    }
}

impl Grid {
    /// Moves the cursor for the instant `time`, where `draw` is the outcome
    /// of the one trial that a probabilistic hit makes at its edge.
    ///
    /// Nothing happens unless `time` falls in the slot that is scheduled
    /// next. There, a hit, pause, chord, note or unbound name becomes the
    /// active slot; a probabilistic hit does so if `draw` holds; a repeat
    /// leaves the active slot as it is. The slot after it is scheduled next.
    pub fn schedule(&mut self, time: u128, sample_rate: u32, draw: bool)
        ensures
            final(self).same_score(old(self)),
            final(self).next_scheduled == old(self).next_after(time, sample_rate),
            final(self).now_playing == old(self).active_after(time, sample_rate, draw),
    {
        let slot = self.calc_samples_per_token(sample_rate);
        let count = self.tokens.len();
        if count == 0 || slot == 0 {
            return ;
        }
        let index: usize = ((time / slot) % (count as u128)) as usize;
        if index == self.next_scheduled {
            let fire = match &self.tokens[index] {
                GridToken::Prob(_, _) => draw,
                GridToken::Repeat => false,
                _ => true,
            };
            if fire {
                self.now_playing = index;
            }
            self.next_scheduled = (index + 1) % count;
        }
    }

    /// What the grid sounds at `time` with the cursor as it stands.
    pub fn sound(&self, time: u128, sample_rate: u32) -> (sound: Sound)
        ensures
            sound@ == self.sounding(time, sample_rate),
    {
        let slot = self.calc_samples_per_token(sample_rate);
        if slot > 0 && self.now_playing < self.tokens.len() {
            self.tokens[self.now_playing].get_sample(time, sample_rate)
        } else {
            Sound::Silence
        }
    }

    /// Moves the cursor for the instant `time` and gives what the grid then
    /// sounds. At the edge of a probabilistic hit it draws one trial from
    /// `rng`; the cursor moves as `schedule` says for the outcome of that
    /// trial, whatever it was.
    pub fn get_sample(&mut self, time: u128, sample_rate: u32, rng: &mut StdRng) -> (sound: Sound)
        ensures
            final(self).same_score(old(self)),
            final(self).next_scheduled == old(self).next_after(time, sample_rate),
            exists|draw: bool|
                old(self).possible_at(time, sample_rate, draw) && final(self).now_playing == old(
                    self,
                ).active_after(time, sample_rate, draw),
            sound@ == final(self).sounding(time, sample_rate),
    {
        let slot = self.calc_samples_per_token(sample_rate);
        let count = self.tokens.len();
        let mut draw = true;
        if count > 0 && slot > 0 {
            let index: usize = ((time / slot) % (count as u128)) as usize;
            if index == self.next_scheduled {
                if let GridToken::Prob(p, _) = &self.tokens[index] {
                    draw = chance(rng, *p);
                }
            }
        }
        assert(self.possible_at(time, sample_rate, draw));
        self.schedule(time, sample_rate, draw);
        self.sound(time, sample_rate)
    }

    /// Sets the tempo, in beats per minute.
    pub fn set_tempo(&mut self, tempo: Decimal)
        ensures
            *final(self) == (Grid { tempo, ..*old(self) }),
    {
        self.tempo = tempo;
    }

    /// Sets the length of a slot, as a fraction of a beat.
    pub fn set_note_length(&mut self, note_length: (u32, u32))
        ensures
            *final(self) == (Grid { note_length, ..*old(self) }),
    {
        self.note_length = note_length;
    }

    /// Sets the time signature: beats in a bar, and the unit of a beat.
    pub fn set_time_sign(&mut self, time_sign: (u32, u32))
        ensures
            *final(self) == (Grid { time_sign, ..*old(self) }),
    {
        self.time_sign = time_sign;
    }

    /// Sets the tempo and the time signature.
    pub fn set_tempo_and_time(&mut self, tempo: Decimal, time_sign: (u32, u32))
        ensures
            *final(self) == (Grid { tempo, time_sign, ..*old(self) }),
    {
        self.tempo = tempo;
        self.time_sign = time_sign;
    }
}

/// The token a grid entry writes. The entry's first child decides: a raw
/// token is a pause, a repeat or a name; a chord or a single note is read as
/// such. Anything that cannot be read is a pause.
pub open spec fn token_of(entry: Node) -> TokenView {
    match entry.nth_child(0) {
        Some(inner) => if inner.kind@ == "raw_token"@ {
            raw_token(inner.text@)
        } else if inner.kind@ == "chord"@ {
            match chord_of(inner) {
                Some(c) => TokenView::Chord(c),
                None => TokenView::Pause,
            }
        } else if inner.kind@ == "single_note"@ {
            match note_of(inner) {
                Some(n) => TokenView::Note(n),
                None => TokenView::Pause,
            }
        } else {
            TokenView::Pause
        },
        None => TokenView::Pause,
    }
}

/// The values of a run of tokens.
pub open spec fn token_views(tokens: Seq<GridToken>) -> Seq<TokenView> {
    Seq::new(tokens.len(), |i: int| tokens[i]@)
}

impl GridToken {
    /// Reads the token of one grid entry.
    pub fn from_entry(entry: &Node) -> (token: GridToken)
        ensures
            token@ == token_of(*entry),
    {
        let inner = match entry.child(0) {
            Some(inner) => inner,
            None => {
                return GridToken::Pause;
            },
        };
        if inner.is_kind("raw_token") {
            match GridToken::try_from(inner.text.as_str()) {
                Ok(token) => token,
                Err(_) => GridToken::Pause,
            }
        } else if inner.is_kind("chord") {
            match Chord::from_node(inner) {
                Some(c) => GridToken::Chord(c),
                None => GridToken::Pause,
            }
        } else if inner.is_kind("single_note") {
            match Note::from_node(inner) {
                Some(n) => GridToken::Note(n),
                None => GridToken::Pause,
            }
        } else {
            GridToken::Pause
        }
    }
}

impl FromNode for Grid {
    /// Reads a grid from a grid node: one token for each child under the
    /// field `token`, with the default tempo, time signature and note length
    /// and the cursor at the start.
    fn from_node(node: &Node) -> (r: Option<Grid>)
        ensures
            r matches Some(grid) && token_views(grid.tokens@) == Seq::new(
                node.field_children("token"@).len(),
                |i: int| token_of(node.field_children("token"@)[i]),
            ) && grid.next_scheduled == 0 && grid.now_playing == 0 && grid.tempo.micros
                == 120_000_000 && grid.time_sign == (4u32, 4u32) && grid.note_length == (
                1u32,
                16u32,
            ),
    {
        let entries = node.children_by_field_name("token");
        let ghost nodes = node.field_children("token"@);
        let mut tokens: Vec<GridToken> = Vec::new();
        let mut i: usize = 0;
        while i < entries.len()
            invariant
                i <= entries.len(),
                entries@.len() == nodes.len(),
                forall|j: int| 0 <= j < entries@.len() ==> *#[trigger] entries@[j] == nodes[j],
                tokens@.len() == i,
                forall|j: int| 0 <= j < i ==> (#[trigger] tokens@[j])@ == token_of(nodes[j]),
            decreases entries.len() - i,
        {
            tokens.push(GridToken::from_entry(entries[i]));
            i += 1;
        }
        assert(token_views(tokens@) =~= Seq::new(nodes.len(), |i: int| token_of(nodes[i])));
        Some(
            Grid {
                tokens,
                next_scheduled: 0,
                now_playing: 0,
                tempo: Decimal { micros: 120_000_000 },
                time_sign: (4, 4),
                note_length: (1, 16),
            },
        )
    }
}

/// The cursor a mapping puts on a sample: it starts at time 0 and plays at
/// four fifths of the recorded speed.
pub open spec fn fresh_player(sample: Arc<Sample>) -> SamplePlayer {
    SamplePlayer { sample, start: 0, speed: Decimal { micros: 800_000 } }
}

/// The chance, in percent, that a probability node writes: the decimal
/// number of its first child, if it has one that fits.
pub open spec fn chance_of(probability: Node) -> Option<Decimal> {
    match probability.nth_child(0) {
        Some(number) => match parse_decimal(number.text@) {
            Some(v) => if v <= u64::MAX {
                Some(Decimal { micros: v as u64 })
            } else {
                None
            },
            None => None,
        },
        None => None,
    }
}

/// The token that the value of a mapping entry stands for.
///
/// A sample value names a sample of the set; it is a hit, or, with a
/// probability, a probabilistic hit. A chord value is that chord. There is no
/// token where the kind is neither, the sample is not in the set, or the
/// name, the probability or the chord cannot be read.
pub open spec fn bound_token(value: Node, samples: Seq<(String, Arc<Sample>)>) -> Option<
    TokenView,
> {
    if value.kind@ == "sample"@ {
        match value.field_child("name"@) {
            Some(name) => match sample_named(samples, name.text@) {
                Some(sample) => match value.field_child("probability"@) {
                    Some(p) => match chance_of(p) {
                        Some(percent) => Some(TokenView::Prob(percent, fresh_player(sample))),
                        None => None,
                    },
                    None => Some(TokenView::Hit(fresh_player(sample))),
                },
                None => None,
            },
            None => None,
        }
    } else if value.kind@ == "chord"@ {
        match chord_of(value) {
            Some(c) => Some(TokenView::Chord(c)),
            None => None,
        }
    } else {
        None
    }
}

/// The binding that a mapping entry makes: the text under `key`, bound to the
/// token of the first child of the node under `value`.
pub open spec fn binding_of(pair: Node, samples: Seq<(String, Arc<Sample>)>) -> Option<
    (Seq<char>, TokenView),
> {
    match (pair.field_child("key"@), pair.field_child("value"@)) {
        (Some(key), Some(value)) => match value.nth_child(0) {
            Some(inner) => match bound_token(inner, samples) {
                Some(token) => Some((key.text@, token)),
                None => None,
            },
            None => None,
        },
        _ => None,
    }
}

/// The bindings that a run of mapping entries makes, in order; an entry that
/// makes none is passed over.
pub open spec fn bindings_of(pairs: Seq<Node>, samples: Seq<(String, Arc<Sample>)>) -> Seq<
    (Seq<char>, TokenView),
>
    decreases pairs.len(),
{
    if pairs.len() == 0 {
        Seq::empty()
    } else {
        match binding_of(pairs.last(), samples) {
            Some(b) => bindings_of(pairs.drop_last(), samples).push(b),
            None => bindings_of(pairs.drop_last(), samples),
        }
    }
}

/// The values of a table of bindings.
pub open spec fn binding_views(bindings: Seq<(String, GridToken)>) -> Seq<(Seq<char>, TokenView)> {
    Seq::new(bindings.len(), |i: int| (bindings[i].0@, bindings[i].1@))
}

/// The token bound to `name`: that of the last binding with this name.
pub open spec fn bound_to(bindings: Seq<(Seq<char>, TokenView)>, name: Seq<char>) -> Option<
    TokenView,
>
    decreases bindings.len(),
{
    if bindings.len() == 0 {
        None
    } else if bindings.last().0 == name {
        Some(bindings.last().1)
    } else {
        bound_to(bindings.drop_last(), name)
    }
}

/// A token after name resolution: a name becomes the token bound to it, or a
/// pause where nothing is; any other token stays.
pub open spec fn resolved(token: TokenView, bindings: Seq<(Seq<char>, TokenView)>) -> TokenView {
    match token {
        TokenView::Unresolved(name) => match bound_to(bindings, name) {
            Some(bound) => bound,
            None => TokenView::Pause,
        },
        other => other,
    }
}

/// A run of tokens after name resolution.
pub open spec fn all_resolved(tokens: Seq<TokenView>, bindings: Seq<(Seq<char>, TokenView)>) -> Seq<
    TokenView,
> {
    Seq::new(tokens.len(), |i: int| resolved(tokens[i], bindings))
}

impl GridToken {
    /// Reads the token that the value of a mapping entry stands for.
    pub fn from_value(value: &Node, sampleset: &SampleSet) -> (r: Option<GridToken>)
        ensures
            match r {
                Some(token) => bound_token(*value, sampleset.samples@) == Some(token@),
                None => bound_token(*value, sampleset.samples@) is None,
            },
    {
        if value.is_kind("sample") {
            let name = match value.child_by_field_name("name") {
                Some(name) => name,
                None => {
                    return None;
                },
            };
            let sample = match sampleset.get(name.text.as_str()) {
                Some(sample) => sample,
                None => {
                    return None;
                },
            };
            let player = SamplePlayer::new(crate::sampler::share(sample));
            match value.child_by_field_name("probability") {
                Some(p) => {
                    let number = match p.child(0) {
                        Some(number) => number,
                        None => {
                            return None;
                        },
                    };
                    match Decimal::parse(number.text.as_str()) {
                        Some(percent) => Some(GridToken::Prob(percent, player)),
                        None => None,
                    }
                },
                None => Some(GridToken::Hit(player)),
            }
        } else if value.is_kind("chord") {
            match Chord::from_node(value) {
                Some(c) => Some(GridToken::Chord(c)),
                None => None,
            }
        } else {
            None
        }
    }
}

impl Grid {
    /// Reads the bindings of a mapping node: one for each child under the
    /// field `pair` that binds a name to a sample of the set or to a chord.
    pub fn bindings_from_node(node: &Node, sampleset: &SampleSet) -> (bindings: Vec<
        (String, GridToken),
    >)
        ensures
            binding_views(bindings@) == bindings_of(
                node.field_children("pair"@),
                sampleset.samples@,
            ),
    {
        let pairs = node.children_by_field_name("pair");
        let ghost nodes = node.field_children("pair"@);
        let ghost samples = sampleset.samples@;
        let mut bindings: Vec<(String, GridToken)> = Vec::new();
        let mut i: usize = 0;
        while i < pairs.len()
            invariant
                i <= pairs.len(),
                pairs@.len() == nodes.len(),
                samples == sampleset.samples@,
                forall|j: int| 0 <= j < pairs@.len() ==> *#[trigger] pairs@[j] == nodes[j],
                binding_views(bindings@) == bindings_of(nodes.take(i as int), samples),
            decreases pairs.len() - i,
        {
            proof {
                assert(nodes.take(i + 1).drop_last() =~= nodes.take(i as int));
                assert(nodes.take(i + 1).last() == *pairs@[i as int]);
            }
            let pair = pairs[i];
            let key = pair.child_by_field_name("key");
            let value = pair.child_by_field_name("value");
            if let (Some(key), Some(value)) = (key, value) {
                if let Some(inner) = value.child(0) {
                    if let Some(token) = GridToken::from_value(inner, sampleset) {
                        let ghost before = bindings@;
                        bindings.push((key.text.clone(), token));
                        assert(binding_views(bindings@) =~= binding_views(before).push(
                            (key.text@, token@),
                        ));
                    }
                }
            }
            i += 1;
        }
        assert(nodes.take(i as int) =~= nodes);
        bindings
    }

    /// The token bound to `name` in a table of bindings, if there is one:
    /// that of the last binding with this name.
    pub fn lookup<'a>(bindings: &'a Vec<(String, GridToken)>, name: &str) -> (found: Option<
        &'a GridToken,
    >)
        ensures
            match found {
                Some(token) => bound_to(binding_views(bindings@), name@) == Some(token@),
                None => bound_to(binding_views(bindings@), name@) is None,
            },
    {
        let ghost views = binding_views(bindings@);
        let mut i: usize = bindings.len();
        assert(views.take(i as int) =~= views);
        while i > 0
            invariant
                i <= bindings.len(),
                views == binding_views(bindings@),
                bound_to(views, name@) == bound_to(views.take(i as int), name@),
            decreases i,
        {
            proof {
                assert(views.take(i as int).drop_last() =~= views.take(i - 1));
                assert(views.take(i as int).last() == (bindings@[i - 1].0@, bindings@[i - 1].1@));
            }
            if str_eq(bindings[i - 1].0.as_str(), name) {
                return Some(&bindings[i - 1].1);
            }
            i -= 1;
        }
        None
    }

    /// The name resolution pass: every name among the tokens becomes a copy
    /// of the token that `bindings` binds it to, or a pause where it binds
    /// none. Afterwards no token is a name.
    pub fn resolve(&mut self, bindings: &Vec<(String, GridToken)>)
        ensures
            token_views(final(self).tokens@) == all_resolved(
                token_views(old(self).tokens@),
                binding_views(bindings@),
            ),
            final(self).next_scheduled == old(self).next_scheduled,
            final(self).now_playing == old(self).now_playing,
            final(self).tempo == old(self).tempo,
            final(self).time_sign == old(self).time_sign,
            final(self).note_length == old(self).note_length,
    {
        let ghost before = self.tokens@;
        let ghost table = binding_views(bindings@);
        let mut i: usize = 0;
        while i < self.tokens.len()
            invariant
                i <= self.tokens@.len() == before.len(),
                table == binding_views(bindings@),
                forall|j: int|
                    0 <= j < i ==> (#[trigger] self.tokens@[j])@ == resolved(before[j]@, table),
                forall|j: int| i <= j < before.len() ==> #[trigger] self.tokens@[j] == before[j],
                self.next_scheduled == old(self).next_scheduled,
                self.now_playing == old(self).now_playing,
                self.tempo == old(self).tempo,
                self.time_sign == old(self).time_sign,
                self.note_length == old(self).note_length,
            decreases self.tokens@.len() - i,
        {
            let replacement = match &self.tokens[i] {
                GridToken::Unresolved(name) => match Grid::lookup(bindings, name.as_str()) {
                    Some(token) => Some(token.duplicate()),
                    None => Some(GridToken::Pause),
                },
                _ => None,
            };
            if let Some(token) = replacement {
                self.tokens.set(i, token);
            }
            i += 1;
        }
        assert(token_views(self.tokens@) =~= all_resolved(token_views(before), table));
    }

    /// Applies a mapping node to the grid: reads its bindings and resolves
    /// the grid's names against them.
    pub fn map_from_node(&mut self, node: &Node, sampleset: &SampleSet)
        ensures
            token_views(final(self).tokens@) == all_resolved(
                token_views(old(self).tokens@),
                bindings_of(node.field_children("pair"@), sampleset.samples@),
            ),
            final(self).next_scheduled == old(self).next_scheduled,
            final(self).now_playing == old(self).now_playing,
            final(self).tempo == old(self).tempo,
            final(self).time_sign == old(self).time_sign,
            final(self).note_length == old(self).note_length,
    {
        let bindings = Grid::bindings_from_node(node, sampleset);
        self.resolve(&bindings);
    }
}

/// The mathematical value of a grid.
pub struct GridView {
    pub tokens: Seq<TokenView>,
    pub next_scheduled: usize,
    pub now_playing: usize,
    pub tempo: Decimal,
    pub time_sign: (u32, u32),
    pub note_length: (u32, u32),
}

impl View for Grid {
    type V = GridView;

    open spec fn view(&self) -> GridView {
        GridView {
            tokens: token_views(self.tokens@),
            next_scheduled: self.next_scheduled,
            now_playing: self.now_playing,
            tempo: self.tempo,
            time_sign: self.time_sign,
            note_length: self.note_length,
        }
    }
}

/// The grid that a grid node writes: its tokens, with the default tempo,
/// time signature and note length and the cursor at the start.
pub open spec fn grid_of(node: Node) -> GridView {
    GridView {
        tokens: Seq::new(
            node.field_children("token"@).len(),
            |i: int| token_of(node.field_children("token"@)[i]),
        ),
        next_scheduled: 0,
        now_playing: 0,
        tempo: Decimal { micros: 120_000_000 },
        time_sign: (4u32, 4u32),
        note_length: (1u32, 16u32),
    }
}

/// The grid after it has seen, one after the other, every instant from 0 up
/// to and including `t`, where no trial of a probabilistic hit succeeds.
pub open spec fn seen(grid: Grid, sample_rate: u32, t: nat) -> Grid
    decreases t,
{
    let before = if t == 0 {
        grid
    } else {
        seen(grid, sample_rate, (t - 1) as nat)
    };
    Grid {
        next_scheduled: before.next_after(t as u128, sample_rate) as usize,
        now_playing: before.active_after(t as u128, sample_rate, false) as usize,
        ..before
    }
}

/// From one instant to the next the slot count stays or rises by one.
proof fn lemma_next_instant(t: int, s: int)
    requires
        t >= 1,
        s >= 1,
    ensures
        t / s == (t - 1) / s || t / s == (t - 1) / s + 1,
{
    let q = (t - 1) / s;
    let r = (t - 1) % s;
    vstd::arithmetic::div_mod::lemma_fundamental_div_mod(t - 1, s);
    vstd::arithmetic::div_mod::lemma_mod_bound(t - 1, s);
    assert(s * q == q * s) by (nonlinear_arith);
    if r + 1 < s {
        vstd::arithmetic::div_mod::lemma_fundamental_div_mod_converse(t, s, q, r + 1);
    } else {
        assert((q + 1) * s == q * s + s) by (nonlinear_arith);
        vstd::arithmetic::div_mod::lemma_fundamental_div_mod_converse(t, s, q + 1, 0);
    }
}

/// Edge-triggered scheduling follows the slots in order.
///
/// Take a grid whose tokens all trigger at their edge (none is a
/// probabilistic hit or a repeat), with the cursor at the start. Once it has
/// seen every instant from 0 to `t`, the active slot is the slot that `t`
/// falls in, and the slot after that one is scheduled next: each slot
/// becomes active as time enters it, stays active for the length of the
/// slot, and hands over to its successor.
pub proof fn lemma_slots_in_order(grid: Grid, sample_rate: u32, t: nat)
    requires
        grid.tokens@.len() > 0,
        grid.slot_len(sample_rate) > 0,
        grid.next_scheduled == 0,
        forall|i: int| 0 <= i < grid.tokens@.len() ==> triggers(#[trigger] grid.tokens@[i]@, false),
        t <= u128::MAX,
    ensures
        seen(grid, sample_rate, t).same_score(&grid),
        seen(grid, sample_rate, t).now_playing == grid.slot_at(t as u128, sample_rate),
        seen(grid, sample_rate, t).next_scheduled == (grid.slot_at(t as u128, sample_rate) + 1) % (
        grid.tokens@.len() as int),
    decreases t,
{
    let n = grid.tokens@.len() as int;
    let s = grid.slot_len(sample_rate);
    let slot = grid.slot_at(t as u128, sample_rate);
    vstd::arithmetic::div_mod::lemma_mod_bound(t as int / s, n);
    vstd::arithmetic::div_mod::lemma_mod_bound(slot + 1, n);
    assert(n <= usize::MAX) by {
        assert(grid.tokens@.len() == grid.tokens.len());
    }
    if t == 0 {
        assert(0int / s == 0) by {
            vstd::arithmetic::div_mod::lemma_basic_div(0, s);
        }
        vstd::arithmetic::div_mod::lemma_small_mod(0, n as nat);
        assert(grid.at_edge(0, sample_rate));
        assert(triggers(grid.tokens@[0]@, false));
    } else {
        let before = seen(grid, sample_rate, (t - 1) as nat);
        lemma_slots_in_order(grid, sample_rate, (t - 1) as nat);
        let earlier = grid.slot_at((t - 1) as u128, sample_rate);
        vstd::arithmetic::div_mod::lemma_mod_bound((t - 1) / s, n);
        assert(before.slot_len(sample_rate) == s);
        assert(before.slot_at(t as u128, sample_rate) == slot);
        lemma_next_instant(t as int, s);
        if t as int / s == (t - 1) / s {
            assert(slot == earlier);
            if before.at_edge(t as u128, sample_rate) {
                assert(triggers(grid.tokens@[slot]@, false));
            }
        } else {
            vstd::arithmetic::div_mod::lemma_add_mod_noop((t - 1) / s, 1, n);
            vstd::arithmetic::div_mod::lemma_add_mod_noop(earlier, 1, n);
            vstd::arithmetic::div_mod::lemma_mod_twice((t - 1) / s, n);
            assert(slot == (earlier + 1) % n);
            assert(before.at_edge(t as u128, sample_rate));
            assert(triggers(grid.tokens@[slot]@, false));
        }
    }
}

impl GridToken {
    /// How the token is written: `x` for a hit, `_` for a pause, `?` for a
    /// probabilistic hit, `&` for a repeat, and a chord, a note or a name as
    /// itself.
    pub open spec fn text(&self) -> Seq<char> {
        match self {
            GridToken::Hit(_) => "x"@,
            GridToken::Pause => "_"@,
            GridToken::Prob(_, _) => "?"@,
            GridToken::Chord(c) => c.text(),
            GridToken::Repeat => "&"@,
            GridToken::Unresolved(name) => name@,
            GridToken::Note(n) => n.text(),
        }
    }

    /// Writes the token.
    pub fn to_string(&self) -> (s: String)
        ensures
            s@ == self.text(),
    {
        match self {
            GridToken::Hit(_) => "x".to_owned(),
            GridToken::Pause => "_".to_owned(),
            GridToken::Prob(_, _) => "?".to_owned(),
            GridToken::Chord(c) => c.to_string(),
            GridToken::Repeat => "&".to_owned(),
            GridToken::Unresolved(name) => name.clone(),
            GridToken::Note(n) => n.to_string(),
        }
    }
}

/// How a run of tokens is written: each on a line of its own, indented by
/// three spaces.
pub open spec fn lines_of(tokens: Seq<GridToken>) -> Seq<char>
    decreases tokens.len(),
{
    if tokens.len() == 0 {
        Seq::empty()
    } else {
        lines_of(tokens.drop_last()) + "   "@ + tokens.last().text() + "\n"@
    }
}

impl Grid {
    /// How the grid is written: its tokens, one per line, between braces.
    pub open spec fn text(&self) -> Seq<char> {
        "{\n"@ + lines_of(self.tokens@) + "}"@
    }

    /// Writes the grid.
    pub fn to_string(&self) -> (s: String)
        ensures
            s@ == self.text(),
    {
        let mut s = "{\n".to_owned();
        let mut i: usize = 0;
        while i < self.tokens.len()
            invariant
                i <= self.tokens.len(),
                s@ == "{\n"@ + lines_of(self.tokens@.take(i as int)),
            decreases self.tokens.len() - i,
        {
            proof {
                assert(self.tokens@.take(i + 1).drop_last() =~= self.tokens@.take(i as int));
            }
            s.append("   ");
            s.append(self.tokens[i].to_string().as_str());
            s.append("\n");
            assert(s@ =~= "{\n"@ + lines_of(self.tokens@.take(i + 1)));
            i += 1;
        }
        assert(self.tokens@.take(i as int) =~= self.tokens@);
        s.append("}");
        s
    }
}

} // verus!
