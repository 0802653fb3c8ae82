//! Notes and chords: pitch classes, octaves, chord modes and extensions, and
//! the notes a chord is made of.

use crate::arith::mul_wide;
use crate::text::str_eq;
use crate::util::FromNode;
use crate::util::Node;
use vstd::prelude::*;
use vstd::string::StringExecFns;

verus! {

/// A pitch class: one of the twelve chromatic tones, whatever the octave.
#[derive(Debug, Clone, Copy, PartialEq, Eq, Structural)]
pub enum PitchClass {
    C,
    Cs,
    D,
    Ds,
    E,
    F,
    Fs,
    G,
    Gs,
    A,
    As,
    B,
}

/// Octaves one through seven, as on an 88 key piano.
#[derive(Debug, Clone, Copy, PartialEq, Eq, Structural)]
pub enum Octave {
    One,
    Two,
    Three,
    Four,
    Five,
    Six,
    Seven,
}

/// The accidental of a note: natural, flat or sharp.
#[derive(Debug, Clone, Copy, PartialEq, Eq, Structural)]
pub enum Acc {
    Natural,
    Flat,
    Sharp,
}

/// The mode of a chord.
#[derive(Debug, Clone, Copy, PartialEq, Eq, Structural)]
pub enum Mode {
    Major,
    Minor,
    Dim,
    Aug,
    Sus4,
    Sus2,
}

/// An extension of a chord.
#[derive(Debug, Clone, Copy, PartialEq, Eq, Structural)]
pub enum Aug {
    Six,
    MajSix,
    Seven,
    MajSeven,
    Nine,
    MajNine,
    Eleven,
    MajEleven,
    Thirteen,
    MajThirteen,
}

/// The extensions of a chord, in the order they were written.
#[derive(Debug, Clone, PartialEq)]
pub struct Augs(pub Vec<Aug>);

/// A note: a pitch class in an octave.
#[derive(Debug, Clone, Copy, PartialEq, Eq, Structural)]
pub struct Note(pub PitchClass, pub Octave);

/// A chord: a root note, a mode, extensions, and an optional bass note.
#[derive(Debug, Clone, PartialEq)]
pub struct Chord(pub Note, pub Mode, pub Augs, pub Option<Note>);

/// The pitch class that stands `i` semitones above C, for `i` from 0 to 11.
pub open spec fn pitch_of(i: int) -> PitchClass {
    if i == 0 {
        PitchClass::C
    } else if i == 1 {
        PitchClass::Cs
    } else if i == 2 {
        PitchClass::D
    } else if i == 3 {
        PitchClass::Ds
    } else if i == 4 {
        PitchClass::E
    } else if i == 5 {
        PitchClass::F
    } else if i == 6 {
        PitchClass::Fs
    } else if i == 7 {
        PitchClass::G
    } else if i == 8 {
        PitchClass::Gs
    } else if i == 9 {
        PitchClass::A
    } else if i == 10 {
        PitchClass::As
    } else {
        PitchClass::B
    }
}

/// The octave with number `n`; a number outside 1..=7 gives the seventh.
pub open spec fn octave_of(n: int) -> Octave {
    if n == 1 {
        Octave::One
    } else if n == 2 {
        Octave::Two
    } else if n == 3 {
        Octave::Three
    } else if n == 4 {
        Octave::Four
    } else if n == 5 {
        Octave::Five
    } else if n == 6 {
        Octave::Six
    } else {
        Octave::Seven
    }
}

impl PitchClass {
    /// Semitones above C, from 0 to 11.
    pub open spec fn index(self) -> int {
        match self {
            PitchClass::C => 0,
            PitchClass::Cs => 1,
            PitchClass::D => 2,
            PitchClass::Ds => 3,
            PitchClass::E => 4,
            PitchClass::F => 5,
            PitchClass::Fs => 6,
            PitchClass::G => 7,
            PitchClass::Gs => 8,
            PitchClass::A => 9,
            PitchClass::As => 10,
            PitchClass::B => 11,
        }
    }

    /// The pitch class `semitones` above (or below) this one, modulo 12.
    pub open spec fn transposed(self, semitones: int) -> PitchClass {
        pitch_of((self.index() + semitones) % 12)
    }

    /// Semitones above C, from 0 to 11.
    pub fn to_index(self) -> (i: u8)
        ensures
            i == self.index(),
            i < 12,
    {
        match self {
            PitchClass::C => 0,
            PitchClass::Cs => 1,
            PitchClass::D => 2,
            PitchClass::Ds => 3,
            PitchClass::E => 4,
            PitchClass::F => 5,
            PitchClass::Fs => 6,
            PitchClass::G => 7,
            PitchClass::Gs => 8,
            PitchClass::A => 9,
            PitchClass::As => 10,
            PitchClass::B => 11,
        }
    }

    /// The pitch class `i` semitones above C, counted modulo 12.
    pub fn from_index(i: u8) -> (p: PitchClass)
        ensures
            p == pitch_of(i as int % 12),
            p.index() == i as int % 12,
    {
        let k: u8 = i % 12;
        if k == 0 {
            PitchClass::C
        } else if k == 1 {
            PitchClass::Cs
        } else if k == 2 {
            PitchClass::D
        } else if k == 3 {
            PitchClass::Ds
        } else if k == 4 {
            PitchClass::E
        } else if k == 5 {
            PitchClass::F
        } else if k == 6 {
            PitchClass::Fs
        } else if k == 7 {
            PitchClass::G
        } else if k == 8 {
            PitchClass::Gs
        } else if k == 9 {
            PitchClass::A
        } else if k == 10 {
            PitchClass::As
        } else {
            PitchClass::B
        }
    }
}

impl Octave {
    /// The octave's number, from 1 to 7.
    pub open spec fn number(self) -> int {
        match self {
            Octave::One => 1,
            Octave::Two => 2,
            Octave::Three => 3,
            Octave::Four => 4,
            Octave::Five => 5,
            Octave::Six => 6,
            Octave::Seven => 7,
        }
    }

    /// The octave `steps` above (or below) this one; a result outside 1..=7
    /// is the seventh octave.
    pub open spec fn shifted(self, steps: int) -> Octave {
        octave_of(self.number() + steps)
    }

    /// The octave's number, from 1 to 7.
    pub fn to_number(self) -> (n: i8)
        ensures
            n == self.number(),
            1 <= n <= 7,
    {
        match self {
            Octave::One => 1,
            Octave::Two => 2,
            Octave::Three => 3,
            Octave::Four => 4,
            Octave::Five => 5,
            Octave::Six => 6,
            Octave::Seven => 7,
        }
    }

    /// The octave with the given number. Every number outside 1..=7 gives the
    /// seventh octave: octave arithmetic never fails.
    pub fn from_number(n: i8) -> (o: Octave)
        ensures
            o == octave_of(n as int),
    {
        if n == 1 {
            Octave::One
        } else if n == 2 {
            Octave::Two
        } else if n == 3 {
            Octave::Three
        } else if n == 4 {
            Octave::Four
        } else if n == 5 {
            Octave::Five
        } else if n == 6 {
            Octave::Six
        } else {
            Octave::Seven
        }
    }

    /// Moves the octave by `steps`, clamping to the seventh octave when the
    /// result leaves the keyboard.
    pub fn add(self, steps: i8) -> (o: Octave)
        ensures
            o == self.shifted(steps as int),
    {
        let n: i16 = self.to_number() as i16 + steps as i16;
        if 1 <= n && n <= 7 {
            Octave::from_number(n as i8)
        } else {
            Octave::Seven
        }
    }
}

impl Default for Octave {
    fn default() -> (o: Octave)
        ensures
            o == Octave::Four,
    {
        Octave::Four
    }
}

impl Acc {
    /// The semitones an accidental moves a pitch class by.
    pub open spec fn shift(self) -> int {
        match self {
            Acc::Natural => 0,
            Acc::Flat => -1,
            Acc::Sharp => 1,
        }
    }
}

impl Default for Acc {
    fn default() -> (a: Acc)
        ensures
            a == Acc::Natural,
    {
        Acc::Natural
    }
}

impl Default for Mode {
    fn default() -> (m: Mode)
        ensures
            m == Mode::Major,
    {
        Mode::Major
    }
}

impl PitchClass {
    /// Applies an accidental: one semitone down for a flat, one up for a
    /// sharp, wrapping round the twelve pitch classes.
    pub fn add(self, rhs: Acc) -> (p: PitchClass)
        ensures
            p == self.transposed(rhs.shift()),
    {
        let i: u8 = self.to_index();
        match rhs {
            Acc::Natural => PitchClass::from_index(i),
            Acc::Flat => PitchClass::from_index(i + 11),
            Acc::Sharp => PitchClass::from_index(i + 1),
        }
    }

    /// Applies an accidental in place.
    pub fn add_assign(&mut self, rhs: Acc)
        ensures
            *final(self) == old(self).transposed(rhs.shift()),
    {
        *self = self.add(rhs);
    }
}

impl Note {
    /// The note `semitones` above this one. The pitch class wraps modulo 12;
    /// the octave rises by one, and only one, whenever the pitch index plus
    /// `semitones` exceeds 11.
    pub open spec fn transposed(self, semitones: u8) -> Note {
        Note(
            self.0.transposed(semitones as int),
            if self.0.index() + semitones > 11 {
                self.1.shifted(1)
            } else {
                self.1
            },
        )
    }

    /// The note `semitones` above this one.
    pub fn add(self, semitones: u8) -> (n: Note)
        ensures
            n == self.transposed(semitones),
    {
        let raw: u16 = self.0.to_index() as u16 + semitones as u16;
        let octave = if raw > 11 {
            self.1.add(1)
        } else {
            self.1
        };
        Note(PitchClass::from_index((raw % 12) as u8), octave)
    }
}

impl Mode {
    /// The semitone offsets, from the root, of the notes a mode adds.
    pub open spec fn offsets(self) -> Seq<u8> {
        match self {
            Mode::Major => seq![4u8, 7u8],
            Mode::Minor => seq![3u8, 7u8],
            Mode::Dim => seq![3u8, 6u8],
            Mode::Aug => seq![4u8, 8u8],
            Mode::Sus4 => seq![5u8, 7u8],
            Mode::Sus2 => seq![2u8, 7u8],
        }
    }

    /// The semitone offsets, from the root, of the notes this mode adds.
    pub fn as_relatives(&self) -> (relatives: Vec<u8>)
        ensures
            relatives@ == self.offsets(),
    {
        let (third, fifth): (u8, u8) = match self {
            Mode::Major => (4, 7),
            Mode::Minor => (3, 7),
            Mode::Dim => (3, 6),
            Mode::Aug => (4, 8),
            Mode::Sus4 => (5, 7),
            Mode::Sus2 => (2, 7),
        };
        let mut relatives: Vec<u8> = Vec::new();
        relatives.push(third);
        relatives.push(fifth);
        assert(relatives@ =~= self.offsets());
        relatives
    }
}

impl Aug {
    /// The semitone offsets, from the root, of the notes an extension adds.
    pub open spec fn offsets(self) -> Seq<u8> {
        match self {
            Aug::Six => seq![8u8],
            Aug::MajSix => seq![9u8],
            Aug::Seven => seq![10u8],
            Aug::MajSeven => seq![11u8],
            Aug::Nine => seq![13u8],
            Aug::MajNine => seq![14u8],
            Aug::Eleven => seq![16u8],
            Aug::MajEleven => seq![17u8],
            Aug::Thirteen => seq![20u8],
            Aug::MajThirteen => seq![21u8],
        }
    }

    /// The semitone offsets, from the root, of the notes this extension adds.
    pub fn as_relatives(&self) -> (relatives: Vec<u8>)
        ensures
            relatives@ == self.offsets(),
    {
        let offset: u8 = match self {
            Aug::Six => 8,
            Aug::MajSix => 9,
            Aug::Seven => 10,
            Aug::MajSeven => 11,
            Aug::Nine => 13,
            Aug::MajNine => 14,
            Aug::Eleven => 16,
            Aug::MajEleven => 17,
            Aug::Thirteen => 20,
            Aug::MajThirteen => 21,
        };
        let mut relatives: Vec<u8> = Vec::new();
        relatives.push(offset);
        assert(relatives@ =~= self.offsets());
        relatives
    }
}

/// The offsets of a list of extensions: those of each, one after the other.
pub open spec fn offsets_of(augs: Seq<Aug>) -> Seq<u8>
    decreases augs.len(),
{
    if augs.len() == 0 {
        Seq::empty()
    } else {
        offsets_of(augs.drop_last()) + augs.last().offsets()
    }
}

/// How many offsets a list of extensions has: the sum over its members.
pub open spec fn offset_count(augs: Seq<Aug>) -> nat
    decreases augs.len(),
{
    if augs.len() == 0 {
        0
    } else {
        offset_count(augs.drop_last()) + augs.last().offsets().len()
    }
}

impl View for Augs {
    type V = Seq<Aug>;

    open spec fn view(&self) -> Seq<Aug> {
        self.0@
    }
}

impl Augs {
    /// The semitone offsets of all the extensions, in order.
    pub fn as_relatives(&self) -> (relatives: Vec<u8>)
        ensures
            relatives@ == offsets_of(self@),
    {
        let mut relatives: Vec<u8> = Vec::new();
        let mut i: usize = 0;
        while i < self.0.len()
            invariant
                i <= self.0.len(),
                relatives@ == offsets_of(self.0@.take(i as int)),
            decreases self.0.len() - i,
        {
            let mut more = self.0[i].as_relatives();
            proof {
                assert(self.0@.take(i + 1).drop_last() =~= self.0@.take(i as int));
                assert(self.0@.take(i + 1).last() == self.0@[i as int]);
            }
            relatives.append(&mut more);
            i += 1;
        }
        assert(self.0@.take(i as int) =~= self.0@);
        relatives
    }
}

/// How many notes a bass adds to a chord: one if there is one.
pub open spec fn bass_count(bass: Option<Note>) -> nat {
    if bass is Some {
        1
    } else {
        0
    }
}

/// The notes of a chord with the given root, mode, extensions and bass: the
/// root, one note per offset of the mode and of the extensions, in that
/// order, and last the bass note, if there is one, in the octave below the
/// root's.
pub open spec fn notes_of(root: Note, mode: Mode, augs: Seq<Aug>, bass: Option<Note>) -> Seq<Note> {
    let offsets = mode.offsets() + offsets_of(augs);
    let upper = Seq::new(offsets.len(), |i: int| root.transposed(offsets[i]));
    let low = match bass {
        Some(b) => seq![Note(b.0, root.1.shifted(-1))],
        None => Seq::empty(),
    };
    seq![root] + upper + low
}

impl View for Chord {
    type V = (Note, Mode, Seq<Aug>, Option<Note>);

    open spec fn view(&self) -> (Note, Mode, Seq<Aug>, Option<Note>) {
        (self.0, self.1, self.2@, self.3)
    }
}

impl Chord {
    /// The semitone offsets of the chord's notes above the root: those of the
    /// mode, then those of the extensions.
    pub open spec fn offsets(&self) -> Seq<u8> {
        self.1.offsets() + offsets_of(self.2@)
    }

    /// The notes of the chord, in the order in which they sound.
    pub open spec fn notes(&self) -> Seq<Note> {
        notes_of(self.0, self.1, self.2@, self.3)
    }

    /// The notes of the chord, in the order in which they sound.
    pub fn to_notes(&self) -> (notes: Vec<Note>)
        ensures
            notes@ == self.notes(),
            notes@.len() == 1 + self.1.offsets().len() + offset_count(self.2@) + bass_count(
                self.3,
            ),
    {
        let mut relatives = self.1.as_relatives();
        let mut extensions = self.2.as_relatives();
        relatives.append(&mut extensions);
        assert(relatives@ == self.offsets());

        let mut notes: Vec<Note> = Vec::new();
        notes.push(self.0);
        let mut i: usize = 0;
        while i < relatives.len()
            invariant
                i <= relatives.len(),
                relatives@ == self.offsets(),
                notes@.len() == 1 + i,
                notes@[0] == self.0,
                forall|j: int| 0 <= j < i ==> notes@[1 + j] == self.0.transposed(self.offsets()[j]),
            decreases relatives.len() - i,
        {
            notes.push(self.0.add(relatives[i]));
            i += 1;
        }
        if let Some(bass) = &self.3 {
            notes.push(Note(bass.0, notes[0].1.add(-1)));
        }
        proof {
            assert(notes@ =~= self.notes());
            lemma_offsets_len(self.2@);
        }
        notes
    }
}

/// A list of extensions has as many offsets as its members have together.
pub proof fn lemma_offsets_len(augs: Seq<Aug>)
    ensures
        offsets_of(augs).len() == offset_count(augs),
    decreases augs.len(),
{
    if augs.len() > 0 {
        lemma_offsets_len(augs.drop_last());
    }
}

/// A chord has one note for its root, one for each offset of its mode, one
/// for each offset of each of its extensions, and one more if it names a bass
/// note.
pub proof fn lemma_chord_note_count(chord: Chord)
    ensures
        chord.notes().len() == 1 + chord.1.offsets().len() + offset_count(chord.2@) + bass_count(
            chord.3,
        ),
{
    lemma_offsets_len(chord.2@);
}

impl PitchClass {
    /// The pitch class a note letter names: an upper-case letter as written
    /// in chords, or a lower-case letter as written for single notes, where
    /// `t` stands for B.
    pub open spec fn parse(s: Seq<char>) -> Option<PitchClass> {
        if s == "A"@ || s == "a"@ {
            Some(PitchClass::A)
        } else if s == "B"@ || s == "t"@ {
            Some(PitchClass::B)
        } else if s == "C"@ || s == "c"@ {
            Some(PitchClass::C)
        } else if s == "D"@ || s == "d"@ {
            Some(PitchClass::D)
        } else if s == "E"@ || s == "e"@ {
            Some(PitchClass::E)
        } else if s == "F"@ || s == "f"@ {
            Some(PitchClass::F)
        } else if s == "G"@ || s == "g"@ {
            Some(PitchClass::G)
        } else {
            None
        }
    }

    /// Reads a note letter.
    pub fn try_from(s: &str) -> (r: Result<PitchClass, &'static str>)
        ensures
            match r {
                Ok(p) => PitchClass::parse(s@) == Some(p),
                Err(e) => PitchClass::parse(s@) is None && e@ == "Invalid note"@,
            },
    {
        if str_eq(s, "A") || str_eq(s, "a") {
            Ok(PitchClass::A)
        } else if str_eq(s, "B") || str_eq(s, "t") {
            Ok(PitchClass::B)
        } else if str_eq(s, "C") || str_eq(s, "c") {
            Ok(PitchClass::C)
        } else if str_eq(s, "D") || str_eq(s, "d") {
            Ok(PitchClass::D)
        } else if str_eq(s, "E") || str_eq(s, "e") {
            Ok(PitchClass::E)
        } else if str_eq(s, "F") || str_eq(s, "f") {
            Ok(PitchClass::F)
        } else if str_eq(s, "G") || str_eq(s, "g") {
            Ok(PitchClass::G)
        } else {
            Err("Invalid note")
        }
    }
}

impl Acc {
    /// The accidental a sign names: `b` for flat, `#` for sharp.
    pub open spec fn parse(s: Seq<char>) -> Option<Acc> {
        if s == "b"@ {
            Some(Acc::Flat)
        } else if s == "#"@ {
            Some(Acc::Sharp)
        } else {
            None
        }
    }

    /// Reads an accidental sign.
    pub fn try_from(s: &str) -> (r: Result<Acc, &'static str>)
        ensures
            match r {
                Ok(a) => Acc::parse(s@) == Some(a),
                Err(e) => Acc::parse(s@) is None && e@ == "Invalid acc"@,
            },
    {
        if str_eq(s, "b") {
            Ok(Acc::Flat)
        } else if str_eq(s, "#") {
            Ok(Acc::Sharp)
        } else {
            Err("Invalid acc")
        }
    }
}

impl Octave {
    /// The octave a digit from 1 to 7 names.
    pub open spec fn parse(s: Seq<char>) -> Option<Octave> {
        if s == "1"@ {
            Some(Octave::One)
        } else if s == "2"@ {
            Some(Octave::Two)
        } else if s == "3"@ {
            Some(Octave::Three)
        } else if s == "4"@ {
            Some(Octave::Four)
        } else if s == "5"@ {
            Some(Octave::Five)
        } else if s == "6"@ {
            Some(Octave::Six)
        } else if s == "7"@ {
            Some(Octave::Seven)
        } else {
            None
        }
    }

    /// Reads an octave digit.
    pub fn try_from(s: &str) -> (r: Result<Octave, &'static str>)
        ensures
            match r {
                Ok(o) => Octave::parse(s@) == Some(o),
                Err(e) => Octave::parse(s@) is None && e@ == "Invalid octave"@,
            },
    {
        if str_eq(s, "1") {
            Ok(Octave::One)
        } else if str_eq(s, "2") {
            Ok(Octave::Two)
        } else if str_eq(s, "3") {
            Ok(Octave::Three)
        } else if str_eq(s, "4") {
            Ok(Octave::Four)
        } else if str_eq(s, "5") {
            Ok(Octave::Five)
        } else if str_eq(s, "6") {
            Ok(Octave::Six)
        } else if str_eq(s, "7") {
            Ok(Octave::Seven)
        } else {
            Err("Invalid octave")
        }
    }
}

impl Mode {
    /// The mode a suffix names. Major has no suffix of its own.
    pub open spec fn parse(s: Seq<char>) -> Option<Mode> {
        if s == "m"@ {
            Some(Mode::Minor)
        } else if s == "dim"@ {
            Some(Mode::Dim)
        } else if s == "aug"@ {
            Some(Mode::Aug)
        } else if s == "sus4"@ {
            Some(Mode::Sus4)
        } else if s == "sus2"@ {
            Some(Mode::Sus2)
        } else {
            None
        }
    }

    /// Reads a mode suffix.
    pub fn try_from(s: &str) -> (r: Result<Mode, &'static str>)
        ensures
            match r {
                Ok(m) => Mode::parse(s@) == Some(m),
                Err(e) => Mode::parse(s@) is None && e@ == "Unrecognized mode"@,
            },
    {
        if str_eq(s, "m") {
            Ok(Mode::Minor)
        } else if str_eq(s, "dim") {
            Ok(Mode::Dim)
        } else if str_eq(s, "aug") {
            Ok(Mode::Aug)
        } else if str_eq(s, "sus4") {
            Ok(Mode::Sus4)
        } else if str_eq(s, "sus2") {
            Ok(Mode::Sus2)
        } else {
            Err("Unrecognized mode")
        }
    }
}

impl Aug {
    /// The extension a suffix names.
    pub open spec fn parse(s: Seq<char>) -> Option<Aug> {
        if s == "6"@ {
            Some(Aug::Six)
        } else if s == "M6"@ {
            Some(Aug::MajSix)
        } else if s == "7"@ {
            Some(Aug::Seven)
        } else if s == "M7"@ {
            Some(Aug::MajSeven)
        } else if s == "9"@ {
            Some(Aug::Nine)
        } else if s == "M9"@ {
            Some(Aug::MajNine)
        } else if s == "11"@ {
            Some(Aug::Eleven)
        } else if s == "M11"@ {
            Some(Aug::MajEleven)
        } else if s == "13"@ {
            Some(Aug::Thirteen)
        } else if s == "M13"@ {
            Some(Aug::MajThirteen)
        } else {
            None
        }
    }

    /// Reads an extension suffix.
    pub fn try_from(s: &str) -> (r: Result<Aug, &'static str>)
        ensures
            match r {
                Ok(a) => Aug::parse(s@) == Some(a),
                Err(e) => Aug::parse(s@) is None && e@ == "Invalid aug"@,
            },
    {
        if str_eq(s, "6") {
            Ok(Aug::Six)
        } else if str_eq(s, "M6") {
            Ok(Aug::MajSix)
        } else if str_eq(s, "7") {
            Ok(Aug::Seven)
        } else if str_eq(s, "M7") {
            Ok(Aug::MajSeven)
        } else if str_eq(s, "9") {
            Ok(Aug::Nine)
        } else if str_eq(s, "M9") {
            Ok(Aug::MajNine)
        } else if str_eq(s, "11") {
            Ok(Aug::Eleven)
        } else if str_eq(s, "M11") {
            Ok(Aug::MajEleven)
        } else if str_eq(s, "13") {
            Ok(Aug::Thirteen)
        } else if str_eq(s, "M13") {
            Ok(Aug::MajThirteen)
        } else {
            Err("Invalid aug")
        }
    }
}

/// The accidental written at a note, natural where none is written or the
/// sign is not one.
pub open spec fn acc_of(node: Node) -> Acc {
    match node.field_child("acc"@) {
        Some(a) => match Acc::parse(a.text@) {
            Some(acc) => acc,
            None => Acc::Natural,
        },
        None => Acc::Natural,
    }
}

/// The octave written at a note, the fourth where none is written or the
/// text is not an octave.
pub open spec fn octave_at(node: Node) -> Octave {
    match node.field_child("oct"@) {
        Some(o) => match Octave::parse(o.text@) {
            Some(octave) => octave,
            None => Octave::Four,
        },
        None => Octave::Four,
    }
}

/// The note a note node writes: the letter under the field `bass` (or,
/// failing that, `small_bass`), moved by the accidental under `acc`, in the
/// octave under `oct`. There is none where the letter is missing or is not a
/// note letter.
pub open spec fn note_of(node: Node) -> Option<Note> {
    let letter = match node.field_child("bass"@) {
        Some(b) => Some(b),
        None => node.field_child("small_bass"@),
    };
    match letter {
        Some(l) => match PitchClass::parse(l.text@) {
            Some(p) => Some(Note(p.transposed(acc_of(node).shift()), octave_at(node))),
            None => None,
        },
        None => None,
    }
}

impl FromNode for Note {
    /// Reads a note from a note node.
    fn from_node(node: &Node) -> (r: Option<Note>)
        ensures
            r == note_of(*node),
    {
        let letter = match node.child_by_field_name("bass") {
            Some(b) => b,
            None => match node.child_by_field_name("small_bass") {
                Some(b) => b,
                None => {
                    return None;
                },
            },
        };
        let mut pitch = match PitchClass::try_from(letter.text.as_str()) {
            Ok(p) => p,
            Err(_) => {
                return None;
            },
        };
        let acc = match node.child_by_field_name("acc") {
            Some(a) => match Acc::try_from(a.text.as_str()) {
                Ok(acc) => acc,
                Err(_) => Acc::default(),
            },
            None => Acc::default(),
        };
        pitch.add_assign(acc);
        let octave = match node.child_by_field_name("oct") {
            Some(o) => match Octave::try_from(o.text.as_str()) {
                Ok(octave) => octave,
                Err(_) => Octave::default(),
            },
            None => Octave::default(),
        };
        Some(Note(pitch, octave))
    }
}

/// The mode written at a chord, major where none is written or the text is
/// not a mode.
pub open spec fn mode_of(node: Node) -> Mode {
    match node.field_child("mode"@) {
        Some(m) => match Mode::parse(m.text@) {
            Some(mode) => mode,
            None => Mode::Major,
        },
        None => Mode::Major,
    }
}

/// The extensions that a run of nodes writes, in order; a node whose text is
/// no extension is passed over.
pub open spec fn augs_of(nodes: Seq<Node>) -> Seq<Aug>
    decreases nodes.len(),
{
    if nodes.len() == 0 {
        Seq::empty()
    } else {
        match Aug::parse(nodes.last().text@) {
            Some(a) => augs_of(nodes.drop_last()).push(a),
            None => augs_of(nodes.drop_last()),
        }
    }
}

/// The chord a chord node writes: the note under `root`, the mode under
/// `mode`, the extensions under `augm`, and the note under `bass`, if that
/// is one. There is none where the root is missing or is not a note.
pub open spec fn chord_of(node: Node) -> Option<(Note, Mode, Seq<Aug>, Option<Note>)> {
    match node.field_child("root"@) {
        Some(r) => match note_of(r) {
            Some(root) => Some(
                (
                    root,
                    mode_of(node),
                    augs_of(node.field_children("augm"@)),
                    match node.field_child("bass"@) {
                        Some(b) => note_of(b),
                        None => None,
                    },
                ),
            ),
            None => None,
        },
        None => None,
    }
}

impl FromNode for Chord {
    /// Reads a chord from a chord node.
    fn from_node(node: &Node) -> (r: Option<Chord>)
        ensures
            match r {
                Some(c) => chord_of(*node) == Some(c@),
                None => chord_of(*node) is None,
            },
    {
        let root = match node.child_by_field_name("root") {
            Some(r) => match Note::from_node(r) {
                Some(root) => root,
                None => {
                    return None;
                },
            },
            None => {
                return None;
            },
        };
        let mode = match node.child_by_field_name("mode") {
            Some(m) => match Mode::try_from(m.text.as_str()) {
                Ok(mode) => mode,
                Err(_) => Mode::default(),
            },
            None => Mode::default(),
        };
        let written = node.children_by_field_name("augm");
        let ghost nodes = node.field_children("augm"@);
        let mut augs: Vec<Aug> = Vec::new();
        let mut i: usize = 0;
        while i < written.len()
            invariant
                i <= written.len(),
                written@.len() == nodes.len(),
                forall|j: int| 0 <= j < written@.len() ==> *#[trigger] written@[j] == nodes[j],
                augs@ == augs_of(nodes.take(i as int)),
            decreases written.len() - i,
        {
            proof {
                assert(nodes.take(i + 1).drop_last() =~= nodes.take(i as int));
                assert(nodes.take(i + 1).last() == *written@[i as int]);
            }
            match Aug::try_from(written[i].text.as_str()) {
                Ok(a) => {
                    augs.push(a);
                },
                Err(_) => {},
            }
            i += 1;
        }
        assert(nodes.take(i as int) =~= nodes);
        let bass = match node.child_by_field_name("bass") {
            Some(b) => Note::from_node(b),
            None => None,
        };
        Some(Chord(root, mode, Augs(augs), bass))
    }
}

impl Augs {
    /// A copy of the list of extensions.
    pub fn duplicate(&self) -> (copy: Augs)
        ensures
            copy@ == self@,
    {
        let mut augs: Vec<Aug> = Vec::new();
        let mut i: usize = 0;
        while i < self.0.len()
            invariant
                i <= self.0.len(),
                augs@ == self.0@.take(i as int),
            decreases self.0.len() - i,
        {
            augs.push(self.0[i]);
            assert(augs@ =~= self.0@.take(i + 1));
            i += 1;
        }
        assert(self.0@.take(i as int) =~= self.0@);
        Augs(augs)
    }
}

impl Chord {
    /// A copy of the chord.
    pub fn duplicate(&self) -> (copy: Chord)
        ensures
            copy@ == self@,
    {
        Chord(self.0, self.1, self.2.duplicate(), self.3)
    }
}

/// The twelfth power of `x`.
pub open spec fn pow12(x: int) -> int {
    let square = x * x;
    let fourth = square * square;
    fourth * fourth * fourth
}

/// Two to the power `n`, for `n` from 0 to 11.
pub open spec fn pow2(n: int) -> int {
    if n <= 0 {
        1
    } else if n == 1 {
        2
    } else if n == 2 {
        4
    } else if n == 3 {
        8
    } else if n == 4 {
        16
    } else if n == 5 {
        32
    } else if n == 6 {
        64
    } else if n == 7 {
        128
    } else if n == 8 {
        256
    } else if n == 9 {
        512
    } else if n == 10 {
        1024
    } else {
        2048
    }
}

impl PitchClass {
    /// The frequency of the pitch class in the fourth octave, in millionths
    /// of a hertz: twelve-tone equal temperament with A at 440 Hz, rounded
    /// down.
    pub open spec fn frequency(self) -> int {
        match self {
            PitchClass::C => 261_625_565,
            PitchClass::Cs => 277_182_630,
            PitchClass::D => 293_664_767,
            PitchClass::Ds => 311_126_983,
            PitchClass::E => 329_627_556,
            PitchClass::F => 349_228_231,
            PitchClass::Fs => 369_994_422,
            PitchClass::G => 391_995_435,
            PitchClass::Gs => 415_304_697,
            PitchClass::A => 440_000_000,
            PitchClass::As => 466_163_761,
            PitchClass::B => 493_883_301,
        }
    }

    /// The frequency of the pitch class in the fourth octave, in millionths
    /// of a hertz.
    pub fn to_freq(&self) -> (f: u64)
        ensures
            f == self.frequency(),
    {
        match self {
            PitchClass::C => 261_625_565,
            PitchClass::Cs => 277_182_630,
            PitchClass::D => 293_664_767,
            PitchClass::Ds => 311_126_983,
            PitchClass::E => 329_627_556,
            PitchClass::F => 349_228_231,
            PitchClass::Fs => 369_994_422,
            PitchClass::G => 391_995_435,
            PitchClass::Gs => 415_304_697,
            PitchClass::A => 440_000_000,
            PitchClass::As => 466_163_761,
            PitchClass::B => 493_883_301,
        }
    }
}

/// The frequency table is equal temperament anchored at A = 440 Hz.
///
/// The exact frequency of the pitch class `n` semitones above C is
/// `440 * 2^((n - 9) / 12)` hertz. The table holds that number in millionths
/// of a hertz, rounded down: raised to the twelfth power, the entry is at
/// most `(440 * 10^6)^12 * 2^(n - 9)`, and the next whole number is above it.
pub proof fn lemma_equal_temperament(p: PitchClass)
    ensures
        pow12(p.frequency()) * pow2(9) <= pow12(440_000_000) * pow2(p.index()),
        pow12(440_000_000) * pow2(p.index()) < pow12(p.frequency() + 1) * pow2(9),
{
    let f = p.frequency();
    let g = f + 1;
    let a = 440_000_000int;
    let low = pow12(f);
    let high = pow12(g);
    let exact = pow12(a);
    let scale = pow2(p.index());
    assert(low * 512 <= exact * scale < high * 512) by (nonlinear_arith)
        requires
            low == ((f * f) * (f * f)) * ((f * f) * (f * f)) * ((f * f) * (f * f)),
            high == ((g * g) * (g * g)) * ((g * g) * (g * g)) * ((g * g) * (g * g)),
            exact == ((a * a) * (a * a)) * ((a * a) * (a * a)) * ((a * a) * (a * a)),
            a == 440_000_000,
            g == f + 1,
            (f == 261_625_565 && scale == 1) || (f == 277_182_630 && scale == 2) || (f
                == 293_664_767 && scale == 4) || (f == 311_126_983 && scale == 8) || (f
                == 329_627_556 && scale == 16) || (f == 349_228_231 && scale == 32) || (f
                == 369_994_422 && scale == 64) || (f == 391_995_435 && scale == 128) || (f
                == 415_304_697 && scale == 256) || (f == 440_000_000 && scale == 512) || (f
                == 466_163_761 && scale == 1024) || (f == 493_883_301 && scale == 2048),
    ;
}

impl Note {
    /// The frequency of the note in millionths of a hertz: that of its pitch
    /// class, doubled for each octave above the fourth and halved, rounding
    /// down, for each octave below it.
    pub open spec fn frequency(self) -> int {
        match self.1 {
            Octave::One => self.0.frequency() / 8,
            Octave::Two => self.0.frequency() / 4,
            Octave::Three => self.0.frequency() / 2,
            Octave::Four => self.0.frequency(),
            Octave::Five => self.0.frequency() * 2,
            Octave::Six => self.0.frequency() * 4,
            Octave::Seven => self.0.frequency() * 8,
        }
    }

    /// The frequency of the note in millionths of a hertz.
    pub fn to_freq(&self) -> (f: u64)
        ensures
            f == self.frequency(),
    {
        let pitch: u64 = self.0.to_freq();
        match self.1 {
            Octave::One => pitch / 8,
            Octave::Two => pitch / 4,
            Octave::Three => pitch / 2,
            Octave::Four => pitch,
            Octave::Five => pitch * 2,
            Octave::Six => pitch * 4,
            Octave::Seven => pitch * 8,
        }
    }
}

impl Chord {
    /// The frequencies of the chord's notes, in millionths of a hertz.
    pub fn as_freqs(&self) -> (freqs: Vec<u64>)
        ensures
            freqs@.len() == self.notes().len(),
            forall|i: int|
                0 <= i < freqs@.len() ==> #[trigger] freqs@[i] == self.notes()[i].frequency(),
    {
        let notes = self.to_notes();
        let mut freqs: Vec<u64> = Vec::new();
        let mut i: usize = 0;
        while i < notes.len()
            invariant
                i <= notes.len(),
                freqs@.len() == i,
                forall|j: int| 0 <= j < i ==> #[trigger] freqs@[j] == notes@[j].frequency(),
            decreases notes.len() - i,
        {
            freqs.push(notes[i].to_freq());
            i += 1;
        }
        freqs
    }
}

impl PitchClass {
    /// How the pitch class is written: its letter, with an `s` for a sharp.
    pub open spec fn text(self) -> Seq<char> {
        match self {
            PitchClass::A => "A"@,
            PitchClass::As => "As"@,
            PitchClass::B => "B"@,
            PitchClass::C => "C"@,
            PitchClass::Cs => "Cs"@,
            PitchClass::D => "D"@,
            PitchClass::Ds => "Ds"@,
            PitchClass::E => "E"@,
            PitchClass::F => "F"@,
            PitchClass::Fs => "Fs"@,
            PitchClass::G => "G"@,
            PitchClass::Gs => "Gs"@,
        }
    }

    /// Writes the pitch class.
    pub fn to_string(&self) -> (s: String)
        ensures
            s@ == self.text(),
    {
        match self {
            PitchClass::A => "A".to_owned(),
            PitchClass::As => "As".to_owned(),
            PitchClass::B => "B".to_owned(),
            PitchClass::C => "C".to_owned(),
            PitchClass::Cs => "Cs".to_owned(),
            PitchClass::D => "D".to_owned(),
            PitchClass::Ds => "Ds".to_owned(),
            PitchClass::E => "E".to_owned(),
            PitchClass::F => "F".to_owned(),
            PitchClass::Fs => "Fs".to_owned(),
            PitchClass::G => "G".to_owned(),
            PitchClass::Gs => "Gs".to_owned(),
        }
    }
}

impl Octave {
    /// How the octave is written: its number.
    pub open spec fn text(self) -> Seq<char> {
        match self {
            Octave::One => "1"@,
            Octave::Two => "2"@,
            Octave::Three => "3"@,
            Octave::Four => "4"@,
            Octave::Five => "5"@,
            Octave::Six => "6"@,
            Octave::Seven => "7"@,
        }
    }

    /// Writes the octave.
    pub fn to_string(&self) -> (s: String)
        ensures
            s@ == self.text(),
    {
        match self {
            Octave::One => "1".to_owned(),
            Octave::Two => "2".to_owned(),
            Octave::Three => "3".to_owned(),
            Octave::Four => "4".to_owned(),
            Octave::Five => "5".to_owned(),
            Octave::Six => "6".to_owned(),
            Octave::Seven => "7".to_owned(),
        }
    }
}

impl Acc {
    /// How the accidental is written: `b`, `#`, or nothing for a natural.
    pub open spec fn text(self) -> Seq<char> {
        match self {
            Acc::Flat => "b"@,
            Acc::Sharp => "#"@,
            Acc::Natural => ""@,
        }
    }

    /// Writes the accidental.
    pub fn to_string(&self) -> (s: String)
        ensures
            s@ == self.text(),
    {
        match self {
            Acc::Flat => "b".to_owned(),
            Acc::Sharp => "#".to_owned(),
            Acc::Natural => "".to_owned(),
        }
    }
}

impl Mode {
    /// How the mode is written: its suffix, or nothing for major.
    pub open spec fn text(self) -> Seq<char> {
        match self {
            Mode::Major => ""@,
            Mode::Minor => "m"@,
            Mode::Dim => "dim"@,
            Mode::Aug => "aug"@,
            Mode::Sus4 => "sus4"@,
            Mode::Sus2 => "sus2"@,
        }
    }

    /// Writes the mode.
    pub fn to_string(&self) -> (s: String)
        ensures
            s@ == self.text(),
    {
        match self {
            Mode::Major => "".to_owned(),
            Mode::Minor => "m".to_owned(),
            Mode::Dim => "dim".to_owned(),
            Mode::Aug => "aug".to_owned(),
            Mode::Sus4 => "sus4".to_owned(),
            Mode::Sus2 => "sus2".to_owned(),
        }
    }
}

impl Aug {
    /// How the extension is written.
    pub open spec fn text(self) -> Seq<char> {
        match self {
            Aug::Six => "6"@,
            Aug::MajSix => "M6"@,
            Aug::Seven => "7"@,
            Aug::MajSeven => "M7"@,
            Aug::Nine => "9"@,
            Aug::MajNine => "M9"@,
            Aug::Eleven => "11"@,
            Aug::MajEleven => "M11"@,
            Aug::Thirteen => "13"@,
            Aug::MajThirteen => "M13"@,
        }
    }

    /// Writes the extension.
    pub fn to_string(&self) -> (s: String)
        ensures
            s@ == self.text(),
    {
        match self {
            Aug::Six => "6".to_owned(),
            Aug::MajSix => "M6".to_owned(),
            Aug::Seven => "7".to_owned(),
            Aug::MajSeven => "M7".to_owned(),
            Aug::Nine => "9".to_owned(),
            Aug::MajNine => "M9".to_owned(),
            Aug::Eleven => "11".to_owned(),
            Aug::MajEleven => "M11".to_owned(),
            Aug::Thirteen => "13".to_owned(),
            Aug::MajThirteen => "M13".to_owned(),
        }
    }
}

/// How a run of extensions is written: one after the other.
pub open spec fn augs_text(augs: Seq<Aug>) -> Seq<char>
    decreases augs.len(),
{
    if augs.len() == 0 {
        Seq::empty()
    } else {
        augs_text(augs.drop_last()) + augs.last().text()
    }
}

impl Note {
    /// How the note is written: the octave in square brackets, unless it is
    /// the fourth, and then the pitch class.
    pub open spec fn text(self) -> Seq<char> {
        if self.1 == Octave::Four {
            self.0.text()
        } else {
            "["@ + self.1.text() + "]"@ + self.0.text()
        }
    }

    /// Writes the note.
    pub fn to_string(&self) -> (s: String)
        ensures
            s@ == self.text(),
    {
        if self.1 == Octave::Four {
            self.0.to_string()
        } else {
            let mut s = "[".to_owned();
            s.append(self.1.to_string().as_str());
            s.append("]");
            s.append(self.0.to_string().as_str());
            s
        }
    }
}

impl Chord {
    /// How the chord is written: the root, the mode, the extensions, and,
    /// after a slash, the bass note if there is one.
    pub open spec fn text(&self) -> Seq<char> {
        self.0.text() + self.1.text() + augs_text(self.2@) + match self.3 {
            Some(bass) => "/"@ + bass.text(),
            None => Seq::empty(),
        }
    }

    /// Writes the chord.
    pub fn to_string(&self) -> (s: String)
        ensures
            s@ == self.text(),
    {
        let mut s = self.0.to_string();
        s.append(self.1.to_string().as_str());
        let ghost head = s@;
        let mut i: usize = 0;
        while i < self.2.0.len()
            invariant
                i <= self.2.0.len(),
                s@ == head + augs_text(self.2.0@.take(i as int)),
            decreases self.2.0.len() - i,
        {
            proof {
                assert(self.2.0@.take(i + 1).drop_last() =~= self.2.0@.take(i as int));
            }
            s.append(self.2.0[i].to_string().as_str());
            assert(s@ =~= head + augs_text(self.2.0@.take(i + 1)));
            i += 1;
        }
        assert(self.2.0@.take(i as int) =~= self.2.0@);
        if let Some(bass) = &self.3 {
            s.append("/");
            s.append(bass.to_string().as_str());
            assert(s@ =~= self.text());
        } else {
            assert(s@ =~= self.text());
        }
        s
    }
}

/// An angle as a fraction of a full turn: `num / den` turns, below one.
#[derive(Debug, Clone, Copy, PartialEq, Eq, Structural)]
pub struct Angle {
    pub num: u64,
    pub den: u64,
}

/// How far into its cycle the partial `harmonic` of a tone of `frequency`
/// millionths of a hertz is at sample `time` of an output of `sample_rate`
/// frames per second: `frequency * harmonic * time / sample_rate` turns,
/// less the whole turns. At a rate of zero it is no turn at all.
pub open spec fn angle_of(frequency: int, harmonic: u32, time: u128, sample_rate: u32) -> Angle {
    if sample_rate == 0 {
        Angle { num: 0, den: 1 }
    } else {
        Angle {
            num: ((frequency * harmonic * time) % (sample_rate * 1_000_000)) as u64,
            den: (sample_rate * 1_000_000) as u64,
        }
    }
}

impl Note {
    /// The angle of a partial of the note at sample `time`. Synthesis takes
    /// the sine of it. The angle is exact however far `time` has run.
    pub fn angle(&self, harmonic: u32, time: u128, sample_rate: u32) -> (a: Angle)
        ensures
            a == angle_of(self.frequency(), harmonic, time, sample_rate),
            a.num < a.den,
    {
        if sample_rate == 0 {
            return Angle { num: 0, den: 1 };
        }
        let den: u64 = (sample_rate as u64) * 1_000_000;
        let speed: u128 = mul_wide(self.to_freq(), harmonic as u64);
        let late: u128 = time % (den as u128);
        proof {
            let f = self.frequency();
            assert(0 <= f <= 3_951_066_408);
            assert(speed <= 3_951_066_408 * 0xffff_ffff) by (nonlinear_arith)
                requires
                    speed == f * harmonic,
                    0 <= f <= 3_951_066_408,
                    0 <= harmonic <= 0xffff_ffff,
            ;
            assert(speed * late <= 3_951_066_408 * 0xffff_ffff * 0xffff_ffff_ffff_ffff)
                by (nonlinear_arith)
                requires
                    0 <= speed <= 3_951_066_408 * 0xffff_ffff,
                    0 <= late <= 0xffff_ffff_ffff_ffff,
            ;
            vstd::arithmetic::div_mod::lemma_mul_mod_noop_right(
                speed as int,
                time as int,
                den as int,
            );
            vstd::arithmetic::div_mod::lemma_mod_bound(speed * late, den as int);
        }
        let num: u128 = (speed * late) % (den as u128);
        Angle { num: num as u64, den }
    }
}

} // verus!
