//! Post-processing effects: what a track's effect chain is made of, how long
//! a filter is, and the shift register that filters and meters run on.

use crate::text::Decimal;
use vstd::prelude::*;

verus! {

/// The longest FIR filter that is ever designed.
pub const MAX_FIR_LENGTH: usize = 100;

/// An effect in a track's chain.
#[derive(Debug, Clone, Copy, PartialEq, Eq, Structural)]
pub enum Effect {
    FIR(FIR),
    Reverb(Reverb),
    Gain(Gain),
    Compressor(Compressor),
}

/// The shape of a filter's frequency response.
#[derive(Debug, Clone, Copy, PartialEq, Eq, Structural)]
pub enum Response {
    /// A windowed-sinc low-pass.
    LowPass,
    /// A sign-alternating, unwindowed sinc high-pass.
    HighPass,
}

/// The design of a FIR filter: its response, its cutoff frequency in hertz,
/// the sample rate it runs at, and its number of taps.
#[derive(Debug, Clone, Copy, PartialEq, Eq, Structural)]
pub struct FIR {
    pub response: Response,
    pub cutoff: Decimal,
    pub sample_rate: u32,
    pub taps: usize,
}

/// Builds FIR filters of different kinds.
#[derive(Debug, Clone, Copy, PartialEq, Eq, Structural)]
pub struct FIRBuilder {
    pub response: Response,
    pub cutoff: Decimal,
    pub sample_rate: u32,
    pub taps: usize,
}

/// A reverb, which convolves with a fixed impulse response.
#[derive(Debug, Clone, Copy, PartialEq, Eq, Structural)]
pub struct Reverb {}

/// A gain: the output is the input times `amount`.
#[derive(Debug, Clone, Copy, PartialEq, Eq, Structural)]
pub struct Gain {
    pub amount: Decimal,
}

/// A compressor: above `threshold`, gain is reduced in proportion to
/// `ratio`; the energy is metered over `window` samples.
#[derive(Debug, Clone, Copy, PartialEq, Eq, Structural)]
pub struct Compressor {
    pub ratio: Decimal,
    pub threshold: Decimal,
    pub window: usize,
}

/// The number of taps of a filter with the given cutoff at the given sample
/// rate: twice the sample rate over the cutoff, rounded down, and at most
/// `MAX_FIR_LENGTH`. A cutoff of zero gives the longest filter.
pub open spec fn fir_length(cutoff: Decimal, sample_rate: u32) -> int {
    if cutoff.micros == 0 {
        MAX_FIR_LENGTH as int
    } else {
        let n = 2 * sample_rate * 1_000_000 / (cutoff.micros as int);
        if n < MAX_FIR_LENGTH {
            n
        } else {
            MAX_FIR_LENGTH as int
        }
    }
}

/// The number of taps of a filter with the given cutoff at the given sample
/// rate.
pub fn taps_for(cutoff: Decimal, sample_rate: u32) -> (taps: usize)
    ensures
        taps == fir_length(cutoff, sample_rate),
        taps <= MAX_FIR_LENGTH,
{
    if cutoff.micros == 0 {
        return MAX_FIR_LENGTH;
    }
    let n: u64 = 2 * (sample_rate as u64) * 1_000_000 / cutoff.micros;
    if n < MAX_FIR_LENGTH as u64 {
        n as usize
    } else {
        MAX_FIR_LENGTH
    }
}

impl FIRBuilder {
    /// A builder that has no filter yet: what it builds has no taps.
    pub fn new() -> (builder: FIRBuilder)
        ensures
            builder == (FIRBuilder {
                response: Response::LowPass,
                cutoff: Decimal { micros: 0 },
                sample_rate: 0,
                taps: 0,
            }),
    {
        FIRBuilder {
            response: Response::LowPass,
            cutoff: Decimal { micros: 0 },
            sample_rate: 0,
            taps: 0,
        }
    }

    /// Designs a low-pass filter.
    pub fn low_pass(self, cutoff: Decimal, sample_rate: u32) -> (builder: FIRBuilder)
        ensures
            builder == (FIRBuilder {
                response: Response::LowPass,
                cutoff,
                sample_rate,
                taps: fir_length(cutoff, sample_rate) as usize,
            }),
    {
        FIRBuilder {
            response: Response::LowPass,
            cutoff,
            sample_rate,
            taps: taps_for(cutoff, sample_rate),
        }
    }

    /// Designs a high-pass filter.
    pub fn high_pass(self, cutoff: Decimal, sample_rate: u32) -> (builder: FIRBuilder)
        ensures
            builder == (FIRBuilder {
                response: Response::HighPass,
                cutoff,
                sample_rate,
                taps: fir_length(cutoff, sample_rate) as usize,
            }),
    {
        FIRBuilder {
            response: Response::HighPass,
            cutoff,
            sample_rate,
            taps: taps_for(cutoff, sample_rate),
        }
    }

    /// The filter that was designed.
    pub fn build(&self) -> (fir: FIR)
        ensures
            fir == (FIR {
                response: self.response,
                cutoff: self.cutoff,
                sample_rate: self.sample_rate,
                taps: self.taps,
            }),
    {
        FIR {
            response: self.response,
            cutoff: self.cutoff,
            sample_rate: self.sample_rate,
            taps: self.taps,
        }
    }
}

impl Default for FIRBuilder {
    fn default() -> (builder: FIRBuilder)
        ensures
            builder == (FIRBuilder {
                response: Response::LowPass,
                cutoff: Decimal { micros: 0 },
                sample_rate: 0,
                taps: 0,
            }),
    {
        FIRBuilder::new()
    }
}

impl Reverb {
    /// A reverb.
    pub fn new() -> (reverb: Reverb)
        ensures
            reverb == (Reverb {  }),
    {
        Reverb {  }
    }
}

impl Default for Reverb {
    fn default() -> (reverb: Reverb)
        ensures
            reverb == (Reverb {  }),
    {
        Reverb::new()
    }
}

impl Gain {
    /// A gain by `amount`.
    pub fn new(amount: Decimal) -> (gain: Gain)
        ensures
            gain.amount == amount,
    {
        Gain { amount }
    }
}

impl Compressor {
    /// A compressor with the given ratio and threshold that meters the
    /// energy of the last `len` samples.
    pub fn new(ratio: Decimal, threshold: Decimal, len: usize) -> (compressor: Compressor)
        ensures
            compressor == (Compressor { ratio, threshold, window: len }),
    {
        Compressor { ratio, threshold, window: len }
    }
}

/// A shift register: a fixed number of cells, the most recent first. It is
/// the state of a FIR filter, of a reverb and of an energy meter.
#[derive(Debug)]
pub struct ShiftRegister<T> {
    pub cells: Vec<T>,
}

impl<T: Copy> ShiftRegister<T> {
    /// A register of `len` cells that all hold `fill`.
    pub fn new(len: usize, fill: T) -> (register: ShiftRegister<T>)
        ensures
            register.cells@ == Seq::new(len as nat, |i: int| fill),
    {
        let mut cells: Vec<T> = Vec::new();
        let mut i: usize = 0;
        while i < len
            invariant
                i <= len,
                cells@ == Seq::new(i as nat, |j: int| fill),
            decreases len - i,
        {
            cells.push(fill);
            assert(cells@ =~= Seq::new((i + 1) as nat, |j: int| fill));
            i += 1;
        }
        ShiftRegister { cells }
    }

    /// Shifts `input` in at the front and the oldest value out at the back.
    /// Gives the value that left; with no cells, that is `input` itself.
    pub fn shift_in(&mut self, input: T) -> (dropped: T)
        ensures
            final(self).cells@ == (seq![input] + old(self).cells@).drop_last(),
            dropped == (seq![input] + old(self).cells@).last(),
            final(self).cells@.len() == old(self).cells@.len(),
    {
        let ghost before = self.cells@;
        self.cells.insert(0, input);
        assert(self.cells@ =~= seq![input] + before);
        match self.cells.pop() {
            Some(last) => last,
            None => input,
        }
    }
}

} // verus!
