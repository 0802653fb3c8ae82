//! Decoded samples and the cursors that play them back.

use crate::text::str_eq;
use crate::text::Decimal;
use std::sync::Arc;
use vstd::prelude::*;

verus! {

/// A decoded, single-channel sample: its name, its frames as signed 16-bit
/// values, and the rate at which it was recorded.
#[derive(Debug, PartialEq)]
pub struct Sample {
    pub name: String,
    pub data: Vec<i16>,
    pub sample_rate: u32,
}

/// A playback cursor on a shared sample: where in time playback started,
/// and how fast it runs.
#[derive(Debug, Clone, PartialEq)]
pub struct SamplePlayer {
    pub sample: Arc<Sample>,
    pub start: u128,
    pub speed: Decimal,
}

/// The samples a score can name, each under the name it is bound to. Where
/// a name occurs more than once, the last entry counts.
#[derive(Debug)]
pub struct SampleSet {
    pub samples: Vec<(String, Arc<Sample>)>,
}

/// The sample bound to `name`: that of the last entry with this name.
pub open spec fn sample_named(samples: Seq<(String, Arc<Sample>)>, name: Seq<char>) -> Option<
    Arc<Sample>,
>
    decreases samples.len(),
{
    if samples.len() == 0 {
        None
    } else if samples.last().0@ == name {
        Some(samples.last().1)
    } else {
        sample_named(samples.drop_last(), name)
    }
}

/// What a playback cursor reads at one instant: the two frames next to the
/// read position and how far, as the fraction `num / den`, the position lies
/// from the first towards the second. The value read is
/// `low + (high - low) * num / den`.
#[derive(Debug, Clone, Copy, PartialEq, Eq, Structural)]
pub struct Reading {
    pub low: i16,
    pub high: i16,
    pub num: u128,
    pub den: u128,
}

/// The reading that stands for silence.
pub open spec fn silent_reading() -> Reading {
    Reading { low: 0, high: 0, num: 0, den: 1 }
}

/// The frame at position `i`, or 0 outside the sample.
pub open spec fn frame_at(data: Seq<i16>, i: int) -> i16 {
    if 0 <= i < data.len() {
        data[i]
    } else {
        0
    }
}

/// Whether `data[j]` is the value of `pcm` at `j` strides from the start.
pub open spec fn picks(data: Seq<i16>, pcm: Seq<i16>, stride: int, j: int) -> bool {
    0 <= j * stride < pcm.len() && data[j] == pcm[j * stride]
}

/// Whether `data` holds every `stride`-th value of `pcm`, from the first on.
pub open spec fn strided(data: Seq<i16>, pcm: Seq<i16>, stride: int) -> bool {
    forall|j: int| 0 <= j < data.len() ==> #[trigger] picks(data, pcm, stride, j)
}

/// The first channel of interleaved frames: every `channels`-th value,
/// starting with the first.
pub open spec fn first_channel(pcm: Seq<i16>, channels: int) -> Seq<i16>
    recommends
        channels > 0,
{
    Seq::new(
        ((pcm.len() + channels - 1) / channels) as nat,
        |i: int| pcm[i * channels],
    )
}

/// What a cursor reads: see `SamplePlayer::get_sample`.
pub open spec fn reading_of(
    data: Seq<i16>,
    source_rate: int,
    start: int,
    speed_micros: int,
    time: int,
    output_rate: int,
) -> Reading {
    let p = (time - start) * speed_micros * source_rate;
    let q = 1_000_000 * output_rate;
    if time < start || output_rate <= 0 || p / q >= data.len() {
        silent_reading()
    } else {
        Reading {
            low: data[p / q],
            high: frame_at(data, p / q + 1),
            num: (p % q) as u128,
            den: q as u128,
        }
    }
}

/// Another pointer to the same shared value, by `Arc::clone` of the standard
/// library: the result points to the value the argument points to.
#[verifier::external_body]
pub(crate) fn share<T>(value: &Arc<T>) -> (shared: Arc<T>)
    ensures
        shared == *value,
{
    Arc::clone(value)
}

impl Sample {
    /// Builds a sample from interleaved frames of `channels` channels, of
    /// which it keeps the first. Gives `None` for zero channels.
    pub fn try_new(name: &str, pcm: &Vec<i16>, channels: u16, sample_rate: u32) -> (r: Option<
        Sample,
    >)
        ensures
            channels == 0 <==> r is None,
            r matches Some(s) ==> s.name@ == name@ && s.sample_rate == sample_rate && s.data@
                == first_channel(pcm@, channels as int),
    {
        if channels == 0 {
            return None;
        }
        let stride: usize = channels as usize;
        let mut data: Vec<i16> = Vec::new();
        let mut i: usize = 0;
        let mut done = pcm.len() == 0;
        assert(data@.len() * stride == 0) by (nonlinear_arith)
            requires
                data@.len() == 0,
        ;
        while !done
            invariant
                stride == channels > 0,
                !done ==> i < pcm.len() && i == data@.len() * stride,
                done ==> (pcm@.len() == 0 && data@.len() == 0) || (data@.len() > 0 && (data@.len()
                    - 1) * stride < pcm@.len() <= data@.len() * stride),
                strided(data@, pcm@, stride as int),
            decreases
                    (if done {
                        0
                    } else {
                        pcm.len() - i
                    }),
        {
            let ghost before = data@.len();
            let ghost earlier = data@;
            data.push(pcm[i]);
            assert forall|j: int| 0 <= j < data@.len() implies #[trigger] picks(
                data@,
                pcm@,
                stride as int,
                j,
            ) by {
                if j < before {
                    assert(picks(earlier, pcm@, stride as int, j));
                }
            }
            assert((before + 1) * stride == i + stride) by (nonlinear_arith)
                requires
                    before * stride == i,
            ;
            if pcm.len() - i <= stride {
                done = true;
            } else {
                i += stride;
            }
        }
        proof {
            if pcm@.len() > 0 {
                lemma_count(pcm@.len() as int, stride as int, data@.len() as int);
            } else {
                assert((0 + stride - 1) / (stride as int) == 0) by (nonlinear_arith)
                    requires
                        stride > 0,
                ;
            }
        }
        assert forall|j: int| 0 <= j < data@.len() implies data@[j] == first_channel(
            pcm@,
            channels as int,
        )[j] by {
            assert(picks(data@, pcm@, stride as int, j));
        }
        assert(data@ =~= first_channel(pcm@, channels as int));
        Some(Sample { name: name.to_owned(), data, sample_rate })
    }
}

/// `count` strides cover `len` values, and one fewer do not, exactly when
/// `count` is `len` divided by the stride, rounded up.
proof fn lemma_count(len: int, stride: int, count: int)
    requires
        stride > 0,
        len > 0,
        (count - 1) * stride < len <= count * stride,
    ensures
        (len + stride - 1) / stride == count,
{
    let x = len + stride - 1;
    assert(count * stride <= x < (count + 1) * stride) by (nonlinear_arith)
        requires
            x == len + stride - 1,
            (count - 1) * stride < len <= count * stride,
    ;
    vstd::arithmetic::div_mod::lemma_div_multiples_vanish_fancy(count, x - count * stride, stride);
    assert(count * stride + (x - count * stride) == x);
}

/// A position that needs more than 128 bits for its numerator lies beyond
/// every sample that memory can hold.
proof fn lemma_far_position(p: int, q: int, len: int)
    requires
        p >= 0x1_0000_0000_0000_0000_0000_0000_0000_0000,
        0 < q <= 1_000_000 * 0xffff_ffff,
        len <= 0xffff_ffff_ffff_ffff,
    ensures
        p / q >= len,
{
    vstd::arithmetic::div_mod::lemma_fundamental_div_mod(p, q);
    vstd::arithmetic::div_mod::lemma_mod_bound(p, q);
    if p / q < len {
        assert(q * (p / q) <= 1_000_000 * 0xffff_ffff * 0xffff_ffff_ffff_ffff) by (nonlinear_arith)
            requires
                0 < q <= 1_000_000 * 0xffff_ffff,
                p / q < 0xffff_ffff_ffff_ffff,
        ;
    }
}

impl SamplePlayer {
    /// What the cursor reads at `time` when the output runs at
    /// `sample_rate` frames per second.
    ///
    /// The read position is `(time - start) * speed`, scaled by the ratio of
    /// the sample's own rate to the output rate. Its whole part selects the
    /// two frames, its fractional part is `num / den`. A position before the
    /// start or past the end of the sample reads silence, and a frame past
    /// the end reads 0.
    pub open spec fn reading(&self, time: u128, sample_rate: u32) -> Reading {
        reading_of(
            self.sample.data@,
            self.sample.sample_rate as int,
            self.start as int,
            self.speed.micros as int,
            time as int,
            sample_rate as int,
        )
    }

    /// A cursor on `sample` that starts at time 0 and plays at four fifths
    /// of the recorded speed.
    pub fn new(sample: Arc<Sample>) -> (player: SamplePlayer)
        ensures
            player.sample == sample,
            player.start == 0,
            player.speed.micros == 800_000,
    {
        SamplePlayer { sample, start: 0, speed: Decimal { micros: 800_000 } }
    }

    /// Hits the sample: playback starts again from its first frame at `time`.
    pub fn hit(&mut self, time: u128)
        ensures
            final(self).start == time,
            final(self).sample == old(self).sample,
            final(self).speed == old(self).speed,
    {
        self.start = time;
    }

    /// Another cursor on the same sample, with the same start and speed.
    pub fn duplicate(&self) -> (copy: SamplePlayer)
        ensures
            copy == *self,
    {
        SamplePlayer { sample: share(&self.sample), start: self.start, speed: self.speed }
    }

    /// Reads the sample at `time` for an output of `sample_rate` frames per
    /// second.
    pub fn get_sample(&self, time: u128, sample_rate: u32) -> (r: Reading)
        ensures
            r == self.reading(time, sample_rate),
            r.num < r.den,
    {
        if time < self.start || sample_rate == 0 {
            return Reading { low: 0, high: 0, num: 0, den: 1 };
        }
        let elapsed: u128 = time - self.start;
        let q: u128 = 1_000_000u128 * (sample_rate as u128);
        let len = self.sample.data.len();
        let ghost p = elapsed * self.speed.micros * self.sample.sample_rate;
        assert(self.speed.micros * self.sample.sample_rate <= 0xffff_ffff_ffff_ffff * 0xffff_ffff)
            by (nonlinear_arith)
            requires
                0 <= self.speed.micros <= 0xffff_ffff_ffff_ffff,
                0 <= self.sample.sample_rate <= 0xffff_ffff,
        ;
        let factor: u128 = (self.speed.micros as u128) * (self.sample.sample_rate as u128);
        assert(p == elapsed * factor) by (nonlinear_arith)
            requires
                p == elapsed * self.speed.micros * self.sample.sample_rate,
                factor == self.speed.micros * self.sample.sample_rate,
        ;
        let numerator: u128 = match elapsed.checked_mul(factor) {
            Some(v) => v,
            None => {
                proof {
                    lemma_far_position(p, q as int, len as int);
                }
                return Reading { low: 0, high: 0, num: 0, den: 1 };
            },
        };
        let index: u128 = numerator / q;
        if index >= len as u128 {
            return Reading { low: 0, high: 0, num: 0, den: 1 };
        }
        let i: usize = index as usize;
        let high: i16 = if i + 1 < len {
            self.sample.data[i + 1]
        } else {
            0
        };
        Reading { low: self.sample.data[i], high, num: numerator % q, den: q }
    }
}

impl SampleSet {
    /// An empty set of samples.
    pub fn new() -> (set: SampleSet)
        ensures
            set.samples@.len() == 0,
    {
        SampleSet { samples: Vec::new() }
    }

    /// Binds `name` to `sample`, in place of whatever it was bound to.
    pub fn insert(&mut self, name: &str, sample: Arc<Sample>)
        ensures
            final(self).samples@.len() == old(self).samples@.len() + 1,
            sample_named(final(self).samples@, name@) == Some(sample),
            forall|other: Seq<char>|
                other != name@ ==> sample_named(final(self).samples@, other) == sample_named(
                    old(self).samples@,
                    other,
                ),
    {
        let ghost before = self.samples@;
        self.samples.push((name.to_owned(), sample));
        assert(self.samples@.drop_last() =~= before);
    }

    /// The sample bound to `name`, if there is one.
    pub fn get(&self, name: &str) -> (found: Option<&Arc<Sample>>)
        ensures
            match found {
                Some(s) => sample_named(self.samples@, name@) == Some(*s),
                None => sample_named(self.samples@, name@) is None,
            },
    {
        let mut i: usize = self.samples.len();
        assert(self.samples@.take(i as int) =~= self.samples@);
        while i > 0
            invariant
                i <= self.samples.len(),
                sample_named(self.samples@, name@) == sample_named(
                    self.samples@.take(i as int),
                    name@,
                ),
            decreases i,
        {
            proof {
                assert(self.samples@.take(i as int).drop_last() =~= self.samples@.take(i - 1));
            }
            if str_eq(self.samples[i - 1].0.as_str(), name) {
                return Some(&self.samples[i - 1].1);
            }
            i -= 1;
        }
        None
    }
}

} // verus!
