use std::sync::Arc;

use breakers::sampler::{Reading, Sample, SamplePlayer, SampleSet};
use breakers::text::Decimal;

const SILENCE: Reading = Reading { low: 0, high: 0, num: 0, den: 1 };

fn player(frames: Vec<i16>, rate: u32, speed: u64) -> SamplePlayer {
    let mut p = SamplePlayer::new(Arc::new(Sample::try_new("s", &frames, 1, rate).unwrap()));
    p.speed = Decimal { micros: speed };
    p
}

#[test]
fn loading_keeps_the_first_channel() {
    let stereo = vec![1, -1, 2, -2, 3, -3];
    let s = Sample::try_new("stereo.wav", &stereo, 2, 44100).unwrap();
    assert_eq!(s.name, "stereo.wav");
    assert_eq!(s.data, vec![1, 2, 3]);
    assert_eq!(s.sample_rate, 44100);
    let mono = Sample::try_new("m", &stereo, 1, 8000).unwrap();
    assert_eq!(mono.data, stereo);
    let ragged = Sample::try_new("r", &vec![1, 2, 3, 4, 5, 6, 7], 3, 8000).unwrap();
    assert_eq!(ragged.data, vec![1, 4, 7]);
    let wide = Sample::try_new("w", &vec![9, 8], 5, 8000).unwrap();
    assert_eq!(wide.data, vec![9]);
    let exact = Sample::try_new("e", &vec![1, 2, 3, 4], 4, 8000).unwrap();
    assert_eq!(exact.data, vec![1]);
    let empty = Sample::try_new("e", &vec![], 2, 8000).unwrap();
    assert!(empty.data.is_empty());
    let huge = Sample::try_new("h", &vec![5, 6, 7], u16::MAX, 8000).unwrap();
    assert_eq!(huge.data, vec![5]);
}

#[test]
fn no_channels_no_sample() {
    assert!(Sample::try_new("none", &vec![1, 2, 3], 0, 44100).is_none());
    assert!(Sample::try_new("none", &vec![], 0, 44100).is_none());
}

#[test]
fn a_new_player_starts_at_zero_at_four_fifths_speed() {
    let p = SamplePlayer::new(Arc::new(Sample::try_new("s", &vec![1], 1, 48000).unwrap()));
    assert_eq!(p.start, 0);
    assert_eq!(p.speed, Decimal { micros: 800_000 });
    assert_eq!(p.sample.data, vec![1]);
}

#[test]
fn reading_on_the_frame() {
    let p = player(vec![10, 20, 30], 48000, 1_000_000);
    assert_eq!(p.get_sample(0, 48000), Reading { low: 10, high: 20, num: 0, den: 48_000_000_000 });
    assert_eq!(p.get_sample(1, 48000), Reading { low: 20, high: 30, num: 0, den: 48_000_000_000 });
    assert_eq!(p.get_sample(2, 48000), Reading { low: 30, high: 0, num: 0, den: 48_000_000_000 });
    assert_eq!(p.get_sample(3, 48000), SILENCE);
    assert_eq!(p.get_sample(u128::MAX, 48000), SILENCE);
}

#[test]
fn reading_between_frames() {
    let p = player(vec![100, 200, 300, 400, 500], 48000, 800_000);
    assert_eq!(p.get_sample(1, 48000), Reading {
        low: 100,
        high: 200,
        num: 38_400_000_000,
        den: 48_000_000_000,
    });
    assert_eq!(p.get_sample(3, 48000), Reading {
        low: 300,
        high: 400,
        num: 19_200_000_000,
        den: 48_000_000_000,
    });
    assert_eq!(p.get_sample(5, 48000), Reading { low: 500, high: 0, num: 0, den: 48_000_000_000 });
    assert_eq!(p.get_sample(6, 48000), Reading {
        low: 500,
        high: 0,
        num: 38_400_000_000,
        den: 48_000_000_000,
    });
    assert_eq!(p.get_sample(7, 48000), SILENCE);
}

#[test]
fn reading_is_rescaled_to_the_output_rate() {
    let p = player(vec![0, 10, 20, 30, 40, 50, 60, 70], 44100, 1_000_000);
    let half = p.get_sample(3, 88200);
    assert_eq!(half.low, 10);
    assert_eq!(half.high, 20);
    assert_eq!(half.num * 2, half.den);
    let double = p.get_sample(3, 22050);
    assert_eq!((double.low, double.high, double.num), (60, 70, 0));
    assert_eq!(double.den, 22_050_000_000);
}

#[test]
fn hitting_restarts_playback() {
    let mut p = player(vec![10, 20, 30], 48000, 1_000_000);
    assert_eq!(p.get_sample(1000, 48000), SILENCE);
    p.hit(1000);
    assert_eq!(p.start, 1000);
    assert_eq!(p.get_sample(1000, 48000).low, 10);
    assert_eq!(p.get_sample(1002, 48000).low, 30);
    assert_eq!(p.get_sample(999, 48000), SILENCE);
    assert_eq!(p.get_sample(0, 48000), SILENCE);
}

#[test]
fn degenerate_rates_and_speeds() {
    let p = player(vec![10, 20, 30], 48000, 1_000_000);
    assert_eq!(p.get_sample(1, 0), SILENCE);
    let frozen = player(vec![10, 20, 30], 48000, 0);
    assert_eq!(frozen.get_sample(u128::MAX, 48000), Reading {
        low: 10,
        high: 20,
        num: 0,
        den: 48_000_000_000,
    });
    let still = player(vec![10, 20, 30], 0, 1_000_000);
    assert_eq!(still.get_sample(77, 48000).low, 10);
    let fast = player(vec![1; 16], u32::MAX, u64::MAX);
    assert_eq!(fast.get_sample(1 << 100, 1), SILENCE);
    assert_eq!(fast.get_sample(0, 1).low, 1);
    let nothing = player(vec![], 48000, 1_000_000);
    assert_eq!(nothing.get_sample(0, 48000), SILENCE);
}

#[test]
fn a_copy_of_a_player_shares_its_sample() {
    let mut p = player(vec![1, 2], 48000, 500_000);
    p.hit(42);
    let q = p.duplicate();
    assert!(Arc::ptr_eq(&p.sample, &q.sample));
    assert_eq!(Arc::strong_count(&p.sample), 2);
    assert_eq!(q.start, 42);
    assert_eq!(q.speed, Decimal { micros: 500_000 });
}

#[test]
fn the_last_sample_bound_to_a_name_counts() {
    let mut set = SampleSet::new();
    assert!(set.get("kick").is_none());
    set.insert("kick", Arc::new(Sample::try_new("a.wav", &vec![1], 1, 8000).unwrap()));
    set.insert("snare", Arc::new(Sample::try_new("b.wav", &vec![2], 1, 8000).unwrap()));
    set.insert("kick", Arc::new(Sample::try_new("c.wav", &vec![3], 1, 8000).unwrap()));
    assert_eq!(set.get("kick").unwrap().name, "c.wav");
    assert_eq!(set.get("snare").unwrap().name, "b.wav");
    assert!(set.get("Kick").is_none());
    assert!(set.get("").is_none());
}
