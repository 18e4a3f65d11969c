use image_proc::synth::segment_len;
use image_proc::synth::BaseOscillator;
use image_proc::synth::Sample;
use image_proc::synth::WavetableOscillator;
use image_proc::FIXED_ONE;

const TICKS_PER_STEP_AT_4: i128 = 262_144;

fn ramp() -> Vec<i16> {
    vec![0, 100, 200, 300]
}

fn triangle(len: usize) -> Vec<i16> {
    let mut table: Vec<i16> = Vec::new();
    let mut n: usize = 0;
    while n < len {
        let up: i64 = (n as i64) * 4000 / (len as i64);
        let value: i64 = if n < len / 2 { up - 1000 } else { 3000 - up };
        table.push(value as i16);
        n += 1;
    }
    table
}

/// The oscillator written out once more with plain integers, to compare with.
struct Reference {
    table: Vec<i16>,
    resolution: i128,
    index: i128,
    increment: i128,
}

impl Reference {
    fn new(sample_rate: u32, table: Vec<i16>, frequency: i64) -> Reference {
        let increment: i128 = (frequency as i128) * (table.len() as i128);
        let resolution: i128 = (FIXED_ONE as i128) * (sample_rate as i128);
        Reference { table, resolution, index: 0, increment }
    }

    fn get(&mut self) -> i128 {
        let len: i128 = self.table.len() as i128;
        let i: i128 = self.index / self.resolution;
        let j: i128 = (i + 1) % len;
        let frac: i128 = self.index % self.resolution;
        let value: i128 = (self.resolution - frac) * (self.table[i as usize] as i128)
            + frac * (self.table[j as usize] as i128);
        self.index = (self.index + self.increment).rem_euclid(len * self.resolution);
        value
    }
}

fn same(a: Sample, b: Sample) -> bool {
    a.numerator == b.numerator && a.denominator == b.denominator
}

#[test]
fn fresh_oscillator_reads_first_entry() {
    let mut osc = BaseOscillator::new(4, vec![7, 100, 200, 300]);
    let sample = osc.get_sample();
    assert_eq!(sample.denominator, 262_144);
    assert_eq!(sample.numerator, 7 * TICKS_PER_STEP_AT_4);
}

#[test]
fn denominator_is_fixed_one_times_sample_rate() {
    let mut osc = BaseOscillator::new(44_100, ramp());
    let sample = osc.get_sample();
    assert_eq!(sample.denominator, 2_890_137_600);
    assert_eq!(sample.denominator as i64, FIXED_ONE * 44_100);
}

#[test]
fn silent_until_frequency_is_set() {
    let mut osc = BaseOscillator::new(4, vec![5, 100, 200, 300]);
    let mut n: usize = 0;
    while n < 10 {
        assert_eq!(osc.get_sample().numerator, 5 * TICKS_PER_STEP_AT_4);
        n += 1;
    }
}

#[test]
fn zero_frequency_is_constant_over_1000_samples() {
    let mut osc = BaseOscillator::new(44_100, vec![321, -5, 17, 90]);
    osc.set_frequency(0);
    let mut n: usize = 0;
    while n < 1000 {
        let sample = osc.get_sample();
        assert_eq!(sample.numerator, 321 * 2_890_137_600);
        assert_eq!(sample.denominator, 2_890_137_600);
        n += 1;
    }
}

#[test]
fn zero_increment_repeats_the_value_at_any_position() {
    let mut osc = BaseOscillator::new(4, ramp());
    osc.set_frequency(FIXED_ONE * 3 / 4);
    osc.get_sample();
    osc.get_sample();
    osc.set_frequency(0);
    let first = osc.get_sample();
    let second = osc.get_sample();
    let third = osc.get_sample();
    assert_eq!(first.numerator, 150 * TICKS_PER_STEP_AT_4);
    assert!(same(first, second));
    assert!(same(second, third));
}

#[test]
fn unit_step_walks_the_table_and_returns() {
    let table = triangle(64);
    let frequency: i64 = 45_158_400;
    assert_eq!(frequency * 64, FIXED_ONE * 44_100);
    let mut osc = BaseOscillator::new(44_100, table.clone());
    osc.set_frequency(frequency);
    let mut first_pass: Vec<i128> = Vec::new();
    let mut n: usize = 0;
    while n < 64 {
        let sample = osc.get_sample();
        assert_eq!(sample.numerator, (table[n] as i128) * 2_890_137_600);
        first_pass.push(sample.numerator);
        n += 1;
    }
    n = 0;
    while n < 64 {
        assert_eq!(osc.get_sample().numerator, first_pass[n]);
        n += 1;
    }
}

#[test]
fn aligned_position_gives_the_entry_itself() {
    let mut osc = BaseOscillator::new(4, ramp());
    osc.set_frequency(2 * FIXED_ONE);
    let expected: [i128; 6] = [0, 200, 0, 200, 0, 200];
    let mut n: usize = 0;
    while n < 6 {
        let sample = osc.get_sample();
        assert_eq!(sample.numerator, expected[n] * (sample.denominator as i128));
        n += 1;
    }
}

#[test]
fn half_steps_interpolate_and_wrap_to_the_first_entry() {
    let mut osc = BaseOscillator::new(4, ramp());
    osc.set_frequency(FIXED_ONE / 2);
    let expected: [i128; 9] = [
        0, 13_107_200, 26_214_400, 39_321_600, 52_428_800, 65_536_000, 78_643_200, 39_321_600, 0,
    ];
    let mut n: usize = 0;
    while n < 9 {
        let sample = osc.get_sample();
        assert_eq!(sample.numerator, expected[n]);
        assert_eq!(sample.denominator, 262_144);
        n += 1;
    }
}

#[test]
fn negative_frequency_reads_backwards() {
    let mut osc = BaseOscillator::new(4, ramp());
    osc.set_frequency(-FIXED_ONE);
    let expected: [i128; 6] = [0, 78_643_200, 52_428_800, 26_214_400, 0, 78_643_200];
    let mut n: usize = 0;
    while n < 6 {
        assert_eq!(osc.get_sample().numerator, expected[n]);
        n += 1;
    }
}

#[test]
fn negative_quarter_steps_wrap_below_zero() {
    let mut osc = BaseOscillator::new(4, ramp());
    osc.set_frequency(-FIXED_ONE / 4);
    let expected: [i128; 6] =
        [0, 19_660_800, 39_321_600, 58_982_400, 78_643_200, 72_089_600];
    let mut n: usize = 0;
    while n < 6 {
        assert_eq!(osc.get_sample().numerator, expected[n]);
        n += 1;
    }
}

#[test]
fn extreme_frequencies_stay_inside_the_table() {
    let table = triangle(64);
    let mut high = BaseOscillator::new(1, table.clone());
    high.set_frequency(i64::MAX);
    let mut low = BaseOscillator::new(1, table.clone());
    low.set_frequency(i64::MIN);
    let mut high_ref = Reference::new(1, table.clone(), i64::MAX);
    let mut low_ref = Reference::new(1, table, i64::MIN);
    let mut n: usize = 0;
    while n < 200 {
        assert_eq!(high.get_sample().numerator, high_ref.get());
        assert_eq!(low.get_sample().numerator, low_ref.get());
        n += 1;
    }
}

#[test]
fn oscillator_matches_reference_at_odd_frequency() {
    let table = triangle(64);
    let frequency: i64 = 440 * FIXED_ONE + 12_345;
    let mut osc = BaseOscillator::new(44_100, table.clone());
    osc.set_frequency(frequency);
    let mut reference = Reference::new(44_100, table, frequency);
    let mut n: usize = 0;
    while n < 5000 {
        assert_eq!(osc.get_sample().numerator, reference.get());
        n += 1;
    }
}

#[test]
fn single_entry_table_is_constant() {
    let mut osc = BaseOscillator::new(8, vec![-32768]);
    osc.set_frequency(3 * FIXED_ONE + 1);
    let mut n: usize = 0;
    while n < 20 {
        let sample = osc.get_sample();
        assert_eq!(sample.numerator, -32768 * (sample.denominator as i128));
        n += 1;
    }
}

#[test]
fn oscillator_next_is_always_some() {
    let mut osc = BaseOscillator::new(4, ramp());
    osc.set_frequency(FIXED_ONE);
    let mut twin = BaseOscillator::new(4, ramp());
    twin.set_frequency(FIXED_ONE);
    let mut n: usize = 0;
    while n < 10 {
        let item = osc.next();
        assert!(item.is_some());
        assert!(same(item.unwrap(), twin.get_sample()));
        n += 1;
    }
}

#[test]
fn bank_is_sum_of_its_oscillators_over_100_samples() {
    let first_table = triangle(64);
    let second_table: Vec<i16> = vec![0, 32767, 0, -32768, 5];
    let first_frequency: i64 = 440 * FIXED_ONE;
    let second_frequency: i64 = -(261 * FIXED_ONE + 40_000);
    let mut bank = WavetableOscillator::new(
        2,
        44_100,
        vec![(first_table.clone(), first_frequency), (second_table.clone(), second_frequency)],
    );
    let mut first = BaseOscillator::new(44_100, first_table);
    first.set_frequency(first_frequency);
    let mut second = BaseOscillator::new(44_100, second_table);
    second.set_frequency(second_frequency);
    let mut n: usize = 0;
    while n < 100 {
        let mixed = bank.get_sample();
        let a = first.get_sample();
        let b = second.get_sample();
        assert_eq!(mixed.numerator, a.numerator + b.numerator);
        assert_eq!(mixed.denominator, a.denominator);
        assert_eq!(mixed.denominator, b.denominator);
        n += 1;
    }
}

#[test]
fn bank_order_does_not_change_the_sum() {
    let a: (Vec<i16>, i64) = (triangle(64), 100 * FIXED_ONE);
    let b: (Vec<i16>, i64) = (ramp(), 7 * FIXED_ONE / 3);
    let mut forward = WavetableOscillator::new(2, 8000, vec![a.clone(), b.clone()]);
    let mut backward = WavetableOscillator::new(2, 8000, vec![b, a]);
    let mut n: usize = 0;
    while n < 300 {
        assert!(same(forward.get_sample(), backward.get_sample()));
        n += 1;
    }
}

#[test]
fn bank_is_not_clamped() {
    let loud: Vec<i16> = vec![32767];
    let mut bank = WavetableOscillator::new(
        1,
        4,
        vec![(loud.clone(), 0), (loud.clone(), 0), (loud, 0)],
    );
    let sample = bank.get_sample();
    assert_eq!(sample.numerator, 3 * 32767 * TICKS_PER_STEP_AT_4);
    assert_eq!(sample.denominator, 262_144);
}

#[test]
fn empty_bank_is_silent() {
    let mut bank = WavetableOscillator::new(2, 44_100, Vec::new());
    let mut n: usize = 0;
    while n < 5 {
        let sample = bank.get_sample();
        assert_eq!(sample.numerator, 0);
        assert_eq!(sample.denominator, 2_890_137_600);
        n += 1;
    }
}

#[test]
fn bank_reports_what_it_was_made_with() {
    let bank = WavetableOscillator::new(2, 44_100, vec![(ramp(), 1), (ramp(), 2), (ramp(), 3)]);
    assert_eq!(bank.channels(), 2);
    assert_eq!(bank.sample_rate(), 44_100);
    assert_eq!(bank.current_frame_len(), None);
    assert_eq!(bank.total_duration(), None);
    let other = WavetableOscillator::new(7, 8000, Vec::new());
    assert_eq!(other.channels(), 7);
    assert_eq!(other.sample_rate(), 8000);
}

#[test]
fn bank_next_is_always_some() {
    let mut bank = WavetableOscillator::new(2, 4, vec![(ramp(), FIXED_ONE)]);
    let mut twin = WavetableOscillator::new(2, 4, vec![(ramp(), FIXED_ONE)]);
    let mut n: usize = 0;
    while n < 10 {
        let item = bank.next();
        assert!(item.is_some());
        assert!(same(item.unwrap(), twin.get_sample()));
        n += 1;
    }
}

#[test]
fn take_samples_is_the_stream_cut_short() {
    let voices: Vec<(Vec<i16>, i64)> =
        vec![(triangle(64), 50 * FIXED_ONE), (triangle(64), 25 * FIXED_ONE)];
    let mut bank = WavetableOscillator::new(2, 44_100, voices.clone());
    let mut twin = WavetableOscillator::new(2, 44_100, voices);
    let head = bank.take_samples(40);
    assert_eq!(head.len(), 40);
    let mut n: usize = 0;
    while n < 40 {
        assert!(same(head[n], twin.get_sample()));
        n += 1;
    }
    let tail = bank.take_samples(3);
    assert_eq!(tail.len(), 3);
    n = 0;
    while n < 3 {
        assert!(same(tail[n], twin.get_sample()));
        n += 1;
    }
    assert_eq!(bank.take_samples(0).len(), 0);
}

#[test]
fn segment_len_rounds_to_the_nearest_sample() {
    assert_eq!(segment_len(44_100, 30), 1323);
    assert_eq!(segment_len(44_100, 1000), 44_100);
    assert_eq!(segment_len(1, 499), 0);
    assert_eq!(segment_len(1, 500), 1);
    assert_eq!(segment_len(3, 500), 2);
    assert_eq!(segment_len(0, 30), 0);
    assert_eq!(segment_len(44_100, 0), 0);
    assert_eq!(segment_len(u32::MAX, u32::MAX), 18_446_744_065_119_617);
}
