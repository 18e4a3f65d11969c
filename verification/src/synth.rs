//! Wavetable synthesis: a phase oscillator that reads a table at a
//! fractional position, and a bank that mixes several of them.
//!
//! A table position is counted in ticks. One table step is
//! `FIXED_ONE * sample_rate` ticks, so that every frequency moves the
//! position by a whole number of ticks per sample and nothing is rounded.

use vstd::prelude::*;
use vstd::arithmetic::div_mod::lemma_fundamental_div_mod;
use vstd::arithmetic::div_mod::lemma_mod_bound;
use vstd::arithmetic::div_mod::lemma_add_mod_noop_right;
use crate::FIXED_ONE;
use std::time::Duration;

verus! {

/// One output sample, the exact fraction `numerator / denominator` in the
/// amplitude unit of the wavetable entries.
#[derive(Clone, Copy, Debug)]
pub struct Sample {
    pub numerator: i128,
    pub denominator: u64,
}

/// A phase oscillator as a mathematical value.
pub struct OscillatorState {
    /// Samples per second.
    pub sample_rate: nat,
    /// One period of the waveform.
    pub wave_table: Seq<i16>,
    /// The read position, in ticks.
    pub index: int,
    /// Ticks by which the read position moves per sample.
    pub increment: int,
}

impl OscillatorState {
    /// Ticks in one table step.
    pub open spec fn resolution(self) -> int {
        FIXED_ONE as int * self.sample_rate as int
    }

    /// Ticks in one pass over the whole table.
    pub open spec fn period(self) -> int {
        self.wave_table.len() as int * self.resolution()
    }

    /// There is a table to read and a rate to read it at, and the read
    /// position lies inside the table.
    pub open spec fn wf(self) -> bool {
        &&& self.sample_rate > 0
        &&& self.wave_table.len() > 0
        &&& 0 <= self.index < self.period()
    }

    /// The table entry at or before the read position.
    pub open spec fn position(self) -> int {
        self.index / self.resolution()
    }

    /// The entry after `position`, which is the first one again after the last.
    pub open spec fn next_position(self) -> int {
        (self.position() + 1) % (self.wave_table.len() as int)
    }

    /// How far the read position is past `position`, in ticks.
    pub open spec fn fraction(self) -> int {
        self.index % self.resolution()
    }

    /// The linear interpolation between the two entries around the read
    /// position, times `resolution()`.
    pub open spec fn sample_numerator(self) -> int {
        (self.resolution() - self.fraction()) * (self.wave_table[self.position()] as int)
            + self.fraction() * (self.wave_table[self.next_position()] as int)
    }

    /// The oscillator after one sample: the read position has moved by the
    /// increment and wrapped into the table, in either direction.
    pub open spec fn step(self) -> OscillatorState {
        OscillatorState { index: (self.index + self.increment) % self.period(), ..self }
    }

    /// The oscillator after `n` samples.
    pub open spec fn advance(self, n: nat) -> OscillatorState
        decreases n,
    {
        if n == 0 {
            self
        } else {
            self.advance((n - 1) as nat).step()
        }
    }

    /// The same oscillator, tuned to `frequency / FIXED_ONE` hertz.
    pub open spec fn with_frequency(self, frequency: int) -> OscillatorState {
        OscillatorState { increment: frequency * (self.wave_table.len() as int), ..self }
    }

    /// A silent oscillator at the start of its table.
    pub open spec fn fresh(sample_rate: nat, wave_table: Seq<i16>) -> OscillatorState {
        OscillatorState { sample_rate, wave_table, index: 0, increment: 0 }
    }
}

/// The read position stays inside the table when it is divided into entry
/// and fraction.
pub proof fn lemma_position_in_table(s: OscillatorState)
    requires
        s.wf(),
    ensures
        s.resolution() > 0,
        s.period() > 0,
        0 <= s.position() < s.wave_table.len(),
        0 <= s.next_position() < s.wave_table.len(),
        0 <= s.fraction() < s.resolution(),
        s.index == s.resolution() * s.position() + s.fraction(),
{
    let d = s.resolution();
    let len = s.wave_table.len() as int;
    lemma_fundamental_div_mod(s.index, d);
    lemma_mod_bound(s.index, d);
    assert(0 <= s.index / d < len) by (nonlinear_arith)
        requires
            0 <= s.index < len * d,
            d > 0,
    ;
    assert(len * d > 0) by (nonlinear_arith)
        requires
            len > 0,
            d > 0,
    ;
    lemma_mod_bound(s.position() + 1, len);
}

/// A step leaves the oscillator fit to produce the next sample, whatever the
/// sign or size of the increment.
pub proof fn lemma_step_keeps_wf(s: OscillatorState)
    requires
        s.wf(),
    ensures
        s.step().wf(),
        s.step().sample_rate == s.sample_rate,
        s.step().wave_table == s.wave_table,
        s.step().increment == s.increment,
{
    lemma_position_in_table(s);
    lemma_mod_bound(s.index + s.increment, s.period());
}

/// A table-lookup oscillator with interpolation between entries.
pub struct BaseOscillator {
    sample_rate: u32,
    wave_table: Vec<i16>,
    index: u128,
    index_increment: i128,
}

impl View for BaseOscillator {
    type V = OscillatorState;

    closed spec fn view(&self) -> OscillatorState {
        OscillatorState {
            sample_rate: self.sample_rate as nat,
            wave_table: self.wave_table@,
            index: self.index as int,
            increment: self.index_increment as int,
        }
    }
}

impl BaseOscillator {
    /// The oscillator is fit to produce samples.
    pub open spec fn wf(&self) -> bool {
        self@.wf()
    }

    /// A silent oscillator at the start of `wave_table`.
    pub fn new(sample_rate: u32, wave_table: Vec<i16>) -> (oscillator: BaseOscillator)
        requires
            sample_rate > 0,
            wave_table.len() > 0,
        ensures
            oscillator.wf(),
            oscillator@ == OscillatorState::fresh(sample_rate as nat, wave_table@),
    {
        let oscillator = BaseOscillator { sample_rate, wave_table, index: 0, index_increment: 0 };
        proof {
            let s = oscillator@;
            assert(s.period() > 0) by (nonlinear_arith)
                requires
                    s.period() == s.wave_table.len() as int * s.resolution(),
                    s.wave_table.len() > 0,
                    s.resolution() > 0,
            ;
        }
        oscillator
    }

    /// Tunes the oscillator to `frequency / FIXED_ONE` hertz. Zero holds the
    /// read position still; a negative frequency reads the table backwards.
    pub fn set_frequency(&mut self, frequency: i64)
        requires
            old(self).wf(),
        ensures
            final(self).wf(),
            final(self)@ == old(self)@.with_frequency(frequency as int),
    {
        let len = self.wave_table.len();
        assert(i128::MIN < frequency * len <= i128::MAX) by (nonlinear_arith)
            requires
                -0x8000_0000_0000_0000 <= frequency < 0x8000_0000_0000_0000,
                0 <= len < 0x1_0000_0000_0000_0000,
        ;
        self.index_increment = frequency as i128 * len as i128;
    }

    /// The value at the read position: the two table entries around it,
    /// each weighted by its closeness. After the last entry comes the first.
    pub fn lerp(&self) -> (sample: Sample)
        requires
            self.wf(),
        ensures
            sample.numerator == self@.sample_numerator(),
            sample.denominator == self@.resolution(),
    {
        proof {
            lemma_position_in_table(self@);
        }
        let resolution: u128 = FIXED_ONE as u128 * self.sample_rate as u128;
        let len: usize = self.wave_table.len();
        assert(resolution == self@.resolution());
        assert(self.index / resolution == self@.position() < len);
        let truncated_index: usize = (self.index / resolution) as usize;
        let next_index: usize = (truncated_index + 1) % len;
        let next_index_weight: i128 = (self.index % resolution) as i128;
        let truncated_index_weight: i128 = resolution as i128 - next_index_weight;
        let truncated_entry: i128 = self.wave_table[truncated_index] as i128;
        let next_entry: i128 = self.wave_table[next_index] as i128;
        assert(-0x8000_0000_0000_0000 <= truncated_index_weight * truncated_entry
            <= 0x8000_0000_0000_0000) by (nonlinear_arith)
            requires
                0 <= truncated_index_weight <= 0x1_0000_0000_0000,
                -0x8000 <= truncated_entry <= 0x8000,
        ;
        assert(-0x8000_0000_0000_0000 <= next_index_weight * next_entry
            <= 0x8000_0000_0000_0000) by (nonlinear_arith)
            requires
                0 <= next_index_weight <= 0x1_0000_0000_0000,
                -0x8000 <= next_entry <= 0x8000,
        ;
        Sample {
            numerator: truncated_index_weight * truncated_entry + next_index_weight * next_entry,
            denominator: resolution as u64,
        }
    }

    /// Produces the sample at the read position, then moves the position by
    /// the increment and wraps it into the table.
    pub fn get_sample(&mut self) -> (sample: Sample)
        requires
            old(self).wf(),
        ensures
            sample.numerator == old(self)@.sample_numerator(),
            sample.denominator == old(self)@.resolution(),
            final(self)@ == old(self)@.step(),
            final(self).wf(),
    {
        let sample = self.lerp();
        proof {
            lemma_position_in_table(self@);
        }
        let resolution: u128 = FIXED_ONE as u128 * self.sample_rate as u128;
        let len: u128 = self.wave_table.len() as u128;
        assert(0 < len * resolution < 0x1_0000_0000_0000_0000_0000_0000_0000) by (nonlinear_arith)
            requires
                0 < len < 0x1_0000_0000_0000_0000,
                0 < resolution < 0x1_0000_0000_0000,
        ;
        let period: u128 = len * resolution;
        let wrapped = self.index_increment.checked_rem_euclid(period as i128);
        proof {
            lemma_mod_bound(self.index_increment as int, period as int);
        }
        let step: u128 = wrapped.unwrap() as u128;
        proof {
            lemma_add_mod_noop_right(self.index as int, self.index_increment as int, period as int);
            lemma_mod_bound(self.index + step, period as int);
        }
        self.index = (self.index + step) % period;
        sample
    }

    /// The next sample. The stream never ends, so this is never `None`.
    pub fn next(&mut self) -> (item: Option<Sample>)
        requires
            old(self).wf(),
        ensures
            item matches Some(sample) && sample.numerator == old(self)@.sample_numerator()
                && sample.denominator == old(self)@.resolution(),
            final(self)@ == old(self)@.step(),
            final(self).wf(),
    {
        Some(self.get_sample())
    }
}


/// The sum of what each of `voices` reads at its own position, as a
/// numerator over their common resolution.
pub open spec fn mixed_numerator(voices: Seq<OscillatorState>) -> int
    decreases voices.len(),
{
    if voices.len() == 0 {
        0
    } else {
        mixed_numerator(voices.drop_last()) + voices.last().sample_numerator()
    }
}

/// A bank of oscillators as a mathematical value.
pub struct BankState {
    /// The number of output channels announced to whoever plays the samples.
    pub channels: nat,
    /// Samples per second, shared by all voices.
    pub sample_rate: nat,
    /// The voices, in the order in which they were given.
    pub oscillators: Seq<OscillatorState>,
}

impl BankState {
    /// Ticks in one table step; the denominator of every sample.
    pub open spec fn resolution(self) -> int {
        FIXED_ONE as int * self.sample_rate as int
    }

    /// Every voice is fit to produce samples and runs at the bank's rate.
    /// The number of voices is free, and so is the channel count.
    pub open spec fn wf(self) -> bool {
        &&& self.sample_rate > 0
        &&& forall|k: int|
            0 <= k < self.oscillators.len() ==> (#[trigger] self.oscillators[k]).wf()
                && self.oscillators[k].sample_rate == self.sample_rate
    }

    /// The sum of the voices' samples, times `resolution()`.
    pub open spec fn sample_numerator(self) -> int {
        mixed_numerator(self.oscillators)
    }

    /// The bank after one sample: every voice has moved by one sample.
    pub open spec fn step(self) -> BankState {
        BankState {
            oscillators: Seq::new(self.oscillators.len(), |k: int| self.oscillators[k].step()),
            ..self
        }
    }

    /// The bank after `n` samples.
    pub open spec fn advance(self, n: nat) -> BankState
        decreases n,
    {
        if n == 0 {
            self
        } else {
            self.advance((n - 1) as nat).step()
        }
    }
}

/// An interpolated sample is no louder than the loudest table entry can be.
pub proof fn lemma_sample_in_range(s: OscillatorState)
    requires
        s.wf(),
    ensures
        -0x8000 * s.resolution() <= s.sample_numerator() <= 0x8000 * s.resolution(),
{
    lemma_position_in_table(s);
    let d = s.resolution();
    let r = s.fraction();
    let a = s.wave_table[s.position()] as int;
    let b = s.wave_table[s.next_position()] as int;
    assert(-0x8000 * d <= (d - r) * a + r * b <= 0x8000 * d) by (nonlinear_arith)
        requires
            0 <= r < d,
            -0x8000 <= a <= 0x8000,
            -0x8000 <= b <= 0x8000,
    ;
}

/// Several oscillators that play together and are heard as one source.
pub struct WavetableOscillator {
    channels: u16,
    sample_rate: u32,
    oscillators: Vec<BaseOscillator>,
}

impl View for WavetableOscillator {
    type V = BankState;

    closed spec fn view(&self) -> BankState {
        BankState {
            channels: self.channels as nat,
            sample_rate: self.sample_rate as nat,
            oscillators: Seq::new(self.oscillators@.len(), |k: int| self.oscillators@[k]@),
        }
    }
}

impl WavetableOscillator {
    /// The bank is fit to produce samples.
    pub open spec fn wf(&self) -> bool {
        self@.wf()
    }

    /// One oscillator per pair of wavetable and frequency, in the order
    /// given, each at the start of its own copy of the table. `channels` is
    /// passed on to whoever plays the samples; it need not be the number of
    /// voices.
    pub fn new(
        channels: u16,
        sample_rate: u32,
        oscillators: Vec<(Vec<i16>, i64)>,
    ) -> (bank: WavetableOscillator)
        requires
            sample_rate > 0,
            forall|k: int| 0 <= k < oscillators@.len() ==> (#[trigger] oscillators@[k]).0@.len() > 0,
        ensures
            bank.wf(),
            bank@.channels == channels,
            bank@.sample_rate == sample_rate,
            bank@.oscillators.len() == oscillators@.len(),
            forall|k: int|
                0 <= k < oscillators@.len() ==> #[trigger] bank@.oscillators[k]
                    == OscillatorState::fresh(sample_rate as nat, oscillators@[k].0@).with_frequency(
                    oscillators@[k].1 as int,
                ),
    {
        let mut voices: Vec<BaseOscillator> = Vec::new();
        let mut k: usize = 0;
        while k < oscillators.len()
            invariant
                sample_rate > 0,
                k <= oscillators@.len(),
                voices@.len() == k,
                forall|m: int|
                    0 <= m < oscillators@.len() ==> (#[trigger] oscillators@[m]).0@.len() > 0,
                forall|m: int|
                    0 <= m < k ==> (#[trigger] voices@[m]).wf() && voices@[m]@
                        == OscillatorState::fresh(
                        sample_rate as nat,
                        oscillators@[m].0@,
                    ).with_frequency(oscillators@[m].1 as int),
            decreases oscillators@.len() - k,
        {
            let wave_table = oscillators[k].0.clone();
            assert(wave_table@ == oscillators@[k as int].0@);
            let mut osc = BaseOscillator::new(sample_rate, wave_table);
            osc.set_frequency(oscillators[k].1);
            voices.push(osc);
            k = k + 1;
        }
        WavetableOscillator { channels, sample_rate, oscillators: voices }
    }

    /// Takes one sample from every voice and returns their sum. Nothing is
    /// scaled or clipped: the sum may be louder than any single table entry.
    pub fn get_sample(&mut self) -> (sample: Sample)
        requires
            old(self).wf(),
        ensures
            sample.numerator == old(self)@.sample_numerator(),
            sample.denominator == old(self)@.resolution(),
            final(self)@ == old(self)@.step(),
            final(self).wf(),
    {
        let ghost before = self@;
        let count: usize = self.oscillators.len();
        let mut numerator: i128 = 0;
        let mut k: usize = 0;
        while k < count
            invariant
                before.wf(),
                before == old(self)@,
                k <= count,
                count == self.oscillators@.len(),
                count == before.oscillators.len(),
                self.channels == old(self).channels,
                self.sample_rate == old(self).sample_rate,
                forall|m: int|
                    0 <= m < k ==> (#[trigger] self.oscillators@[m])@
                        == before.oscillators[m].step(),
                forall|m: int|
                    k <= m < count ==> (#[trigger] self.oscillators@[m])@
                        == before.oscillators[m],
                numerator == mixed_numerator(before.oscillators.take(k as int)),
                -0x8000_0000_0000_0000 * k <= numerator <= 0x8000_0000_0000_0000 * k,
            decreases count - k,
        {
            proof {
                lemma_sample_in_range(before.oscillators[k as int]);
                assert(before.oscillators.take(k + 1).drop_last()
                    == before.oscillators.take(k as int));
            }
            let voice = self.oscillators[k].get_sample();
            numerator = numerator + voice.numerator;
            k = k + 1;
        }
        proof {
            assert(before.oscillators.take(count as int) == before.oscillators);
            assert(self@.oscillators == before.step().oscillators);
            assert forall|m: int| 0 <= m < self@.oscillators.len() implies
                (#[trigger] self@.oscillators[m]).wf()
                && self@.oscillators[m].sample_rate == self@.sample_rate by {
                lemma_step_keeps_wf(before.oscillators[m]);
            }
        }
        Sample { numerator, denominator: FIXED_ONE as u64 * self.sample_rate as u64 }
    }

    /// The next sample. The stream never ends, so this is never `None`.
    pub fn next(&mut self) -> (item: Option<Sample>)
        requires
            old(self).wf(),
        ensures
            item matches Some(sample) && sample.numerator == old(self)@.sample_numerator()
                && sample.denominator == old(self)@.resolution(),
            final(self)@ == old(self)@.step(),
            final(self).wf(),
    {
        Some(self.get_sample())
    }

    /// The first `count` samples from here on; the bank is left where the
    /// stream continues.
    pub fn take_samples(&mut self, count: usize) -> (samples: Vec<Sample>)
        requires
            old(self).wf(),
        ensures
            samples@.len() == count,
            forall|k: int|
                0 <= k < count ==> (#[trigger] samples@[k]).numerator == old(self)@.advance(
                    k as nat,
                ).sample_numerator() && samples@[k].denominator == old(self)@.resolution(),
            final(self)@ == old(self)@.advance(count as nat),
            final(self).wf(),
    {
        let mut samples: Vec<Sample> = Vec::new();
        let mut taken: usize = 0;
        while taken < count
            invariant
                taken <= count,
                self.wf(),
                self@ == old(self)@.advance(taken as nat),
                self@.resolution() == old(self)@.resolution(),
                samples@.len() == taken,
                forall|k: int|
                    0 <= k < taken ==> (#[trigger] samples@[k]).numerator == old(self)@.advance(
                        k as nat,
                    ).sample_numerator() && samples@[k].denominator == old(self)@.resolution(),
            decreases count - taken,
        {
            let sample = self.get_sample();
            samples.push(sample);
            taken = taken + 1;
        }
        samples
    }

    /// The number of output channels the bank was made for.
    pub fn channels(&self) -> (channels: u16)
        ensures
            channels == self@.channels,
    {
        self.channels
    }

    /// Samples per second.
    pub fn sample_rate(&self) -> (sample_rate: u32)
        ensures
            sample_rate == self@.sample_rate,
    {
        self.sample_rate
    }

    /// The stream is not cut into frames: always `None`.
    pub fn current_frame_len(&self) -> (len: Option<usize>)
        ensures
            len is None,
    {
        None
    }

    /// The stream has no end of its own: always `None`.
    pub fn total_duration(&self) -> (duration: Option<Duration>)
        ensures
            duration is None,
    {
        None
    }
}


/// The number of samples that fill `millis` milliseconds at `sample_rate`
/// samples per second, rounded to the nearest whole sample; half a sample
/// rounds up.
pub fn segment_len(sample_rate: u32, millis: u32) -> (len: u64)
    ensures
        len == (sample_rate * millis + 500) / 1000,
{
    assert(sample_rate * millis <= 0xffff_ffff * 0xffff_ffff) by (nonlinear_arith)
        requires
            0 <= sample_rate <= 0xffff_ffff,
            0 <= millis <= 0xffff_ffff,
    ;
    (sample_rate as u64 * millis as u64 + 500) / 1000
}

} // verus!
