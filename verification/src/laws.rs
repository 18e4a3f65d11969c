//! What holds of every oscillator and every bank, proved over their
//! mathematical models.

use vstd::prelude::*;
use vstd::arithmetic::div_mod::lemma_add_mod_noop;
use vstd::arithmetic::div_mod::lemma_fundamental_div_mod;
use vstd::arithmetic::div_mod::lemma_mod_multiples_vanish;
use vstd::arithmetic::div_mod::lemma_mod_twice;
use vstd::arithmetic::div_mod::lemma_small_mod;
use vstd::arithmetic::mul::lemma_mul_is_distributive_add_other_way;
use crate::synth::lemma_position_in_table;
use crate::synth::lemma_step_keeps_wf;
use crate::synth::mixed_numerator;
use crate::synth::BankState;
use crate::synth::OscillatorState;
use crate::FIXED_ONE;

verus! {

/// After `n` samples the read position is where `n` increments lead,
/// wrapped into the table; the table, the rate and the increment are as
/// they were. This holds for increments of either sign and any size.
pub proof fn lemma_index_after(s: OscillatorState, n: nat)
    requires
        s.wf(),
    ensures
        s.advance(n).wf(),
        s.advance(n) == (OscillatorState { index: (s.index + n * s.increment) % s.period(), ..s }),
    decreases n,
{
    lemma_position_in_table(s);
    let p = s.period();
    if n == 0 {
        lemma_small_mod(s.index as nat, p as nat);
    } else {
        let m = (n - 1) as nat;
        let before = s.advance(m);
        lemma_index_after(s, m);
        lemma_step_keeps_wf(before);
        assert(before.period() == p);
        let a = s.index + m * s.increment;
        lemma_add_mod_noop(a, s.increment, p);
        lemma_mod_twice(a, p);
        lemma_add_mod_noop(a % p, s.increment, p);
        assert(a + s.increment == s.index + n * s.increment) by {
            lemma_mul_is_distributive_add_other_way(s.increment, m as int, 1);
        }
    }
}

/// With an increment of zero a sample leaves the oscillator as it was, so
/// reading again gives the same value.
pub proof fn lemma_still_oscillator_repeats(s: OscillatorState)
    requires
        s.wf(),
        s.increment == 0,
    ensures
        s.step() == s,
        s.step().sample_numerator() == s.sample_numerator(),
{
    lemma_position_in_table(s);
    lemma_small_mod(s.index as nat, s.period() as nat);
}

/// At `sample_rate / table length` hertz the read position moves by exactly
/// one entry per sample, and after as many samples as the table has entries
/// the oscillator is back where it started.
pub proof fn lemma_unit_step_period(s: OscillatorState, frequency: int)
    requires
        s.wf(),
        frequency * s.wave_table.len() == FIXED_ONE * s.sample_rate,
    ensures
        s.with_frequency(frequency).increment == s.resolution(),
        s.with_frequency(frequency).advance(s.wave_table.len()) == s.with_frequency(frequency),
{
    let t = s.with_frequency(frequency);
    let len = s.wave_table.len();
    lemma_position_in_table(s);
    lemma_index_after(t, len);
    lemma_mod_multiples_vanish(1, s.index, s.period());
    lemma_small_mod(s.index as nat, s.period() as nat);
}

/// Where the read position falls exactly on an entry, the sample is that
/// entry: the next one has no weight.
pub proof fn lemma_aligned_sample_is_entry(s: OscillatorState)
    requires
        s.wf(),
        s.fraction() == 0,
    ensures
        s.sample_numerator() == s.wave_table[s.position()] * s.resolution(),
{
    lemma_position_in_table(s);
    let d = s.resolution();
    let a = s.wave_table[s.position()] as int;
    let b = s.wave_table[s.next_position()] as int;
    assert((d - 0) * a + 0 * b == a * d) by (nonlinear_arith);
}

/// A fresh oscillator at zero hertz never moves: every sample, however many
/// came before, is the first table entry.
pub proof fn lemma_zero_frequency_is_constant(sample_rate: nat, wave_table: Seq<i16>, n: nat)
    requires
        sample_rate > 0,
        wave_table.len() > 0,
    ensures
        ({
            let s = OscillatorState::fresh(sample_rate, wave_table).with_frequency(0);
            &&& s.advance(n) == s
            &&& s.advance(n).sample_numerator() == wave_table[0] * s.resolution()
        }),
{
    let s = OscillatorState::fresh(sample_rate, wave_table).with_frequency(0);
    let d = s.resolution();
    assert(s.period() > 0) by (nonlinear_arith)
        requires
            s.period() == wave_table.len() * d,
            wave_table.len() > 0,
            d > 0,
    ;
    lemma_index_after(s, n);
    assert(n * 0 == 0) by (nonlinear_arith);
    lemma_small_mod(0, s.period() as nat);
    lemma_fundamental_div_mod(0, d);
    lemma_small_mod(0, d as nat);
    assert(s.fraction() == 0);
    assert(s.position() == 0) by (nonlinear_arith)
        requires
            0 == d * s.position(),
            d > 0,
    ;
    lemma_aligned_sample_is_entry(s);
}

/// The voices of a bank, each advanced by `n` samples on its own.
pub open spec fn voices_after(voices: Seq<OscillatorState>, n: nat) -> Seq<OscillatorState> {
    Seq::new(voices.len(), |k: int| voices[k].advance(n))
}

/// A bank's sample at any point of the stream is the sum of what its voices
/// would produce at that point if each ran alone.
pub proof fn lemma_bank_is_sum_of_voices(b: BankState, n: nat)
    ensures
        b.advance(n).channels == b.channels,
        b.advance(n).sample_rate == b.sample_rate,
        b.advance(n).oscillators == voices_after(b.oscillators, n),
        b.advance(n).sample_numerator() == mixed_numerator(voices_after(b.oscillators, n)),
    decreases n,
{
    if n == 0 {
        assert(b.oscillators =~= voices_after(b.oscillators, 0));
    } else {
        lemma_bank_is_sum_of_voices(b, (n - 1) as nat);
        assert(b.advance(n).oscillators =~= voices_after(b.oscillators, n));
    }
}

/// A bank that is fit to produce samples stays so, however long it runs.
pub proof fn lemma_bank_stays_wf(b: BankState, n: nat)
    requires
        b.wf(),
    ensures
        b.advance(n).wf(),
{
    lemma_bank_is_sum_of_voices(b, n);
    assert forall|k: int| 0 <= k < b.advance(n).oscillators.len() implies
        (#[trigger] b.advance(n).oscillators[k]).wf()
        && b.advance(n).oscillators[k].sample_rate == b.sample_rate by {
        lemma_index_after(b.oscillators[k], n);
    }
}

} // verus!
