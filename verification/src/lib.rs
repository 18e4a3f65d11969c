//! Turns a still image into sound: every pixel row is reduced to its average
//! colour, and the red, green and blue averages become the frequencies of
//! three wavetable oscillators that are mixed into one voice per row.
//!
//! All arithmetic is exact integer arithmetic. Frequencies and averages are
//! fixed-point numbers with sixteen fractional bits, table positions are
//! counted in ticks, and a sample is an exact fraction.

use vstd::prelude::*;

pub mod config;
pub mod laws;
pub mod pixels;
pub mod synth;

use crate::pixels::channel_average;
use crate::pixels::ImageData;
use crate::synth::BankState;
use crate::synth::OscillatorState;
use crate::synth::WavetableOscillator;

verus! {

/// The fixed-point representation of one. A frequency `f` stands for
/// `f / FIXED_ONE` hertz, a colour average `a` for `a / FIXED_ONE`.
pub const FIXED_ONE: i64 = 65_536;

/// The number of entries in the wavetable that an image is played with.
pub const WAVE_TABLE_SIZE: usize = 64;

/// The number of output channels announced for every row's voice.
pub const CHANNELS: u16 = 2;

/// Samples per second of every row's voice.
pub const SAMPLE_RATE: u32 = 44_100;

/// How long each row sounds, in milliseconds.
pub const ROW_MILLIS: u32 = 30;

/// The voice of a row whose average colour has the given red, green and
/// blue parts: three oscillators on the same table, at the start of it, with
/// the three averages as their frequencies. The alpha average is not heard.
pub open spec fn row_bank(wave_table: Seq<i16>, red: int, green: int, blue: int) -> BankState {
    let silent = OscillatorState::fresh(SAMPLE_RATE as nat, wave_table);
    BankState {
        channels: CHANNELS as nat,
        sample_rate: SAMPLE_RATE as nat,
        oscillators: seq![
            silent.with_frequency(red),
            silent.with_frequency(green),
            silent.with_frequency(blue),
        ],
    }
}

/// Builds the voice of one row from its average colour.
pub fn row_voice(wave_table: &Vec<i16>, rgba: [i64; 4]) -> (voice: WavetableOscillator)
    requires
        wave_table@.len() > 0,
    ensures
        voice.wf(),
        voice@ == row_bank(wave_table@, rgba[0] as int, rgba[1] as int, rgba[2] as int),
{
    let mut tuned: Vec<(Vec<i16>, i64)> = Vec::new();
    let red = wave_table.clone();
    let green = wave_table.clone();
    let blue = wave_table.clone();
    assert(red@ == wave_table@ && green@ == wave_table@ && blue@ == wave_table@);
    tuned.push((red, rgba[0]));
    tuned.push((green, rgba[1]));
    tuned.push((blue, rgba[2]));
    let voice = WavetableOscillator::new(CHANNELS, SAMPLE_RATE, tuned);
    assert(voice@.oscillators =~= row_bank(
        wave_table@,
        rgba[0] as int,
        rgba[1] as int,
        rgba[2] as int,
    ).oscillators);
    voice
}

/// Builds one voice per pixel row of `image`, from top to bottom, each from
/// the row's average colour. Playing them one after the other, each for
/// `ROW_MILLIS` milliseconds, is the sound of the image.
pub fn sonify(image: &ImageData, wave_table: &Vec<i16>) -> (voices: Vec<WavetableOscillator>)
    requires
        image.wf(),
        image.spec_height() > 0 ==> image.spec_width() > 0,
        wave_table@.len() > 0,
    ensures
        voices@.len() == image.spec_height(),
        forall|y: int|
            0 <= y < voices@.len() ==> (#[trigger] voices@[y]).wf() && voices@[y]@ == row_bank(
                wave_table@,
                channel_average(image.spec_rows()[y], 0),
                channel_average(image.spec_rows()[y], 1),
                channel_average(image.spec_rows()[y], 2),
            ),
{
    let averages = image.get_row_averages();
    let mut voices: Vec<WavetableOscillator> = Vec::new();
    let mut y: usize = 0;
    while y < averages.len()
        invariant
            wave_table@.len() > 0,
            y <= averages@.len(),
            averages@.len() == image.spec_height(),
            forall|j: int, channel: int|
                0 <= j < averages@.len() && 0 <= channel < 4 ==> #[trigger] averages@[j][channel]
                    == channel_average(image.spec_rows()[j], channel),
            voices@.len() == y,
            forall|j: int|
                0 <= j < y ==> (#[trigger] voices@[j]).wf() && voices@[j]@ == row_bank(
                    wave_table@,
                    channel_average(image.spec_rows()[j], 0),
                    channel_average(image.spec_rows()[j], 1),
                    channel_average(image.spec_rows()[j], 2),
                ),
        decreases averages@.len() - y,
    {
        let rgba = averages[y];
        assert(rgba[0] == channel_average(image.spec_rows()[y as int], 0));
        assert(rgba[1] == channel_average(image.spec_rows()[y as int], 1));
        assert(rgba[2] == channel_average(image.spec_rows()[y as int], 2));
        let voice = row_voice(wave_table, rgba);
        voices.push(voice);
        y = y + 1;
    }
    voices
}

} // verus!
