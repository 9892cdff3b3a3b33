//! Conversions between sample offsets, beats and screen columns.

use vstd::prelude::*;

verus! {

/// The three sample rates the engine runs at.
#[derive(Clone, Copy, Debug, PartialEq, Eq)]
pub enum Rate {
    Fast,
    Med,
    Slow,
}

/// Samples per second of a rate.
pub open spec fn spec_sample_rate(rate: Rate) -> int {
    match rate {
        Rate::Fast => 64000,
        Rate::Med => 48000,
        Rate::Slow => 32000,
    }
}

/// Number of samples in one beat at `rate` samples per second and `bpm` beats per minute.
pub open spec fn samples_per_beat(rate: int, bpm: int) -> int {
    (60 * rate) / bpm
}

/// Samples per second of a rate.
pub fn sample_rate(rate: Rate) -> (r: u32)
    ensures
        r == spec_sample_rate(rate),
{
    match rate {
        Rate::Fast => 64000,
        Rate::Med => 48000,
        Rate::Slow => 32000,
    }
}

/// Column count of a sample offset: whole beats elapsed, times the zoom
/// (columns per beat), kept to its low 16 bits.
pub fn char_offset(sample_offset: u32, rate: u32, bpm: u16, zoom: usize) -> (r: u16)
    requires
        60 * rate <= u32::MAX,
        bpm > 0,
        samples_per_beat(rate as int, bpm as int) > 0,
        (zoom as u32) * (sample_offset as int / samples_per_beat(rate as int, bpm as int)) <= u32::MAX,
    ensures
        r == ((zoom as u32) * (sample_offset as int / samples_per_beat(rate as int, bpm as int))) % 0x10000,
{
    let samples_per_beat = (60 * rate) / (bpm as u32);
    let beats: u32 = sample_offset / samples_per_beat;
    let z: u32 = zoom as u32;
    let cols: u32 = z * beats;
    let r: u16 = cols as u16;
    assert(r == cols % 0x10000) by (bit_vector)
        requires r == cols as u16;
    r
}

/// Sample offset at which `beats` whole beats have passed.
pub fn offset_char(beats: u16, rate: u32, bpm: u16, zoom: usize) -> (r: u32)
    requires
        60 * rate <= u32::MAX,
        bpm > 0,
        beats * samples_per_beat(rate as int, bpm as int) <= u32::MAX,
    ensures
        r == beats * samples_per_beat(rate as int, bpm as int),
{
    let samples_per_beat = (60 * rate) / (bpm as u32);
    beats as u32 * samples_per_beat
}

/// Mapping a sample offset to beats (one column per beat) and back lands on
/// the start of the beat that contains it: the offset of the beats counted
/// is at most the sample offset, which is below the offset of one beat more.
pub proof fn law_beats_round_trip(sample_offset: u32, rate: u32, bpm: u16)
    requires
        60 * rate <= u32::MAX,
        bpm > 0,
        samples_per_beat(rate as int, bpm as int) > 0,
        sample_offset as int / samples_per_beat(rate as int, bpm as int) < 0x10000,
    ensures
        ({
            let spb = samples_per_beat(rate as int, bpm as int);
            let c = ((1usize as u32) * (sample_offset as int / spb)) % 0x10000;
            &&& c * spb <= sample_offset
            &&& sample_offset < (c + 1) * spb
        }),
{
    let spb = samples_per_beat(rate as int, bpm as int);
    let q = sample_offset as int / spb;
    assert(q % 0x10000 == q);
    assert(q * spb <= sample_offset < (q + 1) * spb) by (nonlinear_arith)
        requires
            spb > 0,
            sample_offset >= 0,
            q == sample_offset as int / spb,
    ;
}

/// Beats elapsed at a sample offset, counted in steps of `zoom` beats.
pub fn beat_offset(sample_offset: u32, srate: Rate, bpm: u16, zoom: usize) -> (r: u32)
    requires
        bpm > 0,
        samples_per_beat(spec_sample_rate(srate), bpm as int) * (zoom as u32) > 0,
        samples_per_beat(spec_sample_rate(srate), bpm as int) * (zoom as u32) <= u32::MAX,
    ensures
        r == sample_offset as int / (samples_per_beat(spec_sample_rate(srate), bpm as int) * (zoom as u32)),
{
    let samples_per_beat = (60 * sample_rate(srate)) / (bpm as u32);
    sample_offset / (samples_per_beat * zoom as u32)
}

/// A length of time in bars and beats.
#[derive(Clone, Copy, Debug, PartialEq, Eq, Structural)]
pub struct Time(pub i32, pub i32);

/// Integer division rounding toward zero, as Rust's `/` on signed
/// integers (`/` on `int` is Euclidean: it rounds down for a positive
/// divisor and up for a negative one).
pub open spec fn trunc_div(a: int, b: int) -> int {
    if a >= 0 { a / b } else { -((-a) / b) }
}

proof fn lemma_quotient_bound(a: int, b: int)
    requires
        0 <= a,
        b != 0,
    ensures
        -a <= a / b <= a,
{
    assert(-a <= a / b <= a) by (nonlinear_arith)
        requires
            0 <= a,
            b != 0,
    ;
}

proof fn lemma_trunc_div_fits(a: i32, b: i32)
    requires
        b != 0,
        !(a == i32::MIN && b == -1),
    ensures
        i32::MIN <= trunc_div(a as int, b as int) <= i32::MAX,
{
    if a >= 0 {
        lemma_quotient_bound(a as int, b as int);
    } else {
        lemma_quotient_bound(-a, b as int);
        if -a == 0x8000_0000 {
            if b == 1 {
            } else {
                assert((-a) / (b as int) != -0x8000_0000) by (nonlinear_arith)
                    requires
                        -a == 0x8000_0000,
                        b != 1,
                        b != -1,
                        b != 0,
                ;
            }
        }
    }
}

/// Column of a time in a track `width` columns wide, for a track `l` long:
/// whole track lengths (in bars) elapsed, divided by the width.
pub fn time_to_offset(width: i32, l: Time, t: Time) -> (r: i32)
    requires
        l.0 != 0,
        width != 0,
        !(t.0 == i32::MIN && l.0 == -1),
        !(trunc_div(t.0 as int, l.0 as int) == i32::MIN && width == -1),
    ensures
        r == trunc_div(trunc_div(t.0 as int, l.0 as int), width as int),
{
    proof { lemma_trunc_div_fits(t.0, l.0); }
    let q = t.0 / l.0;
    proof { lemma_trunc_div_fits(q, width); }
    q / width
}

/// Columns of the offset at which `beats` beats have passed: the beats
/// times the zoom, kept to 16 bits. What `offset_char` computes,
/// `char_offset` reads back.
pub proof fn law_offset_round_trip(beats: u16, rate: u32, bpm: u16, zoom: usize)
    requires
        bpm > 0,
        samples_per_beat(rate as int, bpm as int) > 0,
    ensures
        ((zoom as u32) * ((beats * samples_per_beat(rate as int, bpm as int)) / samples_per_beat(rate as int, bpm as int)))
            % 0x10000 == ((zoom as u32) * beats) % 0x10000,
{
    let spb = samples_per_beat(rate as int, bpm as int);
    vstd::arithmetic::div_mod::lemma_div_multiples_vanish(beats as int, spb);
    assert(beats * spb == spb * beats) by (nonlinear_arith);
}

} // verus!
