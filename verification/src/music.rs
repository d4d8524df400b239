//! Musical voicings: just-intonation chord tables and the octave/degree split
//! of an equal-tempered semitone offset.
//!
//! Ratios are exact small-integer fractions; the audio code turns each into a
//! read-speed multiplier by one floating-point division.
use vstd::prelude::*;

verus! {

pub const CHORD_UNISON: u32 = 0;
pub const CHORD_OCTAVES: u32 = 1;
pub const CHORD_POWER: u32 = 2;
pub const CHORD_MAJOR: u32 = 3;
pub const CHORD_MINOR: u32 = 4;
pub const CHORD_FIFTHS: u32 = 5;
pub const CHORD_SUS2: u32 = 6;
pub const CHORD_PENTATONIC: u32 = 7;
pub const CHORD_MAJOR_SCALE: u32 = 8;
pub const CHORD_MINOR_SCALE: u32 = 9;
pub const CHORD_COUNT: u32 = 10;

/// A frequency ratio `num / den`.
#[derive(PartialEq, Eq, Structural, Clone, Copy, Debug)]
pub struct Ratio {
    pub num: u32,
    pub den: u32,
}

pub open spec fn ratio(num: u32, den: u32) -> Ratio {
    Ratio { num, den }
}

/// `a < b` as rationals with positive denominators.
pub open spec fn ratio_lt(a: Ratio, b: Ratio) -> bool {
    a.num * b.den < b.num * a.den
}

/// The voicing of each preset; unknown presets are the unison.
pub open spec fn chord_table(preset: u32) -> Seq<Ratio> {
    if preset == CHORD_OCTAVES {
        seq![ratio(1, 2), ratio(1, 1), ratio(2, 1)]
    } else if preset == CHORD_POWER {
        seq![ratio(1, 2), ratio(1, 1), ratio(3, 2), ratio(2, 1), ratio(3, 1)]
    } else if preset == CHORD_MAJOR {
        seq![ratio(1, 1), ratio(5, 4), ratio(3, 2), ratio(2, 1)]
    } else if preset == CHORD_MINOR {
        seq![ratio(1, 1), ratio(6, 5), ratio(3, 2), ratio(2, 1)]
    } else if preset == CHORD_FIFTHS {
        seq![ratio(1, 1), ratio(3, 2), ratio(9, 4), ratio(3, 1)]
    } else if preset == CHORD_SUS2 {
        seq![ratio(1, 1), ratio(9, 8), ratio(3, 2), ratio(2, 1)]
    } else if preset == CHORD_PENTATONIC {
        seq![ratio(1, 1), ratio(9, 8), ratio(5, 4), ratio(3, 2), ratio(5, 3), ratio(2, 1)]
    } else if preset == CHORD_MAJOR_SCALE {
        seq![
            ratio(1, 1),
            ratio(9, 8),
            ratio(5, 4),
            ratio(4, 3),
            ratio(3, 2),
            ratio(5, 3),
            ratio(15, 8),
            ratio(2, 1),
        ]
    } else if preset == CHORD_MINOR_SCALE {
        seq![
            ratio(1, 1),
            ratio(9, 8),
            ratio(6, 5),
            ratio(4, 3),
            ratio(3, 2),
            ratio(8, 5),
            ratio(9, 5),
            ratio(2, 1),
        ]
    } else {
        seq![ratio(1, 1)]
    }
}

fn push_ratio(v: &mut Vec<Ratio>, num: u32, den: u32)
    ensures
        final(v)@ == old(v)@.push(ratio(num, den)),
{
    v.push(Ratio { num, den });
}

/// The just-intonation ratio table for a voicing.
pub fn chord_ratios(preset: u32) -> (r: Vec<Ratio>)
    ensures
        r@ == chord_table(preset),
{
    let mut v: Vec<Ratio> = Vec::new();
    if preset == CHORD_OCTAVES {
        push_ratio(&mut v, 1, 2);
        push_ratio(&mut v, 1, 1);
        push_ratio(&mut v, 2, 1);
    } else if preset == CHORD_POWER {
        push_ratio(&mut v, 1, 2);
        push_ratio(&mut v, 1, 1);
        push_ratio(&mut v, 3, 2);
        push_ratio(&mut v, 2, 1);
        push_ratio(&mut v, 3, 1);
    } else if preset == CHORD_MAJOR {
        push_ratio(&mut v, 1, 1);
        push_ratio(&mut v, 5, 4);
        push_ratio(&mut v, 3, 2);
        push_ratio(&mut v, 2, 1);
    } else if preset == CHORD_MINOR {
        push_ratio(&mut v, 1, 1);
        push_ratio(&mut v, 6, 5);
        push_ratio(&mut v, 3, 2);
        push_ratio(&mut v, 2, 1);
    } else if preset == CHORD_FIFTHS {
        push_ratio(&mut v, 1, 1);
        push_ratio(&mut v, 3, 2);
        push_ratio(&mut v, 9, 4);
        push_ratio(&mut v, 3, 1);
    } else if preset == CHORD_SUS2 {
        push_ratio(&mut v, 1, 1);
        push_ratio(&mut v, 9, 8);
        push_ratio(&mut v, 3, 2);
        push_ratio(&mut v, 2, 1);
    } else if preset == CHORD_PENTATONIC {
        push_ratio(&mut v, 1, 1);
        push_ratio(&mut v, 9, 8);
        push_ratio(&mut v, 5, 4);
        push_ratio(&mut v, 3, 2);
        push_ratio(&mut v, 5, 3);
        push_ratio(&mut v, 2, 1);
    } else if preset == CHORD_MAJOR_SCALE {
        push_ratio(&mut v, 1, 1);
        push_ratio(&mut v, 9, 8);
        push_ratio(&mut v, 5, 4);
        push_ratio(&mut v, 4, 3);
        push_ratio(&mut v, 3, 2);
        push_ratio(&mut v, 5, 3);
        push_ratio(&mut v, 15, 8);
        push_ratio(&mut v, 2, 1);
    } else if preset == CHORD_MINOR_SCALE {
        push_ratio(&mut v, 1, 1);
        push_ratio(&mut v, 9, 8);
        push_ratio(&mut v, 6, 5);
        push_ratio(&mut v, 4, 3);
        push_ratio(&mut v, 3, 2);
        push_ratio(&mut v, 8, 5);
        push_ratio(&mut v, 9, 5);
        push_ratio(&mut v, 2, 1);
    } else {
        push_ratio(&mut v, 1, 1);
    }
    assert(v@ =~= chord_table(preset));
    v
}

/// Every voicing is nonempty, holds the root `1/1`, lists only positive
/// ratios between the sub-octave `1/2` and the twelfth `3/1`, and lists them
/// in strictly ascending order.
pub proof fn lemma_chord_table_shape(preset: u32)
    ensures
        chord_table(preset).len() > 0,
        chord_table(preset).contains(ratio(1, 1)),
        forall|i: int|
            0 <= i < chord_table(preset).len() ==> {
                let x = #[trigger] chord_table(preset)[i];
                &&& x.num > 0
                &&& x.den > 0
                &&& x.den <= 2 * x.num
                &&& x.num <= 3 * x.den
            },
        forall|i: int|
            0 <= i < chord_table(preset).len() - 1 ==> ratio_lt(
                #[trigger] chord_table(preset)[i],
                chord_table(preset)[i + 1],
            ),
{
    let t = chord_table(preset);
    if preset == CHORD_OCTAVES || preset == CHORD_POWER {
        assert(t[1] == ratio(1, 1));
    } else {
        assert(t[0] == ratio(1, 1));
    }
    if preset < CHORD_COUNT && preset != CHORD_UNISON {
        lemma_preset_ascending(preset);
    }
}

/// The adjacent entries of each listed voicing are strictly ascending.
proof fn lemma_preset_ascending(preset: u32)
    requires
        CHORD_UNISON < preset < CHORD_COUNT,
    ensures
        forall|i: int|
            0 <= i < chord_table(preset).len() - 1 ==> ratio_lt(
                #[trigger] chord_table(preset)[i],
                chord_table(preset)[i + 1],
            ),
{
    let t = chord_table(preset);
    if preset == CHORD_OCTAVES {
        assert(t[0] == ratio(1, 2));
        assert(t[1] == ratio(1, 1));
        assert(t[2] == ratio(2, 1));
        assert(ratio_lt(ratio(1, 2), ratio(1, 1))) by (nonlinear_arith);
        assert(ratio_lt(ratio(1, 1), ratio(2, 1))) by (nonlinear_arith);
        assert forall|i: int| 0 <= i < 2 implies ratio_lt(#[trigger] t[i], t[i + 1]) by {
            if i == 0 {} else {}
        }
    } else if preset == CHORD_POWER {
        assert(t[0] == ratio(1, 2));
        assert(t[1] == ratio(1, 1));
        assert(t[2] == ratio(3, 2));
        assert(t[3] == ratio(2, 1));
        assert(t[4] == ratio(3, 1));
        assert(ratio_lt(ratio(1, 2), ratio(1, 1))) by (nonlinear_arith);
        assert(ratio_lt(ratio(1, 1), ratio(3, 2))) by (nonlinear_arith);
        assert(ratio_lt(ratio(3, 2), ratio(2, 1))) by (nonlinear_arith);
        assert(ratio_lt(ratio(2, 1), ratio(3, 1))) by (nonlinear_arith);
        assert forall|i: int| 0 <= i < 4 implies ratio_lt(#[trigger] t[i], t[i + 1]) by {
            if i == 0 {} else if i == 1 {} else if i == 2 {} else {}
        }
    } else if preset == CHORD_MAJOR {
        assert(t[0] == ratio(1, 1));
        assert(t[1] == ratio(5, 4));
        assert(t[2] == ratio(3, 2));
        assert(t[3] == ratio(2, 1));
        assert(ratio_lt(ratio(1, 1), ratio(5, 4))) by (nonlinear_arith);
        assert(ratio_lt(ratio(5, 4), ratio(3, 2))) by (nonlinear_arith);
        assert(ratio_lt(ratio(3, 2), ratio(2, 1))) by (nonlinear_arith);
        assert forall|i: int| 0 <= i < 3 implies ratio_lt(#[trigger] t[i], t[i + 1]) by {
            if i == 0 {} else if i == 1 {} else {}
        }
    } else if preset == CHORD_MINOR {
        assert(t[0] == ratio(1, 1));
        assert(t[1] == ratio(6, 5));
        assert(t[2] == ratio(3, 2));
        assert(t[3] == ratio(2, 1));
        assert(ratio_lt(ratio(1, 1), ratio(6, 5))) by (nonlinear_arith);
        assert(ratio_lt(ratio(6, 5), ratio(3, 2))) by (nonlinear_arith);
        assert(ratio_lt(ratio(3, 2), ratio(2, 1))) by (nonlinear_arith);
        assert forall|i: int| 0 <= i < 3 implies ratio_lt(#[trigger] t[i], t[i + 1]) by {
            if i == 0 {} else if i == 1 {} else {}
        }
    } else if preset == CHORD_FIFTHS {
        assert(t[0] == ratio(1, 1));
        assert(t[1] == ratio(3, 2));
        assert(t[2] == ratio(9, 4));
        assert(t[3] == ratio(3, 1));
        assert(ratio_lt(ratio(1, 1), ratio(3, 2))) by (nonlinear_arith);
        assert(ratio_lt(ratio(3, 2), ratio(9, 4))) by (nonlinear_arith);
        assert(ratio_lt(ratio(9, 4), ratio(3, 1))) by (nonlinear_arith);
        assert forall|i: int| 0 <= i < 3 implies ratio_lt(#[trigger] t[i], t[i + 1]) by {
            if i == 0 {} else if i == 1 {} else {}
        }
    } else if preset == CHORD_SUS2 {
        assert(t[0] == ratio(1, 1));
        assert(t[1] == ratio(9, 8));
        assert(t[2] == ratio(3, 2));
        assert(t[3] == ratio(2, 1));
        assert(ratio_lt(ratio(1, 1), ratio(9, 8))) by (nonlinear_arith);
        assert(ratio_lt(ratio(9, 8), ratio(3, 2))) by (nonlinear_arith);
        assert(ratio_lt(ratio(3, 2), ratio(2, 1))) by (nonlinear_arith);
        assert forall|i: int| 0 <= i < 3 implies ratio_lt(#[trigger] t[i], t[i + 1]) by {
            if i == 0 {} else if i == 1 {} else {}
        }
    } else if preset == CHORD_PENTATONIC {
        assert(t[0] == ratio(1, 1));
        assert(t[1] == ratio(9, 8));
        assert(t[2] == ratio(5, 4));
        assert(t[3] == ratio(3, 2));
        assert(t[4] == ratio(5, 3));
        assert(t[5] == ratio(2, 1));
        assert(ratio_lt(ratio(1, 1), ratio(9, 8))) by (nonlinear_arith);
        assert(ratio_lt(ratio(9, 8), ratio(5, 4))) by (nonlinear_arith);
        assert(ratio_lt(ratio(5, 4), ratio(3, 2))) by (nonlinear_arith);
        assert(ratio_lt(ratio(3, 2), ratio(5, 3))) by (nonlinear_arith);
        assert(ratio_lt(ratio(5, 3), ratio(2, 1))) by (nonlinear_arith);
        assert forall|i: int| 0 <= i < 5 implies ratio_lt(#[trigger] t[i], t[i + 1]) by {
            if i == 0 {} else if i == 1 {} else if i == 2 {} else if i == 3 {} else {}
        }
    } else if preset == CHORD_MAJOR_SCALE {
        assert(t[0] == ratio(1, 1));
        assert(t[1] == ratio(9, 8));
        assert(t[2] == ratio(5, 4));
        assert(t[3] == ratio(4, 3));
        assert(t[4] == ratio(3, 2));
        assert(t[5] == ratio(5, 3));
        assert(t[6] == ratio(15, 8));
        assert(t[7] == ratio(2, 1));
        assert(ratio_lt(ratio(1, 1), ratio(9, 8))) by (nonlinear_arith);
        assert(ratio_lt(ratio(9, 8), ratio(5, 4))) by (nonlinear_arith);
        assert(ratio_lt(ratio(5, 4), ratio(4, 3))) by (nonlinear_arith);
        assert(ratio_lt(ratio(4, 3), ratio(3, 2))) by (nonlinear_arith);
        assert(ratio_lt(ratio(3, 2), ratio(5, 3))) by (nonlinear_arith);
        assert(ratio_lt(ratio(5, 3), ratio(15, 8))) by (nonlinear_arith);
        assert(ratio_lt(ratio(15, 8), ratio(2, 1))) by (nonlinear_arith);
        assert forall|i: int| 0 <= i < 7 implies ratio_lt(#[trigger] t[i], t[i + 1]) by {
            if i == 0 {} else if i == 1 {} else if i == 2 {} else if i == 3 {} else if i == 4 {} else if i == 5 {} else {}
        }
    } else if preset == CHORD_MINOR_SCALE {
        assert(t[0] == ratio(1, 1));
        assert(t[1] == ratio(9, 8));
        assert(t[2] == ratio(6, 5));
        assert(t[3] == ratio(4, 3));
        assert(t[4] == ratio(3, 2));
        assert(t[5] == ratio(8, 5));
        assert(t[6] == ratio(9, 5));
        assert(t[7] == ratio(2, 1));
        assert(ratio_lt(ratio(1, 1), ratio(9, 8))) by (nonlinear_arith);
        assert(ratio_lt(ratio(9, 8), ratio(6, 5))) by (nonlinear_arith);
        assert(ratio_lt(ratio(6, 5), ratio(4, 3))) by (nonlinear_arith);
        assert(ratio_lt(ratio(4, 3), ratio(3, 2))) by (nonlinear_arith);
        assert(ratio_lt(ratio(3, 2), ratio(8, 5))) by (nonlinear_arith);
        assert(ratio_lt(ratio(8, 5), ratio(9, 5))) by (nonlinear_arith);
        assert(ratio_lt(ratio(9, 5), ratio(2, 1))) by (nonlinear_arith);
        assert forall|i: int| 0 <= i < 7 implies ratio_lt(#[trigger] t[i], t[i + 1]) by {
            if i == 0 {} else if i == 1 {} else if i == 2 {} else if i == 3 {} else if i == 4 {} else if i == 5 {} else {}
        }
    }
}

/// Any preset outside the table is the unison.
pub proof fn lemma_unknown_is_unison(preset: u32)
    requires
        preset >= CHORD_COUNT,
    ensures
        chord_table(preset) == seq![ratio(1, 1)],
{
}

/// The power pad carries the perfect fifth, the octave and the sub-octave.
pub proof fn lemma_power_pad_intervals()
    ensures
        chord_table(CHORD_POWER).contains(ratio(3, 2)),
        chord_table(CHORD_POWER).contains(ratio(2, 1)),
        chord_table(CHORD_POWER).contains(ratio(1, 2)),
{
    let t = chord_table(CHORD_POWER);
    assert(t[2] == ratio(3, 2));
    assert(t[3] == ratio(2, 1));
    assert(t[0] == ratio(1, 2));
}

// Just intervals, each the small-integer fraction music theory gives it.

/// The octave below the root: `1/2`.
pub open spec fn sub_octave() -> Ratio {
    Ratio { num: 1, den: 2 }
}

/// The root: `1/1`.
pub open spec fn unison() -> Ratio {
    Ratio { num: 1, den: 1 }
}

/// The major second: `9/8`.
pub open spec fn major_second() -> Ratio {
    Ratio { num: 9, den: 8 }
}

/// The minor third: `6/5`.
pub open spec fn minor_third() -> Ratio {
    Ratio { num: 6, den: 5 }
}

/// The major third: `5/4`.
pub open spec fn major_third() -> Ratio {
    Ratio { num: 5, den: 4 }
}

/// The perfect fourth: `4/3`.
pub open spec fn fourth() -> Ratio {
    Ratio { num: 4, den: 3 }
}

/// The perfect fifth: `3/2`.
pub open spec fn fifth() -> Ratio {
    Ratio { num: 3, den: 2 }
}

/// The minor sixth: `8/5`.
pub open spec fn minor_sixth() -> Ratio {
    Ratio { num: 8, den: 5 }
}

/// The major sixth: `5/3`.
pub open spec fn major_sixth() -> Ratio {
    Ratio { num: 5, den: 3 }
}

/// The minor seventh: `9/5`.
pub open spec fn minor_seventh() -> Ratio {
    Ratio { num: 9, den: 5 }
}

/// The major seventh: `15/8`.
pub open spec fn major_seventh() -> Ratio {
    Ratio { num: 15, den: 8 }
}

/// The octave: `2/1`.
pub open spec fn octave() -> Ratio {
    Ratio { num: 2, den: 1 }
}

/// The ninth (a fifth above the fifth): `9/4`.
pub open spec fn ninth() -> Ratio {
    Ratio { num: 9, den: 4 }
}

/// The twelfth (a fifth above the octave): `3/1`.
pub open spec fn twelfth() -> Ratio {
    Ratio { num: 3, den: 1 }
}

/// The octaves voicing is the octave below the root, the root, the octave. With the
/// strict ascending order of `lemma_chord_table_shape` this fixes it entry by entry.
pub proof fn lemma_octaves_voicing()
    ensures
        chord_table(CHORD_OCTAVES).len() == 3,
        chord_table(CHORD_OCTAVES).contains(sub_octave()),
        chord_table(CHORD_OCTAVES).contains(unison()),
        chord_table(CHORD_OCTAVES).contains(octave()),
{
    let t = chord_table(CHORD_OCTAVES);
    assert(t[0] == ratio(1, 2));
    assert(t[1] == ratio(1, 1));
    assert(t[2] == ratio(2, 1));
}

/// The power voicing is the octave below the root, the root, the perfect fifth, the octave, the twelfth (a fifth above the octave). With the
/// strict ascending order of `lemma_chord_table_shape` this fixes it entry by entry.
pub proof fn lemma_power_voicing()
    ensures
        chord_table(CHORD_POWER).len() == 5,
        chord_table(CHORD_POWER).contains(sub_octave()),
        chord_table(CHORD_POWER).contains(unison()),
        chord_table(CHORD_POWER).contains(fifth()),
        chord_table(CHORD_POWER).contains(octave()),
        chord_table(CHORD_POWER).contains(twelfth()),
{
    let t = chord_table(CHORD_POWER);
    assert(t[0] == ratio(1, 2));
    assert(t[1] == ratio(1, 1));
    assert(t[2] == ratio(3, 2));
    assert(t[3] == ratio(2, 1));
    assert(t[4] == ratio(3, 1));
}

/// The major voicing is the root, the major third, the perfect fifth, the octave; it has no the minor third. With the
/// strict ascending order of `lemma_chord_table_shape` this fixes it entry by entry.
pub proof fn lemma_major_voicing()
    ensures
        chord_table(CHORD_MAJOR).len() == 4,
        chord_table(CHORD_MAJOR).contains(unison()),
        chord_table(CHORD_MAJOR).contains(major_third()),
        chord_table(CHORD_MAJOR).contains(fifth()),
        chord_table(CHORD_MAJOR).contains(octave()),
        !chord_table(CHORD_MAJOR).contains(minor_third()),
{
    let t = chord_table(CHORD_MAJOR);
    assert(t[0] == ratio(1, 1));
    assert(t[1] == ratio(5, 4));
    assert(t[2] == ratio(3, 2));
    assert(t[3] == ratio(2, 1));
    assert forall|i: int| 0 <= i < t.len() implies t[i] != minor_third() by {
        if i == 0 {} else if i == 1 {} else if i == 2 {} else {}
    }
}

/// The minor voicing is the root, the minor third, the perfect fifth, the octave; it has no the major third. With the
/// strict ascending order of `lemma_chord_table_shape` this fixes it entry by entry.
pub proof fn lemma_minor_voicing()
    ensures
        chord_table(CHORD_MINOR).len() == 4,
        chord_table(CHORD_MINOR).contains(unison()),
        chord_table(CHORD_MINOR).contains(minor_third()),
        chord_table(CHORD_MINOR).contains(fifth()),
        chord_table(CHORD_MINOR).contains(octave()),
        !chord_table(CHORD_MINOR).contains(major_third()),
{
    let t = chord_table(CHORD_MINOR);
    assert(t[0] == ratio(1, 1));
    assert(t[1] == ratio(6, 5));
    assert(t[2] == ratio(3, 2));
    assert(t[3] == ratio(2, 1));
    assert forall|i: int| 0 <= i < t.len() implies t[i] != major_third() by {
        if i == 0 {} else if i == 1 {} else if i == 2 {} else {}
    }
}

/// The fifths voicing is the root, the perfect fifth, the ninth (a fifth above the fifth), the twelfth (a fifth above the octave); it has no the major third and the minor third. With the
/// strict ascending order of `lemma_chord_table_shape` this fixes it entry by entry.
pub proof fn lemma_fifths_voicing()
    ensures
        chord_table(CHORD_FIFTHS).len() == 4,
        chord_table(CHORD_FIFTHS).contains(unison()),
        chord_table(CHORD_FIFTHS).contains(fifth()),
        chord_table(CHORD_FIFTHS).contains(ninth()),
        chord_table(CHORD_FIFTHS).contains(twelfth()),
        !chord_table(CHORD_FIFTHS).contains(major_third()),
        !chord_table(CHORD_FIFTHS).contains(minor_third()),
{
    let t = chord_table(CHORD_FIFTHS);
    assert(t[0] == ratio(1, 1));
    assert(t[1] == ratio(3, 2));
    assert(t[2] == ratio(9, 4));
    assert(t[3] == ratio(3, 1));
    assert forall|i: int| 0 <= i < t.len() implies t[i] != major_third() && t[i] != minor_third() by {
        if i == 0 {} else if i == 1 {} else if i == 2 {} else {}
    }
}

/// The sus2 voicing is the root, the major second, the perfect fifth, the octave; it has no the major third and the minor third. With the
/// strict ascending order of `lemma_chord_table_shape` this fixes it entry by entry.
pub proof fn lemma_sus2_voicing()
    ensures
        chord_table(CHORD_SUS2).len() == 4,
        chord_table(CHORD_SUS2).contains(unison()),
        chord_table(CHORD_SUS2).contains(major_second()),
        chord_table(CHORD_SUS2).contains(fifth()),
        chord_table(CHORD_SUS2).contains(octave()),
        !chord_table(CHORD_SUS2).contains(major_third()),
        !chord_table(CHORD_SUS2).contains(minor_third()),
{
    let t = chord_table(CHORD_SUS2);
    assert(t[0] == ratio(1, 1));
    assert(t[1] == ratio(9, 8));
    assert(t[2] == ratio(3, 2));
    assert(t[3] == ratio(2, 1));
    assert forall|i: int| 0 <= i < t.len() implies t[i] != major_third() && t[i] != minor_third() by {
        if i == 0 {} else if i == 1 {} else if i == 2 {} else {}
    }
}

/// The pentatonic voicing is the root, the major second, the major third, the perfect fifth, the major sixth, the octave; it has no the minor third and the perfect fourth and the major seventh. With the
/// strict ascending order of `lemma_chord_table_shape` this fixes it entry by entry.
pub proof fn lemma_pentatonic_voicing()
    ensures
        chord_table(CHORD_PENTATONIC).len() == 6,
        chord_table(CHORD_PENTATONIC).contains(unison()),
        chord_table(CHORD_PENTATONIC).contains(major_second()),
        chord_table(CHORD_PENTATONIC).contains(major_third()),
        chord_table(CHORD_PENTATONIC).contains(fifth()),
        chord_table(CHORD_PENTATONIC).contains(major_sixth()),
        chord_table(CHORD_PENTATONIC).contains(octave()),
        !chord_table(CHORD_PENTATONIC).contains(minor_third()),
        !chord_table(CHORD_PENTATONIC).contains(fourth()),
        !chord_table(CHORD_PENTATONIC).contains(major_seventh()),
{
    let t = chord_table(CHORD_PENTATONIC);
    assert(t[0] == ratio(1, 1));
    assert(t[1] == ratio(9, 8));
    assert(t[2] == ratio(5, 4));
    assert(t[3] == ratio(3, 2));
    assert(t[4] == ratio(5, 3));
    assert(t[5] == ratio(2, 1));
    assert forall|i: int| 0 <= i < t.len() implies t[i] != minor_third() && t[i] != fourth() && t[i] != major_seventh() by {
        if i == 0 {} else if i == 1 {} else if i == 2 {} else if i == 3 {} else if i == 4 {} else {}
    }
}

/// The major scale voicing is the root, the major second, the major third, the perfect fourth, the perfect fifth, the major sixth, the major seventh, the octave; it has no the minor third and the minor sixth and the minor seventh. With the
/// strict ascending order of `lemma_chord_table_shape` this fixes it entry by entry.
pub proof fn lemma_major_scale_voicing()
    ensures
        chord_table(CHORD_MAJOR_SCALE).len() == 8,
        chord_table(CHORD_MAJOR_SCALE).contains(unison()),
        chord_table(CHORD_MAJOR_SCALE).contains(major_second()),
        chord_table(CHORD_MAJOR_SCALE).contains(major_third()),
        chord_table(CHORD_MAJOR_SCALE).contains(fourth()),
        chord_table(CHORD_MAJOR_SCALE).contains(fifth()),
        chord_table(CHORD_MAJOR_SCALE).contains(major_sixth()),
        chord_table(CHORD_MAJOR_SCALE).contains(major_seventh()),
        chord_table(CHORD_MAJOR_SCALE).contains(octave()),
        !chord_table(CHORD_MAJOR_SCALE).contains(minor_third()),
        !chord_table(CHORD_MAJOR_SCALE).contains(minor_sixth()),
        !chord_table(CHORD_MAJOR_SCALE).contains(minor_seventh()),
{
    let t = chord_table(CHORD_MAJOR_SCALE);
    assert(t[0] == ratio(1, 1));
    assert(t[1] == ratio(9, 8));
    assert(t[2] == ratio(5, 4));
    assert(t[3] == ratio(4, 3));
    assert(t[4] == ratio(3, 2));
    assert(t[5] == ratio(5, 3));
    assert(t[6] == ratio(15, 8));
    assert(t[7] == ratio(2, 1));
    assert forall|i: int| 0 <= i < t.len() implies t[i] != minor_third() && t[i] != minor_sixth() && t[i] != minor_seventh() by {
        if i == 0 {} else if i == 1 {} else if i == 2 {} else if i == 3 {} else if i == 4 {} else if i == 5 {} else if i == 6 {} else {}
    }
}

/// The minor scale voicing is the root, the major second, the minor third, the perfect fourth, the perfect fifth, the minor sixth, the minor seventh, the octave; it has no the major third and the major sixth and the major seventh. With the
/// strict ascending order of `lemma_chord_table_shape` this fixes it entry by entry.
pub proof fn lemma_minor_scale_voicing()
    ensures
        chord_table(CHORD_MINOR_SCALE).len() == 8,
        chord_table(CHORD_MINOR_SCALE).contains(unison()),
        chord_table(CHORD_MINOR_SCALE).contains(major_second()),
        chord_table(CHORD_MINOR_SCALE).contains(minor_third()),
        chord_table(CHORD_MINOR_SCALE).contains(fourth()),
        chord_table(CHORD_MINOR_SCALE).contains(fifth()),
        chord_table(CHORD_MINOR_SCALE).contains(minor_sixth()),
        chord_table(CHORD_MINOR_SCALE).contains(minor_seventh()),
        chord_table(CHORD_MINOR_SCALE).contains(octave()),
        !chord_table(CHORD_MINOR_SCALE).contains(major_third()),
        !chord_table(CHORD_MINOR_SCALE).contains(major_sixth()),
        !chord_table(CHORD_MINOR_SCALE).contains(major_seventh()),
{
    let t = chord_table(CHORD_MINOR_SCALE);
    assert(t[0] == ratio(1, 1));
    assert(t[1] == ratio(9, 8));
    assert(t[2] == ratio(6, 5));
    assert(t[3] == ratio(4, 3));
    assert(t[4] == ratio(3, 2));
    assert(t[5] == ratio(8, 5));
    assert(t[6] == ratio(9, 5));
    assert(t[7] == ratio(2, 1));
    assert forall|i: int| 0 <= i < t.len() implies t[i] != major_third() && t[i] != major_sixth() && t[i] != major_seventh() by {
        if i == 0 {} else if i == 1 {} else if i == 2 {} else if i == 3 {} else if i == 4 {} else if i == 5 {} else if i == 6 {} else {}
    }
}

/// The unison voicing is the root alone.
pub proof fn lemma_unison_voicing()
    ensures
        chord_table(CHORD_UNISON).len() == 1,
        chord_table(CHORD_UNISON)[0] == unison(),
{
}

/// The octave (euclidean quotient by twelve) of a semitone offset.
pub open spec fn octave_of(semitones: int) -> int {
    semitones / 12
}

/// The scale degree (euclidean remainder by twelve) of a semitone offset.
pub open spec fn degree_of(semitones: int) -> int {
    semitones % 12
}

/// The largest octave shift applied; further octaves saturate.
pub const MAX_OCTAVE_SHIFT: u32 = 30;

/// How many octaves a semitone offset shifts by: the octave's magnitude,
/// saturated at `MAX_OCTAVE_SHIFT`.
pub open spec fn octave_shift(semitones: int) -> int {
    let o = octave_of(semitones);
    let m = if o >= 0 { o } else { -o };
    if m < MAX_OCTAVE_SHIFT { m } else { MAX_OCTAVE_SHIFT as int }
}

/// Split a semitone offset into its equal-tempered degree (`0..12`), the
/// number of octaves to shift by (at most 30, so `1 << shift` never
/// overflows) and the shift's direction (`true` = up).
pub fn semitone_parts(semitones: i32) -> (r: (usize, u32, bool))
    ensures
        r.0 as int == degree_of(semitones as int),
        r.1 as int == octave_shift(semitones as int),
        -30 <= octave_of(semitones as int) <= 30 ==> r.1 as int == (if octave_of(semitones as int) >= 0 {
            octave_of(semitones as int)
        } else {
            -octave_of(semitones as int)
        }),
        (octave_of(semitones as int) > 30 || octave_of(semitones as int) < -30) ==> r.1 == 30,
        r.2 == (octave_of(semitones as int) >= 0),
        r.0 < 12,
        r.1 <= MAX_OCTAVE_SHIFT,
        semitones as int == 12 * octave_of(semitones as int) + degree_of(semitones as int),
{
    let oct: i32 = match semitones.checked_div_euclid(12) {
        Some(q) => q,
        None => 0,
    };
    let rem: i32 = match semitones.checked_rem_euclid(12) {
        Some(m) => m,
        None => 0,
    };
    assert(oct as int == octave_of(semitones as int));
    assert(rem as int == degree_of(semitones as int));
    let mag: u32 = if oct >= 0 {
        oct as u32
    } else {
        (-oct) as u32
    };
    let shift: u32 = if mag < MAX_OCTAVE_SHIFT {
        mag
    } else {
        MAX_OCTAVE_SHIFT
    };
    (rem as usize, shift, oct >= 0)
}

} // verus!
