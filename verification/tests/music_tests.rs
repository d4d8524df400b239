use raydrone::music::{
    chord_ratios, semitone_parts, Ratio, CHORD_COUNT, CHORD_MAJOR, CHORD_POWER, CHORD_UNISON,
};

fn as_f32(r: &[Ratio]) -> Vec<f32> {
    r.iter().map(|x| x.num as f32 / x.den as f32).collect()
}

#[test]
fn presets_are_nonempty_and_ascending_from_root() {
    for p in 0..CHORD_COUNT {
        let r = as_f32(&chord_ratios(p));
        assert!(!r.is_empty(), "preset {p} empty");
        for &x in &r {
            assert!(x > 0.0 && x.is_finite(), "preset {p} bad ratio {x}");
        }
        for w in r.windows(2) {
            assert!(w[0] < w[1], "preset {p} not ascending");
        }
        assert!(r.contains(&1.0), "preset {p} has no root");
    }
    assert_eq!(as_f32(&chord_ratios(CHORD_UNISON)), vec![1.0]);
    assert_eq!(as_f32(&chord_ratios(999)), vec![1.0]); // unknown → unison
}

#[test]
fn power_pad_has_fifth_and_octave() {
    let r = as_f32(&chord_ratios(CHORD_POWER));
    assert!(r.contains(&1.5)); // perfect fifth (3/2)
    assert!(r.contains(&2.0)); // octave
    assert!(r.contains(&0.5)); // sub-octave for weight
}

#[test]
fn major_triad_is_just() {
    let r = chord_ratios(CHORD_MAJOR);
    assert_eq!(
        r,
        vec![
            Ratio { num: 1, den: 1 },
            Ratio { num: 5, den: 4 },
            Ratio { num: 3, den: 2 },
            Ratio { num: 2, den: 1 }
        ]
    );
    assert_eq!(as_f32(&r), vec![1.0, 5.0 / 4.0, 3.0 / 2.0, 2.0]);
}

#[test]
fn semitone_parts_split_octave_and_degree() {
    assert_eq!(semitone_parts(0), (0, 0, true));
    assert_eq!(semitone_parts(7), (7, 0, true));
    assert_eq!(semitone_parts(12), (0, 1, true));
    assert_eq!(semitone_parts(19), (7, 1, true));
    assert_eq!(semitone_parts(-1), (11, 1, false));
    assert_eq!(semitone_parts(-12), (0, 1, false));
    assert_eq!(semitone_parts(-13), (11, 2, false));
}

#[test]
fn semitone_parts_saturate_on_extreme_input() {
    assert_eq!(semitone_parts(i32::MAX), (7, 30, true));
    assert_eq!(semitone_parts(i32::MIN), (4, 30, false));
    assert_eq!(semitone_parts(1000), (4, 30, true));
    assert_eq!(semitone_parts(-1000), (8, 30, false));
    assert_eq!(semitone_parts(360), (0, 30, true));
    assert_eq!(semitone_parts(371), (11, 30, true));
}
