use raydrone::degrees::{
    next_stratum, DegreeTable, KEYS_CAP, MODE_QMC, MODE_RANDOM, MODE_STRATIFIED, SCALE_CAP, STRATA,
};
use raydrone::music::{Ratio, CHORD_MAJOR_SCALE, CHORD_POWER, CHORD_UNISON};

#[test]
fn strata_cycle_round_robin() {
    let mut c = 0u32;
    for k in 0..40u32 {
        assert_eq!(next_stratum(&mut c), k % STRATA);
    }
    assert_eq!(c, 40 % STRATA);
}

#[test]
fn set_len_clamps_to_capacity() {
    let mut t = DegreeTable::new(SCALE_CAP);
    t.set_len(100);
    assert_eq!(t.len(), 64);
    t.set_len(5);
    assert_eq!(t.len(), 5);
    let mut k = DegreeTable::new(KEYS_CAP);
    k.set_len(40);
    assert_eq!(k.len(), 16);
}

#[test]
fn stratified_picks_walk_every_degree() {
    let mut t = DegreeTable::new(SCALE_CAP);
    t.set_len(3);
    let picks: Vec<usize> = (0..7).map(|_| t.pick(MODE_STRATIFIED, 99)).collect();
    assert_eq!(picks, vec![0, 1, 2, 0, 1, 2, 0]);
    t.set_len(3); // a new table restarts the round robin
    assert_eq!(t.pick(MODE_STRATIFIED, 0), 0);
}

#[test]
fn drawn_index_is_clamped_onto_last_degree() {
    let mut t = DegreeTable::new(SCALE_CAP);
    t.set_len(4);
    assert_eq!(t.pick(MODE_QMC, 2), 2);
    assert_eq!(t.pick(MODE_RANDOM, 4), 3);
    assert_eq!(t.pick(MODE_RANDOM, 1000), 3);
}

#[test]
fn load_chord_fills_or_clears_table() {
    let mut t = DegreeTable::new(SCALE_CAP);
    let r = t.load_chord(CHORD_POWER);
    assert_eq!(t.len(), 5);
    assert_eq!(r[2], Ratio { num: 3, den: 2 });
    let r = t.load_chord(CHORD_UNISON);
    assert!(r.is_empty());
    assert_eq!(t.len(), 0);
    let mut small = DegreeTable::new(3);
    let r = small.load_chord(CHORD_MAJOR_SCALE);
    assert_eq!(r.len(), 3);
    assert_eq!(small.len(), 3);
    assert_eq!(r[1], Ratio { num: 9, den: 8 });
}
