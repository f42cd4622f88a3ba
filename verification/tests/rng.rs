//! The generator's reproducible sequence, state capture and uniform picks.

use simx::{Rng, RngState};

/// The IEEE-754 double a raw 52-bit word stands for, in [0, 1).
fn to_f64(raw: u64) -> f64 {
    f64::from_bits(raw | 0x3ff0_0000_0000_0000) - 1.0
}

#[test]
fn sixpack() {
    // https://rng.sibr.dev/?state=(9168710189202541577,14545355385888695162)+17
    let mut rng = Rng::seeded(2935246629125674131, 766864515362452477);
    for _ in 0..46 {
        rng.next_raw();
    }
    let mut drawn: Vec<f64> = Vec::new();
    for _ in 0..26 {
        drawn.push(to_f64(rng.next_raw()));
    }
    assert_eq!(
        drawn,
        [
            0.49703677530116863,
            0.5353334247728434,
            0.7801376811715985,
            0.9477862995677102,
            0.5432353904550866,
            0.09148519432489,
            0.13637348943299,
            0.2402088683966459,
            0.7684839792424973,
            0.17754516970112522,
            0.9256864810331178,
            0.47320243374628146,
            0.5251933427814042,
            0.5415813280082218,
            0.05882883251148385,
            0.07467658384889164,
            0.5112415100190766,
            0.04157180867790067,
            0.6657740824633718,
            0.04772255121420832,
            0.22310586243568764,
            0.436032456675467,
            0.46330930297334705,
            0.483643577821103,
            0.8551471045385424,
            0.2681344624704567,
        ]
    );
}

/// Capture and restore the state of `rng`, checking the round trip is exact.
fn round_trip(rng: &Rng) -> Rng {
    let state: RngState = rng.to_state();
    let rebuilt = Rng::from_state(&state);
    assert_eq!(rebuilt.to_state(), state);
    rebuilt
}

#[test]
fn ser_and_de() {
    let mut rng = Rng::new();
    let mut rebuilt = round_trip(&rng);
    assert_eq!(rng.next_raw(), rebuilt.next_raw());

    for _ in 0..14 {
        rng.next_raw();
    }
    assert_eq!(rng.to_state().pending.len(), 49);
    let mut rebuilt = round_trip(&rng);
    assert_eq!(rng.to_state(), rebuilt.to_state());
    assert_eq!(rng.next_raw(), rebuilt.next_raw());

    for _ in 0..48 {
        rng.next_raw();
    }
    assert_eq!(rng.to_state().pending.len(), 0);
    let mut rebuilt = round_trip(&rng);
    assert_eq!(rng.next_raw(), rebuilt.next_raw());

    assert_eq!(rng.to_state().pending.len(), 63);
    let mut rebuilt = round_trip(&rng);
    assert_eq!(rng.next_raw(), rebuilt.next_raw());
}

#[test]
fn pick_single_element_consumes_one_draw() {
    let mut picking = Rng::seeded(11, 22);
    let mut drawing = Rng::seeded(11, 22);
    let only = vec![77u32];
    for _ in 0..100 {
        assert_eq!(picking.pick(&only), Some(77));
        drawing.next_raw();
        assert_eq!(picking.to_state(), drawing.to_state());
    }
}

#[test]
fn pick_empty_is_none_but_still_draws() {
    let mut picking = Rng::seeded(5, 6);
    let mut drawing = Rng::seeded(5, 6);
    let nothing: Vec<u32> = Vec::new();
    assert_eq!(picking.pick(&nothing), None);
    drawing.next_raw();
    assert_eq!(picking.to_state(), drawing.to_state());
}

#[test]
fn pick_is_uniform_floor_of_draw() {
    let mut picking = Rng::seeded(123, 456);
    let mut drawing = Rng::seeded(123, 456);
    let choices: Vec<u64> = (0..7).collect();
    for _ in 0..200 {
        let picked = picking.pick(&choices).unwrap();
        let raw = drawing.next_raw();
        let expected = ((raw as u128) * 7 >> 52) as u64;
        assert_eq!(picked, expected);
        assert_eq!(picked, (to_f64(raw) * 7.0).floor() as u64);
    }
}

#[test]
fn restore_clears_stray_high_bits_and_caps_one_batch() {
    let state = RngState { s0: 1, s1: 2, pending: vec![u64::MAX; 70] };
    let rng = Rng::from_state(&state);
    let restored = rng.to_state();
    assert_eq!(restored.pending.len(), 64);
    assert!(restored.pending.iter().all(|&w| w < (1u64 << 52)));
}
