use leap_synth::shape::{waveform, NoteShape};
use leap_synth::units::{bend_frequency, AMP_ONE};
use leap_synth::wave::PlaybackWave;

const TURN: u64 = 44_100_000_000;

#[test]
fn a_sine_passes_through_zero_and_full_scale() {
    assert_eq!(waveform(NoteShape::Sine, 0, TURN), 0);
    assert_eq!(waveform(NoteShape::Sine, TURN / 12, TURN), 500_000);
    assert_eq!(waveform(NoteShape::Sine, TURN / 8, TURN), 705_882);
    assert_eq!(waveform(NoteShape::Sine, TURN / 4, TURN), 1_000_000);
    assert_eq!(waveform(NoteShape::Sine, TURN / 2, TURN), 0);
    assert_eq!(waveform(NoteShape::Sine, TURN / 4 * 3, TURN), -1_000_000);
    assert_eq!(waveform(NoteShape::Sine, TURN / 8 * 7, TURN), -705_882);
}

#[test]
fn a_sine_is_close_to_the_true_sine() {
    for k in 0..1000u64 {
        let v = waveform(NoteShape::Sine, TURN / 1000 * k, TURN) as f64 / AMP_ONE as f64;
        let exact = (2.0 * std::f64::consts::PI * k as f64 / 1000.0).sin();
        assert!((v - exact).abs() < 0.0017, "at {} of 1000: {} against {}", k, v, exact);
    }
}

#[test]
fn a_squared_sine_keeps_the_sign() {
    assert_eq!(waveform(NoteShape::SineSquared, TURN / 12, TURN), 250_000);
    assert_eq!(waveform(NoteShape::SineSquared, TURN / 8, TURN), 498_269);
    assert_eq!(waveform(NoteShape::SineSquared, TURN / 4, TURN), 1_000_000);
    assert_eq!(waveform(NoteShape::SineSquared, TURN / 8 * 7, TURN), -498_269);
    assert_eq!(waveform(NoteShape::SineSquared, TURN / 4 * 3, TURN), -1_000_000);
}

#[test]
fn a_saw_ramps_from_minus_half_to_half() {
    assert_eq!(waveform(NoteShape::Saw, 0, TURN), -500_000);
    assert_eq!(waveform(NoteShape::Saw, TURN / 12, TURN), -416_667);
    assert_eq!(waveform(NoteShape::Saw, TURN / 4, TURN), -250_000);
    assert_eq!(waveform(NoteShape::Saw, TURN / 2, TURN), 0);
    assert_eq!(waveform(NoteShape::Saw, TURN - 1, TURN), 499_999);
}

#[test]
fn a_triangle_has_three_pieces() {
    assert_eq!(waveform(NoteShape::Triangle, 0, TURN), -1_000_000);
    assert_eq!(waveform(NoteShape::Triangle, TURN / 8, TURN), -500_000);
    assert_eq!(waveform(NoteShape::Triangle, TURN / 4 - 1, TURN), -1);
    assert_eq!(waveform(NoteShape::Triangle, TURN / 4, TURN), 1_000_000);
    assert_eq!(waveform(NoteShape::Triangle, TURN / 2, TURN), 0);
    assert_eq!(waveform(NoteShape::Triangle, TURN / 4 * 3, TURN), -1_000_000);
    assert_eq!(waveform(NoteShape::Triangle, TURN / 8 * 7, TURN), -500_000);
}

#[test]
fn every_waveform_stays_within_full_scale() {
    for shape in [NoteShape::Sine, NoteShape::SineSquared, NoteShape::Saw, NoteShape::Triangle] {
        for k in 0..4410u64 {
            let v = waveform(shape, k * 10_000_000, TURN);
            assert!(-AMP_ONE <= v && v <= AMP_ONE);
        }
    }
}

#[test]
fn the_shapes_have_names() {
    assert_eq!(NoteShape::Sine.name(), "Sine");
    assert_eq!(NoteShape::SineSquared.name(), "SineSquared");
    assert_eq!(NoteShape::Saw.name(), "Saw");
    assert_eq!(NoteShape::Triangle.name(), "Triangle");
}

#[test]
fn an_oscillator_starts_at_the_beginning_of_its_turn() {
    let w = PlaybackWave::new(440_000, NoteShape::Sine);
    assert_eq!(w.freq(), 440_000);
    assert_eq!(w.target_freq(), 440_000);
    assert_eq!(w.shape(), NoteShape::Sine);
    assert_eq!(w.phase(), 0);
}

#[test]
fn a_440_hz_sine_at_44100_samples_per_second() {
    let mut w = PlaybackWave::new(440_000, NoteShape::Sine);
    assert_eq!(w.get_sample(44_100, 0), 0);
    assert_eq!(w.get_sample(44_100, 1), 63_575);
    assert_eq!(w.get_sample(44_100, 25), 999_993);
    assert_eq!(w.get_sample(44_100, 100_000), -993_830);
    assert_eq!(w.phase(), 0);
}

#[test]
fn an_oscillator_without_a_pending_change_stays_as_it_is() {
    let mut w = PlaybackWave::new(261_626, NoteShape::Saw);
    for i in 0..1000 {
        w.get_sample(48_000, i);
    }
    assert_eq!(w.freq(), 261_626);
    assert_eq!(w.target_freq(), 261_626);
    assert_eq!(w.phase(), 0);
}

#[test]
fn a_new_frequency_is_taken_up_without_a_jump() {
    for shape in [NoteShape::Sine, NoteShape::SineSquared, NoteShape::Saw, NoteShape::Triangle] {
        for i0 in [0u32, 1, 37, 1000, 44_099, 123_456] {
            let mut steady = PlaybackWave::new(440_000, shape);
            let mut bent = PlaybackWave::new(440_000, shape);
            bent.adjust_freq(1_010_000);
            assert_eq!(bent.target_freq(), 444_400);
            assert_eq!(bent.freq(), 440_000);
            let before = steady.get_sample(44_100, i0);
            let after = bent.get_sample(44_100, i0);
            assert_eq!(before, after);
            assert_eq!(bent.freq(), 444_400);
            assert_eq!(bent.target_freq(), 444_400);
        }
    }
}

#[test]
fn the_phase_after_a_change_makes_up_for_the_turns_not_made() {
    let mut w = PlaybackWave::new(440_000, NoteShape::Sine);
    w.adjust_freq(1_010_000);
    w.get_sample(44_100, 1000);
    // 1000 samples at 44100 per second are 1_000_000 time steps; the old frequency
    // has turned 4_400_000 steps further than the new one per thousand of them.
    let turn: u64 = 44_100_000_000;
    let behind: u64 = (1_000_000u64 * 4_400) % turn;
    assert_eq!(w.phase(), turn - behind);
}

#[test]
fn a_frequency_is_rounded_and_never_reaches_zero() {
    assert_eq!(bend_frequency(440_000, 1_000_000), 440_000);
    assert_eq!(bend_frequency(440_000, 1_010_000), 444_400);
    assert_eq!(bend_frequency(3, 500_000), 2);
    assert_eq!(bend_frequency(3, 499_999), 1);
    assert_eq!(bend_frequency(1, 1), 1);
    assert_eq!(bend_frequency(440_000, 0), 1);
    assert_eq!(bend_frequency(440_000, -5), 1);
    assert_eq!(bend_frequency(4_000_000_000, 2_000_000), 4_294_967_295);
    assert_eq!(bend_frequency(440_000, i64::MAX), 4_294_967_295);
}

#[test]
fn the_largest_rates_and_ticks_stay_within_full_scale() {
    for shape in [NoteShape::Sine, NoteShape::SineSquared, NoteShape::Saw, NoteShape::Triangle] {
        for (freq, rate) in [(u32::MAX, u32::MAX), (1, u32::MAX), (u32::MAX, 1), (1, 1), (440_000, 192_000)] {
            let mut w = PlaybackWave::new(freq, shape);
            for i in [0, 1, 2, 1_000_003, u32::MAX - 1, u32::MAX] {
                let v = w.get_sample(rate, i);
                assert!(-AMP_ONE <= v && v <= AMP_ONE);
                w.adjust_freq(999_983);
                let v = w.get_sample(rate, i);
                assert!(-AMP_ONE <= v && v <= AMP_ONE);
                w.adjust_freq(3_000_017);
            }
        }
    }
}
