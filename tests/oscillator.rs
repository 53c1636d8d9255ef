use pico_synth::wavetables::{
    WavetablePlayer, MIDI_NOTE_TO_SAMPLE_INTERVAL_NS, SAWTOOTH_WAVETABLE, SINE_WAVETABLE,
    SQUARE_WAVETABLE, WAVETABLE_SIZE,
};

#[test]
fn new_player_takes_note_interval() {
    let p = WavetablePlayer::new(&SINE_WAVETABLE, 69);
    assert_eq!(p.get_midi_note(), 69);
    assert_eq!(p.sample_interval(), 17756);
    assert_eq!(p.target_interval(), 17756);
    assert_eq!(p.wavetable_index(), 0);
}

#[test]
fn out_of_range_note_has_no_pitch() {
    let mut p = WavetablePlayer::new(&SAWTOOTH_WAVETABLE, 200);
    assert_eq!(p.sample_interval(), 0);
    assert_eq!(p.next_sample(5_000), SAWTOOTH_WAVETABLE[0]);
    assert_eq!(p.wavetable_index(), 0);
}

#[test]
fn index_advances_by_whole_steps() {
    let mut p = WavetablePlayer::new(&SAWTOOTH_WAVETABLE, 69);
    // 1776 us = 1_776_000 ns = 100 whole steps of 17756 ns
    assert_eq!(p.next_sample(1_776), SAWTOOTH_WAVETABLE[100]);
    assert_eq!(p.wavetable_index(), 100);
    // 1_776_000 - 100 * 17756 = 400 ns carried; 28 more steps wrap to 0
    assert_eq!(p.next_sample(497), SAWTOOTH_WAVETABLE[0]);
    assert_eq!(p.wavetable_index(), 0);
}

#[test]
fn index_stays_in_table() {
    let mut p = WavetablePlayer::new(&SINE_WAVETABLE, 100);
    let dts = [1u32, 17, 333, 4_000, 65_535, 1_000_000, 4_294_967, u32::MAX, 0, 22];
    for _ in 0..50 {
        for dt in dts {
            p.next_sample(dt);
            assert!((p.wavetable_index() as usize) < WAVETABLE_SIZE);
        }
    }
}

#[test]
fn wavetable_swap_keeps_phase() {
    let mut p = WavetablePlayer::new(&SAWTOOTH_WAVETABLE, 69);
    p.next_sample(1_776);
    p.set_wavetable(&SQUARE_WAVETABLE);
    assert_eq!(p.wavetable_index(), 100);
    assert_eq!(p.next_sample(0), 255);
}

#[test]
fn portamento_converges_after_glide_time() {
    let mut p = WavetablePlayer::new(&SINE_WAVETABLE, 69);
    p.set_portamento(100);
    p.set_midi_note(60);
    assert_eq!(p.get_midi_note(), 60);
    let from = MIDI_NOTE_TO_SAMPLE_INTERVAL_NS[69];
    let to = MIDI_NOTE_TO_SAMPLE_INTERVAL_NS[60];
    assert_eq!(p.target_interval(), to);
    assert_eq!(p.sample_interval(), from);
    for _ in 0..50 {
        p.next_sample(1_000);
    }
    assert_eq!(p.sample_interval(), from + (to - from) * 500 / 1000);
    for _ in 0..49 {
        p.next_sample(1_000);
        assert!(p.sample_interval() < to);
    }
    p.next_sample(1_000);
    assert_eq!(p.sample_interval(), to);
}

#[test]
fn portamento_downward_glide_does_not_overshoot() {
    let mut p = WavetablePlayer::new(&SINE_WAVETABLE, 60);
    p.set_portamento(10);
    p.set_midi_note(72);
    let from = MIDI_NOTE_TO_SAMPLE_INTERVAL_NS[60];
    let to = MIDI_NOTE_TO_SAMPLE_INTERVAL_NS[72];
    p.next_sample(2_500);
    assert_eq!(p.sample_interval(), from - (from - to) * 250 / 1000);
    for _ in 0..30 {
        p.next_sample(250);
        assert!(p.sample_interval() >= to);
    }
    assert_eq!(p.sample_interval(), to);
}

#[test]
fn zero_portamento_snaps() {
    let mut p = WavetablePlayer::new(&SINE_WAVETABLE, 69);
    p.set_midi_note(81);
    p.next_sample(1_000);
    assert_eq!(p.sample_interval(), MIDI_NOTE_TO_SAMPLE_INTERVAL_NS[81]);
}
