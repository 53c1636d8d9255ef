use pico_synth::intercore::{IntercoreMessage, Waveform};
use pico_synth::synth::{PolySynth, Synth, VOICE_COUNT};
use pico_synth::wavetables::SQUARE_WAVETABLE;

#[test]
fn new_pool_is_free_and_silent() {
    let mut s = PolySynth::new();
    for i in 0..VOICE_COUNT {
        assert!(!s.is_active(i));
        assert_eq!(s.voice_note(i), 69);
    }
    assert_eq!(s.update(1_000), 0);
}

#[test]
fn five_note_ons_take_five_voices_and_sixth_steals_voice_zero() {
    let mut s = PolySynth::new();
    let notes = [60u8, 62, 64, 65, 67];
    for (k, note) in notes.iter().enumerate() {
        s.note_on(*note, 100);
        for i in 0..VOICE_COUNT {
            assert_eq!(s.is_active(i), i <= k);
        }
        assert_eq!(s.voice_note(k), *note);
    }
    s.note_on(72, 100);
    assert_eq!(s.voice_note(0), 72);
    for (i, note) in notes.iter().enumerate().skip(1) {
        assert_eq!(s.voice_note(i), *note);
    }
    for i in 0..VOICE_COUNT {
        assert!(s.is_active(i));
    }
}

#[test]
fn note_off_frees_matching_voices_only() {
    let mut s = PolySynth::new();
    s.note_on(60, 100);
    s.note_on(64, 100);
    s.note_on(60, 100);
    s.note_off(60);
    assert!(!s.is_active(0));
    assert!(s.is_active(1));
    assert!(!s.is_active(2));
    s.note_on(67, 90);
    assert!(s.is_active(0));
    assert_eq!(s.voice_note(0), 67);
}

#[test]
fn note_off_for_unheld_note_changes_nothing() {
    let mut s = PolySynth::new();
    s.note_on(60, 100);
    s.note_off(61);
    assert!(s.is_active(0));
}

#[test]
fn full_scale_mix_wraps_instead_of_clamping() {
    let mut s = PolySynth::new();
    s.set_wavetable(&SQUARE_WAVETABLE);
    s.attack_control(0);
    for _ in 0..VOICE_COUNT {
        s.note_on(69, 127);
    }
    // 1776 us moves each oscillator 100 steps, into the high half of the square wave,
    // and the zero attack gives every envelope full level on its first update.
    assert_eq!(s.update(1_776), ((5 * 255) % 256) as u8);
    // 1 ms into the default 50 ms decay toward 1365: level 4095 - 2730 / 50 = 4041.
    let per_voice = 255 * (4095 - (4095 - 1365) / 50) / 4095;
    assert_eq!(s.update(0), ((5 * per_voice) % 256) as u8);
}

#[test]
fn single_voice_sample_is_weighted_by_level() {
    let mut s = PolySynth::new();
    s.set_wavetable(&SQUARE_WAVETABLE);
    s.attack_control(10);
    s.note_on(69, 127);
    // 5.8 ms into a 10 ms attack: level 2047; 326 steps put the index at 70,
    // where the square wave is high.
    let level: u32 = 4095 * 5 / 10;
    assert_eq!(s.update(5_800), (255 * level / 4095) as u8);
}

#[test]
fn messages_drive_the_pool() {
    let mut s = PolySynth::new();
    s.handle_message(IntercoreMessage::WaveformControl { waveform: Waveform::Square });
    s.handle_message(IntercoreMessage::AttackControl { attack_ms: 0 });
    s.handle_message(IntercoreMessage::NoteOn { note: 69, velocity: 127 });
    assert!(s.is_active(0));
    assert_eq!(s.update(1_776), 255);
    s.handle_message(IntercoreMessage::NoteOff { note: 69 });
    assert!(!s.is_active(0));
    s.handle_message(IntercoreMessage::DecayControl { decay_ms: 1 });
    s.handle_message(IntercoreMessage::SustainControl { sustain_level: 9999 });
    s.handle_message(IntercoreMessage::ReleaseControl { release_ms: 5 });
    s.handle_message(IntercoreMessage::PortamentoControl { portamento_time_ms: 20 });
    s.handle_message(IntercoreMessage::NoteOn { note: 60, velocity: 127 });
    assert_eq!(s.voice_note(0), 60);
}

#[test]
fn sustain_control_clamps_and_aftertouch_adds() {
    let mut s = PolySynth::new();
    s.set_wavetable(&SQUARE_WAVETABLE);
    s.attack_control(0);
    s.decay_control(0);
    s.sustain_control(2000);
    s.release_control(10);
    s.portamento_control(0);
    s.note_on(69, 127);
    s.update(1_776);
    // sustain 2000 at full velocity on a full entry: 255 * 2000 / 4095
    assert_eq!(s.update(0), (255 * 2000 / 4095) as u8);
    s.channel_aftertouch(95);
    assert_eq!(s.update(0), (255 * 2095 / 4095) as u8);
}
