use pico_synth::intercore::{IntercoreMessage, Waveform};

fn all_messages() -> Vec<IntercoreMessage> {
    let mut v = Vec::new();
    for note in [0u8, 1, 60, 127, 255] {
        for velocity in [0u8, 64, 127, 255] {
            v.push(IntercoreMessage::NoteOn { note, velocity });
        }
        v.push(IntercoreMessage::NoteOff { note });
    }
    for x in [0u16, 1, 255, 256, 4095, 0x1234, u16::MAX] {
        v.push(IntercoreMessage::AttackControl { attack_ms: x });
        v.push(IntercoreMessage::DecayControl { decay_ms: x });
        v.push(IntercoreMessage::SustainControl { sustain_level: x });
        v.push(IntercoreMessage::ReleaseControl { release_ms: x });
        v.push(IntercoreMessage::PortamentoControl { portamento_time_ms: x });
    }
    for waveform in [Waveform::Sine, Waveform::Sawtooth, Waveform::Square, Waveform::Triangle] {
        v.push(IntercoreMessage::WaveformControl { waveform });
    }
    v
}

#[test]
fn decode_inverts_encode() {
    for m in all_messages() {
        assert_eq!(IntercoreMessage::from_u32(m.to_u32()), Some(m));
    }
}

#[test]
fn word_layout() {
    let w = IntercoreMessage::NoteOn { note: 0x3c, velocity: 0x64 }.to_u32();
    assert_eq!(w, 0x0064_3c90);
    let w = IntercoreMessage::NoteOff { note: 0x3c }.to_u32();
    assert_eq!(w, 0x0000_3c80);
    let w = IntercoreMessage::AttackControl { attack_ms: 0x1234 }.to_u32();
    assert_eq!(w, 0x0012_3401);
    let w = IntercoreMessage::PortamentoControl { portamento_time_ms: 0xabcd }.to_u32();
    assert_eq!(w, 0x00ab_cd06);
    let w = IntercoreMessage::WaveformControl { waveform: Waveform::Square }.to_u32();
    assert_eq!(w, 0x0000_8005);
    assert_eq!(w >> 24, 0);
}

#[test]
fn unknown_opcode_decodes_to_none() {
    for op in [0x00u32, 0x07, 0x7f, 0x81, 0x91, 0xff] {
        assert_eq!(IntercoreMessage::from_u32(0x0012_3400 | op), None);
    }
}

#[test]
fn padding_byte_is_ignored_on_decode() {
    assert_eq!(
        IntercoreMessage::from_u32(0xff12_3402),
        Some(IntercoreMessage::DecayControl { decay_ms: 0x1234 })
    );
}

#[test]
fn waveform_bands() {
    assert_eq!(Waveform::from_u8(0), Some(Waveform::Sine));
    assert_eq!(Waveform::from_u8(63), Some(Waveform::Sine));
    assert_eq!(Waveform::from_u8(64), Some(Waveform::Sawtooth));
    assert_eq!(Waveform::from_u8(127), Some(Waveform::Sawtooth));
    assert_eq!(Waveform::from_u8(128), Some(Waveform::Square));
    assert_eq!(Waveform::from_u8(191), Some(Waveform::Square));
    assert_eq!(Waveform::from_u8(192), Some(Waveform::Triangle));
    assert_eq!(Waveform::from_u8(255), Some(Waveform::Triangle));
    assert_eq!(
        IntercoreMessage::from_u32(0x0000_c805),
        Some(IntercoreMessage::WaveformControl { waveform: Waveform::Triangle })
    );
}

#[test]
fn waveform_bytes_and_default() {
    assert_eq!(Waveform::Sine.to_u8(), 0);
    assert_eq!(Waveform::Sawtooth.to_u8(), 64);
    assert_eq!(Waveform::Square.to_u8(), 128);
    assert_eq!(Waveform::Triangle.to_u8(), 192);
    assert_eq!(Waveform::default(), Waveform::Sine);
}

#[test]
fn waveform_selects_its_table() {
    assert_eq!(Waveform::Sine.wavetable()[32], 255);
    assert_eq!(Waveform::Square.wavetable()[0], 0);
    assert_eq!(Waveform::Square.wavetable()[64], 255);
    assert_eq!(Waveform::Triangle.wavetable()[64], 255);
    assert_eq!(Waveform::Sawtooth.wavetable()[127], 253);
}
