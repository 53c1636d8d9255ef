use vstd::prelude::*;
use crate::wavetables::{
    WAVETABLE_SIZE, SAWTOOTH_WAVETABLE, SINE_WAVETABLE, SQUARE_WAVETABLE, TRIANGLE_WAVETABLE,
};

verus! {

/// The four wavetable shapes a control message can select.
#[derive(Debug, Clone, Copy, PartialEq, Eq, Structural)]
pub enum Waveform {
    Sine,
    Sawtooth,
    Square,
    Triangle,
}

/// A control event carried from the control core to the audio core in one word.
#[derive(Debug, Clone, Copy, PartialEq, Eq, Structural)]
pub enum IntercoreMessage {
    NoteOn { note: u8, velocity: u8 },
    NoteOff { note: u8 },
    AttackControl { attack_ms: u16 },
    DecayControl { decay_ms: u16 },
    SustainControl { sustain_level: u16 },
    ReleaseControl { release_ms: u16 },
    WaveformControl { waveform: Waveform },
    PortamentoControl { portamento_time_ms: u16 },
}

pub const NOTE_ON_OPCODE: u8 = 0x90;

pub const NOTE_OFF_OPCODE: u8 = 0x80;

pub const ATTACK_OPCODE: u8 = 0x01;

pub const DECAY_OPCODE: u8 = 0x02;

pub const SUSTAIN_OPCODE: u8 = 0x03;

pub const RELEASE_OPCODE: u8 = 0x04;

pub const WAVEFORM_OPCODE: u8 = 0x05;

pub const PORTAMENTO_OPCODE: u8 = 0x06;

/// The byte that stands for a waveform: the lowest value of its band.
pub open spec fn waveform_byte(w: Waveform) -> int {
    match w {
        Waveform::Sine => 0,
        Waveform::Sawtooth => 64,
        Waveform::Square => 128,
        Waveform::Triangle => 192,
    }
}

/// The waveform of a byte, by quarter of the byte range.
pub open spec fn waveform_of_byte(b: int) -> Waveform {
    if b < 64 {
        Waveform::Sine
    } else if b < 128 {
        Waveform::Sawtooth
    } else if b < 192 {
        Waveform::Square
    } else {
        Waveform::Triangle
    }
}

/// A word of three bytes, lowest first; the top byte is zero.
pub open spec fn word_of(b0: int, b1: int, b2: int) -> int {
    b0 + 256 * b1 + 65536 * b2
}

/// The word that encodes a message: the opcode in the lowest byte, then the payload.
/// A 16-bit payload takes the next two bytes, low byte first.
pub open spec fn encode(m: IntercoreMessage) -> int {
    match m {
        IntercoreMessage::NoteOn { note, velocity } => word_of(
            NOTE_ON_OPCODE as int,
            note as int,
            velocity as int,
        ),
        IntercoreMessage::NoteOff { note } => word_of(NOTE_OFF_OPCODE as int, note as int, 0),
        IntercoreMessage::AttackControl { attack_ms } => ATTACK_OPCODE + 256 * attack_ms,
        IntercoreMessage::DecayControl { decay_ms } => DECAY_OPCODE + 256 * decay_ms,
        IntercoreMessage::SustainControl { sustain_level } => SUSTAIN_OPCODE + 256 * sustain_level,
        IntercoreMessage::ReleaseControl { release_ms } => RELEASE_OPCODE + 256 * release_ms,
        IntercoreMessage::WaveformControl { waveform } => word_of(
            WAVEFORM_OPCODE as int,
            waveform_byte(waveform),
            0,
        ),
        IntercoreMessage::PortamentoControl { portamento_time_ms } => PORTAMENTO_OPCODE + 256
            * portamento_time_ms,
    }
}

/// Byte `k` of a word (0 is the lowest).
pub open spec fn byte_of(w: int, k: int) -> int {
    if k == 0 {
        w % 256
    } else if k == 1 {
        (w / 256) % 256
    } else {
        (w / 256 / 256) % 256
    }
}

/// The 16-bit payload of a word: bytes 1 and 2, low byte first.
pub open spec fn payload_of(w: int) -> int {
    (w / 256) % 65536
}

/// The message a word decodes to, or `None` for an unknown opcode.
pub open spec fn decode(w: int) -> Option<IntercoreMessage> {
    let op = byte_of(w, 0);
    if op == NOTE_ON_OPCODE {
        Some(IntercoreMessage::NoteOn { note: byte_of(w, 1) as u8, velocity: byte_of(w, 2) as u8 })
    } else if op == NOTE_OFF_OPCODE {
        Some(IntercoreMessage::NoteOff { note: byte_of(w, 1) as u8 })
    } else if op == ATTACK_OPCODE {
        Some(IntercoreMessage::AttackControl { attack_ms: payload_of(w) as u16 })
    } else if op == DECAY_OPCODE {
        Some(IntercoreMessage::DecayControl { decay_ms: payload_of(w) as u16 })
    } else if op == SUSTAIN_OPCODE {
        Some(IntercoreMessage::SustainControl { sustain_level: payload_of(w) as u16 })
    } else if op == RELEASE_OPCODE {
        Some(IntercoreMessage::ReleaseControl { release_ms: payload_of(w) as u16 })
    } else if op == WAVEFORM_OPCODE {
        Some(IntercoreMessage::WaveformControl { waveform: waveform_of_byte(byte_of(w, 1)) })
    } else if op == PORTAMENTO_OPCODE {
        Some(IntercoreMessage::PortamentoControl { portamento_time_ms: payload_of(w) as u16 })
    } else {
        None
    }
}

impl Default for Waveform {
    fn default() -> (r: Self)
        ensures
            r == Waveform::Sine,
    {
        Waveform::Sine
    }
}

impl Waveform {
    /// The byte that stands for this waveform in a control message.
    pub fn to_u8(&self) -> (r: u8)
        ensures
            r as int == waveform_byte(*self),
    {
        match self {
            Waveform::Sine => 0,
            Waveform::Sawtooth => 64,
            Waveform::Square => 128,
            Waveform::Triangle => 192,
        }
    }

    /// The waveform of a byte: 0-63 sine, 64-127 sawtooth, 128-191 square,
    /// 192-255 triangle. Every byte has one.
    pub fn from_u8(byte: u8) -> (r: Option<Self>)
        ensures
            r == Some(waveform_of_byte(byte as int)),
    {
        if byte < 64 {
            Some(Waveform::Sine)
        } else if byte < 128 {
            Some(Waveform::Sawtooth)
        } else if byte < 192 {
            Some(Waveform::Square)
        } else {
            Some(Waveform::Triangle)
        }
    }

    /// The table this waveform plays.
    pub fn wavetable(&self) -> (r: &'static [u8; WAVETABLE_SIZE])
        ensures
            r@ == match *self {
                Waveform::Sine => SINE_WAVETABLE@,
                Waveform::Sawtooth => SAWTOOTH_WAVETABLE@,
                Waveform::Square => SQUARE_WAVETABLE@,
                Waveform::Triangle => TRIANGLE_WAVETABLE@,
            },
    {
        match self {
            Waveform::Sine => &SINE_WAVETABLE,
            Waveform::Sawtooth => &SAWTOOTH_WAVETABLE,
            Waveform::Square => &SQUARE_WAVETABLE,
            Waveform::Triangle => &TRIANGLE_WAVETABLE,
        }
    }
}

proof fn lemma_low_byte(a: int, b: int)
    requires
        0 <= a < 256,
        0 <= b,
    ensures
        (a + 256 * b) % 256 == a,
        (a + 256 * b) / 256 == b,
{
    vstd::arithmetic::div_mod::lemma_fundamental_div_mod_converse(a + 256 * b, 256, b, a);
}

proof fn lemma_word_bytes(b0: int, b1: int, b2: int)
    requires
        0 <= b0 < 256,
        0 <= b1 < 256,
        0 <= b2 < 256,
    ensures
        byte_of(word_of(b0, b1, b2), 0) == b0,
        byte_of(word_of(b0, b1, b2), 1) == b1,
        byte_of(word_of(b0, b1, b2), 2) == b2,
        0 <= word_of(b0, b1, b2) <= u32::MAX,
{
    let rest = b1 + 256 * b2;
    assert(word_of(b0, b1, b2) == b0 + 256 * rest);
    lemma_low_byte(b0, rest);
    lemma_low_byte(b1, b2);
    vstd::arithmetic::div_mod::lemma_small_mod(b2 as nat, 256);
}

proof fn lemma_payload_word(op: int, p: int)
    requires
        0 <= op < 256,
        0 <= p < 65536,
    ensures
        byte_of(op + 256 * p, 0) == op,
        payload_of(op + 256 * p) == p,
        0 <= op + 256 * p <= u32::MAX,
{
    lemma_low_byte(op, p);
    vstd::arithmetic::div_mod::lemma_small_mod(p as nat, 65536);
}

/// Decoding undoes encoding: every message comes back from its word unchanged.
pub proof fn lemma_round_trip(m: IntercoreMessage)
    ensures
        0 <= encode(m) <= u32::MAX,
        decode(encode(m)) == Some(m),
{
    match m {
        IntercoreMessage::NoteOn { note, velocity } => {
            lemma_word_bytes(NOTE_ON_OPCODE as int, note as int, velocity as int);
        },
        IntercoreMessage::NoteOff { note } => {
            lemma_word_bytes(NOTE_OFF_OPCODE as int, note as int, 0);
        },
        IntercoreMessage::AttackControl { attack_ms } => {
            lemma_payload_word(ATTACK_OPCODE as int, attack_ms as int);
        },
        IntercoreMessage::DecayControl { decay_ms } => {
            lemma_payload_word(DECAY_OPCODE as int, decay_ms as int);
        },
        IntercoreMessage::SustainControl { sustain_level } => {
            lemma_payload_word(SUSTAIN_OPCODE as int, sustain_level as int);
        },
        IntercoreMessage::ReleaseControl { release_ms } => {
            lemma_payload_word(RELEASE_OPCODE as int, release_ms as int);
        },
        IntercoreMessage::WaveformControl { waveform } => {
            lemma_word_bytes(WAVEFORM_OPCODE as int, waveform_byte(waveform), 0);
        },
        IntercoreMessage::PortamentoControl { portamento_time_ms } => {
            lemma_payload_word(PORTAMENTO_OPCODE as int, portamento_time_ms as int);
        },
    }
}

impl IntercoreMessage {
    /// The message a word carries, or `None` when its opcode is unknown.
    pub fn from_u32(bytes: u32) -> (r: Option<Self>)
        ensures
            r == decode(bytes as int),
    {
        let opcode: u8 = (bytes % 256) as u8;
        let first: u8 = ((bytes / 256) % 256) as u8;
        let second: u8 = ((bytes / 256 / 256) % 256) as u8;
        let payload: u16 = ((bytes / 256) % 65536) as u16;
        if opcode == NOTE_ON_OPCODE {
            Some(IntercoreMessage::NoteOn { note: first, velocity: second })
        } else if opcode == NOTE_OFF_OPCODE {
            Some(IntercoreMessage::NoteOff { note: first })
        } else if opcode == ATTACK_OPCODE {
            Some(IntercoreMessage::AttackControl { attack_ms: payload })
        } else if opcode == DECAY_OPCODE {
            Some(IntercoreMessage::DecayControl { decay_ms: payload })
        } else if opcode == SUSTAIN_OPCODE {
            Some(IntercoreMessage::SustainControl { sustain_level: payload })
        } else if opcode == RELEASE_OPCODE {
            Some(IntercoreMessage::ReleaseControl { release_ms: payload })
        } else if opcode == WAVEFORM_OPCODE {
            match Waveform::from_u8(first) {
                Some(waveform) => Some(IntercoreMessage::WaveformControl { waveform }),
                None => None,
            }
        } else if opcode == PORTAMENTO_OPCODE {
            Some(IntercoreMessage::PortamentoControl { portamento_time_ms: payload })
        } else {
            None
        }
    }

    /// The word that carries this message.
    pub fn to_u32(&self) -> (r: u32)
        ensures
            r as int == encode(*self),
    {
        proof {
            lemma_round_trip(*self);
        }
        match self {
            IntercoreMessage::NoteOn { note, velocity } => {
                NOTE_ON_OPCODE as u32 + 256 * (*note as u32) + 65536 * (*velocity as u32)
            },
            IntercoreMessage::NoteOff { note } => NOTE_OFF_OPCODE as u32 + 256 * (*note as u32),
            IntercoreMessage::AttackControl { attack_ms } => {
                ATTACK_OPCODE as u32 + 256 * (*attack_ms as u32)
            },
            IntercoreMessage::DecayControl { decay_ms } => {
                DECAY_OPCODE as u32 + 256 * (*decay_ms as u32)
            },
            IntercoreMessage::SustainControl { sustain_level } => {
                SUSTAIN_OPCODE as u32 + 256 * (*sustain_level as u32)
            },
            IntercoreMessage::ReleaseControl { release_ms } => {
                RELEASE_OPCODE as u32 + 256 * (*release_ms as u32)
            },
            IntercoreMessage::WaveformControl { waveform } => {
                WAVEFORM_OPCODE as u32 + 256 * (waveform.to_u8() as u32)
            },
            IntercoreMessage::PortamentoControl { portamento_time_ms } => {
                PORTAMENTO_OPCODE as u32 + 256 * (*portamento_time_ms as u32)
            },
        }
    }
}

} // verus!
