use vstd::prelude::*;
use crate::adsr::{
    Adsr, AdsrModel, MAX_LEVEL, adsr_initial, adsr_released, adsr_step, adsr_triggered,
};
use crate::intercore::{IntercoreMessage, Waveform};
use crate::wavetables::{
    PlayerModel, WavetablePlayer, SAWTOOTH_WAVETABLE, SINE_WAVETABLE, SQUARE_WAVETABLE,
    TRIANGLE_WAVETABLE, WAVETABLE_SIZE, player_initial,
    player_note_change, player_step,
};

verus! {

/// Number of voices in the polyphonic pool.
pub const VOICE_COUNT: usize = 5;

/// The MIDI note every voice starts on.
pub const START_NOTE: u8 = 69;

/// A synthesizer driven by note and control events, one sample per tick.
pub trait Synth: Sized {
    /// The synthesizer's internal consistency.
    spec fn inv(&self) -> bool;

    fn new() -> (r: Self)
        ensures
            r.inv(),
    ;

    fn update(&mut self, elapsed_time_us: u32) -> (r: u8)
        requires
            old(self).inv(),
        ensures
            final(self).inv(),
    ;

    fn note_on(&mut self, note: u8, velocity: u8)
        requires
            old(self).inv(),
        ensures
            final(self).inv(),
    ;

    fn note_off(&mut self, note: u8)
        requires
            old(self).inv(),
        ensures
            final(self).inv(),
    ;

    fn attack_control(&mut self, attack_ms: u16)
        requires
            old(self).inv(),
        ensures
            final(self).inv(),
    ;

    fn decay_control(&mut self, decay_ms: u16)
        requires
            old(self).inv(),
        ensures
            final(self).inv(),
    ;

    fn sustain_control(&mut self, sustain_level: u16)
        requires
            old(self).inv(),
        ensures
            final(self).inv(),
    ;

    fn release_control(&mut self, release_ms: u16)
        requires
            old(self).inv(),
        ensures
            final(self).inv(),
    ;

    fn set_wavetable(&mut self, wavetable: &'static [u8; WAVETABLE_SIZE])
        requires
            old(self).inv(),
        ensures
            final(self).inv(),
    ;

    fn portamento_control(&mut self, portamento_time_ms: u16)
        requires
            old(self).inv(),
        ensures
            final(self).inv(),
    ;

    fn channel_aftertouch(&mut self, aftertouch: u8)
        requires
            old(self).inv(),
        ensures
            final(self).inv(),
    ;
}

/// The abstract value of one voice.
pub struct VoiceModel {
    pub osc: PlayerModel,
    pub env: AdsrModel,
}

/// The abstract value of the voice pool.
pub struct PolyModel {
    pub voices: Seq<VoiceModel>,
    pub active: Seq<bool>,
}

/// One voice's sample: the oscillator's entry weighted by the envelope level,
/// truncated to eight bits.
pub open spec fn weighted_sample(sample: int, level: int) -> int {
    (sample * level / (MAX_LEVEL as int)) % 256
}

/// One tick of a voice: the envelope first, then the oscillator; the voice's next
/// state and its sample.
pub open spec fn voice_step(v: VoiceModel, dt: int) -> (VoiceModel, int) {
    let (env, level) = adsr_step(v.env, dt);
    let osc = player_step(v.osc, dt);
    (VoiceModel { osc, env }, weighted_sample(osc.table[osc.index] as int, level))
}

/// A voice at power-up: sawtooth table at the start note, idle envelope.
pub open spec fn voice_initial() -> VoiceModel {
    VoiceModel {
        osc: player_initial(SAWTOOTH_WAVETABLE@, START_NOTE as int),
        env: adsr_initial(),
    }
}

/// A note-on on one voice: its oscillator glides to the note and its envelope
/// is triggered.
pub open spec fn voice_note_on(v: VoiceModel, note: int, velocity: int) -> VoiceModel {
    VoiceModel { osc: player_note_change(v.osc, note), env: adsr_triggered(v.env, velocity) }
}

/// The first free slot at or after `i`, or the pool size if every one of them is taken.
pub open spec fn first_free_from(active: Seq<bool>, i: int) -> int
    decreases active.len() - i,
{
    if i >= active.len() {
        active.len() as int
    } else if !active[i] {
        i
    } else {
        first_free_from(active, i + 1)
    }
}

/// The slot a note-on takes: the first free one, or slot zero when all are in use.
pub open spec fn allocated_slot(active: Seq<bool>) -> int {
    let f = first_free_from(active, 0);
    if f < active.len() { f } else { 0 }
}

/// The pool after a note-on.
pub open spec fn poly_note_on(m: PolyModel, note: int, velocity: int) -> PolyModel {
    let i = allocated_slot(m.active);
    PolyModel {
        voices: m.voices.update(i, voice_note_on(m.voices[i], note, velocity)),
        active: m.active.update(i, true),
    }
}

/// Whether a note-off for `note` releases slot `i`.
pub open spec fn releases(m: PolyModel, i: int, note: int) -> bool {
    m.active[i] && m.voices[i].osc.note == note
}

/// The pool after a note-off: every active voice on that note is released and freed.
pub open spec fn poly_note_off(m: PolyModel, note: int) -> PolyModel {
    PolyModel {
        voices: Seq::new(
            m.voices.len(),
            |i: int|
                if releases(m, i, note) {
                    VoiceModel { env: adsr_released(m.voices[i].env), ..m.voices[i] }
                } else {
                    m.voices[i]
                },
        ),
        active: Seq::new(m.active.len(), |i: int| m.active[i] && !releases(m, i, note)),
    }
}

/// The pool with `f` applied to every voice's envelope.
pub open spec fn map_envelopes(m: PolyModel, f: spec_fn(AdsrModel) -> AdsrModel) -> PolyModel {
    PolyModel {
        voices: Seq::new(m.voices.len(), |i: int| VoiceModel { env: f(m.voices[i].env), ..m.voices[i] }),
        active: m.active,
    }
}

/// The pool with `f` applied to every voice's oscillator.
pub open spec fn map_oscillators(m: PolyModel, f: spec_fn(PlayerModel) -> PlayerModel) -> PolyModel {
    PolyModel {
        voices: Seq::new(m.voices.len(), |i: int| VoiceModel { osc: f(m.voices[i].osc), ..m.voices[i] }),
        active: m.active,
    }
}

/// Sum of the samples of the first `n` voices after one tick of `dt`.
pub open spec fn mix_sum(voices: Seq<VoiceModel>, dt: int, n: int) -> int
    decreases n,
{
    if n <= 0 {
        0
    } else {
        mix_sum(voices, dt, n - 1) + voice_step(voices[n - 1], dt).1
    }
}

/// One tick of the pool: every voice, active or not, steps; the result is the
/// sum of their samples, wrapped to eight bits.
pub open spec fn poly_step(m: PolyModel, dt: int) -> (PolyModel, int) {
    (
        PolyModel {
            voices: Seq::new(m.voices.len(), |i: int| voice_step(m.voices[i], dt).0),
            active: m.active,
        },
        mix_sum(m.voices, dt, m.voices.len() as int) % 256,
    )
}

/// A setting that every voice's envelope receives.
#[derive(Clone, Copy)]
enum EnvelopeSetting {
    Attack(u32),
    Decay(u32),
    Sustain(u32),
    Release(u32),
    Aftertouch(u32),
}

/// A setting that every voice's oscillator receives.
#[derive(Clone, Copy)]
enum OscillatorSetting {
    Table(&'static [u8; WAVETABLE_SIZE]),
    Portamento(u32),
}

/// The sustain level a setter stores: clamped to `MAX_LEVEL`.
pub open spec fn clamped_level(level: int) -> int {
    if level <= MAX_LEVEL { level } else { MAX_LEVEL as int }
}

spec fn envelope_with(e: AdsrModel, setting: EnvelopeSetting) -> AdsrModel {
    match setting {
        EnvelopeSetting::Attack(v) => AdsrModel { attack_ms: v as int, ..e },
        EnvelopeSetting::Decay(v) => AdsrModel { decay_ms: v as int, ..e },
        EnvelopeSetting::Sustain(v) => AdsrModel { sustain_level: clamped_level(v as int), ..e },
        EnvelopeSetting::Release(v) => AdsrModel { release_ms: v as int, ..e },
        EnvelopeSetting::Aftertouch(v) => AdsrModel { aftertouch: v as int, ..e },
    }
}

spec fn oscillator_with(o: PlayerModel, setting: OscillatorSetting) -> PlayerModel {
    match setting {
        OscillatorSetting::Table(t) => PlayerModel { table: t@, ..o },
        OscillatorSetting::Portamento(v) => PlayerModel { portamento_ms: v as int, ..o },
    }
}

/// The pool with every envelope's attack time set.
pub open spec fn poly_attack(m: PolyModel, attack_ms: int) -> PolyModel {
    map_envelopes(m, |e: AdsrModel| AdsrModel { attack_ms, ..e })
}

/// The pool with every envelope's decay time set.
pub open spec fn poly_decay(m: PolyModel, decay_ms: int) -> PolyModel {
    map_envelopes(m, |e: AdsrModel| AdsrModel { decay_ms, ..e })
}

/// The pool with every envelope's sustain level set, clamped to `MAX_LEVEL`.
pub open spec fn poly_sustain(m: PolyModel, sustain_level: int) -> PolyModel {
    map_envelopes(m, |e: AdsrModel| AdsrModel { sustain_level: clamped_level(sustain_level), ..e })
}

/// The pool with every envelope's release time set.
pub open spec fn poly_release(m: PolyModel, release_ms: int) -> PolyModel {
    map_envelopes(m, |e: AdsrModel| AdsrModel { release_ms, ..e })
}

/// The pool with every envelope's aftertouch offset set.
pub open spec fn poly_aftertouch(m: PolyModel, aftertouch: int) -> PolyModel {
    map_envelopes(m, |e: AdsrModel| AdsrModel { aftertouch, ..e })
}

/// The pool with every oscillator reading `table`.
pub open spec fn poly_table(m: PolyModel, table: Seq<u8>) -> PolyModel {
    map_oscillators(m, |o: PlayerModel| PlayerModel { table, ..o })
}

/// The pool with every oscillator's glide time set.
pub open spec fn poly_portamento(m: PolyModel, portamento_ms: int) -> PolyModel {
    map_oscillators(m, |o: PlayerModel| PlayerModel { portamento_ms, ..o })
}

/// The table a waveform selects.
pub open spec fn table_of(w: Waveform) -> Seq<u8> {
    match w {
        Waveform::Sine => SINE_WAVETABLE@,
        Waveform::Sawtooth => SAWTOOTH_WAVETABLE@,
        Waveform::Square => SQUARE_WAVETABLE@,
        Waveform::Triangle => TRIANGLE_WAVETABLE@,
    }
}

/// The pool after the audio core acts on one control message.
pub open spec fn poly_message(m: PolyModel, message: IntercoreMessage) -> PolyModel {
    match message {
        IntercoreMessage::NoteOn { note, velocity } => poly_note_on(m, note as int, velocity as int),
        IntercoreMessage::NoteOff { note } => poly_note_off(m, note as int),
        IntercoreMessage::AttackControl { attack_ms } => poly_attack(m, attack_ms as int),
        IntercoreMessage::DecayControl { decay_ms } => poly_decay(m, decay_ms as int),
        IntercoreMessage::SustainControl { sustain_level } => poly_sustain(m, sustain_level as int),
        IntercoreMessage::ReleaseControl { release_ms } => poly_release(m, release_ms as int),
        IntercoreMessage::WaveformControl { waveform } => poly_table(m, table_of(waveform)),
        IntercoreMessage::PortamentoControl { portamento_time_ms } => poly_portamento(
            m,
            portamento_time_ms as int,
        ),
    }
}

/// The pool after a note-on for each `(note, velocity)` of `events`, in order.
pub open spec fn poly_note_ons(m: PolyModel, events: Seq<(u8, u8)>) -> PolyModel
    decreases events.len(),
{
    if events.len() == 0 {
        m
    } else {
        let (note, velocity) = events.last();
        poly_note_on(poly_note_ons(m, events.drop_last()), note as int, velocity as int)
    }
}

proof fn lemma_first_free_prefix(active: Seq<bool>, k: int, i: int)
    requires
        0 <= i <= k <= active.len(),
        forall|j: int| 0 <= j < active.len() ==> active[j] == (j < k),
    ensures
        first_free_from(active, i) == k,
    decreases k - i,
{
    if i < k {
        lemma_first_free_prefix(active, k, i + 1);
    }
}

proof fn lemma_note_ons_fill(m: PolyModel, events: Seq<(u8, u8)>)
    requires
        m.voices.len() == VOICE_COUNT,
        m.active.len() == VOICE_COUNT,
        forall|j: int| 0 <= j < VOICE_COUNT ==> !m.active[j],
        events.len() <= VOICE_COUNT,
    ensures
        poly_note_ons(m, events).voices.len() == VOICE_COUNT,
        poly_note_ons(m, events).active.len() == VOICE_COUNT,
        forall|j: int|
            0 <= j < VOICE_COUNT ==> poly_note_ons(m, events).active[j] == (j < events.len()),
    decreases events.len(),
{
    if events.len() > 0 {
        let prev = poly_note_ons(m, events.drop_last());
        lemma_note_ons_fill(m, events.drop_last());
        lemma_first_free_prefix(prev.active, events.len() - 1, 0);
    }
}

/// Voice allocation: starting with every voice free, five note-ons take five
/// different voices, the k-th call taking voice k, and leave all five active;
/// a sixth note-on then retriggers voice zero and deactivates no voice.
pub proof fn lemma_voice_allocation(m: PolyModel, events: Seq<(u8, u8)>, note: u8, velocity: u8)
    requires
        m.voices.len() == VOICE_COUNT,
        m.active.len() == VOICE_COUNT,
        forall|j: int| 0 <= j < VOICE_COUNT ==> !m.active[j],
        events.len() == VOICE_COUNT,
    ensures
        forall|k: int|
            0 <= k < VOICE_COUNT ==> allocated_slot(
                (#[trigger] poly_note_ons(m, events.take(k))).active,
            ) == k,
        forall|j: int| 0 <= j < VOICE_COUNT ==> poly_note_ons(m, events).active[j],
        allocated_slot(poly_note_ons(m, events).active) == 0,
        poly_note_on(poly_note_ons(m, events), note as int, velocity as int).active
            == poly_note_ons(m, events).active,
{
    assert forall|k: int|
        0 <= k < VOICE_COUNT implies allocated_slot(
            (#[trigger] poly_note_ons(m, events.take(k))).active,
        ) == k by {
        lemma_note_ons_fill(m, events.take(k));
        lemma_first_free_prefix(poly_note_ons(m, events.take(k)).active, k, 0);
    }
    let full = poly_note_ons(m, events);
    lemma_note_ons_fill(m, events);
    lemma_first_free_prefix(full.active, VOICE_COUNT as int, 0);
    assert(full.active.update(0, true) =~= full.active);
}

/// One oscillator and one envelope generator.
pub struct MonoSynth {
    oscilator: WavetablePlayer,
    adsr: Adsr,
}

impl View for MonoSynth {
    type V = VoiceModel;

    closed spec fn view(&self) -> VoiceModel {
        VoiceModel { osc: self.oscilator@, env: self.adsr@ }
    }
}

impl MonoSynth {
    /// Internal consistency of both parts.
    pub closed spec fn wf(&self) -> bool {
        self.oscilator.wf() && self.adsr.wf()
    }

    /// A voice on the sawtooth table at the start note, with an idle envelope.
    pub fn new() -> (r: Self)
        ensures
            r.wf(),
            r@ == voice_initial(),
    {
        MonoSynth {
            oscilator: WavetablePlayer::new(&SAWTOOTH_WAVETABLE, START_NOTE),
            adsr: Adsr::new(),
        }
    }

    /// Advances the voice by one tick and returns its sample.
    pub fn update(&mut self, elapsed_time_us: u32) -> (r: u8)
        requires
            old(self).wf(),
        ensures
            final(self).wf(),
            (final(self)@, r as int) == voice_step(old(self)@, elapsed_time_us as int),
    {
        let level = self.adsr.update(elapsed_time_us);
        let sample = self.oscilator.next_sample(elapsed_time_us);
        proof {
            let (a, b) = (sample as int, level as int);
            assert(a * b <= 255 * 65535) by (nonlinear_arith)
                requires
                    0 <= a <= 255,
                    0 <= b <= 65535,
            ;
        }
        let weighted: u32 = sample as u32 * level as u32 / MAX_LEVEL;
        (weighted % 256) as u8
    }

    pub fn note_on(&mut self, note: u8, velocity: u8)
        requires
            old(self).wf(),
        ensures
            final(self).wf(),
            final(self)@ == voice_note_on(old(self)@, note as int, velocity as int),
    {
        self.oscilator.set_midi_note(note);
        self.adsr.trigger(velocity);
    }

    pub fn note_off(&mut self)
        requires
            old(self).wf(),
        ensures
            final(self).wf(),
            final(self)@ == (VoiceModel { env: adsr_released(old(self)@.env), ..old(self)@ }),
    {
        self.adsr.release();
    }

    pub fn get_midi_note(&self) -> (r: u8)
        ensures
            r as int == self@.osc.note,
    {
        self.oscilator.get_midi_note()
    }

    /// Applies one envelope setting.
    fn apply_envelope(&mut self, setting: EnvelopeSetting)
        requires
            old(self).wf(),
        ensures
            final(self).wf(),
            final(self)@ == (VoiceModel {
                env: envelope_with(old(self)@.env, setting),
                ..old(self)@
            }),
    {
        match setting {
            EnvelopeSetting::Attack(v) => self.adsr.set_attack(v),
            EnvelopeSetting::Decay(v) => self.adsr.set_decay(v),
            EnvelopeSetting::Sustain(v) => self.adsr.set_sustain(v),
            EnvelopeSetting::Release(v) => self.adsr.set_release(v),
            EnvelopeSetting::Aftertouch(v) => self.adsr.set_aftertouch(v),
        }
    }

    /// Applies one oscillator setting.
    fn apply_oscillator(&mut self, setting: OscillatorSetting)
        requires
            old(self).wf(),
        ensures
            final(self).wf(),
            final(self)@ == (VoiceModel {
                osc: oscillator_with(old(self)@.osc, setting),
                ..old(self)@
            }),
    {
        match setting {
            OscillatorSetting::Table(t) => self.oscilator.set_wavetable(t),
            OscillatorSetting::Portamento(v) => self.oscilator.set_portamento(v),
        }
    }
}


/// A pool of voices: a note-on takes the first free voice, or voice zero when
/// none is free, and every voice sounds into one mixed sample.
pub struct PolySynth {
    voices: [MonoSynth; VOICE_COUNT],
    active_voices: [bool; VOICE_COUNT],
}

impl View for PolySynth {
    type V = PolyModel;

    closed spec fn view(&self) -> PolyModel {
        PolyModel {
            voices: self.voices@.map_values(|v: MonoSynth| v@),
            active: self.active_voices@,
        }
    }
}

impl PolySynth {
    /// Internal consistency of every voice.
    pub closed spec fn wf(&self) -> bool {
        forall|i: int| 0 <= i < VOICE_COUNT ==> (#[trigger] self.voices[i]).wf()
    }

    /// The pool holds `VOICE_COUNT` voices.
    pub proof fn lemma_size(&self)
        ensures
            self@.voices.len() == VOICE_COUNT,
            self@.active.len() == VOICE_COUNT,
    {
    }

    proof fn lemma_voice_views(&self)
        ensures
            self@.voices.len() == VOICE_COUNT,
            forall|j: int| 0 <= j < VOICE_COUNT ==> self@.voices[j] == (#[trigger] self.voices[j])@,
    {
    }

    /// Whether voice `i` is bound to a held note.
    pub fn is_active(&self, i: usize) -> (r: bool)
        requires
            i < VOICE_COUNT,
        ensures
            r == self@.active[i as int],
    {
        self.active_voices[i]
    }

    /// The note voice `i` was last given.
    pub fn voice_note(&self, i: usize) -> (r: u8)
        requires
            i < VOICE_COUNT,
        ensures
            r as int == self@.voices[i as int].osc.note,
    {
        self.voices[i].get_midi_note()
    }

    /// The slot a note-on takes.
    fn free_slot(&self) -> (r: usize)
        ensures
            r as int == allocated_slot(self@.active),
            r < VOICE_COUNT,
    {
        let mut i: usize = 0;
        while i < VOICE_COUNT && self.active_voices[i]
            invariant
                0 <= i <= VOICE_COUNT,
                first_free_from(self@.active, 0) == first_free_from(self@.active, i as int),
            decreases VOICE_COUNT - i,
        {
            i = i + 1;
        }
        if i < VOICE_COUNT {
            i
        } else {
            0
        }
    }

    fn for_each_envelope(&mut self, setting: EnvelopeSetting)
        requires
            old(self).wf(),
        ensures
            final(self).wf(),
            final(self)@ == map_envelopes(old(self)@, |e: AdsrModel| envelope_with(e, setting)),
    {
        let ghost m0 = self@;
        proof {
            self.lemma_voice_views();
        }
        let mut i: usize = 0;
        while i < VOICE_COUNT
            invariant
                0 <= i <= VOICE_COUNT,
                self.wf(),
                self@.active == m0.active,
                m0.voices.len() == VOICE_COUNT,
                self@.voices.len() == VOICE_COUNT,
                forall|j: int| 0 <= j < i ==> (#[trigger] self.voices[j])@ == (VoiceModel {
                    env: envelope_with(m0.voices[j].env, setting),
                    ..m0.voices[j]
                }),
                forall|j: int| i <= j < VOICE_COUNT ==> (#[trigger] self.voices[j])@ == m0.voices[j],
            decreases VOICE_COUNT - i,
        {
            self.voices[i].apply_envelope(setting);
            i = i + 1;
        }
        proof {
            self.lemma_voice_views();
        }
        assert(self@.voices =~= map_envelopes(m0, |e: AdsrModel| envelope_with(e, setting)).voices);
    }

    fn for_each_oscillator(&mut self, setting: OscillatorSetting)
        requires
            old(self).wf(),
        ensures
            final(self).wf(),
            final(self)@ == map_oscillators(old(self)@, |o: PlayerModel| oscillator_with(o, setting)),
    {
        let ghost m0 = self@;
        proof {
            self.lemma_voice_views();
        }
        let mut i: usize = 0;
        while i < VOICE_COUNT
            invariant
                0 <= i <= VOICE_COUNT,
                self.wf(),
                self@.active == m0.active,
                m0.voices.len() == VOICE_COUNT,
                self@.voices.len() == VOICE_COUNT,
                forall|j: int| 0 <= j < i ==> (#[trigger] self.voices[j])@ == (VoiceModel {
                    osc: oscillator_with(m0.voices[j].osc, setting),
                    ..m0.voices[j]
                }),
                forall|j: int| i <= j < VOICE_COUNT ==> (#[trigger] self.voices[j])@ == m0.voices[j],
            decreases VOICE_COUNT - i,
        {
            self.voices[i].apply_oscillator(setting);
            i = i + 1;
        }
        proof {
            self.lemma_voice_views();
        }
        assert(self@.voices =~= map_oscillators(m0, |o: PlayerModel| oscillator_with(o, setting)).voices);
    }
}


impl Synth for PolySynth {
    open spec fn inv(&self) -> bool {
        self.wf()
    }

    /// Five idle voices on the sawtooth table at the start note, all free.
    fn new() -> (r: Self)
        ensures
            r@.voices == Seq::new(VOICE_COUNT as nat, |i: int| voice_initial()),
            r@.active == Seq::new(VOICE_COUNT as nat, |i: int| false),
    {
        let r = PolySynth {
            voices: [
                MonoSynth::new(),
                MonoSynth::new(),
                MonoSynth::new(),
                MonoSynth::new(),
                MonoSynth::new(),
            ],
            active_voices: [false, false, false, false, false],
        };
        proof {
            r.lemma_voice_views();
        }
        assert(r@.voices =~= Seq::new(VOICE_COUNT as nat, |i: int| voice_initial()));
        assert(r@.active =~= Seq::new(VOICE_COUNT as nat, |i: int| false));
        r
    }

    /// Advances every voice, active or not, and returns the sum of their
    /// samples wrapped to eight bits (no clamping).
    fn update(&mut self, elapsed_time_us: u32) -> (r: u8)
        ensures
            (final(self)@, r as int) == poly_step(old(self)@, elapsed_time_us as int),
    {
        let ghost m0 = self@;
        proof {
            self.lemma_voice_views();
        }
        let mut sample: u32 = 0;
        let mut i: usize = 0;
        while i < VOICE_COUNT
            invariant
                0 <= i <= VOICE_COUNT,
                self.wf(),
                self@.active == m0.active,
                m0.voices.len() == VOICE_COUNT,
                forall|j: int| 0 <= j < i ==> (#[trigger] self.voices[j])@ == voice_step(
                    m0.voices[j],
                    elapsed_time_us as int,
                ).0,
                forall|j: int| i <= j < VOICE_COUNT ==> (#[trigger] self.voices[j])@ == m0.voices[j],
                sample as int == mix_sum(m0.voices, elapsed_time_us as int, i as int),
                sample <= 255 * i,
            decreases VOICE_COUNT - i,
        {
            let out = self.voices[i].update(elapsed_time_us);
            sample = sample + out as u32;
            i = i + 1;
        }
        proof {
            self.lemma_voice_views();
        }
        assert(self@.voices =~= poly_step(m0, elapsed_time_us as int).0.voices);
        (sample % 256) as u8
    }

    /// Binds the first free voice (voice zero if none is free) to the note and
    /// triggers it.
    fn note_on(&mut self, note: u8, velocity: u8)
        ensures
            final(self)@ == poly_note_on(old(self)@, note as int, velocity as int),
    {
        let ghost m0 = self@;
        let voice_index = self.free_slot();
        proof {
            self.lemma_voice_views();
        }
        self.voices[voice_index].note_on(note, velocity);
        self.active_voices[voice_index] = true;
        proof {
            self.lemma_voice_views();
        }
        assert(self@.voices =~= poly_note_on(m0, note as int, velocity as int).voices);
        assert(self@.active =~= poly_note_on(m0, note as int, velocity as int).active);
    }

    /// Releases and frees every active voice bound to the note.
    fn note_off(&mut self, note: u8)
        ensures
            final(self)@ == poly_note_off(old(self)@, note as int),
    {
        let ghost m0 = self@;
        let ghost target = poly_note_off(m0, note as int);
        proof {
            self.lemma_voice_views();
        }
        let mut i: usize = 0;
        while i < VOICE_COUNT
            invariant
                0 <= i <= VOICE_COUNT,
                self.wf(),
                m0.voices.len() == VOICE_COUNT,
                m0.active.len() == VOICE_COUNT,
                target == poly_note_off(m0, note as int),
                forall|j: int| 0 <= j < i ==> (#[trigger] self.voices[j])@ == target.voices[j],
                forall|j: int| 0 <= j < i ==> (#[trigger] self.active_voices[j]) == target.active[j],
                forall|j: int| i <= j < VOICE_COUNT ==> (#[trigger] self.voices[j])@ == m0.voices[j],
                forall|j: int| i <= j < VOICE_COUNT ==> (#[trigger] self.active_voices[j]) == m0.active[j],
            decreases VOICE_COUNT - i,
        {
            if self.active_voices[i] && self.voices[i].get_midi_note() == note {
                self.voices[i].note_off();
                self.active_voices[i] = false;
            }
            i = i + 1;
        }
        proof {
            self.lemma_voice_views();
        }
        assert(self@.voices =~= target.voices);
        assert(self@.active =~= target.active);
    }

    fn attack_control(&mut self, attack_ms: u16)
        ensures
            final(self)@ == poly_attack(old(self)@, attack_ms as int),
    {
        let ghost m0 = self@;
        self.for_each_envelope(EnvelopeSetting::Attack(attack_ms as u32));
        assert(self@.voices =~= poly_attack(m0, attack_ms as int).voices);
    }

    fn decay_control(&mut self, decay_ms: u16)
        ensures
            final(self)@ == poly_decay(old(self)@, decay_ms as int),
    {
        let ghost m0 = self@;
        self.for_each_envelope(EnvelopeSetting::Decay(decay_ms as u32));
        assert(self@.voices =~= poly_decay(m0, decay_ms as int).voices);
    }

    fn sustain_control(&mut self, sustain_level: u16)
        ensures
            final(self)@ == poly_sustain(old(self)@, sustain_level as int),
    {
        let ghost m0 = self@;
        self.for_each_envelope(EnvelopeSetting::Sustain(sustain_level as u32));
        assert(self@.voices =~= poly_sustain(m0, sustain_level as int).voices);
    }

    fn release_control(&mut self, release_ms: u16)
        ensures
            final(self)@ == poly_release(old(self)@, release_ms as int),
    {
        let ghost m0 = self@;
        self.for_each_envelope(EnvelopeSetting::Release(release_ms as u32));
        assert(self@.voices =~= poly_release(m0, release_ms as int).voices);
    }

    fn set_wavetable(&mut self, wavetable: &'static [u8; WAVETABLE_SIZE])
        ensures
            final(self)@ == poly_table(old(self)@, wavetable@),
    {
        let ghost m0 = self@;
        self.for_each_oscillator(OscillatorSetting::Table(wavetable));
        assert(self@.voices =~= poly_table(m0, wavetable@).voices);
    }

    fn portamento_control(&mut self, portamento_time_ms: u16)
        ensures
            final(self)@ == poly_portamento(old(self)@, portamento_time_ms as int),
    {
        let ghost m0 = self@;
        self.for_each_oscillator(OscillatorSetting::Portamento(portamento_time_ms as u32));
        assert(self@.voices =~= poly_portamento(m0, portamento_time_ms as int).voices);
    }

    fn channel_aftertouch(&mut self, aftertouch: u8)
        ensures
            final(self)@ == poly_aftertouch(old(self)@, aftertouch as int),
    {
        let ghost m0 = self@;
        self.for_each_envelope(EnvelopeSetting::Aftertouch(aftertouch as u32));
        assert(self@.voices =~= poly_aftertouch(m0, aftertouch as int).voices);
    }
}

impl PolySynth {
    /// Acts on one control message from the control core.
    pub fn handle_message(&mut self, message: IntercoreMessage)
        requires
            old(self).wf(),
        ensures
            final(self).wf(),
            final(self)@ == poly_message(old(self)@, message),
    {
        match message {
            IntercoreMessage::NoteOn { note, velocity } => self.note_on(note, velocity),
            IntercoreMessage::NoteOff { note } => self.note_off(note),
            IntercoreMessage::AttackControl { attack_ms } => self.attack_control(attack_ms),
            IntercoreMessage::DecayControl { decay_ms } => self.decay_control(decay_ms),
            IntercoreMessage::SustainControl { sustain_level } => self.sustain_control(sustain_level),
            IntercoreMessage::ReleaseControl { release_ms } => self.release_control(release_ms),
            IntercoreMessage::WaveformControl { waveform } => {
                self.set_wavetable(waveform.wavetable())
            },
            IntercoreMessage::PortamentoControl { portamento_time_ms } => {
                self.portamento_control(portamento_time_ms)
            },
        }
    }
}

} // verus!
