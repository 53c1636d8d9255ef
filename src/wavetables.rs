use vstd::prelude::*;
use vstd::arithmetic::div_mod::lemma_div_is_ordered;

verus! {

/// Entries in each wavetable.
pub const WAVETABLE_SIZE: usize = 128;

/// Entries in the note interval table, one per MIDI note.
pub const MIDI_NOTE_COUNT: usize = 128;

/// One cycle of a sine wave, centred on 127.
pub const SINE_WAVETABLE: [u8; WAVETABLE_SIZE] = [
    127, 133, 139, 146, 152, 158, 164, 170, 176, 182, 187, 193, 198, 203, 208, 213, 217,
    221, 226, 229, 233, 236, 239, 242, 245, 247, 249, 251, 252, 253, 254, 254, 255, 254,
    254, 253, 252, 251, 249, 247, 245, 242, 239, 236, 233, 229, 226, 221, 217, 213, 208,
    203, 198, 193, 187, 182, 176, 170, 164, 158, 152, 146, 139, 133, 127, 121, 115, 108,
    102, 96, 90, 84, 78, 72, 67, 61, 56, 51, 46, 41, 37, 33, 28, 25, 21, 18, 15, 12, 9, 7,
    5, 3, 2, 1, 0, 0, 0, 0, 0, 1, 2, 3, 5, 7, 9, 12, 15, 18, 21, 25, 28, 33, 37, 41, 46, 51,
    56, 61, 67, 72, 78, 84, 90, 96, 102, 108, 115, 121,
];

/// One cycle of a square wave: low for the first half, high for the second.
pub const SQUARE_WAVETABLE: [u8; WAVETABLE_SIZE] = [
    0, 0, 0, 0, 0, 0, 0, 0, 0, 0, 0, 0, 0, 0, 0, 0, 0, 0, 0, 0, 0, 0, 0, 0, 0, 0, 0, 0, 0,
    0, 0, 0, 0, 0, 0, 0, 0, 0, 0, 0, 0, 0, 0, 0, 0, 0, 0, 0, 0, 0, 0, 0, 0, 0, 0, 0, 0, 0,
    0, 0, 0, 0, 0, 0, 255, 255, 255, 255, 255, 255, 255, 255, 255, 255, 255, 255, 255, 255,
    255, 255, 255, 255, 255, 255, 255, 255, 255, 255, 255, 255, 255, 255, 255, 255, 255,
    255, 255, 255, 255, 255, 255, 255, 255, 255, 255, 255, 255, 255, 255, 255, 255, 255,
    255, 255, 255, 255, 255, 255, 255, 255, 255, 255, 255, 255, 255, 255, 255, 255,
];

/// One cycle of a triangle wave, peaking at the middle.
pub const TRIANGLE_WAVETABLE: [u8; WAVETABLE_SIZE] = [
    0, 3, 7, 11, 15, 19, 23, 27, 31, 35, 39, 43, 47, 51, 55, 59, 63, 67, 71, 75, 79, 83, 87,
    91, 95, 99, 103, 107, 111, 115, 119, 123, 127, 131, 135, 139, 143, 147, 151, 155, 159,
    163, 167, 171, 175, 179, 183, 187, 191, 195, 199, 203, 207, 211, 215, 219, 223, 227,
    231, 235, 239, 243, 247, 251, 255, 251, 247, 243, 239, 235, 231, 227, 223, 219, 215,
    211, 207, 203, 199, 195, 191, 187, 183, 179, 175, 171, 167, 163, 159, 155, 151, 147,
    143, 139, 135, 131, 127, 123, 119, 115, 111, 107, 103, 99, 95, 91, 87, 83, 79, 75, 71,
    67, 63, 59, 55, 51, 47, 43, 39, 35, 31, 27, 23, 19, 15, 11, 7, 3,
];

/// One cycle of a rising sawtooth wave.
pub const SAWTOOTH_WAVETABLE: [u8; WAVETABLE_SIZE] = [
    0, 1, 3, 5, 7, 9, 11, 13, 15, 17, 19, 21, 23, 25, 27, 29, 31, 33, 35, 37, 39, 41, 43,
    45, 47, 49, 51, 53, 55, 57, 59, 61, 63, 65, 67, 69, 71, 73, 75, 77, 79, 81, 83, 85, 87,
    89, 91, 93, 95, 97, 99, 101, 103, 105, 107, 109, 111, 113, 115, 117, 119, 121, 123, 125,
    127, 129, 131, 133, 135, 137, 139, 141, 143, 145, 147, 149, 151, 153, 155, 157, 159,
    161, 163, 165, 167, 169, 171, 173, 175, 177, 179, 181, 183, 185, 187, 189, 191, 193,
    195, 197, 199, 201, 203, 205, 207, 209, 211, 213, 215, 217, 219, 221, 223, 225, 227,
    229, 231, 233, 235, 237, 239, 241, 243, 245, 247, 249, 251, 253,
];

/// Nanoseconds per wavetable step for each MIDI note; zero marks a note with no playable pitch.
pub const MIDI_NOTE_TO_SAMPLE_INTERVAL_NS: [u32; MIDI_NOTE_COUNT] = [
    0, 0, 0, 0, 0, 0, 0, 0, 0, 0, 0, 0, 478011, 451264, 425894, 401768, 379363, 357910,
    337952, 318878, 301023, 284091, 268168, 253100, 238949, 225479, 212857, 200924, 189645,
    178987, 168919, 159439, 150512, 142045, 134084, 126550, 119446, 112740, 106417, 100452,
    94805, 89485, 84459, 79719, 75245, 71023, 67038, 63275, 59726, 56373, 53208, 50223,
    47405, 44743, 42230, 39860, 37624, 35511, 33519, 31638, 29861, 28186, 26604, 25110,
    23701, 22371, 21116, 19930, 18812, 17756, 16759, 15819, 14931, 14093, 13302, 12555,
    11850, 11185, 10558, 9965, 9406, 8878, 8380, 7909, 7465, 7046, 6651, 6278, 5925, 5593,
    5279, 4983, 4703, 4439, 4190, 3955, 3733, 3523, 3325, 3139, 2963, 2796, 2639, 2491,
    2351, 2219, 2095, 1977, 1866, 1762, 1663, 1569, 1481, 1398, 1320, 1246, 1176, 1110,
    1047, 989, 0, 0, 0, 0, 0, 0, 0, 0,
];

/// The abstract value of a wavetable player.
pub struct PlayerModel {
    pub table: Seq<u8>,
    pub note: int,
    pub interval_ns: int,
    pub counter_ns: int,
    pub index: int,
    pub portamento_ms: int,
    pub target_ns: int,
    pub previous_ns: int,
    pub glide_us: int,
}

/// A phase-accumulating oscillator over one of the fixed wavetables, with pitch glide.
pub struct WavetablePlayer {
    wavetable: &'static [u8; WAVETABLE_SIZE],
    note: u8,
    sample_interval_ns: u32,
    note_counter_ns: u32,
    wavetable_index: u32,
    portamento_time_ms: u32,
    portamento_target_sample_interval_ns: u32,
    portamento_prev_sample_interval_ns: u32,
    portamento_counter_us: u64,
}

impl View for WavetablePlayer {
    type V = PlayerModel;

    closed spec fn view(&self) -> PlayerModel {
        PlayerModel {
            table: self.wavetable@,
            note: self.note as int,
            interval_ns: self.sample_interval_ns as int,
            counter_ns: self.note_counter_ns as int,
            index: self.wavetable_index as int,
            portamento_ms: self.portamento_time_ms as int,
            target_ns: self.portamento_target_sample_interval_ns as int,
            previous_ns: self.portamento_prev_sample_interval_ns as int,
            glide_us: self.portamento_counter_us as int,
        }
    }
}

/// The step interval of a MIDI note; notes past the table have none (zero).
pub open spec fn note_interval(note: int) -> int {
    if 0 <= note < MIDI_NOTE_COUNT {
        MIDI_NOTE_TO_SAMPLE_INTERVAL_NS@[note] as int
    } else {
        0
    }
}

/// A player at rest on `note`, at the start of `table`, with no glide.
pub open spec fn player_initial(table: Seq<u8>, note: int) -> PlayerModel {
    PlayerModel {
        table,
        note,
        interval_ns: note_interval(note),
        counter_ns: 0,
        index: 0,
        portamento_ms: 0,
        target_ns: note_interval(note),
        previous_ns: note_interval(note),
        glide_us: 0,
    }
}

/// A note change: a glide starts from the current interval toward the new note's.
pub open spec fn player_note_change(m: PlayerModel, note: int) -> PlayerModel {
    PlayerModel {
        note,
        target_ns: note_interval(note),
        previous_ns: m.interval_ns,
        glide_us: 0,
        ..m
    }
}

/// The glide duration floored at one, the divisor of the glide progress.
pub open spec fn glide_divisor(portamento_ms: int) -> int {
    if portamento_ms < 1 { 1 } else { portamento_ms }
}

/// The interval `progress` thousandths of the way from `from` to `to`, rounded toward `from`.
pub open spec fn interpolate(from: int, to: int, progress: int) -> int {
    if from <= to {
        from + (to - from) * progress / 1000
    } else {
        from - (from - to) * progress / 1000
    }
}

/// The glide part of one step: the interval moves toward the target, and
/// snaps onto it once the progress reaches a thousand.
pub open spec fn glide_step(m: PlayerModel, dt: int) -> PlayerModel {
    if m.interval_ns == m.target_ns {
        m
    } else {
        let elapsed = m.glide_us + dt;
        let progress = elapsed / glide_divisor(m.portamento_ms);
        if progress >= 1000 {
            PlayerModel {
                interval_ns: m.target_ns,
                previous_ns: m.target_ns,
                glide_us: 0,
                ..m
            }
        } else {
            PlayerModel {
                interval_ns: interpolate(m.previous_ns, m.target_ns, progress),
                glide_us: elapsed,
                ..m
            }
        }
    }
}

/// The phase part of one step: `dt` microseconds are added to the phase in
/// nanoseconds, each whole interval in it moves the index one entry on, modulo
/// the table length, and the rest stays. With a zero interval nothing moves.
pub open spec fn phase_step(m: PlayerModel, dt: int) -> PlayerModel {
    if m.interval_ns == 0 {
        m
    } else {
        let total = m.counter_ns + dt * 1000;
        PlayerModel {
            index: (m.index + total / m.interval_ns) % (WAVETABLE_SIZE as int),
            counter_ns: total % m.interval_ns,
            ..m
        }
    }
}

/// One call of `next_sample` with `dt` microseconds.
pub open spec fn player_step(m: PlayerModel, dt: int) -> PlayerModel {
    phase_step(glide_step(m, dt), dt)
}

/// The player after one `next_sample` call for each of `dts`, in order.
pub open spec fn player_run(m: PlayerModel, dts: Seq<u32>) -> PlayerModel
    decreases dts.len(),
{
    if dts.len() == 0 {
        m
    } else {
        player_run(player_step(m, dts[0] as int), dts.drop_first())
    }
}

/// Total microseconds in a sequence of ticks.
pub open spec fn total_us(dts: Seq<u32>) -> int
    decreases dts.len(),
{
    if dts.len() == 0 {
        0
    } else {
        dts[0] as int + total_us(dts.drop_first())
    }
}

/// The ranges every player's fields stay in.
pub open spec fn player_valid(m: PlayerModel) -> bool {
    &&& m.table.len() == WAVETABLE_SIZE
    &&& 0 <= m.index < WAVETABLE_SIZE
    &&& 0 <= m.interval_ns <= u32::MAX
    &&& 0 <= m.target_ns <= u32::MAX
    &&& 0 <= m.previous_ns <= u32::MAX
    &&& 0 <= m.counter_ns <= u32::MAX
    &&& 0 <= m.portamento_ms <= u32::MAX
    &&& 0 <= m.glide_us <= 1000 * (u32::MAX as int)
}

proof fn lemma_interpolate_between(from: int, to: int, progress: int)
    requires
        0 <= progress < 1000,
    ensures
        from <= to ==> from <= interpolate(from, to, progress) <= to,
        to < from ==> to <= interpolate(from, to, progress) <= from,
{
    let span = if from <= to { to - from } else { from - to };
    assert(0 <= span * progress <= span * 1000) by (nonlinear_arith)
        requires
            0 <= span,
            0 <= progress < 1000,
    ;
    lemma_div_is_ordered(span * progress, span * 1000, 1000);
    lemma_div_is_ordered(0, span * progress, 1000);
    assert(span * 1000 / 1000 == span);
}

proof fn lemma_progress_threshold(x: int, d: int)
    requires
        0 <= x,
        0 < d,
    ensures
        (x / d >= 1000) == (x >= 1000 * d),
{
    vstd::arithmetic::div_mod::lemma_fundamental_div_mod(x, d);
    let q = x / d;
    let r = x % d;
    assert(0 <= r < d);
    if q >= 1000 {
        assert(d * q >= d * 1000) by (nonlinear_arith)
            requires
                q >= 1000,
                d > 0,
        ;
    } else {
        assert(d * q <= d * 999) by (nonlinear_arith)
            requires
                q <= 999,
                d > 0,
        ;
    }
}

proof fn lemma_step_valid(m: PlayerModel, dt: u32)
    requires
        player_valid(m),
    ensures
        player_valid(player_step(m, dt as int)),
        player_step(m, dt as int).target_ns == m.target_ns,
        player_step(m, dt as int).table == m.table,
{
    let g = glide_step(m, dt as int);
    if m.interval_ns != m.target_ns {
        let elapsed = m.glide_us + dt;
        let progress = elapsed / glide_divisor(m.portamento_ms);
        lemma_progress_threshold(elapsed, glide_divisor(m.portamento_ms));
        if progress < 1000 {
            lemma_interpolate_between(m.previous_ns, m.target_ns, progress);
            assert(1000 * glide_divisor(m.portamento_ms) <= 1000 * (u32::MAX as int));
        }
    }
    if g.interval_ns != 0 {
        let total = g.counter_ns + dt * 1000;
        assert(total % g.interval_ns < g.interval_ns);
    }
}

/// Whatever the sequence of `next_sample` calls, the index stays inside the table.
pub proof fn lemma_index_in_table(m: PlayerModel, dts: Seq<u32>)
    requires
        player_valid(m),
    ensures
        player_valid(player_run(m, dts)),
        0 <= player_run(m, dts).index < WAVETABLE_SIZE,
    decreases dts.len(),
{
    if dts.len() > 0 {
        lemma_step_valid(m, dts[0]);
        lemma_index_in_table(player_step(m, dts[0] as int), dts.drop_first());
    }
}

/// A glide never overshoots: while it runs, each step leaves the interval
/// between the interval the glide started from and its target.
pub proof fn lemma_glide_no_overshoot(m: PlayerModel, dt: u32)
    requires
        player_valid(m),
        m.interval_ns != m.target_ns,
    ensures
        m.previous_ns <= m.target_ns ==> m.previous_ns <= player_step(m, dt as int).interval_ns
            <= m.target_ns,
        m.target_ns < m.previous_ns ==> m.target_ns <= player_step(m, dt as int).interval_ns
            <= m.previous_ns,
{
    let elapsed = m.glide_us + dt;
    let progress = elapsed / glide_divisor(m.portamento_ms);
    if progress < 1000 {
        lemma_interpolate_between(m.previous_ns, m.target_ns, progress);
    }
}

proof fn lemma_converged_stays(m: PlayerModel, dts: Seq<u32>)
    requires
        player_valid(m),
        m.interval_ns == m.target_ns,
    ensures
        player_run(m, dts).interval_ns == m.target_ns,
        player_run(m, dts).target_ns == m.target_ns,
    decreases dts.len(),
{
    if dts.len() > 0 {
        lemma_step_valid(m, dts[0]);
        lemma_converged_stays(player_step(m, dts[0] as int), dts.drop_first());
    }
}

/// A glide is complete once the ticks since the note change add up to the
/// portamento time: after at least `portamento_ms` milliseconds of `next_sample`
/// calls (a thousand microseconds each), the interval equals the target.
pub proof fn lemma_glide_converges(m: PlayerModel, dts: Seq<u32>)
    requires
        player_valid(m),
        dts.len() > 0,
        m.glide_us + total_us(dts) >= 1000 * glide_divisor(m.portamento_ms),
    ensures
        player_run(m, dts).interval_ns == m.target_ns,
        player_run(m, dts).target_ns == m.target_ns,
    decreases dts.len(),
{
    let dt = dts[0];
    let next = player_step(m, dt as int);
    lemma_step_valid(m, dt);
    if m.interval_ns == m.target_ns {
        lemma_converged_stays(m, dts);
    } else {
        let elapsed = m.glide_us + dt;
        let d = glide_divisor(m.portamento_ms);
        lemma_progress_threshold(elapsed, d);
        assert(total_us(dts) == dt + total_us(dts.drop_first()));
        if elapsed / d >= 1000 {
            lemma_converged_stays(next, dts.drop_first());
        } else {
            if dts.drop_first().len() == 0 {
                assert(total_us(dts.drop_first()) == 0);
            }
            assert(next.glide_us == elapsed);
            assert(next.portamento_ms == m.portamento_ms);
            lemma_glide_converges(next, dts.drop_first());
        }
    }
}

impl WavetablePlayer {
    /// Internal consistency: the index is inside the table and the glide
    /// counter stays in range.
    pub closed spec fn wf(&self) -> bool {
        player_valid(self@)
    }

    /// Every player's fields stay in their ranges.
    pub proof fn lemma_valid(&self)
        requires
            self.wf(),
        ensures
            player_valid(self@),
    {
    }

    /// A player on `wavetable`, at the pitch of `midi_note`, with no glide.
    pub fn new(wavetable: &'static [u8; WAVETABLE_SIZE], midi_note: u8) -> (r: Self)
        ensures
            r.wf(),
            r@ == player_initial(wavetable@, midi_note as int),
    {
        let sample_interval_ns = note_to_interval(midi_note);
        WavetablePlayer {
            wavetable,
            note: midi_note,
            sample_interval_ns,
            note_counter_ns: 0,
            wavetable_index: 0,
            portamento_time_ms: 0,
            portamento_target_sample_interval_ns: sample_interval_ns,
            portamento_prev_sample_interval_ns: sample_interval_ns,
            portamento_counter_us: 0,
        }
    }

    /// Swaps the table read from, keeping the phase.
    pub fn set_wavetable(&mut self, wavetable: &'static [u8; WAVETABLE_SIZE])
        requires
            old(self).wf(),
        ensures
            final(self).wf(),
            final(self)@ == (PlayerModel { table: wavetable@, ..old(self)@ }),
    {
        self.wavetable = wavetable;
    }

    /// Sets the glide duration used by later note changes.
    pub fn set_portamento(&mut self, glide_time_ms: u32)
        requires
            old(self).wf(),
        ensures
            final(self).wf(),
            final(self)@ == (PlayerModel { portamento_ms: glide_time_ms as int, ..old(self)@ }),
    {
        self.portamento_time_ms = glide_time_ms;
    }

    /// Starts a glide from the current interval to the interval of `midi_note`.
    pub fn set_midi_note(&mut self, midi_note: u8)
        requires
            old(self).wf(),
        ensures
            final(self).wf(),
            final(self)@ == player_note_change(old(self)@, midi_note as int),
    {
        self.portamento_target_sample_interval_ns = note_to_interval(midi_note);
        self.portamento_prev_sample_interval_ns = self.sample_interval_ns;
        self.portamento_counter_us = 0;
        self.note = midi_note;
    }

    pub fn get_midi_note(&self) -> (r: u8)
        ensures
            r as int == self@.note,
    {
        self.note
    }

    /// The current step interval in nanoseconds.
    pub fn sample_interval(&self) -> (r: u32)
        ensures
            r as int == self@.interval_ns,
    {
        self.sample_interval_ns
    }

    /// The step interval being glided toward.
    pub fn target_interval(&self) -> (r: u32)
        ensures
            r as int == self@.target_ns,
    {
        self.portamento_target_sample_interval_ns
    }

    /// The position in the table.
    pub fn wavetable_index(&self) -> (r: u32)
        ensures
            r as int == self@.index,
    {
        self.wavetable_index
    }

    /// Advances the oscillator by `elapsed_time_us` microseconds and returns the
    /// table entry it then stands on.
    pub fn next_sample(&mut self, elapsed_time_us: u32) -> (r: u8)
        requires
            old(self).wf(),
        ensures
            final(self).wf(),
            final(self)@ == player_step(old(self)@, elapsed_time_us as int),
            r == final(self)@.table[final(self)@.index],
    {
        proof {
            lemma_step_valid(self@, elapsed_time_us);
        }
        self.advance_glide(elapsed_time_us);
        self.advance_phase(elapsed_time_us);
        self.wavetable[self.wavetable_index as usize]
    }

    fn advance_glide(&mut self, elapsed_time_us: u32)
        requires
            old(self).wf(),
        ensures
            final(self)@ == glide_step(old(self)@, elapsed_time_us as int),
    {
        proof {
            lemma_step_valid(self@, elapsed_time_us);
        }
        if self.sample_interval_ns != self.portamento_target_sample_interval_ns {
            let elapsed: u64 = self.portamento_counter_us + elapsed_time_us as u64;
            let divisor: u64 = if self.portamento_time_ms < 1 { 1 } else { self.portamento_time_ms as u64 };
            let progress: u64 = elapsed / divisor;
            proof {
                lemma_progress_threshold(elapsed as int, divisor as int);
            }
            if progress >= 1000 {
                self.portamento_counter_us = 0;
                self.portamento_prev_sample_interval_ns = self.portamento_target_sample_interval_ns;
                self.sample_interval_ns = self.portamento_target_sample_interval_ns;
            } else {
                let from: u64 = self.portamento_prev_sample_interval_ns as u64;
                let to: u64 = self.portamento_target_sample_interval_ns as u64;
                proof {
                    lemma_interpolate_between(from as int, to as int, progress as int);
                    assert((if from <= to { to - from } else { from - to }) * progress
                        <= (u32::MAX as int) * 1000) by (nonlinear_arith)
                        requires
                            from <= u32::MAX,
                            to <= u32::MAX,
                            progress < 1000,
                    ;
                }
                let interval: u64 = if from <= to {
                    from + (to - from) * progress / 1000
                } else {
                    from - (from - to) * progress / 1000
                };
                self.sample_interval_ns = interval as u32;
                self.portamento_counter_us = elapsed;
            }
        }
    }

    fn advance_phase(&mut self, elapsed_time_us: u32)
        requires
            old(self)@.index < WAVETABLE_SIZE,
        ensures
            final(self)@ == phase_step(old(self)@, elapsed_time_us as int),
    {
        if self.sample_interval_ns != 0 {
            let interval: u64 = self.sample_interval_ns as u64;
            let total: u64 = self.note_counter_ns as u64 + elapsed_time_us as u64 * 1000;
            let steps: u64 = total / interval;
            let wrapped: u64 = steps % 128;
            let index: u64 = (self.wavetable_index as u64 + wrapped) % 128;
            let counter: u64 = total % interval;
            proof {
                vstd::arithmetic::div_mod::lemma_add_mod_noop_right(
                    self.wavetable_index as int,
                    steps as int,
                    128,
                );
            }
            self.wavetable_index = index as u32;
            self.note_counter_ns = counter as u32;
        }
    }
}

/// The step interval of a MIDI note, zero for notes past the table.
fn note_to_interval(midi_note: u8) -> (r: u32)
    ensures
        r as int == note_interval(midi_note as int),
{
    if (midi_note as usize) < MIDI_NOTE_COUNT {
        MIDI_NOTE_TO_SAMPLE_INTERVAL_NS[midi_note as usize]
    } else {
        0
    }
}

} // verus!
