use vstd::prelude::*;
use crate::intercore::IntercoreMessage;

verus! {

/// The four analog inputs of a knob converter.
#[derive(Debug, Clone, Copy, PartialEq, Eq, Structural)]
pub enum Channel {
    A0,
    A1,
    A2,
    A3,
}

/// A knob whose reading changed, with its new value.
#[derive(Debug, Clone, Copy, PartialEq, Eq, Structural)]
pub struct DialChange {
    pub channel: Channel,
    pub value: u16,
}

/// Microseconds between two readings.
pub const READ_INTERVAL_US: u32 = 1000;

/// The position of a channel in the round-robin order.
pub open spec fn channel_slot(c: Channel) -> int {
    match c {
        Channel::A0 => 0,
        Channel::A1 => 1,
        Channel::A2 => 2,
        Channel::A3 => 3,
    }
}

/// The channel read after `c`.
pub open spec fn next_channel(c: Channel) -> Channel {
    match c {
        Channel::A0 => Channel::A1,
        Channel::A1 => Channel::A2,
        Channel::A2 => Channel::A3,
        Channel::A3 => Channel::A0,
    }
}

/// A raw converter reading as a knob value: negative readings count as zero.
pub open spec fn knob_value(raw: int) -> int {
    if raw < 0 { 0 } else { raw }
}

/// The abstract value of a knob scanner.
pub struct ScannerModel {
    pub pots: Seq<u16>,
    pub channel: Channel,
    pub timer_us: int,
}

/// The decisions of a non-blocking knob poller: one channel is read per
/// millisecond, round robin, and a reading that differs from the last one of
/// its channel is reported. The converter itself is read by the caller.
pub struct DialScanner {
    pots: [u16; 4],
    channel_index: Channel,
    timer_us: u32,
}

impl View for DialScanner {
    type V = ScannerModel;

    closed spec fn view(&self) -> ScannerModel {
        ScannerModel { pots: self.pots@, channel: self.channel_index, timer_us: self.timer_us as int }
    }
}

impl DialScanner {
    pub closed spec fn wf(&self) -> bool {
        self.timer_us < READ_INTERVAL_US
    }

    /// All knobs at zero, channel A0 next, timer at zero.
    pub fn new() -> (r: Self)
        ensures
            r.wf(),
            r@.pots == seq![0u16, 0u16, 0u16, 0u16],
            r@.channel == Channel::A0,
            r@.timer_us == 0,
    {
        let r = DialScanner { pots: [0, 0, 0, 0], channel_index: Channel::A0, timer_us: 0 };
        assert(r@.pots =~= seq![0u16, 0u16, 0u16, 0u16]);
        r
    }

    /// Advances the timer by `dt_us`. Once a millisecond has gathered, the timer
    /// restarts and the channel due for reading is returned.
    pub fn tick(&mut self, dt_us: u32) -> (r: Option<Channel>)
        requires
            old(self).wf(),
        ensures
            final(self).wf(),
            final(self)@.pots == old(self)@.pots,
            final(self)@.channel == old(self)@.channel,
            old(self)@.timer_us + dt_us < READ_INTERVAL_US ==> {
                &&& r.is_none()
                &&& final(self)@.timer_us == old(self)@.timer_us + dt_us
            },
            old(self)@.timer_us + dt_us >= READ_INTERVAL_US ==> {
                &&& r == Some(old(self)@.channel)
                &&& final(self)@.timer_us == 0
            },
    {
        let elapsed: u64 = self.timer_us as u64 + dt_us as u64;
        if elapsed < READ_INTERVAL_US as u64 {
            self.timer_us = elapsed as u32;
            None
        } else {
            self.timer_us = 0;
            Some(self.channel_index)
        }
    }

    /// Takes the reading of the due channel, `None` when the converter failed.
    /// A reading moves the scan to the next channel and is reported when it
    /// differs from the last one of its channel; a failure changes nothing.
    pub fn record(&mut self, reading: Option<i16>) -> (r: Option<DialChange>)
        requires
            old(self).wf(),
        ensures
            final(self).wf(),
            final(self)@.timer_us == old(self)@.timer_us,
            reading.is_none() ==> r.is_none() && final(self)@ == old(self)@,
            reading matches Some(raw) ==> {
                let c = old(self)@.channel;
                let value = knob_value(raw as int) as u16;
                &&& final(self)@.channel == next_channel(c)
                &&& final(self)@.pots == old(self)@.pots.update(channel_slot(c), value)
                &&& r == if old(self)@.pots[channel_slot(c)] != value {
                    Some(DialChange { channel: c, value })
                } else {
                    None
                }
            },
    {
        match reading {
            None => None,
            Some(raw) => {
                let value: u16 = if raw < 0 { 0 } else { raw as u16 };
                let (slot, next): (usize, Channel) = match self.channel_index {
                    Channel::A0 => (0, Channel::A1),
                    Channel::A1 => (1, Channel::A2),
                    Channel::A2 => (2, Channel::A3),
                    Channel::A3 => (3, Channel::A0),
                };
                let channel = self.channel_index;
                let changed = self.pots[slot] != value;
                self.pots[slot] = value;
                self.channel_index = next;
                if changed {
                    Some(DialChange { channel, value })
                } else {
                    None
                }
            },
        }
    }

    /// The last reading of a channel.
    pub fn pot(&self, channel: Channel) -> (r: u16)
        ensures
            r == self@.pots[channel_slot(channel)],
    {
        match channel {
            Channel::A0 => self.pots[0],
            Channel::A1 => self.pots[1],
            Channel::A2 => self.pots[2],
            Channel::A3 => self.pots[3],
        }
    }
}

/// The control message a knob change sends: A0 attack, A1 decay, A2 sustain,
/// A3 release. Time knobs are divided by 32, the level knob by 8, to fit the
/// millisecond ranges and `MAX_LEVEL`.
pub open spec fn dial_message_of(change: DialChange) -> IntercoreMessage {
    match change.channel {
        Channel::A0 => IntercoreMessage::AttackControl { attack_ms: (change.value / 32) as u16 },
        Channel::A1 => IntercoreMessage::DecayControl { decay_ms: (change.value / 32) as u16 },
        Channel::A2 => IntercoreMessage::SustainControl { sustain_level: (change.value / 8) as u16 },
        Channel::A3 => IntercoreMessage::ReleaseControl { release_ms: (change.value / 32) as u16 },
    }
}

/// The control message for a knob change.
pub fn dial_message(change: &DialChange) -> (r: IntercoreMessage)
    ensures
        r == dial_message_of(*change),
{
    match change.channel {
        Channel::A0 => IntercoreMessage::AttackControl { attack_ms: change.value / 32 },
        Channel::A1 => IntercoreMessage::DecayControl { decay_ms: change.value / 32 },
        Channel::A2 => IntercoreMessage::SustainControl { sustain_level: change.value / 8 },
        Channel::A3 => IntercoreMessage::ReleaseControl { release_ms: change.value / 32 },
    }
}

} // verus!
