use vstd::prelude::*;

verus! {

/// The quantities the audio loop reports.
#[derive(Debug, Clone, Copy, PartialEq, Eq, Structural)]
pub enum MetricName {
    AudioLoopTime,
}

/// Number of loop times averaged in a report.
pub const SAMPLE_SIZE: usize = 128;

/// Microseconds between two reports.
pub const REPORT_INTERVAL_US: u32 = 1_000_000;

/// The abstract value of the metrics collector.
pub struct MetricsModel {
    pub report_interval_us: int,
    pub counter_us: int,
    pub samples: Seq<u32>,
    pub next: int,
}

/// A ring of the last loop times and a timer that says when to report their mean.
pub struct Metrics {
    report_interval_us: u32,
    report_interval_counter: u32,
    audio_loop_time: [u32; SAMPLE_SIZE],
    audio_loop_time_index: usize,
}

impl View for Metrics {
    type V = MetricsModel;

    closed spec fn view(&self) -> MetricsModel {
        MetricsModel {
            report_interval_us: self.report_interval_us as int,
            counter_us: self.report_interval_counter as int,
            samples: self.audio_loop_time@,
            next: self.audio_loop_time_index as int,
        }
    }
}

/// The sum of a sequence of loop times.
pub open spec fn sum_of(s: Seq<u32>) -> int
    decreases s.len(),
{
    if s.len() == 0 {
        0
    } else {
        sum_of(s.drop_last()) + s.last() as int
    }
}

proof fn lemma_sum_bound(s: Seq<u32>)
    ensures
        0 <= sum_of(s) <= s.len() * (u32::MAX as int),
    decreases s.len(),
{
    if s.len() > 0 {
        lemma_sum_bound(s.drop_last());
    }
}

impl Metrics {
    pub closed spec fn wf(&self) -> bool {
        &&& self.audio_loop_time_index < SAMPLE_SIZE
        &&& self.report_interval_counter < self.report_interval_us
    }

    /// An empty ring (all zero) and a one-second report interval.
    pub fn new() -> (r: Self)
        ensures
            r.wf(),
            r@ == (MetricsModel {
                report_interval_us: REPORT_INTERVAL_US as int,
                counter_us: 0,
                samples: Seq::new(SAMPLE_SIZE as nat, |i: int| 0u32),
                next: 0,
            }),
    {
        let r = Metrics {
            audio_loop_time: [0u32; SAMPLE_SIZE],
            audio_loop_time_index: 0,
            report_interval_us: REPORT_INTERVAL_US,
            report_interval_counter: 0,
        };
        assert(r@.samples =~= Seq::new(SAMPLE_SIZE as nat, |i: int| 0u32));
        r
    }

    /// Advances the report timer by `dt_us`; once a full interval has passed it
    /// restarts and returns the mean of the recorded loop times.
    pub fn update(&mut self, dt_us: u32) -> (r: Option<u32>)
        requires
            old(self).wf(),
        ensures
            final(self).wf(),
            final(self)@.samples == old(self)@.samples,
            final(self)@.next == old(self)@.next,
            final(self)@.report_interval_us == old(self)@.report_interval_us,
            old(self)@.counter_us + dt_us >= old(self)@.report_interval_us ==> {
                &&& final(self)@.counter_us == 0
                &&& r == Some((sum_of(old(self)@.samples) / SAMPLE_SIZE as int) as u32)
            },
            old(self)@.counter_us + dt_us < old(self)@.report_interval_us ==> {
                &&& final(self)@.counter_us == old(self)@.counter_us + dt_us
                &&& r.is_none()
            },
    {
        let elapsed: u64 = self.report_interval_counter as u64 + dt_us as u64;
        if elapsed < self.report_interval_us as u64 {
            self.report_interval_counter = elapsed as u32;
            return None;
        }
        self.report_interval_counter = 0;
        let mut total: u64 = 0;
        let mut i: usize = 0;
        while i < SAMPLE_SIZE
            invariant
                0 <= i <= SAMPLE_SIZE,
                total as int == sum_of(self.audio_loop_time@.take(i as int)),
                total <= i * (u32::MAX as int),
            decreases SAMPLE_SIZE - i,
        {
            proof {
                assert(self.audio_loop_time@.take(i as int + 1).drop_last()
                    =~= self.audio_loop_time@.take(i as int));
            }
            total = total + self.audio_loop_time[i] as u64;
            i = i + 1;
        }
        assert(self.audio_loop_time@.take(SAMPLE_SIZE as int) =~= self.audio_loop_time@);
        Some((total / SAMPLE_SIZE as u64) as u32)
    }

    /// Records one value of a metric, overwriting the oldest.
    pub fn observe(&mut self, metric: MetricName, value: u32)
        requires
            old(self).wf(),
        ensures
            final(self).wf(),
            final(self)@ == (MetricsModel {
                samples: old(self)@.samples.update(old(self)@.next, value),
                next: (old(self)@.next + 1) % SAMPLE_SIZE as int,
                ..old(self)@
            }),
    {
        match metric {
            MetricName::AudioLoopTime => {
                self.audio_loop_time[self.audio_loop_time_index] = value;
                self.audio_loop_time_index = (self.audio_loop_time_index + 1) % SAMPLE_SIZE;
            },
        }
    }
}

} // verus!
