use pico_synth::dials::{dial_message, Channel, DialChange, DialScanner};
use pico_synth::errors::Error;
use pico_synth::intercore::IntercoreMessage;
use pico_synth::metrics::{MetricName, Metrics};

#[test]
fn metrics_report_mean_once_per_interval() {
    let mut m = Metrics::new();
    for _ in 0..128 {
        m.observe(MetricName::AudioLoopTime, 100);
    }
    m.observe(MetricName::AudioLoopTime, 228);
    assert_eq!(m.update(999_999), None);
    assert_eq!(m.update(1), Some(101));
    assert_eq!(m.update(500_000), None);
}

#[test]
fn metrics_mean_of_large_values_does_not_overflow() {
    let mut m = Metrics::new();
    for _ in 0..128 {
        m.observe(MetricName::AudioLoopTime, u32::MAX);
    }
    assert_eq!(m.update(u32::MAX), Some(u32::MAX));
}

#[test]
fn metrics_empty_ring_reports_zero() {
    let mut m = Metrics::new();
    assert_eq!(m.update(2_000_000), Some(0));
}

#[test]
fn scanner_reads_one_channel_per_millisecond() {
    let mut d = DialScanner::new();
    assert_eq!(d.tick(400), None);
    assert_eq!(d.tick(599), None);
    assert_eq!(d.tick(1), Some(Channel::A0));
    assert_eq!(d.tick(999), None);
    assert_eq!(d.tick(5_000), Some(Channel::A0));
}

#[test]
fn scanner_reports_changes_round_robin() {
    let mut d = DialScanner::new();
    assert_eq!(d.record(Some(-7)), None);
    assert_eq!(d.tick(1_000), Some(Channel::A1));
    assert_eq!(
        d.record(Some(1200)),
        Some(DialChange { channel: Channel::A1, value: 1200 })
    );
    assert_eq!(d.pot(Channel::A1), 1200);
    assert_eq!(d.record(None), None);
    assert_eq!(d.tick(1_000), Some(Channel::A2));
    assert_eq!(d.record(Some(5)), Some(DialChange { channel: Channel::A2, value: 5 }));
    assert_eq!(d.record(Some(0)), None);
    assert_eq!(d.tick(1_000), Some(Channel::A0));
    assert_eq!(d.record(Some(0)), None);
    assert_eq!(d.record(Some(1200)), None);
}

#[test]
fn dial_changes_become_control_messages() {
    let m = dial_message(&DialChange { channel: Channel::A0, value: 3200 });
    assert_eq!(m, IntercoreMessage::AttackControl { attack_ms: 100 });
    let m = dial_message(&DialChange { channel: Channel::A1, value: 65535 });
    assert_eq!(m, IntercoreMessage::DecayControl { decay_ms: 2047 });
    let m = dial_message(&DialChange { channel: Channel::A2, value: 32767 });
    assert_eq!(m, IntercoreMessage::SustainControl { sustain_level: 4095 });
    let m = dial_message(&DialChange { channel: Channel::A3, value: 31 });
    assert_eq!(m, IntercoreMessage::ReleaseControl { release_ms: 0 });
}

#[test]
fn error_messages() {
    assert_eq!(
        Error::InitializeError.message(),
        " Failed to initialize devices on the I²C bus"
    );
    assert_eq!(Error::InvalidInputData.message(), "Invalid input data provided");
}
