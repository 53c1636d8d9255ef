use pico_synth::adsr::{Adsr, AdsrState, MAX_LEVEL};

fn envelope(attack: u32, decay: u32, sustain: u32, release: u32) -> Adsr {
    let mut a = Adsr::new();
    a.set_attack(attack);
    a.set_decay(decay);
    a.set_sustain(sustain);
    a.set_release(release);
    a
}

#[test]
fn new_envelope_is_idle_and_silent() {
    let mut a = Adsr::new();
    assert_eq!(a.state(), AdsrState::Idle);
    assert_eq!(a.update(5_000), 0);
    assert_eq!(a.state(), AdsrState::Idle);
}

#[test]
fn zero_attack_reaches_full_level_at_once() {
    let mut a = envelope(0, 50, 1000, 100);
    a.trigger(127);
    assert_eq!(a.update(0), (MAX_LEVEL * 127 / 127) as u16);
    assert_eq!(a.state(), AdsrState::Decay);
}

#[test]
fn zero_decay_goes_straight_to_sustain() {
    let mut a = envelope(0, 0, 1500, 100);
    a.trigger(127);
    assert_eq!(a.update(0), 4095);
    assert_eq!(a.state(), AdsrState::Decay);
    assert_eq!(a.update(0), 1500);
    assert_eq!(a.state(), AdsrState::Sustain);
}

#[test]
fn sustain_is_constant_while_held() {
    let mut a = envelope(0, 0, 2000, 100);
    a.trigger(100);
    a.update(0);
    a.update(0);
    assert_eq!(a.state(), AdsrState::Sustain);
    let expected = (2000 * 100 / 127) as u16;
    for dt in [0u32, 1, 1_000, 250_000, 3_000_000] {
        assert_eq!(a.update(dt), expected);
        assert_eq!(a.state(), AdsrState::Sustain);
    }
}

#[test]
fn attack_ramp_is_linear() {
    let mut a = envelope(10, 10, 2000, 20);
    a.trigger(127);
    assert_eq!(a.update(5_000), (4095 * 5 / 10) as u16);
    assert_eq!(a.state(), AdsrState::Attack);
}

#[test]
fn attack_ramp_scales_with_velocity() {
    let mut a = envelope(10, 10, 2000, 20);
    a.trigger(64);
    assert_eq!(a.update(5_000), ((4095 * 5 / 10) * 64 / 127) as u16);
}

#[test]
fn decay_ramp_is_linear() {
    let mut a = envelope(10, 10, 2000, 20);
    a.trigger(127);
    assert_eq!(a.update(10_000), 4095);
    assert_eq!(a.update(5_000), (4095 - 5 * (4095 - 2000) / 10) as u16);
    assert_eq!(a.state(), AdsrState::Decay);
}

#[test]
fn release_resets_time_and_ramps_to_zero() {
    let mut a = envelope(0, 0, 2000, 20);
    a.trigger(127);
    a.update(0);
    a.update(0);
    a.update(7_000);
    a.release();
    assert_eq!(a.update(3_000), 2000);
    assert_eq!(a.state(), AdsrState::Release);
    assert_eq!(a.update(0), 2000);
    assert_eq!(a.update(10_000), 1000);
    assert_eq!(a.update(5_000), 500);
    assert_eq!(a.update(5_000), 0);
    assert_eq!(a.state(), AdsrState::Release);
    assert_eq!(a.update(1_000), 0);
    assert_eq!(a.state(), AdsrState::Idle);
}

#[test]
fn full_cycle_scenario() {
    let mut a = envelope(10, 10, 2000, 20);
    a.trigger(127);
    assert_eq!(a.update(10_000), 4095);
    assert_eq!(a.state(), AdsrState::Decay);
    assert_eq!(a.update(10_000), 2000);
    assert_eq!(a.state(), AdsrState::Sustain);
    a.release();
    assert_eq!(a.update(0), 2000);
    assert_eq!(a.state(), AdsrState::Release);
    assert_eq!(a.update(20_000), 0);
    assert_eq!(a.update(1_000), 0);
    assert_eq!(a.state(), AdsrState::Idle);
}

#[test]
fn sustain_setter_clamps() {
    let mut a = envelope(0, 0, 10_000, 20);
    a.trigger(127);
    a.update(0);
    assert_eq!(a.update(0), MAX_LEVEL as u16);
}

#[test]
fn aftertouch_is_added_and_capped() {
    let mut a = envelope(0, 0, 2000, 20);
    a.set_aftertouch(100);
    a.trigger(127);
    a.update(0);
    a.update(0);
    assert_eq!(a.update(0), 2100);
    a.set_aftertouch(100_000);
    assert_eq!(a.update(0), 4095);
}

#[test]
fn retrigger_restarts_attack() {
    let mut a = envelope(10, 10, 2000, 20);
    a.trigger(127);
    a.update(15_000);
    a.trigger(127);
    assert_eq!(a.state(), AdsrState::Attack);
    assert_eq!(a.update(0), 0);
}
