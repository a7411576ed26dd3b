use duka::automation::{
    automation_reading, decide_device_change, outdoor_fetch_due, plan_speed_change,
    raised_at_after, target_speed, AutomationReading, OutdoorSchedule, SpeedChange,
};
use duka::protocol::DeviceStatus;
use duka::state::Device;

/// Thresholds (g/m³) for speeds 1, 2 and 3.
const S1: f64 = 0.0;
const S2: f64 = 1.5;
const S3: f64 = 3.0;

fn speed_for(indoor_ah: f64, outdoor_ah: f64, min: u8, max: u8) -> Option<u8> {
    let delta = indoor_ah - outdoor_ah;
    target_speed(delta >= S3, delta >= S2, delta >= S1, min, max)
}

#[test]
fn below_threshold_returns_none() {
    // outdoor AH > indoor AH
    assert_eq!(speed_for(8.0, 9.0, 1, 3), None);
}

#[test]
fn at_speed1_threshold() {
    // delta == 0.0, at speed1 threshold
    assert_eq!(speed_for(8.0, 8.0, 1, 3), Some(1));
}

#[test]
fn at_speed2_threshold() {
    assert_eq!(speed_for(9.5, 8.0, 1, 3), Some(2));
}

#[test]
fn at_speed3_threshold() {
    assert_eq!(speed_for(11.0, 8.0, 1, 3), Some(3));
}

#[test]
fn clamped_to_max_speed() {
    // delta = 4.0, would be speed 3, but max is 2
    assert_eq!(speed_for(12.0, 8.0, 1, 2), Some(2));
}

#[test]
fn clamped_to_min_speed() {
    // delta = 0.5, would be speed 1, but min is 2
    assert_eq!(speed_for(8.5, 8.0, 2, 3), Some(2));
}

#[test]
fn first_reached_threshold_wins() {
    assert_eq!(target_speed(true, false, false, 1, 3), Some(3));
    assert_eq!(target_speed(false, true, false, 1, 3), Some(2));
    assert_eq!(target_speed(false, false, false, 3, 3), None);
}

fn driven_device(speed: u8) -> Device {
    let mut d = Device::new("a".to_string(), None, true, Some(1), Some(3));
    d.last_status = Some(DeviceStatus {
        device_id: "a".to_string(),
        is_on: true,
        speed,
        manual_speed: 0,
        humidity: 64,
        ventilation_mode: None,
    });
    d
}

#[test]
fn reading_of_driven_unit() {
    let d = driven_device(2);
    assert_eq!(
        automation_reading(&d),
        Some(AutomationReading { current_speed: 2, indoor_humidity: 64, min_speed: 1, max_speed: 3 })
    );
}

#[test]
fn automation_skips_units_it_does_not_drive() {
    let mut d = driven_device(255);
    assert_eq!(automation_reading(&d), None); // manual speed mode
    d = driven_device(1);
    d.unreachable = true;
    assert_eq!(automation_reading(&d), None);
    d = driven_device(1);
    d.automation_enabled = false;
    assert_eq!(automation_reading(&d), None);
    d = driven_device(1);
    d.automation_max_speed = None;
    assert_eq!(automation_reading(&d), None);
    d = driven_device(1);
    d.last_status = None;
    assert_eq!(automation_reading(&d), None);
}

#[test]
fn raise_immediately_lower_after_lockout() {
    assert_eq!(plan_speed_change(1, 3, Some(0), 10, 3_600_000), SpeedChange::Raise(3));
    assert_eq!(plan_speed_change(3, 1, Some(0), 10, 3_600_000), SpeedChange::Hold);
    assert_eq!(plan_speed_change(3, 1, Some(0), 3_600_000, 3_600_000), SpeedChange::Lower(1));
    assert_eq!(plan_speed_change(3, 1, None, 10, 3_600_000), SpeedChange::Lower(1));
    assert_eq!(plan_speed_change(2, 2, None, 10, 3_600_000), SpeedChange::Hold);
}

#[test]
fn outdoor_fetch_schedule() {
    assert!(outdoor_fetch_due(None, 0, 3_600_000));
    assert!(!outdoor_fetch_due(Some(1_000), 3_600_999, 3_600_000));
    assert!(outdoor_fetch_due(Some(1_000), 3_601_000, 3_600_000));
}

fn reading(current: u8, min: u8, max: u8) -> Option<AutomationReading> {
    Some(AutomationReading { current_speed: current, indoor_humidity: 60, min_speed: min, max_speed: max })
}

#[test]
fn schedule_fetches_first_then_hourly() {
    let mut s = OutdoorSchedule::new();
    assert!(s.fetch_due(0, 3_600_000));
    s.record_fetch(5, false);
    assert_eq!(s, OutdoorSchedule { last_fetch_ms: Some(5), conditions_known: false });
    assert!(!s.fetch_due(3_600_004, 3_600_000));
    assert!(s.fetch_due(3_600_005, 3_600_000));
    s.record_fetch(3_600_005, true);
    assert!(s.conditions_known);
}

#[test]
fn no_command_while_outdoor_unknown() {
    let mut s = OutdoorSchedule::new();
    s.record_fetch(0, false);
    let all = Some((true, true, true));
    assert_eq!(decide_device_change(&s, reading(1, 1, 3), all, None, 10, 1_000), SpeedChange::Hold);
    // a later successful fetch lets automation act again
    s.record_fetch(20, true);
    assert_eq!(decide_device_change(&s, reading(1, 1, 3), all, None, 30, 1_000), SpeedChange::Raise(3));
}

#[test]
fn device_step_decisions() {
    let mut s = OutdoorSchedule::new();
    s.record_fetch(0, true);
    // not driven, or no delta comparison
    assert_eq!(decide_device_change(&s, None, Some((true, true, true)), None, 10, 1_000), SpeedChange::Hold);
    assert_eq!(decide_device_change(&s, reading(2, 1, 3), None, None, 10, 1_000), SpeedChange::Hold);
    // below every threshold: leave alone, even if the range is inverted
    assert_eq!(decide_device_change(&s, reading(2, 3, 1), Some((false, false, false)), None, 10, 1_000), SpeedChange::Hold);
    // clamped target, lowered when not locked
    assert_eq!(decide_device_change(&s, reading(3, 1, 2), Some((true, true, true)), None, 10, 1_000), SpeedChange::Lower(2));
    // lowering held during lockout after a raise
    let raised = raised_at_after(SpeedChange::Raise(3), None, 100);
    assert_eq!(raised, Some(100));
    assert_eq!(decide_device_change(&s, reading(3, 1, 3), Some((false, false, true)), raised, 500, 1_000), SpeedChange::Hold);
    assert_eq!(decide_device_change(&s, reading(3, 1, 3), Some((false, false, true)), raised, 1_100, 1_000), SpeedChange::Lower(1));
    assert_eq!(raised_at_after(SpeedChange::Lower(1), raised, 2_000), Some(100));
    assert_eq!(raised_at_after(SpeedChange::Hold, None, 2_000), None);
}

#[test]
fn larger_surplus_never_lowers_target() {
    let rank = |t: Option<u8>| t.map(|s| s as i32).unwrap_or(0);
    let deltas = [-1.0, 0.0, 0.7, 1.5, 2.2, 3.0, 5.0];
    for (lo, hi) in [(1, 3), (2, 3), (1, 1), (2, 2)] {
        for w in deltas.windows(2) {
            let a = w[0] - 0.0;
            let b = w[1] - 0.0;
            let ta = target_speed(a >= S3, a >= S2, a >= S1, lo, hi);
            let tb = target_speed(b >= S3, b >= S2, b >= S1, lo, hi);
            assert!(rank(ta) <= rank(tb));
        }
    }
}
