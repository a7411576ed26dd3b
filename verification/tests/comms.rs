use duka::comms::{
    check_command_target, discovered_device_id, record_poll_result, CommandError, PollOutcome,
};
use duka::protocol::{create_search_packet, DeviceStatus};
use duka::state::{Device, UNREACHABLE_THRESHOLD};

fn status(speed: u8) -> DeviceStatus {
    DeviceStatus {
        device_id: "dev-01".to_string(),
        is_on: true,
        speed,
        manual_speed: 0,
        humidity: 50,
        ventilation_mode: None,
    }
}

fn fresh() -> Device {
    Device::new("dev-01".to_string(), None, false, None, None)
}

#[test]
fn discovery_reply_names_unit() {
    let reply = [0xFD, 0xFD, 0x02, 4, b'u', b'n', b'i', b't', 0x00];
    assert_eq!(discovered_device_id(&reply), Some("unit".to_string()));
}

#[test]
fn discovery_ignores_own_broadcast() {
    let packet = create_search_packet();
    assert_eq!(discovered_device_id(&packet), None);
}

#[test]
fn discovery_rejects_malformed_replies() {
    // too short
    assert_eq!(discovered_device_id(&[0xFD, 0xFD, 0x02, 0]), None);
    // wrong start bytes
    assert_eq!(discovered_device_id(&[0xFD, 0xFE, 0x02, 1, b'a']), None);
    // identifier longer than the reply
    assert_eq!(discovered_device_id(&[0xFD, 0xFD, 0x02, 3, b'a']), None);
    // identifier exactly filling the reply
    assert_eq!(discovered_device_id(&[0xFD, 0xFD, 0x02, 1, b'a']), Some("a".to_string()));
}

#[test]
fn discovery_replaces_invalid_utf8() {
    let reply = [0xFD, 0xFD, 0x02, 2, b'a', 0xFF, 0x00];
    assert_eq!(discovered_device_id(&reply), Some("a\u{FFFD}".to_string()));
}

#[test]
fn poll_success_refreshes_and_resets() {
    let mut d = fresh();
    d.consecutive_failures = 3;
    let out = record_poll_result(&mut d, Some(status(2)));
    assert_eq!(out, PollOutcome::Refreshed { back_online: false });
    assert!(out.announces());
    assert_eq!(d.consecutive_failures, 0);
    assert_eq!(d.last_status.as_ref().map(|s| s.speed), Some(2));
}

#[test]
fn unit_marked_unreachable_after_threshold_failures() {
    let mut d = fresh();
    for i in 1..UNREACHABLE_THRESHOLD {
        let out = record_poll_result(&mut d, None);
        assert_eq!(out, PollOutcome::Failed { newly_unreachable: false });
        assert!(!out.announces());
        assert_eq!(d.consecutive_failures, i);
        assert!(!d.unreachable);
    }
    let out = record_poll_result(&mut d, None);
    assert_eq!(out, PollOutcome::Failed { newly_unreachable: true });
    assert!(out.announces());
    assert!(d.unreachable);
    // further failures keep it unreachable without announcing again
    let out = record_poll_result(&mut d, None);
    assert_eq!(out, PollOutcome::Failed { newly_unreachable: false });
    assert!(d.unreachable);
    assert_eq!(d.consecutive_failures, UNREACHABLE_THRESHOLD + 1);
    // one reply brings it back
    let out = record_poll_result(&mut d, Some(status(1)));
    assert_eq!(out, PollOutcome::Refreshed { back_online: true });
    assert!(!d.unreachable);
    assert_eq!(d.consecutive_failures, 0);
}

#[test]
fn commands_need_known_reachable_unit() {
    assert_eq!(check_command_target(None), Err(CommandError::NotFound));
    let mut d = fresh();
    assert_eq!(check_command_target(Some(&d)), Ok(()));
    d.unreachable = true;
    assert_eq!(check_command_target(Some(&d)), Err(CommandError::Unreachable));
}

#[test]
fn new_device_carries_settings() {
    let d = Device::new("x".to_string(), Some("Bath".to_string()), true, Some(1), Some(2));
    assert_eq!(d.id, "x");
    assert_eq!(d.nickname.as_deref(), Some("Bath"));
    assert!(d.automation_enabled);
    assert_eq!(d.automation_min_speed, Some(1));
    assert_eq!(d.automation_max_speed, Some(2));
    assert!(!d.unreachable);
    assert!(d.last_status.is_none());
}

#[test]
fn device_setters_touch_only_their_fields() {
    let mut d = fresh();
    d.set_nickname(Some("Kitchen".to_string()));
    d.set_automation(true, Some(2), Some(3));
    assert_eq!(d.nickname.as_deref(), Some("Kitchen"));
    assert!(d.automation_enabled);
    assert_eq!((d.automation_min_speed, d.automation_max_speed), (Some(2), Some(3)));
    assert_eq!(d.id, "dev-01");
}
