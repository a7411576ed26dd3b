use duka::api::{
    normalize_nickname, validate_automation_request, validate_mode_request,
    validate_speed_request, RequestError, AutomationSettings,
};
use duka::protocol::DeviceMode;

#[test]
fn speed_request_validation() {
    assert_eq!(validate_speed_request(None), Err(RequestError::MissingSpeed));
    assert_eq!(validate_speed_request(Some(0)), Err(RequestError::InvalidSpeed));
    assert_eq!(validate_speed_request(Some(1)), Ok(1));
    assert_eq!(validate_speed_request(Some(3)), Ok(3));
    assert_eq!(validate_speed_request(Some(4)), Err(RequestError::InvalidSpeed));
    assert_eq!(validate_speed_request(Some(255)), Ok(255));
    // out-of-range integers are refused, not reduced to a byte
    assert_eq!(validate_speed_request(Some(257)), Err(RequestError::InvalidSpeed));
    assert_eq!(validate_speed_request(Some(258)), Err(RequestError::InvalidSpeed));
    assert_eq!(validate_speed_request(Some(511)), Err(RequestError::InvalidSpeed));
    assert_eq!(validate_speed_request(Some(u64::MAX)), Err(RequestError::InvalidSpeed));
}

#[test]
fn mode_request_validation() {
    assert_eq!(validate_mode_request(Some("one_way")), Ok(DeviceMode::OneWay));
    assert_eq!(validate_mode_request(Some("two_way")), Ok(DeviceMode::TwoWay));
    assert_eq!(validate_mode_request(Some("in")), Ok(DeviceMode::In));
    assert_eq!(validate_mode_request(Some("IN")), Err(RequestError::InvalidMode));
    assert_eq!(validate_mode_request(Some("in ")), Err(RequestError::InvalidMode));
    assert_eq!(validate_mode_request(None), Err(RequestError::InvalidMode));
}

#[test]
fn nickname_normalization() {
    assert_eq!(normalize_nickname(Some("  Bath room \t")), Some("Bath room".to_string()));
    assert_eq!(normalize_nickname(Some("   ")), None);
    assert_eq!(normalize_nickname(Some("")), None);
    assert_eq!(normalize_nickname(None), None);
    assert_eq!(normalize_nickname(Some("\u{3000}Küche\u{a0}")), Some("Küche".to_string()));
}

#[test]
fn automation_request_validation() {
    assert_eq!(
        validate_automation_request(None, Some(1), Some(3)),
        Ok(AutomationSettings { enabled: true, min_speed: Some(1), max_speed: Some(3) })
    );
    assert_eq!(
        validate_automation_request(None, None, Some(2)),
        Ok(AutomationSettings { enabled: false, min_speed: None, max_speed: Some(2) })
    );
    assert_eq!(
        validate_automation_request(None, Some(0), Some(2)),
        Err(RequestError::AutomationSpeedOutOfRange)
    );
    assert_eq!(
        validate_automation_request(None, Some(2), Some(4)),
        Err(RequestError::AutomationSpeedOutOfRange)
    );
    assert_eq!(
        validate_automation_request(None, Some(257), None),
        Err(RequestError::AutomationSpeedOutOfRange)
    );
    assert_eq!(
        validate_automation_request(None, Some(1), Some(259)),
        Err(RequestError::AutomationSpeedOutOfRange)
    );
    assert_eq!(
        validate_automation_request(None, Some(3), Some(1)),
        Err(RequestError::AutomationMinAboveMax)
    );
    assert_eq!(
        validate_automation_request(None, Some(2), Some(2)),
        Ok(AutomationSettings { enabled: true, min_speed: Some(2), max_speed: Some(2) })
    );
}

#[test]
fn automation_switch_follows_bounds() {
    assert_eq!(
        validate_automation_request(Some(false), Some(1), Some(3)),
        Ok(AutomationSettings { enabled: false, min_speed: Some(1), max_speed: Some(3) })
    );
    assert_eq!(
        validate_automation_request(Some(true), Some(1), None),
        Ok(AutomationSettings { enabled: false, min_speed: Some(1), max_speed: None })
    );
    assert_eq!(
        validate_automation_request(Some(true), Some(2), Some(3)),
        Ok(AutomationSettings { enabled: true, min_speed: Some(2), max_speed: Some(3) })
    );
    assert_eq!(
        validate_automation_request(Some(true), Some(4), Some(3)),
        Err(RequestError::AutomationSpeedOutOfRange)
    );
}
