//! What the controller knows of each discovered unit.
use crate::protocol::DeviceStatus;
use vstd::prelude::*;

verus! {

/// Number of consecutive failed status polls after which a unit is marked
/// unreachable.
pub const UNREACHABLE_THRESHOLD: u32 = 20;

/// A discovered unit: its identity, reachability and automation settings.
///
/// The unit's network address and assumed indoor temperature travel beside
/// it; nothing here reads them.
#[derive(Debug)]
pub struct Device {
    pub id: String,
    pub nickname: Option<String>,
    pub unreachable: bool,
    pub consecutive_failures: u32,
    pub last_status: Option<DeviceStatus>,
    pub automation_enabled: bool,
    /// When set, automation does not go below this speed (1–3).
    pub automation_min_speed: Option<u8>,
    /// When set, automation does not exceed this speed (1–3).
    pub automation_max_speed: Option<u8>,
}

impl Device {
    /// A unit is marked unreachable exactly when its last
    /// `UNREACHABLE_THRESHOLD` or more polls all failed.
    pub open spec fn reachability_consistent(&self) -> bool {
        self.unreachable <==> self.consecutive_failures >= UNREACHABLE_THRESHOLD
    }

    /// A freshly discovered unit, reachable, never polled, with the
    /// persisted nickname and automation settings.
    pub fn new(
        id: String,
        nickname: Option<String>,
        automation_enabled: bool,
        automation_min_speed: Option<u8>,
        automation_max_speed: Option<u8>,
    ) -> (d: Device)
        ensures
            d.id == id,
            d.nickname == nickname,
            !d.unreachable,
            d.consecutive_failures == 0,
            d.last_status is None,
            d.automation_enabled == automation_enabled,
            d.automation_min_speed == automation_min_speed,
            d.automation_max_speed == automation_max_speed,
            d.reachability_consistent(),
            (d.unreachable, d.consecutive_failures as int) == (false, 0int),
    {
        Device {
            id,
            nickname,
            unreachable: false,
            consecutive_failures: 0,
            last_status: None,
            automation_enabled,
            automation_min_speed,
            automation_max_speed,
        }
    }

    /// Replaces the display name.
    pub fn set_nickname(&mut self, nickname: Option<String>)
        ensures
            final(self).nickname == nickname,
            final(self).id == old(self).id,
            final(self).unreachable == old(self).unreachable,
            final(self).consecutive_failures == old(self).consecutive_failures,
            final(self).last_status == old(self).last_status,
            final(self).automation_enabled == old(self).automation_enabled,
            final(self).automation_min_speed == old(self).automation_min_speed,
            final(self).automation_max_speed == old(self).automation_max_speed,
    {
        self.nickname = nickname;
    }

    /// Replaces the automation switch and speed range.
    pub fn set_automation(&mut self, enabled: bool, min_speed: Option<u8>, max_speed: Option<u8>)
        ensures
            final(self).automation_enabled == enabled,
            final(self).automation_min_speed == min_speed,
            final(self).automation_max_speed == max_speed,
            final(self).id == old(self).id,
            final(self).nickname == old(self).nickname,
            final(self).unreachable == old(self).unreachable,
            final(self).consecutive_failures == old(self).consecutive_failures,
            final(self).last_status == old(self).last_status,
    {
        self.automation_enabled = enabled;
        self.automation_min_speed = min_speed;
        self.automation_max_speed = max_speed;
    }
}

} // verus!
