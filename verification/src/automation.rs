//! Humidity automation decisions: which speed the humidity difference calls
//! for, which units automation drives, when a speed change is made, and when
//! outdoor conditions are fetched again.
//!
//! The humidity arithmetic itself is floating point and is done by the caller,
//! which hands over the outcome of each threshold comparison.
use crate::clock::{elapsed, elapsed_ms};
use crate::state::Device;
use vstd::prelude::*;

verus! {

/// Speed tier reached by the indoor-minus-outdoor absolute humidity delta:
/// 3 when it reaches the speed-3 threshold, else 2 when it reaches the
/// speed-2 threshold, else 1 when it reaches the speed-1 threshold; none when
/// outdoor air is at least as humid as the lowest threshold allows.
pub open spec fn speed_tier(reaches_speed3: bool, reaches_speed2: bool, reaches_speed1: bool) -> Option<u8> {
    if reaches_speed3 {
        Some(3)
    } else if reaches_speed2 {
        Some(2)
    } else if reaches_speed1 {
        Some(1)
    } else {
        None
    }
}

/// `v` limited to `[lo, hi]`.
pub open spec fn clamp(v: u8, lo: u8, hi: u8) -> u8 {
    if v < lo {
        lo
    } else if v > hi {
        hi
    } else {
        v
    }
}

/// The speed automation targets: the tier the humidity delta reaches, limited
/// to the unit's `[min_speed, max_speed]` range; `None` when ventilating would
/// bring in moisture.
pub fn target_speed(
    reaches_speed3: bool,
    reaches_speed2: bool,
    reaches_speed1: bool,
    min_speed: u8,
    max_speed: u8,
) -> (r: Option<u8>)
    requires
        min_speed <= max_speed,
    ensures
        r == (match speed_tier(reaches_speed3, reaches_speed2, reaches_speed1) {
            Some(tier) => Some(clamp(tier, min_speed, max_speed)),
            None => None,
        }),
        r matches Some(s) ==> min_speed <= s <= max_speed,
{
    let raw: u8 = if reaches_speed3 {
        3
    } else if reaches_speed2 {
        2
    } else if reaches_speed1 {
        1
    } else {
        return None;
    };
    if raw < min_speed {
        Some(min_speed)
    } else if raw > max_speed {
        Some(max_speed)
    } else {
        Some(raw)
    }
}

/// What automation reads of a unit it drives.
#[derive(Debug, Clone, Copy, PartialEq, Eq, Structural)]
pub struct AutomationReading {
    pub current_speed: u8,
    pub indoor_humidity: u8,
    pub min_speed: u8,
    pub max_speed: u8,
}

/// Value the speed register holds while the unit is in manual speed mode.
pub const MANUAL_SPEED_MODE: u8 = 255;

/// The reading automation works from, when the unit is driven by automation:
/// it is reachable, automation is on with both ends of the speed range set,
/// a status has been received, and the unit is not in manual speed mode.
pub open spec fn automation_reading_spec(device: &Device) -> Option<AutomationReading> {
    if device.unreachable || !device.automation_enabled {
        None
    } else {
        match (device.automation_min_speed, device.automation_max_speed, device.last_status) {
            (Some(min_speed), Some(max_speed), Some(status)) => if status.speed == MANUAL_SPEED_MODE {
                None
            } else {
                Some(
                    AutomationReading {
                        current_speed: status.speed,
                        indoor_humidity: status.humidity,
                        min_speed,
                        max_speed,
                    },
                )
            },
            _ => None,
        }
    }
}

/// Reads what automation needs of a unit, or `None` when automation leaves
/// the unit alone.
pub fn automation_reading(device: &Device) -> (r: Option<AutomationReading>)
    ensures
        r == automation_reading_spec(device),
{
    if device.unreachable || !device.automation_enabled {
        return None;
    }
    let min_speed = match device.automation_min_speed {
        Some(v) => v,
        None => return None,
    };
    let max_speed = match device.automation_max_speed {
        Some(v) => v,
        None => return None,
    };
    match &device.last_status {
        Some(status) => if status.speed == MANUAL_SPEED_MODE {
            None
        } else {
            Some(
                AutomationReading {
                    current_speed: status.speed,
                    indoor_humidity: status.humidity,
                    min_speed,
                    max_speed,
                },
            )
        },
        None => None,
    }
}

/// A speed command that automation decides on.
#[derive(Debug, Clone, Copy, PartialEq, Eq, Structural)]
pub enum SpeedChange {
    /// Set this higher speed; the time of the raise starts a lockout.
    Raise(u8),
    /// Set this lower speed.
    Lower(u8),
    /// Leave the speed as it is.
    Hold,
}

/// The change automation makes: raise at once; lower only when no raise
/// happened less than `lockout_ms` ago; otherwise hold.
pub open spec fn speed_change_spec(
    current: u8,
    target: u8,
    raised_at_ms: Option<u64>,
    now_ms: u64,
    lockout_ms: u64,
) -> SpeedChange {
    if target > current {
        SpeedChange::Raise(target)
    } else if target < current {
        match raised_at_ms {
            Some(t) => if elapsed(t, now_ms) < lockout_ms {
                SpeedChange::Hold
            } else {
                SpeedChange::Lower(target)
            },
            None => SpeedChange::Lower(target),
        }
    } else {
        SpeedChange::Hold
    }
}

/// Decides the speed command for a unit running at `current` when automation
/// targets `target`; `raised_at_ms` is when automation last raised its speed.
pub fn plan_speed_change(
    current: u8,
    target: u8,
    raised_at_ms: Option<u64>,
    now_ms: u64,
    lockout_ms: u64,
) -> (r: SpeedChange)
    ensures
        r == speed_change_spec(current, target, raised_at_ms, now_ms, lockout_ms),
{
    if target > current {
        SpeedChange::Raise(target)
    } else if target < current {
        let locked = match raised_at_ms {
            Some(t) => elapsed_ms(t, now_ms) < lockout_ms,
            None => false,
        };
        if locked {
            SpeedChange::Hold
        } else {
            SpeedChange::Lower(target)
        }
    } else {
        SpeedChange::Hold
    }
}

/// Speed-decrease lockout: once automation raises a unit's speed, it does not
/// lower that speed again until `lockout_ms` has passed, whatever the target;
/// raises are never held back, and a target equal to the current speed never
/// sends a command.
pub proof fn lemma_no_decrease_during_lockout(
    current: u8,
    target: u8,
    raised_at_ms: u64,
    now_ms: u64,
    lockout_ms: u64,
)
    ensures
        elapsed(raised_at_ms, now_ms) < lockout_ms ==> !(speed_change_spec(
            current,
            target,
            Some(raised_at_ms),
            now_ms,
            lockout_ms,
        ) is Lower),
        target > current ==> speed_change_spec(current, target, Some(raised_at_ms), now_ms, lockout_ms)
            == SpeedChange::Raise(target),
        target == current ==> speed_change_spec(current, target, Some(raised_at_ms), now_ms, lockout_ms)
            == SpeedChange::Hold,
{
}

/// Whether outdoor conditions are due to be fetched: they never were, or at
/// least `interval_ms` has passed since the last fetch.
pub fn outdoor_fetch_due(last_fetch_ms: Option<u64>, now_ms: u64, interval_ms: u64) -> (r: bool)
    ensures
        r == (match last_fetch_ms {
            None => true,
            Some(t) => elapsed(t, now_ms) >= interval_ms,
        }),
{
    match last_fetch_ms {
        None => true,
        Some(t) => elapsed_ms(t, now_ms) >= interval_ms,
    }
}

/// What the automation loop remembers of its outdoor fetches between ticks:
/// when it last fetched, and whether that fetch gave conditions. (The
/// conditions themselves are floating point and are kept by the caller.)
#[derive(Debug, Clone, Copy, PartialEq, Eq, Structural)]
pub struct OutdoorSchedule {
    pub last_fetch_ms: Option<u64>,
    pub conditions_known: bool,
}

impl OutdoorSchedule {
    /// Before the first fetch: never fetched, no conditions.
    pub fn new() -> (s: OutdoorSchedule)
        ensures
            s.last_fetch_ms is None,
            !s.conditions_known,
    {
        OutdoorSchedule { last_fetch_ms: None, conditions_known: false }
    }

    /// Whether a fetch is due at `now_ms`: on the first tick, and then once
    /// `interval_ms` has passed since the last fetch.
    pub fn fetch_due(&self, now_ms: u64, interval_ms: u64) -> (r: bool)
        ensures
            r == (match self.last_fetch_ms {
                None => true,
                Some(t) => elapsed(t, now_ms) >= interval_ms,
            }),
    {
        outdoor_fetch_due(self.last_fetch_ms, now_ms, interval_ms)
    }

    /// Records a fetch finished at `now_ms`; the conditions are known exactly
    /// when it succeeded, until the next fetch.
    pub fn record_fetch(&mut self, now_ms: u64, succeeded: bool)
        ensures
            final(self).last_fetch_ms == Some(now_ms),
            final(self).conditions_known == succeeded,
    {
        self.last_fetch_ms = Some(now_ms);
        self.conditions_known = succeeded;
    }
}

/// Which thresholds the humidity delta reaches: speed 3, speed 2, speed 1.
pub type Reaches = (bool, bool, bool);

/// The speed command automation sends a unit on one tick: none while outdoor
/// conditions are unknown (the last fetch failed or none happened), none for
/// a unit automation does not drive or when the delta reaches no threshold;
/// otherwise the change towards the clamped target, under the lockout.
pub open spec fn device_change_spec(
    schedule: OutdoorSchedule,
    reading: Option<AutomationReading>,
    reaches: Option<Reaches>,
    raised_at_ms: Option<u64>,
    now_ms: u64,
    lockout_ms: u64,
) -> SpeedChange {
    if !schedule.conditions_known {
        SpeedChange::Hold
    } else {
        match (reading, reaches) {
            (Some(r), Some(t)) => match speed_tier(t.0, t.1, t.2) {
                Some(tier) => speed_change_spec(
                    r.current_speed,
                    clamp(tier, r.min_speed, r.max_speed),
                    raised_at_ms,
                    now_ms,
                    lockout_ms,
                ),
                None => SpeedChange::Hold,
            },
            _ => SpeedChange::Hold,
        }
    }
}

/// Decides one tick of automation for one unit. `reading` is what automation
/// reads of the unit, `reaches` the threshold comparisons of its humidity
/// delta (absent when there are no outdoor conditions to compare with), and
/// `raised_at_ms` when automation last raised its speed.
pub fn decide_device_change(
    schedule: &OutdoorSchedule,
    reading: Option<AutomationReading>,
    reaches: Option<Reaches>,
    raised_at_ms: Option<u64>,
    now_ms: u64,
    lockout_ms: u64,
) -> (r: SpeedChange)
    requires
        schedule.conditions_known ==> (reading matches Some(rd) ==> (reaches matches Some(t) ==> (
        speed_tier(t.0, t.1, t.2) is Some ==> rd.min_speed <= rd.max_speed))),
    ensures
        r == device_change_spec(*schedule, reading, reaches, raised_at_ms, now_ms, lockout_ms),
{
    if !schedule.conditions_known {
        return SpeedChange::Hold;
    }
    match (reading, reaches) {
        (Some(rd), Some(t)) => {
            if !(t.0 || t.1 || t.2) {
                return SpeedChange::Hold;
            }
            match target_speed(t.0, t.1, t.2, rd.min_speed, rd.max_speed) {
                Some(target) => plan_speed_change(
                    rd.current_speed,
                    target,
                    raised_at_ms,
                    now_ms,
                    lockout_ms,
                ),
                None => SpeedChange::Hold,
            }
        },
        _ => SpeedChange::Hold,
    }
}

/// When automation last raised a unit's speed, after acting on `change` at
/// `now_ms`: a raise restarts the lockout; anything else leaves it.
pub fn raised_at_after(change: SpeedChange, previous_ms: Option<u64>, now_ms: u64) -> (r: Option<u64>)
    ensures
        r == (match change {
            SpeedChange::Raise(_) => Some(now_ms),
            _ => previous_ms,
        }),
{
    match change {
        SpeedChange::Raise(_) => Some(now_ms),
        _ => previous_ms,
    }
}

/// No speed command while outdoor conditions are unknown: whenever the latest
/// fetch failed (or none has happened yet), every unit is held, whatever its
/// reading and lockout.
pub proof fn lemma_no_command_without_outdoor(
    schedule: OutdoorSchedule,
    reading: Option<AutomationReading>,
    reaches: Option<Reaches>,
    raised_at_ms: Option<u64>,
    now_ms: u64,
    lockout_ms: u64,
)
    requires
        !schedule.conditions_known,
    ensures
        device_change_spec(schedule, reading, reaches, raised_at_ms, now_ms, lockout_ms)
            == SpeedChange::Hold,
{
}

/// Once `raised_at_after` records a raise at `t`, no tick before
/// `t + lockout_ms` lowers the unit, whatever the conditions then.
pub proof fn lemma_recorded_raise_locks_decrease(
    t: u64,
    schedule: OutdoorSchedule,
    reading: Option<AutomationReading>,
    reaches: Option<Reaches>,
    now_ms: u64,
    lockout_ms: u64,
)
    requires
        elapsed(t, now_ms) < lockout_ms,
    ensures
        !(device_change_spec(schedule, reading, reaches, Some(t), now_ms, lockout_ms) is Lower),
{
}

/// Rank of an automation target: no target lowest, then speeds 1 to 3.
pub open spec fn target_rank(t: Option<u8>) -> int {
    match t {
        Some(s) => s as int,
        None => 0,
    }
}

/// The clamped target for threshold outcomes `t` in the range `[lo, hi]`.
pub open spec fn clamped_target(t: Reaches, lo: u8, hi: u8) -> Option<u8> {
    match speed_tier(t.0, t.1, t.2) {
        Some(tier) => Some(clamp(tier, lo, hi)),
        None => None,
    }
}

/// A larger humidity surplus never selects a lower speed nor switches
/// automation off: with ordered thresholds (reaching speed 3 implies reaching
/// speed 2, which implies reaching speed 1), if `b` reaches every threshold
/// that `a` reaches, the target for `b` ranks no lower than the target for `a`.
pub proof fn lemma_target_monotone(a: Reaches, b: Reaches, lo: u8, hi: u8)
    requires
        lo <= hi,
        a.0 ==> a.1,
        a.1 ==> a.2,
        b.0 ==> b.1,
        b.1 ==> b.2,
        a.0 ==> b.0,
        a.1 ==> b.1,
        a.2 ==> b.2,
    ensures
        target_rank(clamped_target(a, lo, hi)) <= target_rank(clamped_target(b, lo, hi)),
{
}

/// The target automation aims for, spelled out: speed 3 when the delta reaches
/// the speed-3 threshold, else 2 when it reaches the speed-2 threshold, else 1
/// when it reaches the speed-1 threshold, then limited to `[lo, hi]`; no
/// target when it reaches none. Both the targets that `target_speed` returns
/// and the ones `decide_device_change` acts on are these.
pub proof fn lemma_target_by_threshold(t: Reaches, lo: u8, hi: u8)
    requires
        lo <= hi,
    ensures
        clamped_target(t, lo, hi) == (if !t.0 && !t.1 && !t.2 {
            None
        } else {
            let tier: u8 = if t.0 {
                3
            } else if t.1 {
                2
            } else {
                1
            };
            Some(
                if tier < lo {
                    lo
                } else if tier > hi {
                    hi
                } else {
                    tier
                },
            )
        }),
        clamped_target(t, lo, hi) matches Some(v) ==> lo <= v <= hi,
{
}

/// The command decided for a driven unit while outdoor conditions are known:
/// with target `v` as in `lemma_target_by_threshold`, raise to `v` when it is
/// above the current speed; lower to `v` when it is below and no raise
/// happened less than `lockout_ms` ago; otherwise send nothing.
pub proof fn lemma_device_change_by_target(
    schedule: OutdoorSchedule,
    r: AutomationReading,
    t: Reaches,
    raised_at_ms: Option<u64>,
    now_ms: u64,
    lockout_ms: u64,
)
    requires
        schedule.conditions_known,
        r.min_speed <= r.max_speed,
    ensures
        ({
            let change = device_change_spec(
                schedule,
                Some(r),
                Some(t),
                raised_at_ms,
                now_ms,
                lockout_ms,
            );
            if !t.0 && !t.1 && !t.2 {
                change == SpeedChange::Hold
            } else {
                let tier: u8 = if t.0 {
                    3
                } else if t.1 {
                    2
                } else {
                    1
                };
                let v: u8 = if tier < r.min_speed {
                    r.min_speed
                } else if tier > r.max_speed {
                    r.max_speed
                } else {
                    tier
                };
                let locked = match raised_at_ms {
                    Some(at) => (if now_ms >= at {
                        now_ms - at
                    } else {
                        0
                    }) < lockout_ms,
                    None => false,
                };
                &&& v > r.current_speed ==> change == SpeedChange::Raise(v)
                &&& v < r.current_speed && !locked ==> change == SpeedChange::Lower(v)
                &&& v < r.current_speed && locked ==> change == SpeedChange::Hold
                &&& v == r.current_speed ==> change == SpeedChange::Hold
            }
        }),
{
}

/// Automation drives a unit exactly when it is reachable, automation is on,
/// both ends of its range are set, a status has arrived and the unit is not in
/// manual mode (speed 255); it then reads the reported speed and humidity and
/// the range as set.
pub proof fn lemma_automation_reading_fields(device: &Device)
    ensures
        automation_reading_spec(device) is Some <==> (!device.unreachable
            && device.automation_enabled && device.automation_min_speed is Some
            && device.automation_max_speed is Some && device.last_status is Some
            && device.last_status->Some_0.speed != 255),
        automation_reading_spec(device) matches Some(r) ==> {
            &&& r.current_speed == device.last_status->Some_0.speed
            &&& r.indoor_humidity == device.last_status->Some_0.humidity
            &&& r.min_speed == device.automation_min_speed->Some_0
            &&& r.max_speed == device.automation_max_speed->Some_0
        },
{
}

} // verus!
