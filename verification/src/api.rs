//! Validation of the HTTP API's request bodies.
use crate::protocol::DeviceMode;
use crate::text::{chars_of, chars_start_with, string_from_chars, trim, trim_bounds};
use vstd::prelude::*;

verus! {

/// Why a request body is refused.
#[derive(Debug, Clone, Copy, PartialEq, Eq, Structural)]
pub enum RequestError {
    /// `speed` is absent or not an unsigned integer.
    MissingSpeed,
    /// `speed` is not 1–3 or 255.
    InvalidSpeed,
    /// `mode` is not one of `one_way`, `two_way`, `in`.
    InvalidMode,
    /// An automation speed bound is not 1–3.
    AutomationSpeedOutOfRange,
    /// The automation minimum speed exceeds the maximum.
    AutomationMinAboveMax,
}

/// Whether `speed` may be written to a unit: a preset 1–3, or 255 for manual mode.
pub open spec fn is_settable_speed(speed: u64) -> bool {
    (1 <= speed <= 3) || speed == 255
}

/// Validates the `speed` field of a speed request, given as the unsigned
/// integer it holds, if any: only 1–3, or 255 for manual mode, are accepted.
pub fn validate_speed_request(speed: Option<u64>) -> (r: Result<u8, RequestError>)
    ensures
        r == (match speed {
            None => Err(RequestError::MissingSpeed),
            Some(v) => if is_settable_speed(v) {
                Ok(v as u8)
            } else {
                Err(RequestError::InvalidSpeed)
            },
        }),
{
    match speed {
        None => Err(RequestError::MissingSpeed),
        Some(v) => {
            if (1 <= v && v <= 3) || v == 255 {
                Ok(v as u8)
            } else {
                Err(RequestError::InvalidSpeed)
            }
        },
    }
}

/// Exactly the presets 1, 2, 3 and the manual-mode value 255 are settable
/// speeds; every other integer is refused.
pub proof fn lemma_settable_speeds(v: u64)
    ensures
        is_settable_speed(v) <==> (v == 1 || v == 2 || v == 3 || v == 255),
        is_settable_speed(1) && is_settable_speed(2) && is_settable_speed(3) && is_settable_speed(
            255,
        ),
{
}

/// The mode that a request's `mode` name selects.
pub open spec fn mode_for_name(name: Seq<char>) -> Option<DeviceMode> {
    if name == "one_way"@ {
        Some(DeviceMode::OneWay)
    } else if name == "two_way"@ {
        Some(DeviceMode::TwoWay)
    } else if name == "in"@ {
        Some(DeviceMode::In)
    } else {
        None
    }
}

/// Automation bounds are accepted exactly when absent or 1–3; automation is
/// switched on exactly when both bounds are given and the request does not
/// say `enabled: false`.
pub proof fn lemma_automation_request_rules(
    enabled: Option<bool>,
    min_speed: Option<u64>,
    max_speed: Option<u64>,
)
    ensures
        bound_ok(min_speed) <==> (min_speed is None || 1 <= min_speed->Some_0 <= 3),
        automation_switch(enabled, min_speed, max_speed) <==> (min_speed is Some
            && max_speed is Some && enabled != Some(false)),
        min_speed matches Some(v) ==> as_bound(min_speed) == Some(v as u8),
        min_speed is None ==> as_bound(min_speed) is None,
{
}

/// Each mode has one name, `one_way`, `two_way` or `in`, and every other name
/// selects no mode.
pub proof fn lemma_mode_names(name: Seq<char>)
    ensures
        mode_for_name("one_way"@) == Some(DeviceMode::OneWay),
        mode_for_name("two_way"@) == Some(DeviceMode::TwoWay),
        mode_for_name("in"@) == Some(DeviceMode::In),
        name != "one_way"@ && name != "two_way"@ && name != "in"@ ==> mode_for_name(name) is None,
{
    reveal_strlit("one_way");
    reveal_strlit("two_way");
    reveal_strlit("in");
    assert("one_way"@.len() == 7 && "two_way"@.len() == 7 && "in"@.len() == 2);
    assert("one_way"@[0] != "two_way"@[0]);
}

/// Whether two character sequences are equal.
fn chars_equal(a: &[char], b: &[char]) -> (r: bool)
    ensures
        r == (a@ == b@),
{
    let same = a.len() == b.len() && chars_start_with(a, 0, b);
    assert(same ==> a@.subrange(0, a@.len() as int) =~= a@);
    assert(a@ == b@ ==> a@.subrange(0, b@.len() as int) =~= a@);
    same
}

/// Validates the `mode` field of a mode request, given as the string it holds, if any.
pub fn validate_mode_request(mode: Option<&str>) -> (r: Result<DeviceMode, RequestError>)
    ensures
        r == (match mode {
            Some(name) => match mode_for_name(name@) {
                Some(m) => Ok(m),
                None => Err(RequestError::InvalidMode),
            },
            None => Err(RequestError::InvalidMode),
        }),
{
    let name = match mode {
        Some(n) => n,
        None => return Err(RequestError::InvalidMode),
    };
    let cs = chars_of(name);
    if chars_equal(cs.as_slice(), chars_of("one_way").as_slice()) {
        Ok(DeviceMode::OneWay)
    } else if chars_equal(cs.as_slice(), chars_of("two_way").as_slice()) {
        Ok(DeviceMode::TwoWay)
    } else if chars_equal(cs.as_slice(), chars_of("in").as_slice()) {
        Ok(DeviceMode::In)
    } else {
        Err(RequestError::InvalidMode)
    }
}

/// The display name that a nickname request sets: the given text trimmed of
/// surrounding whitespace; absent or blank text clears the name.
pub open spec fn nickname_for(raw: Option<Seq<char>>) -> Option<Seq<char>> {
    match raw {
        Some(s) => if trim(s).len() > 0 {
            Some(trim(s))
        } else {
            None
        },
        None => None,
    }
}

/// A nickname request clears the name exactly when the text is absent or all
/// whitespace; otherwise the name is the text with its surrounding whitespace
/// removed, which neither starts nor ends with whitespace.
pub proof fn lemma_nickname_rules(text: Seq<char>)
    ensures
        nickname_for(None) is None,
        nickname_for(Some(text)) is None <==> (forall|k: int|
            0 <= k < text.len() ==> crate::text::is_whitespace(#[trigger] text[k])),
        nickname_for(Some(text)) matches Some(n) ==> n == trim(text) && n.len() > 0
            && !crate::text::is_whitespace(n[0]) && !crate::text::is_whitespace(n.last()),
{
    crate::text::lemma_trim_shape(text);
    let (i, j) = choose|i: int, j: int|
        0 <= i <= j <= text.len() && trim(text) == text.subrange(i, j) && (forall|k: int|
            0 <= k < i ==> crate::text::is_whitespace(#[trigger] text[k])) && (forall|k: int|
            j <= k < text.len() ==> crate::text::is_whitespace(#[trigger] text[k]));
    if trim(text).len() == 0 {
        assert forall|k: int| 0 <= k < text.len() implies crate::text::is_whitespace(
            #[trigger] text[k],
        ) by {
            if k >= i {
                assert(k >= j);
            }
        }
    } else {
        assert(trim(text)[0] == text[i]);
        assert(!crate::text::is_whitespace(text[i]));
    }
}

/// Normalizes the `nickname` field of a nickname request.
pub fn normalize_nickname(raw: Option<&str>) -> (r: Option<String>)
    ensures
        r is None <==> nickname_for(
            match raw {
                Some(s) => Some(s@),
                None => None,
            },
        ) is None,
        r matches Some(n) ==> Some(n@) == nickname_for(
            match raw {
                Some(s) => Some(s@),
                None => None,
            },
        ),
{
    let s = match raw {
        Some(s) => s,
        None => return None,
    };
    let cs = chars_of(s);
    let (a, b) = trim_bounds(cs.as_slice(), 0, cs.len());
    assert(cs@.subrange(0, cs@.len() as int) =~= cs@);
    if a == b {
        return None;
    }
    Some(string_from_chars(vstd::slice::slice_subrange(cs.as_slice(), a, b)))
}

/// What an automation request sets: the switch and the speed range.
#[derive(Debug, Clone, Copy, PartialEq, Eq, Structural)]
pub struct AutomationSettings {
    pub enabled: bool,
    pub min_speed: Option<u8>,
    pub max_speed: Option<u8>,
}

/// Automation is on when both ends of the speed range are given, unless the
/// request's `enabled` field explicitly turns it off; omitting either bound
/// turns it off.
pub open spec fn automation_switch(enabled: Option<bool>, min_speed: Option<u64>, max_speed: Option<u64>) -> bool {
    min_speed is Some && max_speed is Some && enabled != Some(false)
}

/// Whether an optional automation speed bound is acceptable: absent, or 1–3.
pub open spec fn bound_ok(b: Option<u64>) -> bool {
    match b {
        Some(v) => 1 <= v <= 3,
        None => true,
    }
}

/// The bound a request field sets, once it is known to be absent or 1–3.
pub open spec fn as_bound(v: Option<u64>) -> Option<u8> {
    match v {
        Some(x) => Some(x as u8),
        None => None,
    }
}

/// Validates an automation request, given as the boolean its `enabled` field
/// holds and the unsigned integers its `min_speed` and `max_speed` fields
/// hold, if any: each bound present must be 1–3, and the minimum must not
/// exceed the maximum. The switch follows `automation_switch`.
pub fn validate_automation_request(
    enabled: Option<bool>,
    min_speed: Option<u64>,
    max_speed: Option<u64>,
) -> (r: Result<AutomationSettings, RequestError>)
    ensures
        r == (if !bound_ok(min_speed) || !bound_ok(max_speed) {
            Err(RequestError::AutomationSpeedOutOfRange)
        } else if min_speed is Some && max_speed is Some && min_speed->Some_0
            > max_speed->Some_0 {
            Err(RequestError::AutomationMinAboveMax)
        } else {
            Ok(
                AutomationSettings {
                    enabled: automation_switch(enabled, min_speed, max_speed),
                    min_speed: as_bound(min_speed),
                    max_speed: as_bound(max_speed),
                },
            )
        }),
        r matches Ok(range) ==> bound_ok(min_speed) && bound_ok(max_speed) && (range.min_speed
            matches Some(lo) ==> 1 <= lo <= 3) && (range.max_speed matches Some(hi) ==> 1 <= hi
            <= 3),
{
    if let Some(v) = min_speed {
        if v < 1 || v > 3 {
            return Err(RequestError::AutomationSpeedOutOfRange);
        }
    }
    if let Some(v) = max_speed {
        if v < 1 || v > 3 {
            return Err(RequestError::AutomationSpeedOutOfRange);
        }
    }
    if let (Some(lo), Some(hi)) = (min_speed, max_speed) {
        if lo > hi {
            return Err(RequestError::AutomationMinAboveMax);
        }
    }
    let min = match min_speed {
        Some(v) => Some(v as u8),
        None => None,
    };
    let max = match max_speed {
        Some(v) => Some(v as u8),
        None => None,
    };
    let on = match (min, max) {
        (Some(_), Some(_)) => match enabled {
            Some(false) => false,
            _ => true,
        },
        _ => false,
    };
    Ok(AutomationSettings { enabled: on, min_speed: min, max_speed: max })
}

} // verus!
