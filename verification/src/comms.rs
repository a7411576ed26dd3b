//! Decisions taken around the UDP exchanges with the units: which replies to a
//! discovery broadcast name a unit, what a status poll does to a unit's
//! reachability, and which units accept commands.
use crate::protocol::{
    packet_bytes, search_device_id, DeviceStatus, PacketFunction, PacketParameter, PACKET_START,
};
use crate::state::{Device, UNREACHABLE_THRESHOLD};
use vstd::prelude::*;
use vstd::utf8::{decode_utf8, valid_utf8};

verus! {

// ── Discovery ────────────────────────────────────────────────────────────────

/// The identifier bytes that a discovery reply carries: the reply is longer
/// than four bytes, opens with the two start bytes, and holds at offset 4 as
/// many identifier bytes as its byte 3 announces.
pub open spec fn reply_id_bytes(data: Seq<u8>) -> Option<Seq<u8>> {
    if data.len() > 4 && data[0] == PACKET_START && data[1] == PACKET_START && data.len() >= 4
        + data[3] {
        Some(data.subrange(4, 4 + data[3]))
    } else {
        None
    }
}

/// The identifier of the unit that sent `data`; the broadcast's own default
/// identifier names no unit.
pub open spec fn discovered_id_bytes(data: Seq<u8>) -> Option<Seq<u8>> {
    match reply_id_bytes(data) {
        Some(id) => if id == search_device_id() {
            None
        } else {
            Some(id)
        },
        None => None,
    }
}

/// The controller's own discovery broadcast, heard back on the network, is
/// never taken for a unit.
pub proof fn lemma_own_broadcast_ignored()
    ensures
        discovered_id_bytes(
            packet_bytes(
                search_device_id(),
                Seq::empty(),
                PacketFunction::Read,
                seq![PacketParameter::Search.spec_code()],
            ),
        ) is None,
{
    let p = packet_bytes(
        search_device_id(),
        Seq::empty(),
        PacketFunction::Read,
        seq![PacketParameter::Search.spec_code()],
    );
    assert(p.len() == 25);
    assert(p[3] == 16);
    assert(p.subrange(4, 20) =~= search_device_id());
}

/// Discovery takes every well-formed reply for a unit except the controller's
/// own broadcast: a reply longer than four bytes that opens with 0xFD 0xFD and
/// holds the whole identifier announced by its byte 3 names the unit with
/// that identifier, unless the identifier is exactly `DEFAULT_DEVICEID`; any
/// other reply names no unit.
pub proof fn lemma_discovery_takes_other_units(data: Seq<u8>)
    ensures
        ({
            let default_id = seq![
                0x44u8, 0x45, 0x46, 0x41, 0x55, 0x4C, 0x54, 0x5F, 0x44, 0x45, 0x56, 0x49, 0x43,
                0x45, 0x49, 0x44,
            ];
            let well_formed = data.len() > 4 && data[0] == 0xFD && data[1] == 0xFD && 4 + data[3]
                <= data.len();
            &&& well_formed && data.subrange(4, 4 + data[3]) != default_id ==> discovered_id_bytes(
                data,
            ) == Some(data.subrange(4, 4 + data[3]))
            &&& well_formed && data.subrange(4, 4 + data[3]) == default_id ==> discovered_id_bytes(
                data,
            ) is None
            &&& !well_formed ==> discovered_id_bytes(data) is None
        }),
{
    let default_id = seq![
        0x44u8, 0x45, 0x46, 0x41, 0x55, 0x4C, 0x54, 0x5F, 0x44, 0x45, 0x56, 0x49, 0x43, 0x45, 0x49,
        0x44,
    ];
    assert(search_device_id() =~= default_id);
}

/// The characters that `String::from_utf8_lossy` makes of `bytes`.
pub uninterp spec fn lossy_utf8(bytes: Seq<u8>) -> Seq<char>;

/// Calls `String::from_utf8_lossy`, which decodes `bytes` as UTF-8 and puts
/// U+FFFD in place of each invalid sequence. Claimed: the result is
/// `lossy_utf8(bytes)`, and it is the plain decoding when `bytes` is valid
/// UTF-8 (the documented borrowed case). What it is on invalid input is left
/// to the name.
#[verifier::external_body]
fn string_from_utf8_lossy(bytes: &[u8]) -> (s: String)
    ensures
        s@ == lossy_utf8(bytes@),
        valid_utf8(bytes@) ==> s@ == decode_utf8(bytes@),
{
    String::from_utf8_lossy(bytes).to_string()
}

/// Reads the identifier bytes of a discovery reply, if it names a unit.
pub fn discovered_id(data: &[u8]) -> (r: Option<&[u8]>)
    ensures
        r matches Some(id) ==> discovered_id_bytes(data@) == Some(id@),
        r is None ==> discovered_id_bytes(data@) is None,
{
    if data.len() > 4 && data[0] == PACKET_START && data[1] == PACKET_START {
        let id_len = data[3] as usize;
        if data.len() >= 4 + id_len {
            let id = vstd::slice::slice_subrange(data, 4, 4 + id_len);
            let default_id: [u8; 16] = [
                0x44, 0x45, 0x46, 0x41, 0x55, 0x4C, 0x54, 0x5F, 0x44, 0x45, 0x56, 0x49, 0x43,
                0x45, 0x49, 0x44,
            ];
            assert(default_id@ =~= search_device_id());
            if bytes_equal(id, default_id.as_slice()) {
                return None;
            }
            return Some(id);
        }
    }
    None
}

/// Whether two byte strings are equal.
fn bytes_equal(a: &[u8], b: &[u8]) -> (r: bool)
    ensures
        r == (a@ == b@),
{
    if a.len() != b.len() {
        return false;
    }
    let mut i: usize = 0;
    while i < a.len()
        invariant
            a@.len() == b@.len(),
            i <= a@.len(),
            forall|k: int| 0 <= k < i ==> a@[k] == b@[k],
        decreases a@.len() - i,
    {
        if a[i] != b[i] {
            assert(a@[i as int] != b@[i as int]);
            return false;
        }
        i = i + 1;
    }
    assert(a@ =~= b@);
    true
}

/// The identifier, as text, of the unit that sent a discovery reply; `None`
/// when the reply names no unit.
pub fn discovered_device_id(data: &[u8]) -> (r: Option<String>)
    ensures
        r is None <==> discovered_id_bytes(data@) is None,
        r matches Some(s) ==> s@ == lossy_utf8(discovered_id_bytes(data@)->Some_0),
        r matches Some(s) ==> valid_utf8(discovered_id_bytes(data@)->Some_0) ==> s@ == decode_utf8(
            discovered_id_bytes(data@)->Some_0,
        ),
{
    match discovered_id(data) {
        Some(id) => Some(string_from_utf8_lossy(id)),
        None => None,
    }
}

// ── Status polls ─────────────────────────────────────────────────────────────

/// What a status poll changed.
#[derive(Debug, Clone, Copy, PartialEq, Eq, Structural)]
pub enum PollOutcome {
    /// A status arrived; `back_online` when the unit had been marked unreachable.
    Refreshed { back_online: bool },
    /// No usable reply; `newly_unreachable` when this failure marked the unit
    /// unreachable.
    Failed { newly_unreachable: bool },
}

impl PollOutcome {
    /// Whether the unit's new state is to be pushed to live clients: after
    /// every refresh, and when a failure marks the unit unreachable.
    pub open spec fn spec_announces(self) -> bool {
        match self {
            PollOutcome::Refreshed { .. } => true,
            PollOutcome::Failed { newly_unreachable } => newly_unreachable,
        }
    }

    /// Whether the unit's new state is to be pushed to live clients.
    #[verifier::when_used_as_spec(spec_announces)]
    pub fn announces(self) -> (r: bool)
        ensures
            r == self.spec_announces(),
    {
        match self {
            PollOutcome::Refreshed { .. } => true,
            PollOutcome::Failed { newly_unreachable } => newly_unreachable,
        }
    }
}

/// Effect of one status poll on a unit's (unreachable mark, consecutive
/// failures): a reply clears both; a missing reply counts one more failure and
/// sets the mark once `UNREACHABLE_THRESHOLD` is reached.
pub open spec fn poll_step(unreachable: bool, failures: int, replied: bool) -> (bool, int) {
    if replied {
        (false, 0)
    } else {
        (unreachable || failures + 1 >= UNREACHABLE_THRESHOLD, failures + 1)
    }
}

/// (unreachable mark, consecutive failures) of a unit discovered fresh and
/// then polled with the outcomes `replies` (true: a reply arrived), in order.
pub open spec fn after_polls(replies: Seq<bool>) -> (bool, int)
    decreases replies.len(),
{
    if replies.len() == 0 {
        (false, 0)
    } else {
        let before = after_polls(replies.drop_last());
        poll_step(before.0, before.1, replies.last())
    }
}

/// Number of failed polls at the end of `replies`, since the last reply.
pub open spec fn trailing_failures(replies: Seq<bool>) -> int
    decreases replies.len(),
{
    if replies.len() == 0 {
        0
    } else if replies.last() {
        0
    } else {
        trailing_failures(replies.drop_last()) + 1
    }
}

/// Reachability follows the poll history: whatever sequence of polls a unit
/// has seen since discovery, its failure count is the number of failed polls
/// since its last reply, and it is marked unreachable exactly when that
/// number is at least `UNREACHABLE_THRESHOLD`; one reply clears both.
pub proof fn lemma_reachability_follows_history(replies: Seq<bool>)
    ensures
        after_polls(replies).1 == trailing_failures(replies),
        after_polls(replies).0 <==> trailing_failures(replies) >= UNREACHABLE_THRESHOLD,
        replies.len() > 0 && replies.last() ==> after_polls(replies) == (false, 0int),
    decreases replies.len(),
{
    if replies.len() > 0 {
        lemma_reachability_follows_history(replies.drop_last());
    }
}

/// A poll moves a unit from the state of history `replies` to the state of
/// `replies` extended by that poll.
pub proof fn lemma_poll_extends_history(replies: Seq<bool>, replied: bool)
    ensures
        poll_step(after_polls(replies).0, after_polls(replies).1, replied) == after_polls(
            replies.push(replied),
        ),
{
    assert(replies.push(replied).drop_last() =~= replies);
}

/// Records the result of a status poll: a reply stores the status and clears
/// the failure count and the unreachable mark; a missing reply counts one more
/// consecutive failure and marks the unit unreachable once
/// `UNREACHABLE_THRESHOLD` failures in a row are reached.
pub fn record_poll_result(device: &mut Device, reply: Option<DeviceStatus>) -> (outcome: PollOutcome)
    requires
        reply is None ==> old(device).consecutive_failures < u32::MAX,
    ensures
        final(device).id == old(device).id,
        final(device).nickname == old(device).nickname,
        final(device).automation_enabled == old(device).automation_enabled,
        final(device).automation_min_speed == old(device).automation_min_speed,
        final(device).automation_max_speed == old(device).automation_max_speed,
        old(device).reachability_consistent() ==> final(device).reachability_consistent(),
        (final(device).unreachable, final(device).consecutive_failures as int) == poll_step(
            old(device).unreachable,
            old(device).consecutive_failures as int,
            reply is Some,
        ),
        match reply {
            Some(status) => {
                &&& final(device).last_status == Some(status)
                &&& final(device).consecutive_failures == 0
                &&& !final(device).unreachable
                &&& outcome == PollOutcome::Refreshed { back_online: old(device).unreachable }
            },
            None => {
                &&& final(device).last_status == old(device).last_status
                &&& final(device).consecutive_failures == old(device).consecutive_failures + 1
                &&& final(device).unreachable == (old(device).unreachable
                    || old(device).consecutive_failures + 1 >= UNREACHABLE_THRESHOLD)
                &&& outcome == PollOutcome::Failed {
                    newly_unreachable: !old(device).unreachable && final(device).unreachable,
                }
            },
        },
{
    match reply {
        Some(status) => {
            let was_unreachable = device.unreachable;
            device.last_status = Some(status);
            device.consecutive_failures = 0;
            device.unreachable = false;
            PollOutcome::Refreshed { back_online: was_unreachable }
        },
        None => {
            device.consecutive_failures = device.consecutive_failures + 1;
            if device.consecutive_failures >= UNREACHABLE_THRESHOLD && !device.unreachable {
                device.unreachable = true;
                PollOutcome::Failed { newly_unreachable: true }
            } else {
                PollOutcome::Failed { newly_unreachable: false }
            }
        },
    }
}

// ── Commands ─────────────────────────────────────────────────────────────────

/// Why a command cannot be sent to a unit.
#[derive(Debug, Clone, Copy, PartialEq, Eq, Structural)]
pub enum CommandError {
    /// No unit with that identifier has been discovered.
    NotFound,
    /// The unit is marked unreachable.
    Unreachable,
}

/// Checks that a command may be sent: the unit is known and not marked
/// unreachable.
pub fn check_command_target(device: Option<&Device>) -> (r: Result<(), CommandError>)
    ensures
        r == (match device {
            None => Err(CommandError::NotFound),
            Some(d) => if d.unreachable {
                Err(CommandError::Unreachable)
            } else {
                Ok(())
            },
        }),
{
    match device {
        None => Err(CommandError::NotFound),
        Some(d) => if d.unreachable {
            Err(CommandError::Unreachable)
        } else {
            Ok(())
        },
    }
}

} // verus!
