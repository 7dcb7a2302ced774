//! Ephemeral messages: per-chat deletion timers, the sweep that deletes
//! expired messages, and the single wake-up task that announces the next
//! deletion.

#[allow(unused_imports)]
use vstd::prelude::*;

use crate::decimal::{dec_text, lemma_parse_dec_text, parse_u32, parse_u32_spec, u32_to_text};
use crate::chat::{ChatId, ChatRow, Chats, EventType};
use crate::message::{same_but_chat_and_text, same_but_expiry, MessageState, MsgId, MsgRow, Msgs};
use vstd::string::StringExecFns;

verus! {

/// Ephemeral timer of a chat or of a message.
#[derive(Debug, PartialEq, Eq, Structural, Copy, Clone)]
pub enum Timer {
    Disabled,
    Enabled { duration: u32 },
}

/// A well-formed timer: an enabled one has a positive duration.
pub open spec fn timer_wf(t: Timer) -> bool {
    match t {
        Timer::Disabled => true,
        Timer::Enabled { duration } => duration > 0,
    }
}

/// The duration in seconds that a timer stands for, 0 when disabled.
pub open spec fn timer_seconds(t: Timer) -> u32 {
    match t {
        Timer::Disabled => 0,
        Timer::Enabled { duration } => duration,
    }
}

/// The timer that a stored duration stands for.
pub open spec fn timer_of(duration: u32) -> Timer {
    if duration == 0 {
        Timer::Disabled
    } else {
        Timer::Enabled { duration }
    }
}

/// Error of reading a timer from text: not a decimal `u32`.
#[derive(Debug, PartialEq, Eq, Structural, Copy, Clone)]
pub struct TimerParseError;

/// Error of reading a timer from a stored 64-bit value.
#[derive(Debug, PartialEq, Eq, Structural, Copy, Clone)]
pub struct TimerOutOfRange {
    pub value: i64,
}

impl Timer {
    pub fn to_u32(self) -> (r: u32)
        ensures
            r == timer_seconds(self),
    {
        match self {
            Timer::Disabled => 0,
            Timer::Enabled { duration } => duration,
        }
    }

    pub fn from_u32(duration: u32) -> (r: Timer)
        ensures
            r == timer_of(duration),
            timer_wf(r),
    {
        if duration == 0 {
            Timer::Disabled
        } else {
            Timer::Enabled { duration }
        }
    }

    /// The decimal text of the duration, `0` when disabled.
    pub fn to_string(&self) -> (r: String)
        ensures
            r@ == dec_text(timer_seconds(*self) as nat),
    {
        u32_to_text(self.to_u32())
    }

    /// Reads a timer from the decimal text of its duration.
    pub fn from_str(input: &str) -> (r: Result<Timer, TimerParseError>)
        ensures
            match parse_u32_spec(input@) {
                Some(n) => r == Ok::<Timer, TimerParseError>(timer_of(n)),
                None => r == Err::<Timer, TimerParseError>(TimerParseError),
            },
    {
        match parse_u32(input) {
            Some(n) => Ok(Timer::from_u32(n)),
            None => Err(TimerParseError),
        }
    }

    /// The value stored in a database column.
    pub fn to_sql(&self) -> (r: i64)
        ensures
            r == timer_seconds(*self) as i64,
    {
        match self {
            Timer::Disabled => 0,
            Timer::Enabled { duration } => *duration as i64,
        }
    }

    /// Reads a timer from a database column; values outside `u32` are refused.
    pub fn column_result(value: i64) -> (r: Result<Timer, TimerOutOfRange>)
        ensures
            0 <= value <= u32::MAX ==> r == Ok::<Timer, TimerOutOfRange>(timer_of(value as u32)),
            !(0 <= value <= u32::MAX) ==> r == Err::<Timer, TimerOutOfRange>(
                TimerOutOfRange { value },
            ),
    {
        if value == 0 {
            Ok(Timer::Disabled)
        } else if 0 < value && value <= u32::MAX as i64 {
            Ok(Timer::Enabled { duration: value as u32 })
        } else {
            Err(TimerOutOfRange { value })
        }
    }
}

impl Default for Timer {
    fn default() -> (r: Timer)
        ensures
            r == Timer::Disabled,
    {
        Timer::Disabled
    }
}

/// A well-formed timer survives the trip through its number and through
/// its text.
pub proof fn lemma_timer_round_trip(t: Timer)
    requires
        timer_wf(t),
    ensures
        timer_of(timer_seconds(t)) == t,
        parse_u32_spec(dec_text(timer_seconds(t) as nat)) == Some(timer_seconds(t)),
{
    lemma_parse_dec_text(timer_seconds(t));
}

/// Contact id of the user of this device.
pub const DC_CONTACT_ID_SELF: u32 = 1;

/// Contact id of the device itself, the sender of device messages.
pub const DC_CONTACT_ID_DEVICE: u32 = 5;

/// The chat that locally deleted messages are moved into.
pub const DC_CHAT_ID_TRASH: u32 = 3;

/// Chat ids up to this one are reserved.
pub const DC_CHAT_ID_LAST_SPECIAL: u32 = 9;

/// What the stock message about a timer change says, without who did it.
pub open spec fn timer_change_action(t: Timer) -> Seq<char> {
    match t {
        Timer::Disabled => "Message deletion timer is disabled"@,
        Timer::Enabled { duration } => if duration == 60 {
            "Message deletion timer is set to 1 minute"@
        } else if duration == 3600 {
            "Message deletion timer is set to 1 hour"@
        } else if duration == 86400 {
            "Message deletion timer is set to 1 day"@
        } else if duration == 604800 {
            "Message deletion timer is set to 1 week"@
        } else if duration == 2419200 {
            "Message deletion timer is set to 4 weeks"@
        } else {
            "Message deletion timer is set to "@ + dec_text(duration as nat) + " s"@
        },
    }
}

/// The stock message about a timer change made by contact `from_id`, named
/// `from_name`: by the user (`DC_CONTACT_ID_SELF`), by nobody in particular
/// (`0`) or by another contact.
pub open spec fn timer_change_text(t: Timer, from_id: u32, from_name: Seq<char>) -> Seq<char> {
    if from_id == DC_CONTACT_ID_SELF {
        timer_change_action(t) + " by me."@
    } else if from_id == 0 {
        timer_change_action(t) + "."@
    } else {
        timer_change_action(t) + " by "@ + from_name + "."@
    }
}

fn timer_change_action_text(timer: Timer) -> (r: String)
    ensures
        r@ == timer_change_action(timer),
{
    match timer {
        Timer::Disabled => "Message deletion timer is disabled".to_owned(),
        Timer::Enabled { duration } => {
            if duration == 60 {
                "Message deletion timer is set to 1 minute".to_owned()
            } else if duration == 3600 {
                "Message deletion timer is set to 1 hour".to_owned()
            } else if duration == 86400 {
                "Message deletion timer is set to 1 day".to_owned()
            } else if duration == 604800 {
                "Message deletion timer is set to 1 week".to_owned()
            } else if duration == 2419200 {
                "Message deletion timer is set to 4 weeks".to_owned()
            } else {
                let mut r = "Message deletion timer is set to ".to_owned();
                let n = timer.to_string();
                r.append(n.as_str());
                r.append(" s");
                r
            }
        },
    }
}

/// Returns a stock message saying that the ephemeral timer was changed to
/// `timer` by contact `from_id`; `from_name` is the display name of that
/// contact, used only when it is neither the user nor 0.
pub fn stock_ephemeral_timer_changed(timer: Timer, from_id: u32, from_name: &str) -> (r: String)
    ensures
        r@ == timer_change_text(timer, from_id, from_name@),
{
    let mut r = timer_change_action_text(timer);
    if from_id == DC_CONTACT_ID_SELF {
        r.append(" by me.");
    } else if from_id == 0 {
        r.append(".");
    } else {
        r.append(" by ");
        r.append(from_name);
        r.append(".");
    }
    r
}

/// A message whose own ephemeral timer has run out, outside the trash.
pub open spec fn ephemeral_expired(r: MsgRow, now: i64) -> bool {
    r.ephemeral_timestamp != 0 && r.ephemeral_timestamp < now && r.chat_id != DC_CHAT_ID_TRASH
}

/// A message older than `threshold` in an ordinary chat other than the
/// chats with the user itself and with the device.
pub open spec fn device_expired(r: MsgRow, threshold: int, self_chat_id: u32, device_chat_id: u32) -> bool {
    &&& r.timestamp < threshold
    &&& r.chat_id > DC_CHAT_ID_LAST_SPECIAL
    &&& r.chat_id != self_chat_id
    &&& r.chat_id != device_chat_id
}

/// A message that the sweep moves to the trash.
pub open spec fn sweep_due(
    r: MsgRow,
    now: i64,
    delete_device_after: Option<i64>,
    self_chat_id: u32,
    device_chat_id: u32,
) -> bool {
    ephemeral_expired(r, now) || match delete_device_after {
        Some(d) => device_expired(r, now - d, self_chat_id, device_chat_id),
        None => false,
    }
}

/// `b` is `a` moved to the trash with its text blanked.
pub open spec fn trashed(a: MsgRow, b: MsgRow) -> bool {
    same_but_chat_and_text(a, b) && b.chat_id == DC_CHAT_ID_TRASH && b.txt@ == "DELETED"@
}

/// `new` is `old` after one sweep: each due row trashed, the rest untouched.
pub open spec fn swept(
    old: Seq<MsgRow>,
    new: Seq<MsgRow>,
    now: i64,
    delete_device_after: Option<i64>,
    self_chat_id: u32,
    device_chat_id: u32,
) -> bool {
    &&& new.len() == old.len()
    &&& forall|i: int|
        0 <= i < old.len() ==> if sweep_due(#[trigger] old[i], now, delete_device_after, self_chat_id, device_chat_id) {
            trashed(old[i], new[i])
        } else {
            new[i] == old[i]
        }
}

/// The threshold of `now - d` fits an `i64`.
pub open spec fn threshold_fits(now: i64, d: Option<i64>) -> bool {
    match d {
        Some(d) => i64::MIN <= now - d <= i64::MAX,
        None => true,
    }
}

/// Deletes the messages that expired by their own timer, or by
/// `delete_device_after` when it is set, by moving them to the trash with
/// their text blanked. `self_chat_id` and `device_chat_id` are the chats
/// with the user and with the device (0 where there is none); they are kept.
///
/// Returns whether any message was deleted. It emits nothing: the caller
/// announces a change, and reschedules the wake-up task.
pub fn delete_expired_messages(
    msgs: &mut Msgs,
    now: i64,
    delete_device_after: Option<i64>,
    self_chat_id: u32,
    device_chat_id: u32,
) -> (updated: bool)
    requires
        threshold_fits(now, delete_device_after),
    ensures
        swept(old(msgs).rows@, final(msgs).rows@, now, delete_device_after, self_chat_id, device_chat_id),
        updated == exists|i: int|
            0 <= i < old(msgs).rows@.len() && sweep_due(
                #[trigger] old(msgs).rows@[i],
                now,
                delete_device_after,
                self_chat_id,
                device_chat_id,
            ),
{
    let threshold: Option<i64> = match delete_device_after {
        Some(d) => Some(now - d),
        None => None,
    };
    let mut updated = false;
    let mut i: usize = 0;
    while i < msgs.rows.len()
        invariant
            0 <= i <= msgs.rows@.len(),
            msgs.rows@.len() == old(msgs).rows@.len(),
            threshold_fits(now, delete_device_after),
            match delete_device_after {
                Some(d) => threshold is Some && threshold->0 == now - d,
                None => threshold is None,
            },
            forall|j: int|
                i <= j < msgs.rows@.len() ==> #[trigger] msgs.rows@[j] == old(msgs).rows@[j],
            forall|j: int|
                0 <= j < i ==> if sweep_due(#[trigger] old(msgs).rows@[j], now, delete_device_after, self_chat_id, device_chat_id) {
                    trashed(old(msgs).rows@[j], msgs.rows@[j])
                } else {
                    msgs.rows@[j] == old(msgs).rows@[j]
                },
            updated == exists|j: int|
                0 <= j < i && sweep_due(
                    #[trigger] old(msgs).rows@[j],
                    now,
                    delete_device_after,
                    self_chat_id,
                    device_chat_id,
                ),
        decreases msgs.rows@.len() - i,
    {
        let r = &msgs.rows[i];
        assert(*r == old(msgs).rows@[i as int]);
        let by_timer = r.ephemeral_timestamp != 0 && r.ephemeral_timestamp < now && r.chat_id
            != DC_CHAT_ID_TRASH;
        let by_age = match threshold {
            Some(t) => r.timestamp < t && r.chat_id > DC_CHAT_ID_LAST_SPECIAL && r.chat_id
                != self_chat_id && r.chat_id != device_chat_id,
            None => false,
        };
        assert((by_timer || by_age) == sweep_due(
            old(msgs).rows@[i as int],
            now,
            delete_device_after,
            self_chat_id,
            device_chat_id,
        ));
        if by_timer || by_age {
            msgs.rows[i].chat_id = DC_CHAT_ID_TRASH;
            msgs.rows[i].txt = "DELETED".to_owned();
            updated = true;
        }
        assert(forall|j: int|
            0 <= j < i + 1 && sweep_due(
                #[trigger] old(msgs).rows@[j],
                now,
                delete_device_after,
                self_chat_id,
                device_chat_id,
            ) ==> (j < i || j == i));
        i = i + 1;
    }
    updated
}

/// After a sweep nothing is due any more: a second sweep at the same time
/// with the same settings deletes nothing and returns false.
pub proof fn lemma_sweep_settles(
    old: Seq<MsgRow>,
    new: Seq<MsgRow>,
    now: i64,
    delete_device_after: Option<i64>,
    self_chat_id: u32,
    device_chat_id: u32,
)
    requires
        swept(old, new, now, delete_device_after, self_chat_id, device_chat_id),
    ensures
        !exists|i: int|
            0 <= i < new.len() && sweep_due(
                #[trigger] new[i],
                now,
                delete_device_after,
                self_chat_id,
                device_chat_id,
            ),
{
    assert forall|i: int| 0 <= i < new.len() implies !sweep_due(
        #[trigger] new[i],
        now,
        delete_device_after,
        self_chat_id,
        device_chat_id,
    ) by {
        if sweep_due(old[i], now, delete_device_after, self_chat_id, device_chat_id) {
            assert(trashed(old[i], new[i]));
        }
    }
}

/// A seen message whose timer is set but not yet armed.
pub open spec fn arming_due(r: MsgRow) -> bool {
    &&& r.ephemeral_timer > 0
    &&& r.ephemeral_timestamp == 0
    &&& r.state != MessageState::InFresh
    &&& r.state != MessageState::InNoticed
    &&& r.state != MessageState::OutDraft
}

/// A seen message with an ephemeral timer.
pub open spec fn seen_with_timer(r: MsgRow) -> bool {
    &&& r.ephemeral_timer > 0
    &&& r.state != MessageState::InFresh
    &&& r.state != MessageState::InNoticed
    &&& r.state != MessageState::OutDraft
}

/// Arms the timers of seen messages that were missed, so that each
/// expires `ephemeral_timer` seconds after `now`.
pub fn start_ephemeral_timers(msgs: &mut Msgs, now: i64)
    requires
        forall|i: int|
            0 <= i < old(msgs).rows@.len() && arming_due(#[trigger] old(msgs).rows@[i]) ==> now
                + old(msgs).rows@[i].ephemeral_timer <= i64::MAX,
    ensures
        final(msgs).rows@.len() == old(msgs).rows@.len(),
        forall|i: int|
            0 <= i < old(msgs).rows@.len() ==> if arming_due(#[trigger] old(msgs).rows@[i]) {
                same_but_expiry(old(msgs).rows@[i], final(msgs).rows@[i])
                    && final(msgs).rows@[i].ephemeral_timestamp == now
                    + old(msgs).rows@[i].ephemeral_timer
            } else {
                final(msgs).rows@[i] == old(msgs).rows@[i]
            },
        now >= 0 && (forall|i: int|
            0 <= i < old(msgs).rows@.len() ==> #[trigger] old(msgs).rows@[i].ephemeral_timestamp
                >= 0) ==> forall|i: int|
            0 <= i < final(msgs).rows@.len() && seen_with_timer(#[trigger] final(msgs).rows@[i])
                ==> final(msgs).rows@[i].ephemeral_timestamp > 0,
{
    let mut i: usize = 0;
    while i < msgs.rows.len()
        invariant
            0 <= i <= msgs.rows@.len(),
            msgs.rows@.len() == old(msgs).rows@.len(),
            forall|j: int|
                0 <= j < old(msgs).rows@.len() && arming_due(#[trigger] old(msgs).rows@[j]) ==> now
                    + old(msgs).rows@[j].ephemeral_timer <= i64::MAX,
            forall|j: int|
                i <= j < msgs.rows@.len() ==> #[trigger] msgs.rows@[j] == old(msgs).rows@[j],
            forall|j: int|
                0 <= j < i ==> if arming_due(#[trigger] old(msgs).rows@[j]) {
                    same_but_expiry(old(msgs).rows@[j], msgs.rows@[j])
                        && msgs.rows@[j].ephemeral_timestamp == now
                        + old(msgs).rows@[j].ephemeral_timer
                } else {
                    msgs.rows@[j] == old(msgs).rows@[j]
                },
        decreases msgs.rows@.len() - i,
    {
        let r = &msgs.rows[i];
        assert(*r == old(msgs).rows@[i as int]);
        if r.ephemeral_timer > 0 && r.ephemeral_timestamp == 0 && r.state != MessageState::InFresh
            && r.state != MessageState::InNoticed && r.state != MessageState::OutDraft {
            let t = now + r.ephemeral_timer as i64;
            msgs.rows[i].ephemeral_timestamp = t;
        }
        i = i + 1;
    }
    proof {
        if now >= 0 && (forall|i: int|
            0 <= i < old(msgs).rows@.len() ==> #[trigger] old(msgs).rows@[i].ephemeral_timestamp
                >= 0) {
            assert forall|i: int|
                0 <= i < msgs.rows@.len() && seen_with_timer(
                    #[trigger] msgs.rows@[i],
                ) implies msgs.rows@[i].ephemeral_timestamp > 0 by {
                assert(old(msgs).rows@[i].ephemeral_timestamp >= 0);
            }
        }
    }
}

/// `i` is the first row of `rows` with id `id`.
pub open spec fn first_with_id(rows: Seq<MsgRow>, id: MsgId, i: int) -> bool {
    &&& 0 <= i < rows.len()
    &&& rows[i].id == id
    &&& forall|j: int| 0 <= j < i ==> (#[trigger] rows[j]).id != id
}

/// The ephemeral timer stored with message `id`, disabled when there is
/// no such message.
pub open spec fn msg_timer(rows: Seq<MsgRow>, id: MsgId) -> Timer {
    if exists|i: int| first_with_id(rows, id, i) {
        timer_of(rows[choose|i: int| first_with_id(rows, id, i)].ephemeral_timer)
    } else {
        Timer::Disabled
    }
}

/// The expiry time of a message armed at `ts`: `ts` unless it already
/// expires earlier.
pub open spec fn armed_expiry(current: i64, ts: int) -> int {
    if current == 0 || current > ts {
        ts
    } else {
        current as int
    }
}

impl MsgId {
    /// Returns the ephemeral timer of the message.
    pub fn ephemeral_timer(self, msgs: &Msgs) -> (r: Timer)
        ensures
            r == msg_timer(msgs.rows@, self),
    {
        let mut i: usize = 0;
        while i < msgs.rows.len()
            invariant
                0 <= i <= msgs.rows@.len(),
                forall|j: int| 0 <= j < i ==> (#[trigger] msgs.rows@[j]).id != self,
            decreases msgs.rows@.len() - i,
        {
            if msgs.rows[i].id == self {
                assert(first_with_id(msgs.rows@, self, i as int));
                proof {
                    let k = choose|k: int| first_with_id(msgs.rows@, self, k);
                    assert(k == i) by {
                        if k < i {
                            assert(msgs.rows@[k].id != self);
                        } else if k > i {
                            assert(msgs.rows@[i as int].id != self);
                        }
                    }
                }
                return Timer::from_u32(msgs.rows[i].ephemeral_timer);
            }
            i = i + 1;
        }
        Timer::Disabled
    }

    /// Starts the ephemeral timer of the message, seen at `now`, unless it
    /// is disabled or the message already expires earlier.
    ///
    /// Returns whether the timer was enabled: the caller then reschedules
    /// the wake-up task.
    pub fn start_ephemeral_timer(self, msgs: &mut Msgs, now: i64) -> (r: bool)
        requires
            now + timer_seconds(msg_timer(old(msgs).rows@, self)) <= i64::MAX,
        ensures
            r == (msg_timer(old(msgs).rows@, self) is Enabled),
            final(msgs).rows@.len() == old(msgs).rows@.len(),
            forall|i: int|
                0 <= i < old(msgs).rows@.len() ==> if r && (#[trigger] old(msgs).rows@[i]).id
                    == self {
                    same_but_expiry(old(msgs).rows@[i], final(msgs).rows@[i])
                        && final(msgs).rows@[i].ephemeral_timestamp == armed_expiry(
                        old(msgs).rows@[i].ephemeral_timestamp,
                        now + timer_seconds(msg_timer(old(msgs).rows@, self)),
                    )
                } else {
                    final(msgs).rows@[i] == old(msgs).rows@[i]
                },
    {
        let timer = self.ephemeral_timer(msgs);
        match timer {
            Timer::Disabled => false,
            Timer::Enabled { duration } => {
                let ts = now + duration as i64;
                let mut i: usize = 0;
                while i < msgs.rows.len()
                    invariant
                        0 <= i <= msgs.rows@.len(),
                        msgs.rows@.len() == old(msgs).rows@.len(),
                        ts == now + timer_seconds(msg_timer(old(msgs).rows@, self)),
                        forall|j: int|
                            i <= j < msgs.rows@.len() ==> #[trigger] msgs.rows@[j] == old(
                                msgs,
                            ).rows@[j],
                        forall|j: int|
                            0 <= j < i ==> if (#[trigger] old(msgs).rows@[j]).id == self {
                                same_but_expiry(old(msgs).rows@[j], msgs.rows@[j])
                                    && msgs.rows@[j].ephemeral_timestamp == armed_expiry(
                                    old(msgs).rows@[j].ephemeral_timestamp,
                                    ts as int,
                                )
                            } else {
                                msgs.rows@[j] == old(msgs).rows@[j]
                            },
                    decreases msgs.rows@.len() - i,
                {
                    let r = &msgs.rows[i];
                    assert(*r == old(msgs).rows@[i as int]);
                    if r.id == self && (r.ephemeral_timestamp == 0 || r.ephemeral_timestamp > ts) {
                        msgs.rows[i].ephemeral_timestamp = ts;
                    }
                    i = i + 1;
                }
                true
            },
        }
    }
}

/// A message that is due for deletion from the server: it is on the server
/// and older than `threshold` or past its own expiry time.
pub open spec fn server_deletion_due(r: MsgRow, threshold: int, now: i64) -> bool {
    &&& r.timestamp < threshold || (r.ephemeral_timestamp != 0 && r.ephemeral_timestamp < now)
    &&& r.server_uid != 0
}

/// The age threshold of server deletion: 0 when `delete_server_after` is
/// unset, so that only the messages' own timers count.
pub open spec fn server_threshold(now: i64, delete_server_after: Option<i64>) -> int {
    match delete_server_after {
        Some(d) => now - d,
        None => 0,
    }
}

/// Returns the id of a message that should be deleted from the server, the
/// first in the table. Messages already in the trash count too.
pub fn load_imap_deletion_msgid(msgs: &Msgs, now: i64, delete_server_after: Option<i64>) -> (r:
    Option<MsgId>)
    requires
        threshold_fits(now, delete_server_after),
    ensures
        match r {
            Some(id) => exists|i: int|
                0 <= i < msgs.rows@.len() && msgs.rows@[i].id == id && server_deletion_due(
                    #[trigger] msgs.rows@[i],
                    server_threshold(now, delete_server_after),
                    now,
                ) && forall|j: int|
                    0 <= j < i ==> !server_deletion_due(
                        #[trigger] msgs.rows@[j],
                        server_threshold(now, delete_server_after),
                        now,
                    ),
            None => forall|i: int|
                0 <= i < msgs.rows@.len() ==> !server_deletion_due(
                    #[trigger] msgs.rows@[i],
                    server_threshold(now, delete_server_after),
                    now,
                ),
        },
{
    let threshold: i64 = match delete_server_after {
        Some(d) => now - d,
        None => 0,
    };
    let mut i: usize = 0;
    while i < msgs.rows.len()
        invariant
            0 <= i <= msgs.rows@.len(),
            threshold == server_threshold(now, delete_server_after),
            forall|j: int|
                0 <= j < i ==> !server_deletion_due(
                    #[trigger] msgs.rows@[j],
                    server_threshold(now, delete_server_after),
                    now,
                ),
        decreases msgs.rows@.len() - i,
    {
        let r = &msgs.rows[i];
        if (r.timestamp < threshold || (r.ephemeral_timestamp != 0 && r.ephemeral_timestamp < now))
            && r.server_uid != 0 {
            return Some(r.id);
        }
        i = i + 1;
    }
    None
}

/// A message whose deletion is still to come: armed and outside the trash.
pub open spec fn awaiting_expiry(r: MsgRow) -> bool {
    r.ephemeral_timestamp != 0 && r.chat_id != DC_CHAT_ID_TRASH
}

/// `ts` is the earliest expiry time among the messages awaiting expiry.
pub open spec fn is_next_expiry(rows: Seq<MsgRow>, ts: i64) -> bool {
    &&& exists|i: int|
        0 <= i < rows.len() && awaiting_expiry(#[trigger] rows[i]) && rows[i].ephemeral_timestamp
            == ts
    &&& forall|i: int|
        0 <= i < rows.len() && awaiting_expiry(#[trigger] rows[i]) ==> ts
            <= rows[i].ephemeral_timestamp
}

/// Returns the earliest expiry time of the messages outside the trash, if
/// any has one.
pub fn next_ephemeral_timestamp(msgs: &Msgs) -> (r: Option<i64>)
    ensures
        match r {
            Some(ts) => is_next_expiry(msgs.rows@, ts),
            None => forall|i: int|
                0 <= i < msgs.rows@.len() ==> !awaiting_expiry(#[trigger] msgs.rows@[i]),
        },
{
    let mut best: Option<i64> = None;
    let mut i: usize = 0;
    while i < msgs.rows.len()
        invariant
            0 <= i <= msgs.rows@.len(),
            match best {
                Some(ts) => is_next_expiry(msgs.rows@.take(i as int), ts),
                None => forall|j: int|
                    0 <= j < i ==> !awaiting_expiry(#[trigger] msgs.rows@[j]),
            },
        decreases msgs.rows@.len() - i,
    {
        let r = &msgs.rows[i];
        let ghost prev = msgs.rows@.take(i as int);
        let ghost next = msgs.rows@.take(i + 1);
        assert(forall|j: int| 0 <= j < i ==> next[j] == prev[j]);
        assert(next[i as int] == msgs.rows@[i as int]);
        if r.ephemeral_timestamp != 0 && r.chat_id != DC_CHAT_ID_TRASH {
            match best {
                Some(b) => {
                    if r.ephemeral_timestamp < b {
                        best = Some(r.ephemeral_timestamp);
                    }
                },
                None => {
                    best = Some(r.ephemeral_timestamp);
                },
            }
        }
        proof {
            match best {
                Some(ts) => {
                    assert forall|j: int|
                        0 <= j < next.len() && awaiting_expiry(#[trigger] next[j]) implies ts
                        <= next[j].ephemeral_timestamp by {
                        if j < i {
                            assert(next[j] == prev[j]);
                        }
                    }
                },
                None => {},
            }
        }
        i = i + 1;
    }
    proof {
        assert(msgs.rows@.take(msgs.rows@.len() as int) =~= msgs.rows@);
    }
    best
}

/// The single wake-up task of an account, which announces the next local
/// deletion: the expiry time that the live task waits for, if there is one.
#[derive(Debug, PartialEq, Eq, Structural, Copy, Clone)]
pub struct EphemeralTask {
    pub wake_for: Option<i64>,
}

/// What the caller of `schedule_ephemeral_task` carries out, in this
/// order: cancel the live task, start one that sleeps until one second
/// after `spawn_for` and then asks for a reload, or ask for it at once.
#[derive(Debug, PartialEq, Eq, Structural, Copy, Clone)]
pub struct WakePlan {
    pub cancel_previous: bool,
    pub spawn_for: Option<i64>,
    pub emit_now: bool,
}

impl EphemeralTask {
    pub fn new() -> (r: EphemeralTask)
        ensures
            r.wake_for is None,
    {
        EphemeralTask { wake_for: None }
    }
}

/// Schedules the wake-up for the next local deletion at time `now`. The
/// live task, if any, is always cancelled, so that at most one is ever
/// live: the one that `task` then records. A deletion already due is
/// announced at once, with no task.
pub fn schedule_ephemeral_task(task: &mut EphemeralTask, msgs: &Msgs, now: i64) -> (plan: WakePlan)
    ensures
        plan.cancel_previous == (old(task).wake_for is Some),
        final(task).wake_for == plan.spawn_for,
        !(plan.emit_now && plan.spawn_for is Some),
        (forall|i: int|
            0 <= i < msgs.rows@.len() ==> !awaiting_expiry(#[trigger] msgs.rows@[i]))
            ==> plan.spawn_for is None && !plan.emit_now,
        forall|ts: i64|
            is_next_expiry(msgs.rows@, ts) ==> if ts >= now {
                plan.spawn_for == Some(ts) && !plan.emit_now
            } else {
                plan.spawn_for is None && plan.emit_now
            },
{
    let next = next_ephemeral_timestamp(msgs);
    let cancel_previous = task.wake_for.is_some();
    task.wake_for = None;
    let plan = match next {
        None => WakePlan { cancel_previous, spawn_for: None, emit_now: false },
        Some(ts) => {
            if ts >= now {
                task.wake_for = Some(ts);
                WakePlan { cancel_previous, spawn_for: Some(ts), emit_now: false }
            } else {
                WakePlan { cancel_previous, spawn_for: None, emit_now: true }
            }
        },
    };
    proof {
        assert forall|ts: i64| is_next_expiry(msgs.rows@, ts) implies next == Some(ts) by {
            match next {
                Some(n) => {
                    let i = choose|i: int|
                        0 <= i < msgs.rows@.len() && awaiting_expiry(#[trigger] msgs.rows@[i])
                            && msgs.rows@[i].ephemeral_timestamp == ts;
                    let k = choose|k: int|
                        0 <= k < msgs.rows@.len() && awaiting_expiry(#[trigger] msgs.rows@[k])
                            && msgs.rows@[k].ephemeral_timestamp == n;
                    assert(n <= msgs.rows@[i].ephemeral_timestamp);
                    assert(ts <= msgs.rows@[k].ephemeral_timestamp);
                },
                None => {
                    let i = choose|i: int|
                        0 <= i < msgs.rows@.len() && awaiting_expiry(#[trigger] msgs.rows@[i])
                            && msgs.rows@[i].ephemeral_timestamp == ts;
                    assert(!awaiting_expiry(msgs.rows@[i]));
                },
            }
        }
    }
    plan
}

/// `i` is the first row of `rows` for chat `id`.
pub open spec fn first_chat(rows: Seq<ChatRow>, id: ChatId, i: int) -> bool {
    &&& 0 <= i < rows.len()
    &&& rows[i].id == id
    &&& forall|j: int| 0 <= j < i ==> (#[trigger] rows[j]).id != id
}

/// The ephemeral timer of chat `id`, disabled when there is no such chat.
pub open spec fn chat_timer(rows: Seq<ChatRow>, id: ChatId) -> Timer {
    if exists|i: int| first_chat(rows, id, i) {
        rows[choose|i: int| first_chat(rows, id, i)].ephemeral_timer
    } else {
        Timer::Disabled
    }
}

/// `new` is `old` with the timer of every row of chat `id` set to `t`.
pub open spec fn timer_written(old: Seq<ChatRow>, new: Seq<ChatRow>, id: ChatId, t: Timer) -> bool {
    &&& new.len() == old.len()
    &&& forall|i: int|
        0 <= i < old.len() ==> #[trigger] new[i] == if old[i].id == id {
            ChatRow { ephemeral_timer: t, ..old[i] }
        } else {
            old[i]
        }
}

/// A chat id reserved for special chats.
pub open spec fn is_special(id: ChatId) -> bool {
    id.0 <= DC_CHAT_ID_LAST_SPECIAL
}

/// Error of changing the timer of a reserved chat.
#[derive(Debug, PartialEq, Eq, Structural, Copy, Clone)]
pub struct InvalidChatId {
    pub chat_id: ChatId,
}

/// A change of a chat's timer that the user made: the event to emit and the
/// text of the system message that tells the other members.
#[derive(Debug)]
pub struct TimerChange {
    pub event: EventType,
    pub text: String,
}

/// The event that announces timer `t` of chat `id`.
pub open spec fn timer_event(id: ChatId, t: Timer) -> EventType {
    EventType::ChatEphemeralTimerModified { chat_id: id, timer: t }
}

/// The refusal of a change to reserved chat `id`.
pub open spec fn refused<T>(id: ChatId) -> Result<T, InvalidChatId> {
    Err(InvalidChatId { chat_id: id })
}

impl ChatId {
    pub fn is_special(self) -> (r: bool)
        ensures
            r == is_special(self),
    {
        self.0 <= DC_CHAT_ID_LAST_SPECIAL
    }

    /// Returns the ephemeral timer of the chat.
    pub fn get_ephemeral_timer(self, chats: &Chats) -> (r: Timer)
        ensures
            r == chat_timer(chats.rows@, self),
    {
        let mut i: usize = 0;
        while i < chats.rows.len()
            invariant
                0 <= i <= chats.rows@.len(),
                forall|j: int| 0 <= j < i ==> (#[trigger] chats.rows@[j]).id != self,
            decreases chats.rows@.len() - i,
        {
            if chats.rows[i].id == self {
                assert(first_chat(chats.rows@, self, i as int));
                proof {
                    let k = choose|k: int| first_chat(chats.rows@, self, k);
                    assert(k == i) by {
                        if k < i {
                            assert(chats.rows@[k].id != self);
                        } else if k > i {
                            assert(chats.rows@[i as int].id != self);
                        }
                    }
                }
                return chats.rows[i].ephemeral_timer;
            }
            i = i + 1;
        }
        Timer::Disabled
    }

    /// Sets the ephemeral timer without sending a message, as when a peer's
    /// message carries a new timer. Reserved chats are refused.
    pub fn inner_set_ephemeral_timer(self, chats: &mut Chats, timer: Timer) -> (r: Result<EventType, InvalidChatId>)
        ensures
            is_special(self) ==> r == refused::<EventType>(self) && final(chats).rows@ == old(chats).rows@,
            !is_special(self) ==> r == Ok::<EventType, InvalidChatId>(timer_event(self, timer))
                && timer_written(old(chats).rows@, final(chats).rows@, self, timer),
    {
        if self.is_special() {
            return Err(InvalidChatId { chat_id: self });
        }
        let mut i: usize = 0;
        while i < chats.rows.len()
            invariant
                0 <= i <= chats.rows@.len(),
                chats.rows@.len() == old(chats).rows@.len(),
                forall|j: int|
                    i <= j < chats.rows@.len() ==> #[trigger] chats.rows@[j] == old(chats).rows@[j],
                forall|j: int|
                    0 <= j < i ==> #[trigger] chats.rows@[j] == if old(chats).rows@[j].id == self {
                        ChatRow { ephemeral_timer: timer, ..old(chats).rows@[j] }
                    } else {
                        old(chats).rows@[j]
                    },
            decreases chats.rows@.len() - i,
        {
            if chats.rows[i].id == self {
                chats.rows[i].ephemeral_timer = timer;
            }
            i = i + 1;
        }
        Ok(EventType::ChatEphemeralTimerModified { chat_id: self, timer })
    }

    /// Sets the ephemeral timer of the chat, as the user. Setting the
    /// current value changes nothing and gives `None`. Otherwise the timer is
    /// written and the change is returned: the caller emits its event and
    /// sends its text as a system message, whose failure leaves the new
    /// timer in place.
    pub fn set_ephemeral_timer(self, chats: &mut Chats, timer: Timer) -> (r: Result<Option<TimerChange>, InvalidChatId>)
        ensures
            timer == chat_timer(old(chats).rows@, self) ==> (r matches Ok(None))
                && final(chats).rows@ == old(chats).rows@,
            timer != chat_timer(old(chats).rows@, self) && is_special(self) ==> r == refused::<
                Option<TimerChange>,
            >(self) && final(chats).rows@ == old(chats).rows@,
            timer != chat_timer(old(chats).rows@, self) && !is_special(self) ==> (r matches Ok(
                Some(c),
            ) && c.event == timer_event(self, timer) && c.text@ == timer_change_text(
                timer,
                DC_CONTACT_ID_SELF,
                seq![],
            )) && timer_written(old(chats).rows@, final(chats).rows@, self, timer),
    {
        if timer == self.get_ephemeral_timer(chats) {
            return Ok(None);
        }
        match self.inner_set_ephemeral_timer(chats, timer) {
            Err(e) => Err(e),
            Ok(event) => {
                let text = stock_ephemeral_timer_changed(timer, DC_CONTACT_ID_SELF, "");
                Ok(Some(TimerChange { event, text }))
            },
        }
    }
}

} // verus!
