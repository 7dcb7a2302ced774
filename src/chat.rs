//! Chat rows as the ephemeral engine reads and writes them.

#[allow(unused_imports)]
use vstd::prelude::*;

use crate::ephemeral::Timer;
use crate::message::MsgId;

verus! {

/// Identifier of a chat.
#[derive(Debug, PartialEq, Eq, Structural, Copy, Clone)]
pub struct ChatId(pub u32);

/// One row of the chat table.
#[derive(Debug, PartialEq, Eq, Structural, Copy, Clone)]
pub struct ChatRow {
    pub id: ChatId,
    pub ephemeral_timer: Timer,
}

/// The chat table.
#[derive(Debug)]
pub struct Chats {
    pub rows: Vec<ChatRow>,
}

impl Chats {
    pub fn new() -> (r: Chats)
        ensures
            r.rows@.len() == 0,
    {
        Chats { rows: Vec::new() }
    }

    pub fn insert(&mut self, row: ChatRow)
        ensures
            final(self).rows@ == old(self).rows@.push(row),
    {
        self.rows.push(row);
    }
}

/// Events that the core emits.
#[derive(Debug, PartialEq, Eq, Structural, Copy, Clone)]
pub enum EventType {
    ChatEphemeralTimerModified { chat_id: ChatId, timer: Timer },
    /// Chat 0 and message 0 ask to reload everything.
    MsgsChanged { chat_id: ChatId, msg_id: MsgId },
}

} // verus!
