//! Message rows as the ephemeral engine reads and writes them.

#[allow(unused_imports)]
use vstd::prelude::*;

verus! {

/// Delivery state of a message.
#[derive(Debug, PartialEq, Eq, Structural, Copy, Clone)]
pub enum MessageState {
    Undefined,
    InFresh,
    InNoticed,
    InSeen,
    OutPreparing,
    OutDraft,
    OutPending,
    OutFailed,
    OutDelivered,
    OutMdnRcvd,
}

/// Identifier of a message.
#[derive(Debug, PartialEq, Eq, Structural, Copy, Clone)]
pub struct MsgId(pub u32);

/// One row of the message table.
#[derive(Debug)]
pub struct MsgRow {
    pub id: MsgId,
    pub chat_id: u32,
    /// Sending or receiving time, Unix seconds.
    pub timestamp: i64,
    pub state: MessageState,
    /// Ephemeral timer of the message in seconds, 0 when disabled.
    pub ephemeral_timer: u32,
    /// Unix time at which the message expires, 0 when not armed.
    pub ephemeral_timestamp: i64,
    /// IMAP folder that holds the message on the server.
    pub server_folder: String,
    /// IMAP UID of the message on the server, 0 when not on the server.
    pub server_uid: u32,
    pub txt: String,
}

/// Two rows that agree in every field but the chat and the text.
pub open spec fn same_but_chat_and_text(a: MsgRow, b: MsgRow) -> bool {
    &&& a.id == b.id
    &&& a.timestamp == b.timestamp
    &&& a.state == b.state
    &&& a.ephemeral_timer == b.ephemeral_timer
    &&& a.ephemeral_timestamp == b.ephemeral_timestamp
    &&& a.server_folder@ == b.server_folder@
    &&& a.server_uid == b.server_uid
}

/// Two rows that agree in every field but the expiry time.
pub open spec fn same_but_expiry(a: MsgRow, b: MsgRow) -> bool {
    &&& a.id == b.id
    &&& a.chat_id == b.chat_id
    &&& a.timestamp == b.timestamp
    &&& a.state == b.state
    &&& a.ephemeral_timer == b.ephemeral_timer
    &&& a.server_folder@ == b.server_folder@
    &&& a.server_uid == b.server_uid
    &&& a.txt@ == b.txt@
}

/// The message table.
#[derive(Debug)]
pub struct Msgs {
    pub rows: Vec<MsgRow>,
}

impl Msgs {
    pub fn new() -> (r: Msgs)
        ensures
            r.rows@.len() == 0,
    {
        Msgs { rows: Vec::new() }
    }

    pub fn insert(&mut self, row: MsgRow)
        ensures
            final(self).rows@ == old(self).rows@.push(row),
    {
        self.rows.push(row);
    }
}

} // verus!
