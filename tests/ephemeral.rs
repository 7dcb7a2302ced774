use deltachat_core::chat::{ChatId, ChatRow, Chats, EventType};
use deltachat_core::ephemeral::{
    delete_expired_messages, load_imap_deletion_msgid, next_ephemeral_timestamp,
    schedule_ephemeral_task, start_ephemeral_timers, stock_ephemeral_timer_changed, EphemeralTask,
    InvalidChatId, Timer, TimerOutOfRange, TimerParseError, DC_CHAT_ID_TRASH, DC_CONTACT_ID_SELF,
};
use deltachat_core::message::{MessageState, MsgId, MsgRow, Msgs};

fn row(id: u32, chat_id: u32, timestamp: i64, state: MessageState, timer: u32, ets: i64, uid: u32) -> MsgRow {
    MsgRow {
        id: MsgId(id),
        chat_id,
        timestamp,
        state,
        ephemeral_timer: timer,
        ephemeral_timestamp: ets,
        server_folder: "INBOX".to_string(),
        server_uid: uid,
        txt: format!("hello {}", id),
    }
}

#[test]
fn test_stock_ephemeral_messages() {
    assert_eq!(
        stock_ephemeral_timer_changed(Timer::Disabled, DC_CONTACT_ID_SELF, ""),
        "Message deletion timer is disabled by me."
    );
    assert_eq!(
        stock_ephemeral_timer_changed(Timer::Disabled, 0, ""),
        "Message deletion timer is disabled."
    );
    assert_eq!(
        stock_ephemeral_timer_changed(Timer::Enabled { duration: 1 }, 0, ""),
        "Message deletion timer is set to 1 s."
    );
    assert_eq!(
        stock_ephemeral_timer_changed(Timer::Enabled { duration: 30 }, 0, ""),
        "Message deletion timer is set to 30 s."
    );
    assert_eq!(
        stock_ephemeral_timer_changed(Timer::Enabled { duration: 60 }, 0, ""),
        "Message deletion timer is set to 1 minute."
    );
    assert_eq!(
        stock_ephemeral_timer_changed(Timer::Enabled { duration: 60 * 60 }, 0, ""),
        "Message deletion timer is set to 1 hour."
    );
    assert_eq!(
        stock_ephemeral_timer_changed(
            Timer::Enabled {
                duration: 24 * 60 * 60
            },
            0,
            ""
        ),
        "Message deletion timer is set to 1 day."
    );
    assert_eq!(
        stock_ephemeral_timer_changed(
            Timer::Enabled {
                duration: 7 * 24 * 60 * 60
            },
            0,
            ""
        ),
        "Message deletion timer is set to 1 week."
    );
    assert_eq!(
        stock_ephemeral_timer_changed(
            Timer::Enabled {
                duration: 4 * 7 * 24 * 60 * 60
            },
            0,
            ""
        ),
        "Message deletion timer is set to 4 weeks."
    );
}

#[test]
fn stock_message_by_other_contact() {
    assert_eq!(
        stock_ephemeral_timer_changed(Timer::Enabled { duration: 3600 }, 10, "Alice"),
        "Message deletion timer is set to 1 hour by Alice."
    );
}

#[test]
fn timer_round_trips() {
    for t in [
        Timer::Disabled,
        Timer::Enabled { duration: 1 },
        Timer::Enabled { duration: 30 },
        Timer::Enabled { duration: u32::MAX },
    ] {
        assert_eq!(Timer::from_u32(t.to_u32()), t);
        assert_eq!(Timer::from_str(&t.to_string()).unwrap(), t);
    }
    assert_eq!(Timer::from_u32(0), Timer::Disabled);
    assert_eq!(Timer::from_u32(5), Timer::Enabled { duration: 5 });
    assert_eq!(Timer::default(), Timer::Disabled);
}

#[test]
fn timer_text() {
    assert_eq!(Timer::Disabled.to_string(), "0");
    assert_eq!(Timer::Enabled { duration: 86400 }.to_string(), "86400");
    assert_eq!(Timer::from_str("+7"), Ok(Timer::Enabled { duration: 7 }));
    assert_eq!(Timer::from_str("007"), Ok(Timer::Enabled { duration: 7 }));
    assert_eq!(Timer::from_str("0"), Ok(Timer::Disabled));
    assert_eq!(Timer::from_str(""), Err(TimerParseError));
    assert_eq!(Timer::from_str("-1"), Err(TimerParseError));
    assert_eq!(Timer::from_str("4294967296"), Err(TimerParseError));
    assert_eq!(Timer::from_str(" 1"), Err(TimerParseError));
}

#[test]
fn timer_column_values() {
    assert_eq!(Timer::Disabled.to_sql(), 0);
    assert_eq!(Timer::Enabled { duration: 42 }.to_sql(), 42);
    assert_eq!(Timer::column_result(0), Ok(Timer::Disabled));
    assert_eq!(Timer::column_result(42), Ok(Timer::Enabled { duration: 42 }));
    assert_eq!(
        Timer::column_result(4294967295),
        Ok(Timer::Enabled { duration: u32::MAX })
    );
    assert_eq!(
        Timer::column_result(4294967296),
        Err(TimerOutOfRange { value: 4294967296 })
    );
    assert_eq!(Timer::column_result(-1), Err(TimerOutOfRange { value: -1 }));
}

#[test]
fn sweep_moves_expired_to_trash() {
    let mut msgs = Msgs::new();
    msgs.insert(row(1, 20, 100, MessageState::InSeen, 10, 500, 7));
    msgs.insert(row(2, 20, 100, MessageState::InSeen, 10, 2000, 8));
    msgs.insert(row(3, 20, 100, MessageState::InFresh, 0, 0, 9));
    let updated = delete_expired_messages(&mut msgs, 1000, None, 0, 0);
    assert!(updated);
    assert_eq!(msgs.rows[0].chat_id, DC_CHAT_ID_TRASH);
    assert_eq!(msgs.rows[0].txt, "DELETED");
    assert_eq!(msgs.rows[0].server_uid, 7);
    assert_eq!(msgs.rows[0].server_folder, "INBOX");
    assert_eq!(msgs.rows[1].chat_id, 20);
    assert_eq!(msgs.rows[1].txt, "hello 2");
    assert_eq!(msgs.rows[2].chat_id, 20);
    // a second call at the same time finds nothing
    assert!(!delete_expired_messages(&mut msgs, 1000, None, 0, 0));
}

#[test]
fn sweep_by_device_age_keeps_system_chats() {
    let mut msgs = Msgs::new();
    msgs.insert(row(1, 20, 100, MessageState::InSeen, 0, 0, 0));
    msgs.insert(row(2, 11, 100, MessageState::InSeen, 0, 0, 0)); // self chat
    msgs.insert(row(3, 12, 100, MessageState::InSeen, 0, 0, 0)); // device chat
    msgs.insert(row(4, 5, 100, MessageState::InSeen, 0, 0, 0)); // special chat
    msgs.insert(row(5, 20, 950, MessageState::InSeen, 0, 0, 0)); // recent
    let updated = delete_expired_messages(&mut msgs, 1000, Some(100), 11, 12);
    assert!(updated);
    assert_eq!(msgs.rows[0].chat_id, DC_CHAT_ID_TRASH);
    assert_eq!(msgs.rows[1].chat_id, 11);
    assert_eq!(msgs.rows[2].chat_id, 12);
    assert_eq!(msgs.rows[3].chat_id, 5);
    assert_eq!(msgs.rows[4].chat_id, 20);
    assert!(!delete_expired_messages(&mut msgs, 1000, Some(100), 11, 12));
}

#[test]
fn sweep_on_nothing_due_returns_false_twice() {
    let mut msgs = Msgs::new();
    msgs.insert(row(1, 20, 100, MessageState::InSeen, 10, 5000, 1));
    assert!(!delete_expired_messages(&mut msgs, 1000, None, 0, 0));
    assert!(!delete_expired_messages(&mut msgs, 1000, None, 0, 0));
    assert_eq!(msgs.rows[0].chat_id, 20);
}

#[test]
fn healer_arms_seen_messages() {
    let mut msgs = Msgs::new();
    msgs.insert(row(1, 20, 100, MessageState::InSeen, 60, 0, 1));
    msgs.insert(row(2, 20, 100, MessageState::InFresh, 60, 0, 1));
    msgs.insert(row(3, 20, 100, MessageState::OutDelivered, 60, 0, 1));
    msgs.insert(row(4, 20, 100, MessageState::OutDraft, 60, 0, 1));
    msgs.insert(row(5, 20, 100, MessageState::InSeen, 60, 77, 1));
    msgs.insert(row(6, 20, 100, MessageState::InSeen, 0, 0, 1));
    start_ephemeral_timers(&mut msgs, 1000);
    assert_eq!(msgs.rows[0].ephemeral_timestamp, 1060);
    assert_eq!(msgs.rows[1].ephemeral_timestamp, 0);
    assert_eq!(msgs.rows[2].ephemeral_timestamp, 1060);
    assert_eq!(msgs.rows[3].ephemeral_timestamp, 0);
    assert_eq!(msgs.rows[4].ephemeral_timestamp, 77);
    assert_eq!(msgs.rows[5].ephemeral_timestamp, 0);
}

#[test]
fn message_timer_starts_once() {
    let mut msgs = Msgs::new();
    msgs.insert(row(1, 20, 100, MessageState::InSeen, 60, 0, 1));
    msgs.insert(row(2, 20, 100, MessageState::InSeen, 0, 0, 1));
    assert_eq!(MsgId(1).ephemeral_timer(&msgs), Timer::Enabled { duration: 60 });
    assert_eq!(MsgId(2).ephemeral_timer(&msgs), Timer::Disabled);
    assert_eq!(MsgId(9).ephemeral_timer(&msgs), Timer::Disabled);
    assert!(MsgId(1).start_ephemeral_timer(&mut msgs, 1000));
    assert_eq!(msgs.rows[0].ephemeral_timestamp, 1060);
    // never pushed further out
    assert!(MsgId(1).start_ephemeral_timer(&mut msgs, 2000));
    assert_eq!(msgs.rows[0].ephemeral_timestamp, 1060);
    assert!(!MsgId(2).start_ephemeral_timer(&mut msgs, 1000));
    assert_eq!(msgs.rows[1].ephemeral_timestamp, 0);
}

#[test]
fn server_deletion_candidates() {
    let mut msgs = Msgs::new();
    msgs.insert(row(1, 20, 100, MessageState::InSeen, 0, 0, 0));
    msgs.insert(row(2, DC_CHAT_ID_TRASH, 900, MessageState::InSeen, 10, 950, 5));
    msgs.insert(row(3, 20, 100, MessageState::InSeen, 0, 0, 6));
    assert_eq!(load_imap_deletion_msgid(&msgs, 1000, None), Some(MsgId(2)));
    assert_eq!(load_imap_deletion_msgid(&msgs, 940, None), None);
    assert_eq!(load_imap_deletion_msgid(&msgs, 940, Some(500)), Some(MsgId(3)));
}

#[test]
fn wake_task_is_replaced() {
    let mut msgs = Msgs::new();
    msgs.insert(row(1, 20, 100, MessageState::InSeen, 10, 5000, 1));
    msgs.insert(row(2, 20, 100, MessageState::InSeen, 10, 3000, 1));
    msgs.insert(row(3, DC_CHAT_ID_TRASH, 100, MessageState::InSeen, 10, 2000, 1));
    assert_eq!(next_ephemeral_timestamp(&msgs), Some(3000));
    let mut task = EphemeralTask::new();
    let plan = schedule_ephemeral_task(&mut task, &msgs, 1000);
    assert!(!plan.cancel_previous);
    assert_eq!(plan.spawn_for, Some(3000));
    assert!(!plan.emit_now);
    assert_eq!(task.wake_for, Some(3000));
    let plan = schedule_ephemeral_task(&mut task, &msgs, 4000);
    assert!(plan.cancel_previous);
    assert_eq!(plan.spawn_for, None);
    assert!(plan.emit_now);
    assert_eq!(task.wake_for, None);
    let empty = Msgs::new();
    assert_eq!(next_ephemeral_timestamp(&empty), None);
    let plan = schedule_ephemeral_task(&mut task, &empty, 4000);
    assert!(!plan.cancel_previous);
    assert!(!plan.emit_now);
    assert_eq!(task.wake_for, None);
}

#[test]
fn chat_timer_set_once() {
    let mut chats = Chats::new();
    chats.insert(ChatRow { id: ChatId(10), ephemeral_timer: Timer::Disabled });
    assert_eq!(ChatId(10).get_ephemeral_timer(&chats), Timer::Disabled);
    assert_eq!(ChatId(99).get_ephemeral_timer(&chats), Timer::Disabled);
    let same = ChatId(10).set_ephemeral_timer(&mut chats, Timer::Disabled).unwrap();
    assert!(same.is_none());
    let t = Timer::Enabled { duration: 60 };
    let change = ChatId(10).set_ephemeral_timer(&mut chats, t).unwrap().unwrap();
    assert_eq!(
        change.event,
        EventType::ChatEphemeralTimerModified { chat_id: ChatId(10), timer: t }
    );
    assert_eq!(change.text, "Message deletion timer is set to 1 minute by me.");
    assert_eq!(ChatId(10).get_ephemeral_timer(&chats), t);
    assert!(ChatId(10).set_ephemeral_timer(&mut chats, t).unwrap().is_none());
}

#[test]
fn special_chats_are_refused() {
    let mut chats = Chats::new();
    chats.insert(ChatRow { id: ChatId(DC_CHAT_ID_TRASH), ephemeral_timer: Timer::Disabled });
    let t = Timer::Enabled { duration: 60 };
    assert_eq!(
        ChatId(DC_CHAT_ID_TRASH).inner_set_ephemeral_timer(&mut chats, t),
        Err(InvalidChatId { chat_id: ChatId(DC_CHAT_ID_TRASH) })
    );
    assert!(ChatId(DC_CHAT_ID_TRASH).set_ephemeral_timer(&mut chats, t).is_err());
    assert_eq!(chats.rows[0].ephemeral_timer, Timer::Disabled);
    assert_eq!(
        ChatId(12).inner_set_ephemeral_timer(&mut chats, t),
        Ok(EventType::ChatEphemeralTimerModified { chat_id: ChatId(12), timer: t })
    );
}
