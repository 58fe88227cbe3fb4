use geyserfeed::message::InboundMessage;
use geyserfeed::message::KeepaliveReply;
use geyserfeed::message::SlotStatus;
use geyserfeed::message::StreamItem;
use geyserfeed::message::KEEPALIVE_ACK_ID;
use geyserfeed::record::Record;
use geyserfeed::record::Severity;
use geyserfeed::session::end_of_stream_step;
use geyserfeed::session::handle_item;
use geyserfeed::session::run_session;
use geyserfeed::session::SessionEvent;
use geyserfeed::session::SessionFailure;

#[test]
fn slot_update_is_logged_with_parent() {
    let st = handle_item(&StreamItem::Update(InboundMessage::Slot {
        slot: 100,
        parent: Some(99),
        status: SlotStatus::Confirmed,
    }));
    assert_eq!(
        st.record,
        Record::SlotUpdate { slot: 100, parent: 99, status: SlotStatus::Confirmed }
    );
    assert_eq!(st.reply, None);
    assert_eq!(st.failure, None);
    assert_eq!(st.record.severity(), Severity::Info);
}

#[test]
fn slot_update_missing_parent_defaults_to_zero() {
    let st = handle_item(&StreamItem::Update(InboundMessage::Slot {
        slot: 7,
        parent: None,
        status: SlotStatus::Processed,
    }));
    assert_eq!(
        st.record,
        Record::SlotUpdate { slot: 7, parent: 0, status: SlotStatus::Processed }
    );
}

#[test]
fn account_update_renders_pubkey_in_base58() {
    // An all-zero public key renders as one '1' per byte; the raw bytes
    // themselves would render as NUL characters, so this fails if the
    // encoder handed its input back unchanged.
    let st = handle_item(&StreamItem::Update(InboundMessage::Account {
        pubkey: vec![0u8; 32],
        slot: 5,
        lamports: 1_000,
    }));
    assert_eq!(
        st.record,
        Record::AccountUpdate {
            pubkey_b58: "11111111111111111111111111111111".to_string(),
            slot: 5,
            lamports: 1_000,
        }
    );
    assert_eq!(st.failure, None);
}

#[test]
fn account_update_base58_known_fixture() {
    let st = handle_item(&StreamItem::Update(InboundMessage::Account {
        pubkey: b"hello world".to_vec(),
        slot: 1,
        lamports: 2,
    }));
    assert_eq!(
        st.record,
        Record::AccountUpdate { pubkey_b58: "StV1DL6CwTryKyV".to_string(), slot: 1, lamports: 2 }
    );
}

#[test]
fn transaction_update_renders_signature_in_base58() {
    let st = handle_item(&StreamItem::Update(InboundMessage::Transaction {
        slot: 42,
        signature: vec![1, 2, 3, 4, 5],
    }));
    assert_eq!(
        st.record,
        Record::TransactionUpdate { slot: 42, signature_b58: "7bWpTW".to_string() }
    );
}

#[test]
fn block_update_renders_hash_in_base58() {
    let st = handle_item(&StreamItem::Update(InboundMessage::Block {
        slot: 43,
        blockhash: vec![0, 0, 0],
    }));
    assert_eq!(st.record, Record::BlockUpdate { slot: 43, blockhash_b58: "111".to_string() });
}

#[test]
fn base58_matches_crate_encoder() {
    let bytes: Vec<u8> = vec![13, 255, 0, 7, 128, 33];
    let st = handle_item(&StreamItem::Update(InboundMessage::Account {
        pubkey: bytes.clone(),
        slot: 0,
        lamports: 0,
    }));
    let expected = bs58::encode(&bytes).into_string();
    assert_eq!(
        st.record,
        Record::AccountUpdate { pubkey_b58: expected, slot: 0, lamports: 0 }
    );
}

#[test]
fn ping_triggers_fixed_keepalive_reply() {
    let st = handle_item(&StreamItem::Update(InboundMessage::Ping));
    assert_eq!(st.record, Record::PingReceived);
    assert_eq!(st.reply, Some(KeepaliveReply { id: KEEPALIVE_ACK_ID }));
    assert_eq!(KEEPALIVE_ACK_ID, 1);
    assert_eq!(st.failure, None);
}

#[test]
fn pong_is_logged_and_nothing_sent() {
    let st = handle_item(&StreamItem::Update(InboundMessage::Pong { id: 17 }));
    assert_eq!(st.record, Record::PongReceived { id: 17 });
    assert_eq!(st.reply, None);
    assert_eq!(st.failure, None);
}

#[test]
fn unrecognized_update_warns_and_continues() {
    let st = handle_item(&StreamItem::Update(InboundMessage::Unrecognized));
    assert_eq!(st.record, Record::UnknownUpdate);
    assert_eq!(st.record.severity(), Severity::Warning);
    assert_eq!(st.failure, None);
}

#[test]
fn absent_payload_is_an_error_and_terminates() {
    let st = handle_item(&StreamItem::Update(InboundMessage::Absent));
    assert_eq!(st.record, Record::MissingPayload);
    assert_eq!(st.record.severity(), Severity::Error);
    assert_eq!(st.failure, Some(SessionFailure::MalformedFrame));
}

#[test]
fn transport_error_is_logged_and_terminates() {
    let st = handle_item(&StreamItem::TransportError("connection reset".to_string()));
    assert_eq!(st.record, Record::StreamError { detail: "connection reset".to_string() });
    assert_eq!(st.record.severity(), Severity::Error);
    assert_eq!(st.failure, Some(SessionFailure::Transport));
}

#[test]
fn end_of_stream_warns_and_terminates() {
    let st = end_of_stream_step();
    assert_eq!(st.record, Record::StreamClosed);
    assert_eq!(st.record.severity(), Severity::Warning);
    assert_eq!(st.failure, Some(SessionFailure::StreamEnded));
}

#[test]
fn two_slots_one_ping_then_stream_end() {
    // Two slot updates around a ping, then the stream ends: two slot-update
    // records, exactly one keepalive reply with the fixed id sent between
    // them, and a failure reported for reconnection.
    let items = vec![
        StreamItem::Update(InboundMessage::Slot {
            slot: 100,
            parent: Some(99),
            status: SlotStatus::Confirmed,
        }),
        StreamItem::Update(InboundMessage::Ping),
        StreamItem::Update(InboundMessage::Slot {
            slot: 101,
            parent: Some(100),
            status: SlotStatus::Confirmed,
        }),
    ];
    let out = run_session(&items);
    assert_eq!(
        out.events,
        vec![
            SessionEvent::Logged(Record::SlotUpdate {
                slot: 100,
                parent: 99,
                status: SlotStatus::Confirmed,
            }),
            SessionEvent::Logged(Record::PingReceived),
            SessionEvent::Replied(KeepaliveReply { id: 1 }),
            SessionEvent::Logged(Record::SlotUpdate {
                slot: 101,
                parent: 100,
                status: SlotStatus::Confirmed,
            }),
            SessionEvent::Logged(Record::StreamClosed),
        ]
    );
    assert_eq!(out.failure, SessionFailure::StreamEnded);
}

#[test]
fn absent_payload_stops_processing_immediately() {
    // More elements remain in the sequence, but nothing after the malformed
    // frame is processed.
    let items = vec![
        StreamItem::Update(InboundMessage::Absent),
        StreamItem::Update(InboundMessage::Slot {
            slot: 1,
            parent: Some(0),
            status: SlotStatus::Confirmed,
        }),
        StreamItem::Update(InboundMessage::Ping),
    ];
    let out = run_session(&items);
    assert_eq!(out.events, vec![SessionEvent::Logged(Record::MissingPayload)]);
    assert_eq!(out.failure, SessionFailure::MalformedFrame);
}

#[test]
fn transport_error_stops_processing_immediately() {
    let items = vec![
        StreamItem::Update(InboundMessage::Pong { id: 3 }),
        StreamItem::TransportError("broken pipe".to_string()),
        StreamItem::Update(InboundMessage::Ping),
    ];
    let out = run_session(&items);
    assert_eq!(
        out.events,
        vec![
            SessionEvent::Logged(Record::PongReceived { id: 3 }),
            SessionEvent::Logged(Record::StreamError { detail: "broken pipe".to_string() }),
        ]
    );
    assert_eq!(out.failure, SessionFailure::Transport);
}

#[test]
fn empty_stream_reports_stream_ended() {
    let items: Vec<StreamItem> = vec![];
    let out = run_session(&items);
    assert_eq!(out.events, vec![SessionEvent::Logged(Record::StreamClosed)]);
    assert_eq!(out.failure, SessionFailure::StreamEnded);
}
