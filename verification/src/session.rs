//! One live subscription: classification of each drawn stream element, the
//! keepalive reply a probe triggers, and the session run itself, which always
//! ends in a failure signal so that the supervisor reconnects.

use vstd::prelude::*;
use crate::base58::base58_of;
use crate::base58::bs58_encode;
use crate::message::InboundMessage;
use crate::message::ItemModel;
use crate::message::KeepaliveReply;
use crate::message::MessageModel;
use crate::message::StreamItem;
use crate::message::KEEPALIVE_ACK_ID;
use crate::message::item_model;
use crate::message::items_model;
use crate::message::spec_ack_reply;
use crate::record::Record;
use crate::record::RecordModel;
use crate::record::record_model;

verus! {

/// Why a session ended. A session has exactly one exit path — failure — so
/// that any termination, clean or not, triggers a reconnect.
#[derive(Clone, Copy, PartialEq, Eq, Structural, Debug)]
pub enum SessionFailure {
    /// The inbound sequence was exhausted (server-initiated close included).
    StreamEnded,
    /// A transport-level read or write failed mid-session.
    Transport,
    /// A frame arrived with no payload tag at all.
    MalformedFrame,
}

/// One observable act of a session, in order: a record logged or a keepalive
/// reply sent.
#[derive(PartialEq, Eq, Debug)]
pub enum SessionEvent {
    Logged(Record),
    Replied(KeepaliveReply),
}

/// Mathematical image of a [`SessionEvent`].
#[verifier::ext_equal]
pub enum EventModel {
    Logged(RecordModel),
    Replied(KeepaliveReply),
}

pub open spec fn event_model(e: SessionEvent) -> EventModel {
    match e {
        SessionEvent::Logged(r) => EventModel::Logged(record_model(r)),
        SessionEvent::Replied(r) => EventModel::Replied(r),
    }
}

pub open spec fn events_model(s: Seq<SessionEvent>) -> Seq<EventModel> {
    s.map_values(|e: SessionEvent| event_model(e))
}

/// The record logged for one drawn element. A slot update with no parent is
/// logged with parent 0 (a known conflation of "no parent" with slot 0,
/// kept so that log output stays stable).
pub open spec fn spec_record_of(it: ItemModel) -> RecordModel {
    match it {
        ItemModel::Update(m) => match m {
            MessageModel::Slot { slot, parent, status } => RecordModel::SlotUpdate {
                slot,
                parent: match parent {
                    Some(p) => p,
                    None => 0,
                },
                status,
            },
            MessageModel::Account { pubkey, slot, lamports } => RecordModel::AccountUpdate {
                pubkey_b58: base58_of(pubkey),
                slot,
                lamports,
            },
            MessageModel::Transaction { slot, signature } => RecordModel::TransactionUpdate {
                slot,
                signature_b58: base58_of(signature),
            },
            MessageModel::Block { slot, blockhash } => RecordModel::BlockUpdate {
                slot,
                blockhash_b58: base58_of(blockhash),
            },
            MessageModel::Ping => RecordModel::PingReceived,
            MessageModel::Pong { id } => RecordModel::PongReceived { id },
            MessageModel::Unrecognized => RecordModel::UnknownUpdate,
            MessageModel::Absent => RecordModel::MissingPayload,
        },
        ItemModel::TransportError(d) => RecordModel::StreamError { detail: d },
    }
}

/// The reply one drawn element triggers: a ping probe is acknowledged with
/// the fixed id, nothing else is ever sent.
pub open spec fn spec_reply_of(it: ItemModel) -> Option<KeepaliveReply> {
    match it {
        ItemModel::Update(MessageModel::Ping) => Some(spec_ack_reply()),
        _ => None,
    }
}

/// Whether (and why) one drawn element ends the session: a transport error
/// and a missing payload tag do, everything else is processed and passed by.
pub open spec fn spec_failure_of(it: ItemModel) -> Option<SessionFailure> {
    match it {
        ItemModel::TransportError(_) => Some(SessionFailure::Transport),
        ItemModel::Update(MessageModel::Absent) => Some(SessionFailure::MalformedFrame),
        _ => None,
    }
}

/// The events one non-terminating element contributes: its record, then — for
/// a ping — the reply, before any later element is drawn.
pub open spec fn spec_item_events(it: ItemModel) -> Seq<EventModel> {
    match spec_reply_of(it) {
        Some(r) => seq![EventModel::Logged(spec_record_of(it)), EventModel::Replied(r)],
        None => seq![EventModel::Logged(spec_record_of(it))],
    }
}

/// The whole observable behaviour of one session over a (finite prefix of an)
/// inbound sequence.
#[verifier::ext_equal]
pub struct SessionModel {
    pub events: Seq<EventModel>,
    pub failure: SessionFailure,
}

/// A session processes elements strictly in order; the first terminating
/// element (or the end of the sequence) stops it, and nothing after it is
/// processed.
pub open spec fn spec_session(items: Seq<ItemModel>) -> SessionModel
    decreases items.len(),
{
    if items.len() == 0 {
        SessionModel {
            events: seq![EventModel::Logged(RecordModel::StreamClosed)],
            failure: SessionFailure::StreamEnded,
        }
    } else if spec_failure_of(items[0]) is Some {
        SessionModel {
            events: seq![EventModel::Logged(spec_record_of(items[0]))],
            failure: spec_failure_of(items[0]).unwrap(),
        }
    } else {
        let rest = spec_session(items.drop_first());
        SessionModel { events: spec_item_events(items[0]) + rest.events, failure: rest.failure }
    }
}

/// Events of the first `i` elements, all assumed non-terminating.
pub open spec fn spec_events_prefix(items: Seq<ItemModel>, i: int) -> Seq<EventModel>
    decreases i,
{
    if i <= 0 {
        Seq::empty()
    } else {
        spec_events_prefix(items, i - 1) + spec_item_events(items[i - 1])
    }
}

proof fn lemma_prefix_front(items: Seq<ItemModel>, i: int)
    requires
        1 <= i <= items.len(),
    ensures
        spec_events_prefix(items, i) == spec_item_events(items[0]) + spec_events_prefix(
            items.drop_first(),
            i - 1,
        ),
    decreases i,
{
    if i == 1 {
        assert(spec_events_prefix(items, 0) =~= Seq::<EventModel>::empty());
        assert(spec_events_prefix(items.drop_first(), 0) =~= Seq::<EventModel>::empty());
        assert(spec_events_prefix(items, 1) =~= spec_item_events(items[0])
            + spec_events_prefix(items.drop_first(), 0));
    } else {
        lemma_prefix_front(items, i - 1);
        assert(items.drop_first()[i - 2] == items[i - 1]);
        assert(spec_events_prefix(items, i) =~= spec_item_events(items[0])
            + spec_events_prefix(items.drop_first(), i - 1));
    }
}

/// A session splits at any point `i` that no earlier element terminates:
/// the events of the first `i` elements come first, the rest of the session
/// runs on the remaining sequence, and the failure comes from that rest.
pub proof fn lemma_session_decompose(items: Seq<ItemModel>, i: int)
    requires
        0 <= i <= items.len(),
        forall|j: int| 0 <= j < i ==> spec_failure_of(items[j]) is None,
    ensures
        spec_session(items).events == spec_events_prefix(items, i) + spec_session(
            items.skip(i),
        ).events,
        spec_session(items).failure == spec_session(items.skip(i)).failure,
    decreases i,
{
    if i == 0 {
        assert(items.skip(0) =~= items);
        assert(spec_events_prefix(items, 0) + spec_session(items).events =~= spec_session(
            items,
        ).events);
    } else {
        let rest = items.drop_first();
        assert(spec_failure_of(items[0]) is None);
        assert forall|j: int| 0 <= j < i - 1 implies spec_failure_of(rest[j]) is None by {
            assert(rest[j] == items[j + 1]);
        }
        lemma_session_decompose(rest, i - 1);
        lemma_prefix_front(items, i);
        assert(rest.skip(i - 1) =~= items.skip(i));
        assert(spec_session(items).events =~= spec_events_prefix(items, i) + spec_session(
            items.skip(i),
        ).events);
    }
}

/// A terminating element at `i` (no earlier one terminating) ends the session
/// right there: its record is the last event, its failure the session's, and
/// no element after `i` contributes anything.
pub proof fn lemma_terminator_stops(items: Seq<ItemModel>, i: int)
    requires
        0 <= i < items.len(),
        forall|j: int| 0 <= j < i ==> spec_failure_of(items[j]) is None,
        spec_failure_of(items[i]) is Some,
    ensures
        spec_session(items).events == spec_events_prefix(items, i) + seq![
            EventModel::Logged(spec_record_of(items[i])),
        ],
        spec_session(items).failure == spec_failure_of(items[i]).unwrap(),
{
    lemma_session_decompose(items, i);
    assert(items.skip(i)[0] == items[i]);
    assert(spec_session(items.skip(i)).events =~= seq![
        EventModel::Logged(spec_record_of(items[i])),
    ]);
}

/// End-of-stream and transport errors both produce exactly one failure signal
/// and no further processing: a transport error at `i` ends the session with
/// a single error record and the `Transport` failure ...
pub proof fn lemma_transport_error_stops(items: Seq<ItemModel>, i: int)
    requires
        0 <= i < items.len(),
        forall|j: int| 0 <= j < i ==> spec_failure_of(items[j]) is None,
        items[i] matches ItemModel::TransportError(_),
    ensures
        spec_session(items).events == spec_events_prefix(items, i) + seq![
            EventModel::Logged(spec_record_of(items[i])),
        ],
        spec_session(items).failure == SessionFailure::Transport,
{
    lemma_terminator_stops(items, i);
}

/// ... and a sequence with no terminating element ends the session with a
/// single closing record and the `StreamEnded` failure, once exhausted.
pub proof fn lemma_end_of_stream_stops(items: Seq<ItemModel>)
    requires
        forall|j: int| 0 <= j < items.len() ==> spec_failure_of(items[j]) is None,
    ensures
        spec_session(items).events == spec_events_prefix(items, items.len() as int) + seq![
            EventModel::Logged(RecordModel::StreamClosed),
        ],
        spec_session(items).failure == SessionFailure::StreamEnded,
{
    lemma_session_decompose(items, items.len() as int);
    assert(items.skip(items.len() as int).len() == 0);
}

/// A frame whose payload tag is absent terminates the session immediately:
/// one error record, the `MalformedFrame` failure, and zero further elements
/// processed, however many remain in the sequence.
pub proof fn lemma_absent_stops(items: Seq<ItemModel>, i: int)
    requires
        0 <= i < items.len(),
        forall|j: int| 0 <= j < i ==> spec_failure_of(items[j]) is None,
        items[i] == ItemModel::Update(MessageModel::Absent),
    ensures
        spec_session(items).events == spec_events_prefix(items, i) + seq![
            EventModel::Logged(RecordModel::MissingPayload),
        ],
        spec_session(items).failure == SessionFailure::MalformedFrame,
{
    lemma_terminator_stops(items, i);
}

/// A ping probe at `i` is answered in place: the reply, with the fixed
/// acknowledgement id, follows the probe's own record and precedes every
/// event of the elements after `i`.
pub proof fn lemma_ping_replied_in_order(items: Seq<ItemModel>, i: int)
    requires
        0 <= i < items.len(),
        forall|j: int| 0 <= j < i ==> spec_failure_of(items[j]) is None,
        items[i] == ItemModel::Update(MessageModel::Ping),
    ensures
        spec_session(items).events == spec_events_prefix(items, i) + seq![
            EventModel::Logged(RecordModel::PingReceived),
            EventModel::Replied(spec_ack_reply()),
        ] + spec_session(items.skip(i + 1)).events,
        spec_session(items).failure == spec_session(items.skip(i + 1)).failure,
{
    lemma_session_decompose(items, i);
    let tail = items.skip(i);
    assert(tail[0] == items[i]);
    assert(spec_item_events(tail[0]) =~= seq![
        EventModel::Logged(RecordModel::PingReceived),
        EventModel::Replied(spec_ack_reply()),
    ]);
    assert(tail.drop_first() =~= items.skip(i + 1));
    assert(spec_session(items).events =~= spec_events_prefix(items, i) + seq![
        EventModel::Logged(RecordModel::PingReceived),
        EventModel::Replied(spec_ack_reply()),
    ] + spec_session(items.skip(i + 1)).events);
}

/// What one drawn element demands of the session: the record to log, the
/// reply to send (before drawing further), and whether — and why — the
/// session must end.
pub struct SessionStep {
    pub record: Record,
    pub reply: Option<KeepaliveReply>,
    pub failure: Option<SessionFailure>,
}

/// Classify one drawn element. Total: every element yields a record; only a
/// ping yields a reply; only a transport error or an absent payload tag ends
/// the session.
pub fn handle_item(item: &StreamItem) -> (st: SessionStep)
    ensures
        record_model(st.record) == spec_record_of(item_model(*item)),
        st.reply == spec_reply_of(item_model(*item)),
        st.failure == spec_failure_of(item_model(*item)),
{
    match item {
        StreamItem::Update(m) => match m {
            InboundMessage::Slot { slot, parent, status } => {
                let parent_or_zero: u64 = match parent {
                    Some(p) => *p,
                    None => 0,
                };
                SessionStep {
                    record: Record::SlotUpdate { slot: *slot, parent: parent_or_zero, status: *status },
                    reply: None,
                    failure: None,
                }
            },
            InboundMessage::Account { pubkey, slot, lamports } => SessionStep {
                record: Record::AccountUpdate {
                    pubkey_b58: bs58_encode(pubkey),
                    slot: *slot,
                    lamports: *lamports,
                },
                reply: None,
                failure: None,
            },
            InboundMessage::Transaction { slot, signature } => SessionStep {
                record: Record::TransactionUpdate {
                    slot: *slot,
                    signature_b58: bs58_encode(signature),
                },
                reply: None,
                failure: None,
            },
            InboundMessage::Block { slot, blockhash } => SessionStep {
                record: Record::BlockUpdate { slot: *slot, blockhash_b58: bs58_encode(blockhash) },
                reply: None,
                failure: None,
            },
            InboundMessage::Ping => SessionStep {
                record: Record::PingReceived,
                reply: Some(KeepaliveReply { id: KEEPALIVE_ACK_ID }),
                failure: None,
            },
            InboundMessage::Pong { id } => SessionStep {
                record: Record::PongReceived { id: *id },
                reply: None,
                failure: None,
            },
            InboundMessage::Unrecognized => SessionStep {
                record: Record::UnknownUpdate,
                reply: None,
                failure: None,
            },
            InboundMessage::Absent => SessionStep {
                record: Record::MissingPayload,
                reply: None,
                failure: Some(SessionFailure::MalformedFrame),
            },
        },
        StreamItem::TransportError(d) => SessionStep {
            record: Record::StreamError { detail: d.clone() },
            reply: None,
            failure: Some(SessionFailure::Transport),
        },
    }
}

/// The step an exhausted inbound sequence demands: log the closing record and
/// end the session with the `StreamEnded` failure.
pub fn end_of_stream_step() -> (st: SessionStep)
    ensures
        record_model(st.record) == RecordModel::StreamClosed,
        st.reply is None,
        st.failure == Some(SessionFailure::StreamEnded),
{
    SessionStep {
        record: Record::StreamClosed,
        reply: None,
        failure: Some(SessionFailure::StreamEnded),
    }
}

/// Everything one session did, in order, and why it ended.
#[derive(PartialEq, Eq, Debug)]
pub struct SessionOutcome {
    pub events: Vec<SessionEvent>,
    pub failure: SessionFailure,
}

/// Run one session over a finite inbound sequence: process the elements in
/// delivery order, stop at the first terminating one (or at exhaustion), and
/// report the failure that triggers the supervisor's reconnect.
pub fn run_session(items: &Vec<StreamItem>) -> (out: SessionOutcome)
    ensures
        events_model(out.events@) == spec_session(items_model(items@)).events,
        out.failure == spec_session(items_model(items@)).failure,
{
    let ghost m = items_model(items@);
    let mut events: Vec<SessionEvent> = Vec::new();
    let mut i: usize = 0;
    while i < items.len()
        invariant
            0 <= i <= items@.len(),
            m == items_model(items@),
            m.len() == items@.len(),
            forall|j: int| 0 <= j < i ==> spec_failure_of(m[j]) is None,
            events_model(events@) == spec_events_prefix(m, i as int),
        decreases items@.len() - i,
    {
        let st = handle_item(&items[i]);
        proof {
            assert(m[i as int] == item_model(items@[i as int]));
        }
        events.push(SessionEvent::Logged(st.record));
        if st.failure.is_some() {
            let f = st.failure.unwrap();
            proof {
                lemma_terminator_stops(m, i as int);
                assert(events_model(events@) =~= spec_events_prefix(m, i as int) + seq![
                    EventModel::Logged(spec_record_of(m[i as int])),
                ]);
            }
            return SessionOutcome { events, failure: f };
        }
        match st.reply {
            Some(r) => {
                events.push(SessionEvent::Replied(r));
                proof {
                    assert(events_model(events@) =~= spec_events_prefix(m, i as int + 1));
                }
            },
            None => {
                proof {
                    assert(events_model(events@) =~= spec_events_prefix(m, i as int + 1));
                }
            },
        }
        i = i + 1;
    }
    events.push(SessionEvent::Logged(Record::StreamClosed));
    proof {
        lemma_end_of_stream_stops(m);
        assert(events_model(events@) =~= spec_events_prefix(m, m.len() as int) + seq![
            EventModel::Logged(RecordModel::StreamClosed),
        ]);
    }
    SessionOutcome { events, failure: SessionFailure::StreamEnded }
}

} // verus!
