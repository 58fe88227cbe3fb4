//! The inbound side of one live subscription: the tagged union of messages
//! the feed delivers, the elements a session draws from its stream, and the
//! keepalive reply sent back when the server probes.

use vstd::prelude::*;

verus! {

/// Acknowledgement id carried by every keepalive reply; the protocol fixes it.
pub const KEEPALIVE_ACK_ID: i32 = 1;

/// Confirmation status attached to a slot update by the server.
#[derive(Clone, Copy, PartialEq, Eq, Structural, Debug)]
pub enum SlotStatus {
    Processed,
    Confirmed,
    Finalized,
    FirstShredReceived,
    Completed,
    CreatedBank,
    Dead,
}

/// One inbound message, already stripped to the fields a log line needs.
/// `Unrecognized` stands for any payload kind this client does not know;
/// `Absent` for a frame whose payload tag is missing altogether.
pub enum InboundMessage {
    Slot { slot: u64, parent: Option<u64>, status: SlotStatus },
    Account { pubkey: Vec<u8>, slot: u64, lamports: u64 },
    Transaction { slot: u64, signature: Vec<u8> },
    Block { slot: u64, blockhash: Vec<u8> },
    Ping,
    Pong { id: i32 },
    Unrecognized,
    Absent,
}

/// Mathematical image of an [`InboundMessage`]: byte vectors become byte
/// sequences.
#[verifier::ext_equal]
pub enum MessageModel {
    Slot { slot: u64, parent: Option<u64>, status: SlotStatus },
    Account { pubkey: Seq<u8>, slot: u64, lamports: u64 },
    Transaction { slot: u64, signature: Seq<u8> },
    Block { slot: u64, blockhash: Seq<u8> },
    Ping,
    Pong { id: i32 },
    Unrecognized,
    Absent,
}

pub open spec fn message_model(m: InboundMessage) -> MessageModel {
    match m {
        InboundMessage::Slot { slot, parent, status } => MessageModel::Slot { slot, parent, status },
        InboundMessage::Account { pubkey, slot, lamports } => MessageModel::Account {
            pubkey: pubkey@,
            slot,
            lamports,
        },
        InboundMessage::Transaction { slot, signature } => MessageModel::Transaction {
            slot,
            signature: signature@,
        },
        InboundMessage::Block { slot, blockhash } => MessageModel::Block {
            slot,
            blockhash: blockhash@,
        },
        InboundMessage::Ping => MessageModel::Ping,
        InboundMessage::Pong { id } => MessageModel::Pong { id },
        InboundMessage::Unrecognized => MessageModel::Unrecognized,
        InboundMessage::Absent => MessageModel::Absent,
    }
}

/// One element drawn from the inbound stream: either a delivered message or a
/// transport-level read failure (with its description). End of stream is the
/// exhaustion of the sequence itself, not an element.
pub enum StreamItem {
    Update(InboundMessage),
    TransportError(String),
}

/// Mathematical image of a [`StreamItem`].
#[verifier::ext_equal]
pub enum ItemModel {
    Update(MessageModel),
    TransportError(Seq<char>),
}

pub open spec fn item_model(it: StreamItem) -> ItemModel {
    match it {
        StreamItem::Update(m) => ItemModel::Update(message_model(m)),
        StreamItem::TransportError(d) => ItemModel::TransportError(d@),
    }
}

pub open spec fn items_model(s: Seq<StreamItem>) -> Seq<ItemModel> {
    s.map_values(|it: StreamItem| item_model(it))
}

/// The outbound keepalive reply a ping probe triggers.
#[derive(Clone, Copy, PartialEq, Eq, Structural, Debug)]
pub struct KeepaliveReply {
    pub id: i32,
}

/// The one reply this client ever sends: the fixed acknowledgement id.
pub open spec fn spec_ack_reply() -> KeepaliveReply {
    KeepaliveReply { id: KEEPALIVE_ACK_ID }
}

} // verus!
