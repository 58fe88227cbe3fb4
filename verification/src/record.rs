//! Observability records: one structured value per inbound message or session
//! boundary. The host renders each record as one human-readable log line; the
//! library only fixes its content and severity.

use vstd::prelude::*;
use crate::message::SlotStatus;

verus! {

/// Severity of a record, the only machine-readable part of the log contract.
#[derive(Clone, Copy, PartialEq, Eq, Structural, Debug)]
pub enum Severity {
    Info,
    Warning,
    Error,
}

/// One log record of a session. Binary identifiers arrive already rendered in
/// base58, so a record is plain text and numbers.
#[derive(PartialEq, Eq, Debug)]
pub enum Record {
    SlotUpdate { slot: u64, parent: u64, status: SlotStatus },
    AccountUpdate { pubkey_b58: String, slot: u64, lamports: u64 },
    TransactionUpdate { slot: u64, signature_b58: String },
    BlockUpdate { slot: u64, blockhash_b58: String },
    PingReceived,
    PongReceived { id: i32 },
    UnknownUpdate,
    MissingPayload,
    StreamError { detail: String },
    StreamClosed,
}

/// Mathematical image of a [`Record`]: strings become character sequences.
#[verifier::ext_equal]
pub enum RecordModel {
    SlotUpdate { slot: u64, parent: u64, status: SlotStatus },
    AccountUpdate { pubkey_b58: Seq<char>, slot: u64, lamports: u64 },
    TransactionUpdate { slot: u64, signature_b58: Seq<char> },
    BlockUpdate { slot: u64, blockhash_b58: Seq<char> },
    PingReceived,
    PongReceived { id: i32 },
    UnknownUpdate,
    MissingPayload,
    StreamError { detail: Seq<char> },
    StreamClosed,
}

pub open spec fn record_model(r: Record) -> RecordModel {
    match r {
        Record::SlotUpdate { slot, parent, status } => RecordModel::SlotUpdate {
            slot,
            parent,
            status,
        },
        Record::AccountUpdate { pubkey_b58, slot, lamports } => RecordModel::AccountUpdate {
            pubkey_b58: pubkey_b58@,
            slot,
            lamports,
        },
        Record::TransactionUpdate { slot, signature_b58 } => RecordModel::TransactionUpdate {
            slot,
            signature_b58: signature_b58@,
        },
        Record::BlockUpdate { slot, blockhash_b58 } => RecordModel::BlockUpdate {
            slot,
            blockhash_b58: blockhash_b58@,
        },
        Record::PingReceived => RecordModel::PingReceived,
        Record::PongReceived { id } => RecordModel::PongReceived { id },
        Record::UnknownUpdate => RecordModel::UnknownUpdate,
        Record::MissingPayload => RecordModel::MissingPayload,
        Record::StreamError { detail } => RecordModel::StreamError { detail: detail@ },
        Record::StreamClosed => RecordModel::StreamClosed,
    }
}

/// Severity of each record: updates and keepalives inform, unknown payload
/// kinds and a closing stream warn, a malformed frame or a transport failure
/// is an error.
pub open spec fn spec_severity(r: RecordModel) -> Severity {
    match r {
        RecordModel::SlotUpdate { .. } => Severity::Info,
        RecordModel::AccountUpdate { .. } => Severity::Info,
        RecordModel::TransactionUpdate { .. } => Severity::Info,
        RecordModel::BlockUpdate { .. } => Severity::Info,
        RecordModel::PingReceived => Severity::Info,
        RecordModel::PongReceived { .. } => Severity::Info,
        RecordModel::UnknownUpdate => Severity::Warning,
        RecordModel::MissingPayload => Severity::Error,
        RecordModel::StreamError { .. } => Severity::Error,
        RecordModel::StreamClosed => Severity::Warning,
    }
}

impl Record {
    /// Severity the host must log this record with.
    pub fn severity(&self) -> (s: Severity)
        ensures
            s == spec_severity(record_model(*self)),
    {
        match self {
            Record::UnknownUpdate => Severity::Warning,
            Record::StreamClosed => Severity::Warning,
            Record::MissingPayload => Severity::Error,
            Record::StreamError { .. } => Severity::Error,
            _ => Severity::Info,
        }
    }
}

} // verus!
