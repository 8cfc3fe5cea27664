//! Messages of the Zakura Geyser protocol, version 1.
//!
//! Enumerations travel as plain `i32` fields, so that a value unknown to this version survives.
//! The larger update payloads are reference-counted: a published update is shared between the
//! replay window and every subscriber.

use bytes::Bytes;
use std::sync::Arc;
use vstd::prelude::*;
use vstd::std_specs::convert::FromSpecImpl;

verus! {

/// Kinds of events that a subscription can select.
#[derive(Clone, Copy, Debug, PartialEq, Eq, Structural)]
pub enum EventType {
    Unspecified,
    BlockAccepted,
    BestChainChanged,
    BlockFinalized,
    MempoolChanged,
    Transaction,
    Utxo,
    MempoolTransaction,
}

impl EventType {
    /// The number of an event type on the wire.
    pub open spec fn spec_number(self) -> i32 {
        match self {
            EventType::Unspecified => 0,
            EventType::BlockAccepted => 1,
            EventType::BestChainChanged => 2,
            EventType::BlockFinalized => 3,
            EventType::MempoolChanged => 4,
            EventType::Transaction => 5,
            EventType::Utxo => 6,
            EventType::MempoolTransaction => 7,
        }
    }

    /// The event type with a wire number, if there is one.
    pub open spec fn spec_from_number(number: i32) -> Option<EventType> {
        match number {
            0 => Some(EventType::Unspecified),
            1 => Some(EventType::BlockAccepted),
            2 => Some(EventType::BestChainChanged),
            3 => Some(EventType::BlockFinalized),
            4 => Some(EventType::MempoolChanged),
            5 => Some(EventType::Transaction),
            6 => Some(EventType::Utxo),
            7 => Some(EventType::MempoolTransaction),
            _ => None,
        }
    }

    /// The name of an event type in the protocol definition.
    pub open spec fn spec_name(self) -> Seq<char> {
        match self {
            EventType::Unspecified => "EVENT_TYPE_UNSPECIFIED"@,
            EventType::BlockAccepted => "EVENT_TYPE_BLOCK_ACCEPTED"@,
            EventType::BestChainChanged => "EVENT_TYPE_BEST_CHAIN_CHANGED"@,
            EventType::BlockFinalized => "EVENT_TYPE_BLOCK_FINALIZED"@,
            EventType::MempoolChanged => "EVENT_TYPE_MEMPOOL_CHANGED"@,
            EventType::Transaction => "EVENT_TYPE_TRANSACTION"@,
            EventType::Utxo => "EVENT_TYPE_UTXO"@,
            EventType::MempoolTransaction => "EVENT_TYPE_MEMPOOL_TRANSACTION"@,
        }
    }

    /// The wire number.
    pub fn number(self) -> (number: i32)
        ensures
            number == self.spec_number(),
    {
        match self {
            EventType::Unspecified => 0,
            EventType::BlockAccepted => 1,
            EventType::BestChainChanged => 2,
            EventType::BlockFinalized => 3,
            EventType::MempoolChanged => 4,
            EventType::Transaction => 5,
            EventType::Utxo => 6,
            EventType::MempoolTransaction => 7,
        }
    }

    /// Looks up a wire number.
    pub fn from_number(number: i32) -> (kind: Option<EventType>)
        ensures
            kind == Self::spec_from_number(number),
    {
        match number {
            0 => Some(EventType::Unspecified),
            1 => Some(EventType::BlockAccepted),
            2 => Some(EventType::BestChainChanged),
            3 => Some(EventType::BlockFinalized),
            4 => Some(EventType::MempoolChanged),
            5 => Some(EventType::Transaction),
            6 => Some(EventType::Utxo),
            7 => Some(EventType::MempoolTransaction),
            _ => None,
        }
    }

    /// The name in the protocol definition.
    pub fn as_str_name(self) -> (name: &'static str)
        ensures
            name@ == self.spec_name(),
    {
        match self {
            EventType::Unspecified => "EVENT_TYPE_UNSPECIFIED",
            EventType::BlockAccepted => "EVENT_TYPE_BLOCK_ACCEPTED",
            EventType::BestChainChanged => "EVENT_TYPE_BEST_CHAIN_CHANGED",
            EventType::BlockFinalized => "EVENT_TYPE_BLOCK_FINALIZED",
            EventType::MempoolChanged => "EVENT_TYPE_MEMPOOL_CHANGED",
            EventType::Transaction => "EVENT_TYPE_TRANSACTION",
            EventType::Utxo => "EVENT_TYPE_UTXO",
            EventType::MempoolTransaction => "EVENT_TYPE_MEMPOOL_TRANSACTION",
        }
    }
}

impl From<EventType> for i32 {
    fn from(kind: EventType) -> (number: i32) {
        kind.number()
    }
}

impl FromSpecImpl<EventType> for i32 {
    open spec fn obeys_from_spec() -> bool {
        true
    }

    open spec fn from_spec(kind: EventType) -> i32 {
        kind.spec_number()
    }
}

/// How much of a block an update carries.
#[derive(Clone, Copy, Debug, PartialEq, Eq, Structural)]
pub enum BlockPayload {
    Unspecified,
    Full,
    MetaOnly,
}

impl BlockPayload {
    /// The number of a payload mode on the wire.
    pub open spec fn spec_number(self) -> i32 {
        match self {
            BlockPayload::Unspecified => 0,
            BlockPayload::Full => 1,
            BlockPayload::MetaOnly => 2,
        }
    }

    /// The payload mode with a wire number, if there is one.
    pub open spec fn spec_from_number(number: i32) -> Option<BlockPayload> {
        match number {
            0 => Some(BlockPayload::Unspecified),
            1 => Some(BlockPayload::Full),
            2 => Some(BlockPayload::MetaOnly),
            _ => None,
        }
    }

    /// The wire number.
    pub fn number(self) -> (number: i32)
        ensures
            number == self.spec_number(),
    {
        match self {
            BlockPayload::Unspecified => 0,
            BlockPayload::Full => 1,
            BlockPayload::MetaOnly => 2,
        }
    }

    /// Looks up a wire number.
    pub fn from_number(number: i32) -> (payload: Option<BlockPayload>)
        ensures
            payload == Self::spec_from_number(number),
    {
        match number {
            0 => Some(BlockPayload::Unspecified),
            1 => Some(BlockPayload::Full),
            2 => Some(BlockPayload::MetaOnly),
            _ => None,
        }
    }
}

impl From<BlockPayload> for i32 {
    fn from(payload: BlockPayload) -> (number: i32) {
        payload.number()
    }
}

impl FromSpecImpl<BlockPayload> for i32 {
    open spec fn obeys_from_spec() -> bool {
        true
    }

    open spec fn from_spec(payload: BlockPayload) -> i32 {
        payload.spec_number()
    }
}

/// How firmly the chain holds the block of an update.
#[derive(Clone, Copy, Debug, PartialEq, Eq, Structural)]
pub enum BlockCommitment {
    Unspecified,
    Accepted,
    Finalized,
}

impl BlockCommitment {
    /// The number of a commitment on the wire.
    pub open spec fn spec_number(self) -> i32 {
        match self {
            BlockCommitment::Unspecified => 0,
            BlockCommitment::Accepted => 1,
            BlockCommitment::Finalized => 2,
        }
    }

    /// The commitment with a wire number, if there is one.
    pub open spec fn spec_from_number(number: i32) -> Option<BlockCommitment> {
        match number {
            0 => Some(BlockCommitment::Unspecified),
            1 => Some(BlockCommitment::Accepted),
            2 => Some(BlockCommitment::Finalized),
            _ => None,
        }
    }

    /// The name of a commitment in the protocol definition.
    pub open spec fn spec_name(self) -> Seq<char> {
        match self {
            BlockCommitment::Unspecified => "BLOCK_COMMITMENT_UNSPECIFIED"@,
            BlockCommitment::Accepted => "BLOCK_COMMITMENT_ACCEPTED"@,
            BlockCommitment::Finalized => "BLOCK_COMMITMENT_FINALIZED"@,
        }
    }

    /// Looks up a wire number.
    pub fn from_number(number: i32) -> (commitment: Option<BlockCommitment>)
        ensures
            commitment == Self::spec_from_number(number),
    {
        match number {
            0 => Some(BlockCommitment::Unspecified),
            1 => Some(BlockCommitment::Accepted),
            2 => Some(BlockCommitment::Finalized),
            _ => None,
        }
    }

    /// The name in the protocol definition.
    pub fn as_str_name(self) -> (name: &'static str)
        ensures
            name@ == self.spec_name(),
    {
        match self {
            BlockCommitment::Unspecified => "BLOCK_COMMITMENT_UNSPECIFIED",
            BlockCommitment::Accepted => "BLOCK_COMMITMENT_ACCEPTED",
            BlockCommitment::Finalized => "BLOCK_COMMITMENT_FINALIZED",
        }
    }

    /// The wire number.
    pub fn number(self) -> (number: i32)
        ensures
            number == self.spec_number(),
    {
        match self {
            BlockCommitment::Unspecified => 0,
            BlockCommitment::Accepted => 1,
            BlockCommitment::Finalized => 2,
        }
    }
}

/// What happened to transactions in the mempool.
#[derive(Clone, Copy, Debug, PartialEq, Eq, Structural)]
pub enum MempoolAction {
    Unspecified,
    Added,
    Invalidated,
    Mined,
}

impl MempoolAction {
    /// The number of an action on the wire.
    pub open spec fn spec_number(self) -> i32 {
        match self {
            MempoolAction::Unspecified => 0,
            MempoolAction::Added => 1,
            MempoolAction::Invalidated => 2,
            MempoolAction::Mined => 3,
        }
    }

    /// The wire number.
    pub fn number(self) -> (number: i32)
        ensures
            number == self.spec_number(),
    {
        match self {
            MempoolAction::Unspecified => 0,
            MempoolAction::Added => 1,
            MempoolAction::Invalidated => 2,
            MempoolAction::Mined => 3,
        }
    }
}

/// Seconds and nanoseconds since the Unix epoch.
#[derive(Clone, Copy, Debug, Default, PartialEq, Eq, Structural)]
pub struct Timestamp {
    pub seconds: i64,
    pub nanos: i32,
}

/// One named filter of a subscription request.
#[derive(Clone, Debug, Default)]
pub struct SubscribeRequestFilter {
    /// Wire numbers of the selected event types; empty selects all of them.
    pub event_types: Vec<i32>,
    /// Lowest block height to match.
    pub min_height: Option<u32>,
    /// Transaction IDs to match.
    pub transaction_ids: Vec<String>,
    /// Addresses to match, treated like `address_include`.
    pub transparent_addresses: Vec<String>,
    /// Match when at least one of these addresses occurs.
    pub address_include: Vec<String>,
    /// Match only when none of these addresses occurs.
    pub address_exclude: Vec<String>,
    /// Match only when all of these addresses occur.
    pub address_required: Vec<String>,
    /// Required coinbase flag.
    pub coinbase: Option<bool>,
    /// Required transaction version.
    pub transaction_version: Option<u32>,
    /// Required presence of transparent inputs or outputs.
    pub has_transparent: Option<bool>,
    /// Required presence of Sapling data.
    pub has_sapling: Option<bool>,
    /// Required presence of Orchard data.
    pub has_orchard: Option<bool>,
    /// Lowest transparent input or output total to match.
    pub min_value_zat: Option<u64>,
    /// Wire number of the block payload mode.
    pub block_payload: i32,
}

/// An application-level keepalive sent by a subscriber.
#[derive(Clone, Copy, Debug, Default, PartialEq, Eq, Structural)]
pub struct SubscribeRequestPing {
    pub id: i32,
}

/// A request on the subscriber's half of the stream.
#[derive(Clone, Debug, Default)]
pub struct SubscribeRequest {
    /// Wire numbers of event types selected without a name.
    pub event_types: Vec<i32>,
    /// First retained block height to replay; read on the first request only.
    pub from_height: Option<u32>,
    /// Named filters.
    pub filters: Vec<(String, SubscribeRequestFilter)>,
    /// Makes the request a keepalive instead of a filter.
    pub ping: Option<SubscribeRequestPing>,
}

/// One update delivered to a subscriber.
#[derive(Clone, Debug, Default)]
pub struct SubscribeUpdate {
    pub schema_version: u32,
    /// Identifies the run of the server that assigned `sequence`.
    pub session_id: Bytes,
    /// Position in the order in which the server published its updates.
    pub sequence: u64,
    pub observed_at: Option<Timestamp>,
    pub event_type: i32,
    /// Names of the filters that matched.
    pub filters: Vec<String>,
    /// Sequence number of the node event behind the update.
    pub source_sequence: u64,
    pub update: Option<Update>,
}

/// The payload of an update.
#[derive(Clone, Debug)]
pub enum Update {
    Block(BlockUpdate),
    BestChain(Arc<BestChainUpdate>),
    Mempool(Arc<MempoolUpdate>),
    Transaction(Arc<TransactionUpdate>),
    Utxo(Arc<UtxoUpdate>),
    MempoolTransaction(Arc<MempoolTransactionUpdate>),
    Ping(PingUpdate),
    Pong(PongUpdate),
}

/// An accepted or finalized block.
#[derive(Clone, Debug, Default)]
pub struct BlockUpdate {
    pub height: u32,
    pub hash: String,
    /// Consensus encoding of the block; empty in metadata-only updates.
    pub block: Bytes,
    pub receipt_order: u64,
    pub finalized: bool,
    pub payload: i32,
}

/// A block on the best chain.
#[derive(Clone, Debug, Default)]
pub struct CanonicalBlock {
    pub height: u32,
    pub hash: String,
    pub previous_block_hash: String,
}

/// The best chain grew by one block.
#[derive(Clone, Debug, Default)]
pub struct BestChainGrow {
    pub previous_block_hash: String,
    pub transaction_ids: Vec<String>,
}

/// The best chain switched to another branch.
#[derive(Clone, Debug, Default)]
pub struct BestChainReset {
    pub disconnected_blocks: Vec<CanonicalBlock>,
    pub connected_blocks: Vec<CanonicalBlock>,
    pub diff_complete: bool,
}

/// How the best chain changed.
#[derive(Clone, Debug)]
pub enum BestChainUpdateChange {
    Grow(BestChainGrow),
    Reset(BestChainReset),
}

/// The best chain has a new tip.
#[derive(Clone, Debug, Default)]
pub struct BestChainUpdate {
    pub height: u32,
    pub hash: String,
    pub change: Option<BestChainUpdateChange>,
}

/// Transactions entered or left the mempool.
#[derive(Clone, Debug, Default)]
pub struct MempoolUpdate {
    pub action: i32,
    pub transaction_ids: Vec<String>,
}

/// A reference to one transaction output.
#[derive(Clone, Debug, Default)]
pub struct Outpoint {
    pub transaction_id: String,
    pub output_index: u32,
}

/// A transparent input that spends a previous output.
#[derive(Clone, Debug, Default)]
pub struct TransparentPrevoutInput {
    pub previous_output: Option<Outpoint>,
    pub unlock_script: Bytes,
    pub previous_value_zat: Option<u64>,
    pub previous_lock_script: Option<Bytes>,
    pub previous_address: Option<String>,
    pub previous_height: Option<u32>,
    pub previous_from_coinbase: Option<bool>,
}

/// A transparent input that creates coins.
#[derive(Clone, Debug, Default)]
pub struct TransparentCoinbaseInput {
    pub height: u32,
    pub data: Bytes,
}

/// The two forms of a transparent input.
#[derive(Clone, Debug)]
pub enum TransparentInputKind {
    Prevout(TransparentPrevoutInput),
    Coinbase(TransparentCoinbaseInput),
}

/// A decoded transparent input.
#[derive(Clone, Debug, Default)]
pub struct TransparentInput {
    pub input_index: u32,
    pub sequence: u32,
    pub input: Option<TransparentInputKind>,
}

/// A decoded transparent output.
#[derive(Clone, Debug, Default)]
pub struct TransparentOutput {
    pub output_index: u32,
    pub value_zat: u64,
    pub lock_script: Bytes,
    pub address: Option<String>,
}

/// A transaction of an accepted or finalized block.
#[derive(Clone, Debug, Default)]
pub struct TransactionUpdate {
    pub transaction_id: String,
    pub unmined_transaction_id: String,
    pub auth_digest: Option<String>,
    /// Consensus encoding of the transaction.
    pub transaction: Bytes,
    pub height: u32,
    pub block_hash: String,
    pub transaction_index: u32,
    pub commitment: i32,
    pub coinbase: bool,
    pub transparent_inputs: Vec<TransparentInput>,
    pub transparent_outputs: Vec<TransparentOutput>,
    pub version: u32,
    pub lock_time: u32,
    pub lock_time_is_time: bool,
    pub expiry_height: Option<u32>,
    pub network: String,
    pub transparent_input_value_zat: Option<u64>,
    pub transparent_output_value_zat: u64,
    pub has_transparent: bool,
    pub has_sapling: bool,
    pub has_orchard: bool,
}

/// A transaction that entered the mempool.
#[derive(Clone, Debug, Default)]
pub struct MempoolTransactionUpdate {
    pub transaction_id: String,
    pub unmined_transaction_id: String,
    pub auth_digest: Option<String>,
    /// Consensus encoding of the transaction.
    pub transaction: Bytes,
    pub network: String,
    pub transparent_inputs: Vec<TransparentInput>,
    pub transparent_outputs: Vec<TransparentOutput>,
    pub version: u32,
    pub lock_time: u32,
    pub lock_time_is_time: bool,
    pub expiry_height: Option<u32>,
    pub transparent_input_value_zat: Option<u64>,
    pub transparent_output_value_zat: u64,
    pub miner_fee_zat: u64,
    pub admitted_at: Option<Timestamp>,
    pub admitted_height: Option<u32>,
    pub conventional_actions: u32,
    pub unpaid_actions: u32,
    pub legacy_sigop_count: u32,
    pub p2sh_sigop_count: u32,
    /// The single-precision fee weight ratio, as its IEEE 754 bit pattern.
    pub fee_weight_ratio_bits: u32,
    pub coinbase: bool,
    pub has_transparent: bool,
    pub has_sapling: bool,
    pub has_orchard: bool,
}

/// A transparent output that came into existence.
#[derive(Clone, Debug, Default)]
pub struct UtxoCreated {
    pub outpoint: Option<Outpoint>,
    pub value_zat: u64,
    pub lock_script: Bytes,
    pub address: Option<String>,
}

/// A transparent output that was spent.
#[derive(Clone, Debug, Default)]
pub struct UtxoSpent {
    pub outpoint: Option<Outpoint>,
    pub input_index: u32,
    pub unlock_script: Bytes,
    pub sequence: u32,
    pub previous_value_zat: Option<u64>,
    pub previous_lock_script: Option<Bytes>,
    pub previous_address: Option<String>,
    pub previous_height: Option<u32>,
    pub previous_from_coinbase: Option<bool>,
}

/// The two effects on the set of unspent transparent outputs.
#[derive(Clone, Debug)]
pub enum UtxoChangeKind {
    Created(UtxoCreated),
    Spent(UtxoSpent),
}

/// One effect on the set of unspent transparent outputs.
#[derive(Clone, Debug, Default)]
pub struct UtxoChange {
    pub change: Option<UtxoChangeKind>,
}

/// The transparent outputs that one transaction spends and creates, in that order.
#[derive(Clone, Debug, Default)]
pub struct UtxoUpdate {
    pub height: u32,
    pub block_hash: String,
    pub transaction_id: String,
    pub transaction_index: u32,
    pub commitment: i32,
    pub changes: Vec<UtxoChange>,
    pub coinbase: bool,
    pub version: u32,
    pub has_transparent: bool,
    pub has_sapling: bool,
    pub has_orchard: bool,
    pub transparent_input_value_zat: Option<u64>,
    pub transparent_output_value_zat: u64,
}

/// A keepalive sent by the server.
#[derive(Clone, Copy, Debug, Default, PartialEq, Eq, Structural)]
pub struct PingUpdate {
    pub id: i32,
}

/// The answer to a subscriber's keepalive.
#[derive(Clone, Copy, Debug, Default, PartialEq, Eq, Structural)]
pub struct PongUpdate {
    pub id: i32,
}

/// The height range that the replay window holds.
#[derive(Clone, Copy, Debug, Default, PartialEq, Eq, Structural)]
pub struct SubscribeReplayInfoResponse {
    pub first_available_height: Option<u32>,
    pub latest_height: Option<u32>,
    pub retained_block_capacity: u32,
}

/// The answer to the unary ping.
#[derive(Clone, Copy, Debug, Default, PartialEq, Eq, Structural)]
pub struct PongResponse {
    pub count: i32,
}

/// Versions of the server and of the interfaces behind it.
#[derive(Clone, Debug, Default)]
pub struct GetVersionResponse {
    pub version: String,
    pub interface_version: u32,
    pub event_schema_version: u32,
}

} // verus!
