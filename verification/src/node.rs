//! What the node reports to the plugin, as plain data.
//!
//! Hashes are in internal byte order. Scripts, coinbase data and consensus encodings are raw
//! bytes.

use crate::chain::{displayed_hash, hex_digit, transaction_hash_text, NetworkKind, MAX_SCRIPT_BYTES};
use crate::proto::Timestamp;
use crate::text::{decimal, digit, decimal_text, join2, join3};
use bytes::Bytes;
use vstd::hash_map::StringHashMap;
use vstd::prelude::*;

verus! {

/// The network that an event belongs to.
#[derive(Clone, Debug)]
pub struct ChainNetwork {
    /// The name of the network.
    pub name: String,
    /// The kind of the network's transparent addresses.
    pub address_kind: NetworkKind,
}

/// A reference to an output of an earlier transaction.
#[derive(Clone, Copy, Debug)]
pub struct ChainOutpoint {
    pub hash: [u8; 32],
    pub index: u32,
}

/// A transparent input.
#[derive(Clone, Debug)]
pub enum ChainInput {
    /// Spends a previous output.
    Prevout { outpoint: ChainOutpoint, unlock_script: Vec<u8>, sequence: u32 },
    /// Creates coins.
    Coinbase { height: u32, data: Vec<u8>, sequence: u32 },
}

/// A transparent output.
#[derive(Clone, Debug)]
pub struct ChainOutput {
    pub value_zat: u64,
    pub lock_script: Vec<u8>,
}

impl ChainOutput {
    /// Whether the lock script is short enough to be examined for an address.
    pub open spec fn well_formed(self) -> bool {
        self.lock_script@.len() <= MAX_SCRIPT_BYTES
    }
}

/// A previous output together with where it came from.
#[derive(Clone, Debug)]
pub struct SpentOutput {
    pub output: ChainOutput,
    /// Height of the block that created the output.
    pub height: u32,
    /// Whether a coinbase transaction created the output.
    pub from_coinbase: bool,
}

/// The text that identifies an output: the displayed transaction hash and the output index.
pub open spec fn outpoint_key(hash: Seq<u8>, index: u32) -> Seq<char> {
    displayed_hash(hash) + ":"@ + decimal(index as nat)
}

/// Renders the identifying text of an output.
pub(crate) fn outpoint_key_text(outpoint: &ChainOutpoint) -> (key: String)
    ensures
        key@ == outpoint_key(outpoint.hash@, outpoint.index),
{
    let hash = transaction_hash_text(&outpoint.hash);
    let index = decimal_text(outpoint.index as u64);
    join3(hash.as_str(), ":", index.as_str())
}

/// The outputs that a block spends, as far as the node has verified them.
pub struct SpentOutputs {
    entries: StringHashMap<SpentOutput>,
}

impl View for SpentOutputs {
    type V = Map<Seq<char>, SpentOutput>;

    closed spec fn view(&self) -> Map<Seq<char>, SpentOutput> {
        self.entries@
    }
}

impl SpentOutputs {
    /// Whether every lock script is short enough to be examined for an address.
    pub open spec fn well_formed(self) -> bool {
        forall|key: Seq<char>| #[trigger]
            self@.contains_key(key) ==> self@[key].output.well_formed()
    }

    /// The output behind a reference, if the node has verified it.
    pub open spec fn spent(self, outpoint: ChainOutpoint) -> Option<SpentOutput> {
        let key = outpoint_key(outpoint.hash@, outpoint.index);
        if self@.contains_key(key) {
            Some(self@[key])
        } else {
            None
        }
    }

    /// Creates an empty collection.
    pub fn new() -> (outputs: Self)
        ensures
            outputs@ == Map::<Seq<char>, SpentOutput>::empty(),
            outputs.well_formed(),
    {
        SpentOutputs { entries: StringHashMap::new() }
    }

    /// Records an output, in place of an earlier one with the same reference.
    pub fn insert(&mut self, outpoint: ChainOutpoint, output: SpentOutput)
        ensures
            final(self)@ == old(self)@.insert(outpoint_key(outpoint.hash@, outpoint.index), output),
            old(self).well_formed() && output.output.well_formed() ==> final(self).well_formed(),
    {
        self.entries.insert(outpoint_key_text(&outpoint), output);
        proof {
            assert forall|key: Seq<char>|
                old(self).well_formed() && output.output.well_formed() && #[trigger]
                self@.contains_key(key) implies self@[key].output.well_formed() by {
                if key != outpoint_key(outpoint.hash@, outpoint.index) {
                    assert(old(self)@.contains_key(key));
                }
            }
        }
    }

    /// Looks up an output.
    pub fn get(&self, outpoint: &ChainOutpoint) -> (output: Option<&SpentOutput>)
        ensures
            match output {
                Some(output) => self.spent(*outpoint) == Some(*output),
                None => self.spent(*outpoint) is None,
            },
    {
        let key = outpoint_key_text(outpoint);
        self.entries.get(key.as_str())
    }
}

/// A transaction with its identifiers and its consensus encoding.
#[derive(Debug)]
pub struct ChainTransaction {
    pub id: [u8; 32],
    /// The authorizing data digest, for transaction versions that have one.
    pub auth_digest: Option<[u8; 32]>,
    /// The consensus encoding, or the reason why there is none.
    pub encoded: Result<Bytes, String>,
    pub version: u32,
    pub lock_time: u32,
    pub lock_time_is_time: bool,
    pub expiry_height: Option<u32>,
    pub inputs: Vec<ChainInput>,
    pub outputs: Vec<ChainOutput>,
    pub has_sapling: bool,
    pub has_orchard: bool,
}

impl ChainTransaction {
    /// Whether every lock script is short enough to be examined for an address.
    pub open spec fn well_formed(self) -> bool {
        forall|i: int| 0 <= i < self.outputs@.len() ==> (#[trigger] self.outputs@[i]).well_formed()
    }

    /// Whether the only input creates coins.
    pub open spec fn spec_is_coinbase(self) -> bool {
        self.inputs@.len() == 1 && self.inputs@[0] is Coinbase
    }

    /// Whether there is a transparent input or output.
    pub open spec fn spec_has_transparent(self) -> bool {
        self.inputs@.len() > 0 || self.outputs@.len() > 0
    }

    /// Whether this is a coinbase transaction.
    pub fn is_coinbase(&self) -> (coinbase: bool)
        ensures
            coinbase == self.spec_is_coinbase(),
    {
        self.inputs.len() == 1 && matches!(self.inputs[0], ChainInput::Coinbase { .. })
    }

    /// Whether the transaction moves transparent funds.
    pub fn has_transparent_inputs_or_outputs(&self) -> (transparent: bool)
        ensures
            transparent == self.spec_has_transparent(),
    {
        self.inputs.len() > 0 || self.outputs.len() > 0
    }
}

/// A block that the node accepted or finalized.
pub struct BlockEvent {
    pub network: ChainNetwork,
    pub height: u32,
    pub hash: [u8; 32],
    /// Position in the order in which the node received its blocks.
    pub receipt_order: u64,
    /// The consensus encoding, or the reason why there is none.
    pub encoded: Result<Bytes, String>,
    pub transactions: Vec<ChainTransaction>,
    pub spent_outputs: SpentOutputs,
}

impl BlockEvent {
    /// Whether every lock script is short enough to be examined for an address.
    pub open spec fn well_formed(self) -> bool {
        &&& self.spent_outputs.well_formed()
        &&& forall|i: int|
            0 <= i < self.transactions@.len() ==> (#[trigger] self.transactions@[i]).well_formed()
    }
}

/// A block on the best chain.
#[derive(Clone, Copy, Debug)]
pub struct ChainBlock {
    pub height: u32,
    pub hash: [u8; 32],
    pub previous_block_hash: [u8; 32],
}

/// A change of the best chain.
#[derive(Clone, Debug)]
pub enum BestChainChange {
    /// One block was added to the tip.
    Grow {
        height: u32,
        hash: [u8; 32],
        previous_block_hash: [u8; 32],
        transaction_ids: Vec<[u8; 32]>,
    },
    /// The tip moved to another branch.
    Reset {
        height: u32,
        hash: [u8; 32],
        disconnected_blocks: Vec<ChainBlock>,
        connected_blocks: Vec<ChainBlock>,
        diff_complete: bool,
    },
}

/// What happened to the transactions of a mempool event.
#[derive(Clone, Copy, Debug, PartialEq, Eq, Structural)]
pub enum MempoolEventKind {
    Added,
    Invalidated,
    Mined,
}

/// The identifier of a transaction outside a block.
#[derive(Clone, Copy, Debug)]
pub struct UnminedTransactionId {
    pub mined_id: [u8; 32],
    pub auth_digest: Option<[u8; 32]>,
}

/// A transaction that the node verified for its mempool.
#[derive(Debug)]
pub struct VerifiedTransaction {
    pub transaction: ChainTransaction,
    pub miner_fee_zat: u64,
    pub legacy_sigop_count: u32,
    pub p2sh_sigop_count: u32,
    pub conventional_actions: u32,
    pub unpaid_actions: u32,
    /// The single-precision fee weight ratio, as its IEEE 754 bit pattern.
    pub fee_weight_ratio_bits: u32,
    pub admitted_at: Option<Timestamp>,
    pub admitted_height: Option<u32>,
    /// The outputs that the inputs spend, in the order of the inputs.
    pub spent_outputs: Vec<ChainOutput>,
}

impl VerifiedTransaction {
    /// Whether every lock script is short enough to be examined for an address.
    pub open spec fn well_formed(self) -> bool {
        &&& self.transaction.well_formed()
        &&& forall|i: int|
            0 <= i < self.spent_outputs@.len() ==> (
            #[trigger] self.spent_outputs@[i]).well_formed()
    }
}

/// Transactions that entered or left the mempool.
#[derive(Debug)]
pub struct MempoolEvent {
    pub network: ChainNetwork,
    pub kind: MempoolEventKind,
    pub transaction_ids: Vec<UnminedTransactionId>,
    pub transactions: Vec<VerifiedTransaction>,
}

impl MempoolEvent {
    /// Whether every lock script is short enough to be examined for an address.
    pub open spec fn well_formed(self) -> bool {
        forall|i: int|
            0 <= i < self.transactions@.len() ==> (#[trigger] self.transactions@[i]).well_formed()
    }
}

/// What an event reports.
pub enum PluginEvent {
    BlockAccepted(BlockEvent),
    BlockFinalized(BlockEvent),
    BestChainChanged(BestChainChange),
    MempoolChanged(MempoolEvent),
}

impl PluginEvent {
    /// Whether every lock script is short enough to be examined for an address.
    pub open spec fn well_formed(self) -> bool {
        match self {
            PluginEvent::BlockAccepted(block) => block.well_formed(),
            PluginEvent::BlockFinalized(block) => block.well_formed(),
            PluginEvent::BestChainChanged(_) => true,
            PluginEvent::MempoolChanged(change) => change.well_formed(),
        }
    }
}

/// A point in time after the Unix epoch.
#[derive(Clone, Copy, Debug, PartialEq, Eq, Structural)]
pub struct SinceEpoch {
    pub seconds: u64,
    pub nanos: u32,
}

/// One event of the node.
pub struct EventEnvelope {
    pub schema_version: u32,
    /// Identifies the run of the node.
    pub session_id: u128,
    /// Position in the order of the node's events.
    pub sequence: u64,
    /// When the node observed the event; absent for a clock set before the Unix epoch.
    pub observed_at: Option<SinceEpoch>,
    pub payload: PluginEvent,
}

impl EventEnvelope {
    /// Whether the time of observation is a proper fraction of seconds and every lock script is
    /// short enough to be examined for an address.
    pub open spec fn well_formed(self) -> bool {
        &&& self.payload.well_formed()
        &&& self.observed_at is Some ==> self.observed_at->0.nanos < 1_000_000_000
    }
}

/// Why the plugin refused an operation.
#[derive(Clone, Debug)]
pub enum PluginError {
    /// The position of a transaction in its block does not fit the protocol.
    TransactionIndexRange,
    /// The position of an input does not fit the protocol.
    InputIndexRange,
    /// The position of an output does not fit the protocol.
    OutputIndexRange,
    /// The total of the inputs does not fit the protocol.
    InputValueRange,
    /// The total of the outputs does not fit the protocol.
    OutputValueRange,
    /// There is no consensus encoding of a transaction.
    Transaction(String),
    /// There is no consensus encoding of a block.
    Block(String),
    /// The plugin has been loaded before.
    AlreadyRunning,
    /// Every sequence number has been assigned.
    SequenceExhausted,
}

impl PluginError {
    /// The text of an error.
    pub open spec fn spec_message(self) -> Seq<char> {
        match self {
            PluginError::TransactionIndexRange
                => "transaction index exceeds the gRPC protocol's u32 range"@,
            PluginError::InputIndexRange => "input index exceeds the gRPC protocol's u32 range"@,
            PluginError::OutputIndexRange => "output index exceeds the gRPC protocol's u32 range"@,
            PluginError::InputValueRange
                => "transparent input value exceeds the gRPC protocol's u64 range"@,
            PluginError::OutputValueRange
                => "transparent output value exceeds the gRPC protocol's u64 range"@,
            PluginError::Transaction(reason) => "failed to encode transaction: "@ + reason@,
            PluginError::Block(reason) => "failed to encode block: "@ + reason@,
            PluginError::AlreadyRunning => "Zakura gRPC plugin is already running"@,
            PluginError::SequenceExhausted => "Zakura gRPC update sequence exhausted"@,
        }
    }

    /// Describes the error.
    pub fn message(&self) -> (message: String)
        ensures
            message@ == self.spec_message(),
    {
        match self {
            PluginError::TransactionIndexRange
                => "transaction index exceeds the gRPC protocol's u32 range".to_owned(),
            PluginError::InputIndexRange
                => "input index exceeds the gRPC protocol's u32 range".to_owned(),
            PluginError::OutputIndexRange
                => "output index exceeds the gRPC protocol's u32 range".to_owned(),
            PluginError::InputValueRange
                => "transparent input value exceeds the gRPC protocol's u64 range".to_owned(),
            PluginError::OutputValueRange
                => "transparent output value exceeds the gRPC protocol's u64 range".to_owned(),
            PluginError::Transaction(reason) => join2(
                "failed to encode transaction: ",
                reason.as_str(),
            ),
            PluginError::Block(reason) => join2("failed to encode block: ", reason.as_str()),
            PluginError::AlreadyRunning => "Zakura gRPC plugin is already running".to_owned(),
            PluginError::SequenceExhausted => "Zakura gRPC update sequence exhausted".to_owned(),
        }
    }
}

/// Different numbers have different digits.
proof fn lemma_decimal_is_injective(left: nat, right: nat)
    requires
        decimal(left) == decimal(right),
    ensures
        left == right,
    decreases left,
{
    let a = decimal(left);
    let b = decimal(right);
    assert(a.last() == digit(left % 10));
    assert(b.last() == digit(right % 10));
    if left >= 10 && right >= 10 {
        assert(a.drop_last() =~= decimal(left / 10));
        assert(b.drop_last() =~= decimal(right / 10));
        lemma_decimal_is_injective(left / 10, right / 10);
    } else if left >= 10 {
        assert(decimal(left / 10).len() > 0);
    } else if right >= 10 {
        assert(decimal(right / 10).len() > 0);
    }
}

/// Different hashes are displayed differently.
proof fn lemma_displayed_hash_is_injective(left: Seq<u8>, right: Seq<u8>)
    requires
        left.len() == right.len(),
        displayed_hash(left) == displayed_hash(right),
    ensures
        left == right,
{
    let n = left.len() as int;
    assert forall|i: int| 0 <= i < n implies left[i] == right[i] by {
        let k = n - 1 - i;
        let a = left.reverse()[k];
        let b = right.reverse()[k];
        assert(displayed_hash(left)[2 * k] == hex_digit((a / 16) as nat));
        assert(displayed_hash(right)[2 * k] == hex_digit((b / 16) as nat));
        assert(displayed_hash(left)[2 * k + 1] == hex_digit((a % 16) as nat));
        assert(displayed_hash(right)[2 * k + 1] == hex_digit((b % 16) as nat));
        assert(a / 16 == b / 16);
        assert(a % 16 == b % 16);
        assert(a == 16 * (a / 16) + a % 16);
        assert(b == 16 * (b / 16) + b % 16);
    }
    assert(left =~= right);
}

/// Different outputs have different identifying texts, so that recording one never replaces
/// another.
pub proof fn law_outpoint_keys_are_distinct(
    left_hash: Seq<u8>,
    left_index: u32,
    right_hash: Seq<u8>,
    right_index: u32,
)
    requires
        left_hash.len() == 32,
        right_hash.len() == 32,
        outpoint_key(left_hash, left_index) == outpoint_key(right_hash, right_index),
    ensures
        left_hash == right_hash,
        left_index == right_index,
{
    reveal_strlit(":");
    let left = outpoint_key(left_hash, left_index);
    let right = outpoint_key(right_hash, right_index);
    assert(left.take(64) =~= displayed_hash(left_hash));
    assert(right.take(64) =~= displayed_hash(right_hash));
    assert(left.skip(65) =~= decimal(left_index as nat));
    assert(right.skip(65) =~= decimal(right_index as nat));
    lemma_displayed_hash_is_injective(left_hash, right_hash);
    lemma_decimal_is_injective(left_index as nat, right_index as nat);
}

} // verus!
