//! Turns node events into protocol updates.

use crate::buffer::bytes_contents;
use crate::chain::{auth_digest_text, block_hash_text, displayed_hash, transaction_hash_text};
use crate::equality::{same_outcome, same_update, same_updates};
use crate::node::{
    BestChainChange, BlockEvent, ChainBlock, ChainNetwork, ChainTransaction, EventEnvelope,
    MempoolEvent, MempoolEventKind, PluginError, PluginEvent, SinceEpoch, VerifiedTransaction,
};
use crate::proto::{
    BestChainGrow, BestChainReset, BestChainUpdate, BestChainUpdateChange, BlockCommitment,
    BlockPayload, BlockUpdate, CanonicalBlock, EventType, MempoolAction, MempoolTransactionUpdate,
    MempoolUpdate, SubscribeUpdate, Timestamp, TransactionUpdate, Update, UtxoUpdate,
};
use crate::text::{join2, text_view, texts};
use crate::transparent::{
    encode_transparent_updates, encodes_changes, encodes_inputs, encodes_outputs, input_total,
    lemma_one_encoding_of_changes, lemma_one_encoding_of_inputs, lemma_one_encoding_of_outputs,
    output_total, spent_count, transparent_error, PreviousOutputs, INDEX_LIMIT,
};
use bytes::Bytes;
use std::sync::Arc;
use vstd::prelude::*;

verus! {

/// Which updates an event is turned into, besides the one that summarizes it.
#[derive(Clone, Copy, Debug, PartialEq, Eq, Structural)]
pub struct EncodingOptions {
    /// One update for each transaction of a block.
    pub transaction_updates: bool,
    /// One update for each transaction of a block that spends or creates transparent outputs.
    pub utxo_updates: bool,
    /// One update for each transaction that enters the mempool.
    pub mempool_transaction_updates: bool,
}

/// The lowest bytes of a number, most significant first.
pub open spec fn big_endian(value: nat, length: nat) -> Seq<u8>
    decreases length,
{
    if length == 0 {
        Seq::empty()
    } else {
        big_endian(value / 256, (length - 1) as nat).push((value % 256) as u8)
    }
}

/// The sixteen bytes of a session identifier, most significant first.
fn session_id_bytes(session_id: u128) -> (bytes: [u8; 16])
    ensures
        bytes@ == big_endian(session_id as nat, 16),
{
    let mut bytes: [u8; 16] = [0; 16];
    let mut rest: u128 = session_id;
    let mut length: usize = 16;
    proof {
        assert(bytes@.skip(16) =~= Seq::empty());
        assert(big_endian(rest as nat, 16) + bytes@.skip(16) =~= big_endian(rest as nat, 16));
    }
    while length > 0
        invariant
            length <= 16,
            bytes@.len() == 16,
            big_endian(session_id as nat, 16) == big_endian(rest as nat, length as nat)
                + bytes@.skip(length as int),
        decreases length,
    {
        let ghost before = bytes@.skip(length as int);
        length = length - 1;
        bytes[length] = (rest % 256) as u8;
        proof {
            let low = (rest as nat % 256) as u8;
            assert(bytes@.skip(length as int) =~= seq![low] + before);
            assert(big_endian(rest as nat, (length + 1) as nat) + before =~= big_endian(
                rest as nat / 256,
                length as nat,
            ) + bytes@.skip(length as int));
        }
        rest = rest / 256;
    }
    proof {
        assert(bytes@.skip(0) =~= bytes@);
        assert(big_endian(rest as nat, 0) + bytes@ =~= bytes@);
    }
    bytes
}

/// The protocol's form of a time of observation. Times before the Unix epoch become the epoch,
/// and seconds that do not fit become the largest that do.
pub open spec fn spec_timestamp(time: Option<SinceEpoch>) -> Timestamp {
    match time {
        Some(time) => Timestamp {
            seconds: if time.seconds > i64::MAX {
                i64::MAX
            } else {
                time.seconds as i64
            },
            nanos: time.nanos as i32,
        },
        None => Timestamp { seconds: 0, nanos: 0 },
    }
}

/// Brings a time of observation into the protocol's form.
pub fn timestamp(time: Option<SinceEpoch>) -> (stamp: Timestamp)
    requires
        time is Some ==> time->0.nanos < 1_000_000_000,
    ensures
        stamp == spec_timestamp(time),
{
    match time {
        Some(time) => {
            let seconds: i64 = if time.seconds > i64::MAX as u64 {
                i64::MAX
            } else {
                time.seconds as i64
            };
            Timestamp { seconds, nanos: time.nanos as i32 }
        },
        None => Timestamp { seconds: 0, nanos: 0 },
    }
}

/// What all updates of an event share.
pub struct UpdateMetadata {
    pub schema_version: u32,
    pub session_id: Bytes,
    pub observed_at: Timestamp,
    pub source_sequence: u64,
}

impl UpdateMetadata {
    /// Whether this belongs to an event.
    pub open spec fn describes(self, event: EventEnvelope) -> bool {
        &&& self.schema_version == event.schema_version
        &&& bytes_contents(self.session_id) == big_endian(event.session_id as nat, 16)
        &&& self.observed_at == spec_timestamp(event.observed_at)
        &&& self.source_sequence == event.sequence
    }

    /// Collects what all updates of an event share.
    pub fn new(event: &EventEnvelope) -> (metadata: Self)
        requires
            event.well_formed(),
        ensures
            metadata.describes(*event),
    {
        let session_id = session_id_bytes(event.session_id);
        UpdateMetadata {
            schema_version: event.schema_version,
            session_id: Bytes::copy_from_slice(session_id.as_slice()),
            observed_at: timestamp(event.observed_at),
            source_sequence: event.sequence,
        }
    }
}

/// Whether an update carries the metadata of its event, is of some type, and has neither a
/// sequence number nor filter names yet.
pub open spec fn stamped(
    update: SubscribeUpdate,
    metadata: UpdateMetadata,
    event_type: EventType,
) -> bool {
    &&& update.schema_version == metadata.schema_version
    &&& bytes_contents(update.session_id) == bytes_contents(metadata.session_id)
    &&& update.sequence == 0
    &&& update.observed_at == Some(metadata.observed_at)
    &&& update.event_type == event_type.spec_number()
    &&& update.filters@.len() == 0
    &&& update.source_sequence == metadata.source_sequence
}

/// Wraps a payload into an update.
pub fn new_update(metadata: &UpdateMetadata, event_type: EventType, update: Update) -> (message:
    SubscribeUpdate)
    ensures
        stamped(message, *metadata, event_type),
        message.update == Some(update),
{
    SubscribeUpdate {
        schema_version: metadata.schema_version,
        session_id: metadata.session_id.clone(),
        sequence: 0,
        observed_at: Some(metadata.observed_at),
        event_type: event_type.number(),
        filters: Vec::new(),
        source_sequence: metadata.source_sequence,
        update: Some(update),
    }
}

/// The displayed form of an authorizing digest, if there is one.
pub open spec fn displayed_digest(digest: Option<[u8; 32]>) -> Option<Seq<char>> {
    match digest {
        Some(digest) => Some(displayed_hash(digest@)),
        None => None,
    }
}

/// Displays an authorizing digest.
fn encode_auth_digest(digest: &Option<[u8; 32]>) -> (text: Option<String>)
    ensures
        text_view(text) == displayed_digest(*digest),
{
    match digest {
        Some(digest) => Some(auth_digest_text(digest)),
        None => None,
    }
}

/// The displayed identifier of an unmined transaction: its ID, followed by its authorizing digest
/// if it has one.
pub open spec fn unmined_id(transaction_id: Seq<u8>, auth_digest: Option<[u8; 32]>) -> Seq<char> {
    match auth_digest {
        Some(digest) => displayed_hash(transaction_id) + displayed_hash(digest@),
        None => displayed_hash(transaction_id),
    }
}

/// Displays the identifier of an unmined transaction.
pub fn encode_unmined_transaction_id(
    transaction_id: &[u8; 32],
    auth_digest: &Option<[u8; 32]>,
) -> (text: String)
    ensures
        text@ == unmined_id(transaction_id@, *auth_digest),
{
    let id = transaction_hash_text(transaction_id);
    match auth_digest {
        Some(digest) => join2(id.as_str(), auth_digest_text(digest).as_str()),
        None => id,
    }
}

/// Whether a buffer holds a consensus encoding.
pub open spec fn is_encoding(encoded: Result<Bytes, String>, buffer: Bytes) -> bool {
    encoded matches Ok(bytes) && bytes_contents(buffer) == bytes_contents(bytes)
}

/// Whether a message carries a block in full.
pub open spec fn encodes_block(message: BlockUpdate, block: BlockEvent, finalized: bool) -> bool {
    &&& message.height == block.height
    &&& message.hash@ == displayed_hash(block.hash@)
    &&& is_encoding(block.encoded, message.block)
    &&& message.receipt_order == block.receipt_order
    &&& message.finalized == finalized
    &&& message.payload == BlockPayload::Full.spec_number()
}

/// Encodes a block.
pub fn encode_block(block: &BlockEvent, finalized: bool) -> (result: Result<
    BlockUpdate,
    PluginError,
>)
    ensures
        match result {
            Ok(message) => encodes_block(message, *block, finalized),
            Err(error) => error matches PluginError::Block(reason) && block.encoded == Err::<
                Bytes,
                String,
            >(reason),
        },
{
    match &block.encoded {
        Ok(encoded) => Ok(
            BlockUpdate {
                height: block.height,
                hash: block_hash_text(&block.hash),
                block: encoded.clone(),
                receipt_order: block.receipt_order,
                finalized,
                payload: BlockPayload::Full.number(),
            },
        ),
        Err(reason) => Err(PluginError::Block(reason.clone())),
    }
}

/// Whether a message carries a block of the best chain.
pub open spec fn encodes_canonical_block(message: CanonicalBlock, block: ChainBlock) -> bool {
    &&& message.height == block.height
    &&& message.hash@ == displayed_hash(block.hash@)
    &&& message.previous_block_hash@ == displayed_hash(block.previous_block_hash@)
}

/// Whether messages carry blocks of the best chain, in their order.
pub open spec fn encodes_canonical_blocks(
    messages: Seq<CanonicalBlock>,
    blocks: Seq<ChainBlock>,
) -> bool {
    &&& messages.len() == blocks.len()
    &&& forall|i: int|
        0 <= i < blocks.len() ==> encodes_canonical_block(#[trigger] messages[i], blocks[i])
}

/// Encodes a block of the best chain.
pub fn encode_canonical_block(block: &ChainBlock) -> (message: CanonicalBlock)
    ensures
        encodes_canonical_block(message, *block),
{
    CanonicalBlock {
        height: block.height,
        hash: block_hash_text(&block.hash),
        previous_block_hash: block_hash_text(&block.previous_block_hash),
    }
}

/// Encodes blocks of the best chain.
fn encode_canonical_blocks(blocks: &Vec<ChainBlock>) -> (messages: Vec<CanonicalBlock>)
    ensures
        encodes_canonical_blocks(messages@, blocks@),
{
    let mut messages: Vec<CanonicalBlock> = Vec::new();
    for index in 0..blocks.len()
        invariant
            messages@.len() == index,
            forall|i: int|
                0 <= i < index ==> encodes_canonical_block(#[trigger] messages@[i], blocks@[i]),
    {
        messages.push(encode_canonical_block(&blocks[index]));
    }
    messages
}

/// Whether texts are the displayed forms of transaction IDs, in their order.
pub open spec fn displays_hashes(texts: Seq<String>, hashes: Seq<[u8; 32]>) -> bool {
    &&& texts.len() == hashes.len()
    &&& forall|i: int|
        0 <= i < hashes.len() ==> (#[trigger] texts[i])@ == displayed_hash(hashes[i]@)
}

/// Displays transaction IDs.
fn encode_transaction_ids(hashes: &Vec<[u8; 32]>) -> (texts: Vec<String>)
    ensures
        displays_hashes(texts@, hashes@),
{
    let mut texts: Vec<String> = Vec::new();
    for index in 0..hashes.len()
        invariant
            texts@.len() == index,
            forall|i: int|
                0 <= i < index ==> (#[trigger] texts@[i])@ == displayed_hash(hashes@[i]@),
    {
        texts.push(transaction_hash_text(&hashes[index]));
    }
    texts
}

/// Whether a message carries a change of the best chain.
pub open spec fn encodes_best_chain(message: BestChainUpdate, change: BestChainChange) -> bool {
    match change {
        BestChainChange::Grow { height, hash, previous_block_hash, transaction_ids } => {
            &&& message.height == height
            &&& message.hash@ == displayed_hash(hash@)
            &&& message.change matches Some(BestChainUpdateChange::Grow(grow))
            &&& grow.previous_block_hash@ == displayed_hash(previous_block_hash@)
            &&& displays_hashes(grow.transaction_ids@, transaction_ids@)
        },
        BestChainChange::Reset {
            height,
            hash,
            disconnected_blocks,
            connected_blocks,
            diff_complete,
        } => {
            &&& message.height == height
            &&& message.hash@ == displayed_hash(hash@)
            &&& message.change matches Some(BestChainUpdateChange::Reset(reset))
            &&& encodes_canonical_blocks(reset.disconnected_blocks@, disconnected_blocks@)
            &&& encodes_canonical_blocks(reset.connected_blocks@, connected_blocks@)
            &&& reset.diff_complete == diff_complete
        },
    }
}

/// Encodes a change of the best chain.
pub fn encode_best_chain(change: &BestChainChange) -> (message: BestChainUpdate)
    ensures
        encodes_best_chain(message, *change),
{
    match change {
        BestChainChange::Grow { height, hash, previous_block_hash, transaction_ids } => {
            BestChainUpdate {
                height: *height,
                hash: block_hash_text(hash),
                change: Some(
                    BestChainUpdateChange::Grow(
                        BestChainGrow {
                            previous_block_hash: block_hash_text(previous_block_hash),
                            transaction_ids: encode_transaction_ids(transaction_ids),
                        },
                    ),
                ),
            }
        },
        BestChainChange::Reset {
            height,
            hash,
            disconnected_blocks,
            connected_blocks,
            diff_complete,
        } => {
            BestChainUpdate {
                height: *height,
                hash: block_hash_text(hash),
                change: Some(
                    BestChainUpdateChange::Reset(
                        BestChainReset {
                            disconnected_blocks: encode_canonical_blocks(disconnected_blocks),
                            connected_blocks: encode_canonical_blocks(connected_blocks),
                            diff_complete: *diff_complete,
                        },
                    ),
                ),
            }
        },
    }
}

/// The protocol's name for what happened to transactions in the mempool.
pub open spec fn mempool_action(kind: MempoolEventKind) -> MempoolAction {
    match kind {
        MempoolEventKind::Added => MempoolAction::Added,
        MempoolEventKind::Invalidated => MempoolAction::Invalidated,
        MempoolEventKind::Mined => MempoolAction::Mined,
    }
}

/// Whether a message summarizes a mempool event.
pub open spec fn encodes_mempool(message: MempoolUpdate, change: MempoolEvent) -> bool {
    &&& message.action == mempool_action(change.kind).spec_number()
    &&& message.transaction_ids@.len() == change.transaction_ids@.len()
    &&& forall|i: int|
        0 <= i < change.transaction_ids@.len() ==> (#[trigger] message.transaction_ids@[i])@
            == unmined_id(
            change.transaction_ids@[i].mined_id@,
            change.transaction_ids@[i].auth_digest,
        )
}

/// Summarizes a mempool event.
fn encode_mempool(change: &MempoolEvent) -> (message: MempoolUpdate)
    ensures
        encodes_mempool(message, *change),
{
    let action = match change.kind {
        MempoolEventKind::Added => MempoolAction::Added,
        MempoolEventKind::Invalidated => MempoolAction::Invalidated,
        MempoolEventKind::Mined => MempoolAction::Mined,
    };
    let mut transaction_ids: Vec<String> = Vec::new();
    for index in 0..change.transaction_ids.len()
        invariant
            transaction_ids@.len() == index,
            forall|i: int|
                0 <= i < index ==> (#[trigger] transaction_ids@[i])@ == unmined_id(
                    change.transaction_ids@[i].mined_id@,
                    change.transaction_ids@[i].auth_digest,
                ),
    {
        let id = &change.transaction_ids[index];
        transaction_ids.push(encode_unmined_transaction_id(&id.mined_id, &id.auth_digest));
    }
    MempoolUpdate { action: action.number(), transaction_ids }
}

/// Whether a message carries the transaction at some position of a block.
pub open spec fn encodes_transaction(
    message: TransactionUpdate,
    block: BlockEvent,
    commitment: BlockCommitment,
    index: int,
) -> bool {
    let transaction = block.transactions@[index];
    let previous = PreviousOutputs::Block(&block.spent_outputs);
    let network = block.network.address_kind;
    &&& message.transaction_id@ == displayed_hash(transaction.id@)
    &&& message.unmined_transaction_id@ == unmined_id(transaction.id@, transaction.auth_digest)
    &&& text_view(message.auth_digest) == displayed_digest(transaction.auth_digest)
    &&& is_encoding(transaction.encoded, message.transaction)
    &&& message.height == block.height
    &&& message.block_hash@ == displayed_hash(block.hash@)
    &&& message.transaction_index == index
    &&& message.commitment == commitment.spec_number()
    &&& message.coinbase == transaction.spec_is_coinbase()
    &&& encodes_inputs(message.transparent_inputs@, transaction.inputs@, previous, network)
    &&& encodes_outputs(message.transparent_outputs@, transaction.outputs@, network)
    &&& message.version == transaction.version
    &&& message.lock_time == transaction.lock_time
    &&& message.lock_time_is_time == transaction.lock_time_is_time
    &&& message.expiry_height == transaction.expiry_height
    &&& message.network@ == block.network.name@
    &&& message.transparent_input_value_zat == input_total(transaction, previous, true)
    &&& message.transparent_output_value_zat == output_total(transaction)
    &&& message.has_transparent == transaction.spec_has_transparent()
    &&& message.has_sapling == transaction.has_sapling
    &&& message.has_orchard == transaction.has_orchard
}

/// Whether a message carries the transparent outputs that the transaction at some position of a
/// block spends and creates.
pub open spec fn encodes_utxo(
    message: UtxoUpdate,
    block: BlockEvent,
    commitment: BlockCommitment,
    index: int,
) -> bool {
    let transaction = block.transactions@[index];
    let previous = PreviousOutputs::Block(&block.spent_outputs);
    &&& message.height == block.height
    &&& message.block_hash@ == displayed_hash(block.hash@)
    &&& message.transaction_id@ == displayed_hash(transaction.id@)
    &&& message.transaction_index == index
    &&& message.commitment == commitment.spec_number()
    &&& encodes_changes(
        message.changes@,
        transaction,
        displayed_hash(transaction.id@),
        previous,
        block.network.address_kind,
    )
    &&& message.coinbase == transaction.spec_is_coinbase()
    &&& message.version == transaction.version
    &&& message.has_transparent == transaction.spec_has_transparent()
    &&& message.has_sapling == transaction.has_sapling
    &&& message.has_orchard == transaction.has_orchard
    &&& message.transparent_input_value_zat == input_total(transaction, previous, true)
    &&& message.transparent_output_value_zat == output_total(transaction)
}

/// Whether a transaction spends or creates transparent outputs.
pub open spec fn changes_utxos(transaction: ChainTransaction) -> bool {
    spent_count(transaction.inputs@) + transaction.outputs@.len() > 0
}

/// Why the transaction at some position of a block cannot be encoded, if it cannot.
pub open spec fn transaction_error(
    block: BlockEvent,
    options: EncodingOptions,
    index: int,
) -> Option<PluginError> {
    let transaction = block.transactions@[index];
    let transparent = transparent_error(
        transaction,
        PreviousOutputs::Block(&block.spent_outputs),
        true,
    );
    if index >= INDEX_LIMIT {
        Some(PluginError::TransactionIndexRange)
    } else if transparent is Some {
        transparent
    } else if options.transaction_updates {
        match transaction.encoded {
            Ok(_) => None,
            Err(reason) => Some(PluginError::Transaction(reason)),
        }
    } else {
        None
    }
}

/// Whether updates are those of the transaction at some position of a block: the transaction
/// first, if it is wanted, and then its outputs, if they are wanted and there are any.
pub open spec fn encodes_block_transaction(
    updates: Seq<SubscribeUpdate>,
    metadata: UpdateMetadata,
    block: BlockEvent,
    commitment: BlockCommitment,
    options: EncodingOptions,
    index: int,
) -> bool {
    let first: int = if options.transaction_updates {
        1
    } else {
        0
    };
    let second: int = if options.utxo_updates && changes_utxos(block.transactions@[index]) {
        1
    } else {
        0
    };
    &&& updates.len() == first + second
    &&& options.transaction_updates ==> {
        &&& stamped(updates[0], metadata, EventType::Transaction)
        &&& updates[0].update matches Some(Update::Transaction(message))
        &&& encodes_transaction(*message, block, commitment, index)
    }
    &&& second == 1 ==> {
        &&& stamped(updates[first], metadata, EventType::Utxo)
        &&& updates[first].update matches Some(Update::Utxo(message))
        &&& encodes_utxo(*message, block, commitment, index)
    }
}

/// Encodes the transaction at some position of a block.
pub fn encode_transaction_updates(
    metadata: &UpdateMetadata,
    block: &BlockEvent,
    commitment: BlockCommitment,
    options: EncodingOptions,
    transaction_index: usize,
) -> (result: Result<Vec<SubscribeUpdate>, PluginError>)
    requires
        block.well_formed(),
        transaction_index < block.transactions@.len(),
        options.transaction_updates || options.utxo_updates,
    ensures
        match result {
            Ok(updates) => {
                &&& transaction_error(*block, options, transaction_index as int) is None
                &&& encodes_block_transaction(
                    updates@,
                    *metadata,
                    *block,
                    commitment,
                    options,
                    transaction_index as int,
                )
            },
            Err(error) => transaction_error(*block, options, transaction_index as int) == Some(
                error,
            ),
        },
{
    let transaction = &block.transactions[transaction_index];
    let grpc_transaction_index: u32 = match u32::try_from(transaction_index) {
        Ok(index) => index,
        Err(_) => {
            return Err(PluginError::TransactionIndexRange);
        },
    };
    let transaction_id = transaction_hash_text(&transaction.id);
    let encoded = match encode_transparent_updates(
        transaction,
        &transaction_id,
        block.network.address_kind,
        PreviousOutputs::Block(&block.spent_outputs),
        options.transaction_updates,
        options.utxo_updates,
    ) {
        Ok(encoded) => encoded,
        Err(error) => {
            return Err(error);
        },
    };
    let coinbase = transaction.is_coinbase();
    let has_transparent = transaction.has_transparent_inputs_or_outputs();
    let mut updates: Vec<SubscribeUpdate> = Vec::new();
    if options.transaction_updates {
        let transaction_bytes = match &transaction.encoded {
            Ok(bytes) => bytes.clone(),
            Err(reason) => {
                return Err(PluginError::Transaction(reason.clone()));
            },
        };
        let message = TransactionUpdate {
            transaction_id: transaction_id.clone(),
            unmined_transaction_id: encode_unmined_transaction_id(
                &transaction.id,
                &transaction.auth_digest,
            ),
            auth_digest: encode_auth_digest(&transaction.auth_digest),
            transaction: transaction_bytes,
            height: block.height,
            block_hash: block_hash_text(&block.hash),
            transaction_index: grpc_transaction_index,
            commitment: commitment.number(),
            coinbase,
            transparent_inputs: encoded.transaction_inputs,
            transparent_outputs: encoded.transaction_outputs,
            version: transaction.version,
            lock_time: transaction.lock_time,
            lock_time_is_time: transaction.lock_time_is_time,
            expiry_height: transaction.expiry_height,
            network: block.network.name.clone(),
            transparent_input_value_zat: encoded.transparent_input_value_zat,
            transparent_output_value_zat: encoded.transparent_output_value_zat,
            has_transparent,
            has_sapling: transaction.has_sapling,
            has_orchard: transaction.has_orchard,
        };
        updates.push(
            new_update(metadata, EventType::Transaction, Update::Transaction(Arc::new(message))),
        );
    }
    if options.utxo_updates && encoded.utxo_changes.len() > 0 {
        let message = UtxoUpdate {
            height: block.height,
            block_hash: block_hash_text(&block.hash),
            transaction_id,
            transaction_index: grpc_transaction_index,
            commitment: commitment.number(),
            changes: encoded.utxo_changes,
            coinbase,
            version: transaction.version,
            has_transparent,
            has_sapling: transaction.has_sapling,
            has_orchard: transaction.has_orchard,
            transparent_input_value_zat: encoded.transparent_input_value_zat,
            transparent_output_value_zat: encoded.transparent_output_value_zat,
        };
        updates.push(new_update(metadata, EventType::Utxo, Update::Utxo(Arc::new(message))));
    }
    Ok(updates)
}

/// Whether a message carries a transaction that entered the mempool.
pub open spec fn encodes_mempool_transaction(
    message: MempoolTransactionUpdate,
    network: ChainNetwork,
    verified: VerifiedTransaction,
) -> bool {
    let transaction = verified.transaction;
    let previous = PreviousOutputs::Mempool(&verified.spent_outputs);
    &&& message.transaction_id@ == displayed_hash(transaction.id@)
    &&& message.unmined_transaction_id@ == unmined_id(transaction.id@, transaction.auth_digest)
    &&& text_view(message.auth_digest) == displayed_digest(transaction.auth_digest)
    &&& is_encoding(transaction.encoded, message.transaction)
    &&& message.network@ == network.name@
    &&& encodes_inputs(
        message.transparent_inputs@,
        transaction.inputs@,
        previous,
        network.address_kind,
    )
    &&& encodes_outputs(
        message.transparent_outputs@,
        transaction.outputs@,
        network.address_kind,
    )
    &&& message.version == transaction.version
    &&& message.lock_time == transaction.lock_time
    &&& message.lock_time_is_time == transaction.lock_time_is_time
    &&& message.expiry_height == transaction.expiry_height
    &&& message.transparent_input_value_zat == input_total(transaction, previous, true)
    &&& message.transparent_output_value_zat == output_total(transaction)
    &&& message.miner_fee_zat == verified.miner_fee_zat
    &&& message.admitted_at == verified.admitted_at
    &&& message.admitted_height == verified.admitted_height
    &&& message.conventional_actions == verified.conventional_actions
    &&& message.unpaid_actions == verified.unpaid_actions
    &&& message.legacy_sigop_count == verified.legacy_sigop_count
    &&& message.p2sh_sigop_count == verified.p2sh_sigop_count
    &&& message.fee_weight_ratio_bits == verified.fee_weight_ratio_bits
    &&& message.coinbase == transaction.spec_is_coinbase()
    &&& message.has_transparent == transaction.spec_has_transparent()
    &&& message.has_sapling == transaction.has_sapling
    &&& message.has_orchard == transaction.has_orchard
}

/// Why a transaction that entered the mempool cannot be encoded, if it cannot.
pub open spec fn mempool_transaction_error(verified: VerifiedTransaction) -> Option<PluginError> {
    let transparent = transparent_error(
        verified.transaction,
        PreviousOutputs::Mempool(&verified.spent_outputs),
        true,
    );
    if transparent is Some {
        transparent
    } else {
        match verified.transaction.encoded {
            Ok(_) => None,
            Err(reason) => Some(PluginError::Transaction(reason)),
        }
    }
}

/// Encodes a transaction that entered the mempool.
pub fn encode_mempool_transaction_update(
    metadata: &UpdateMetadata,
    network: &ChainNetwork,
    verified: &VerifiedTransaction,
) -> (result: Result<SubscribeUpdate, PluginError>)
    requires
        verified.well_formed(),
    ensures
        match result {
            Ok(update) => {
                &&& mempool_transaction_error(*verified) is None
                &&& stamped(update, *metadata, EventType::MempoolTransaction)
                &&& update.update matches Some(Update::MempoolTransaction(message))
                &&& encodes_mempool_transaction(*message, *network, *verified)
            },
            Err(error) => mempool_transaction_error(*verified) == Some(error),
        },
{
    let transaction = &verified.transaction;
    let transaction_id = transaction_hash_text(&transaction.id);
    let encoded = match encode_transparent_updates(
        transaction,
        &transaction_id,
        network.address_kind,
        PreviousOutputs::Mempool(&verified.spent_outputs),
        true,
        false,
    ) {
        Ok(encoded) => encoded,
        Err(error) => {
            return Err(error);
        },
    };
    let transaction_bytes = match &transaction.encoded {
        Ok(bytes) => bytes.clone(),
        Err(reason) => {
            return Err(PluginError::Transaction(reason.clone()));
        },
    };
    let message = MempoolTransactionUpdate {
        transaction_id,
        unmined_transaction_id: encode_unmined_transaction_id(
            &transaction.id,
            &transaction.auth_digest,
        ),
        auth_digest: encode_auth_digest(&transaction.auth_digest),
        transaction: transaction_bytes,
        network: network.name.clone(),
        transparent_inputs: encoded.transaction_inputs,
        transparent_outputs: encoded.transaction_outputs,
        version: transaction.version,
        lock_time: transaction.lock_time,
        lock_time_is_time: transaction.lock_time_is_time,
        expiry_height: transaction.expiry_height,
        transparent_input_value_zat: encoded.transparent_input_value_zat,
        transparent_output_value_zat: encoded.transparent_output_value_zat,
        miner_fee_zat: verified.miner_fee_zat,
        admitted_at: verified.admitted_at,
        admitted_height: verified.admitted_height,
        conventional_actions: verified.conventional_actions,
        unpaid_actions: verified.unpaid_actions,
        legacy_sigop_count: verified.legacy_sigop_count,
        p2sh_sigop_count: verified.p2sh_sigop_count,
        fee_weight_ratio_bits: verified.fee_weight_ratio_bits,
        coinbase: transaction.is_coinbase(),
        has_transparent: transaction.has_transparent_inputs_or_outputs(),
        has_sapling: transaction.has_sapling,
        has_orchard: transaction.has_orchard,
    };
    Ok(
        new_update(
            metadata,
            EventType::MempoolTransaction,
            Update::MempoolTransaction(Arc::new(message)),
        ),
    )
}

/// The block height that an update belongs to, if it belongs to one.
pub open spec fn spec_block_height(update: SubscribeUpdate) -> Option<u32> {
    match update.update {
        Some(Update::Block(block)) => Some(block.height),
        Some(Update::BestChain(change)) => Some(change.height),
        Some(Update::Transaction(transaction)) => Some(transaction.height),
        Some(Update::Utxo(utxo)) => Some(utxo.height),
        _ => None,
    }
}

/// The block height that an update belongs to.
pub fn block_height(update: &SubscribeUpdate) -> (height: Option<u32>)
    ensures
        height == spec_block_height(*update),
{
    match &update.update {
        Some(Update::Block(block)) => Some(block.height),
        Some(Update::BestChain(change)) => Some(change.height),
        Some(Update::Transaction(transaction)) => Some(transaction.height),
        Some(Update::Utxo(utxo)) => Some(utxo.height),
        Some(Update::Mempool(_)) | Some(Update::MempoolTransaction(_)) | Some(
            Update::Ping(_),
        ) | Some(Update::Pong(_)) | None => None,
    }
}

/// The number of transactions that an event is turned into updates for.
pub open spec fn spec_item_count(event: EventEnvelope, options: EncodingOptions) -> nat {
    match event.payload {
        PluginEvent::BlockAccepted(block) | PluginEvent::BlockFinalized(block) => {
            if options.transaction_updates || options.utxo_updates {
                block.transactions@.len()
            } else {
                0
            }
        },
        PluginEvent::MempoolChanged(change) => {
            if options.mempool_transaction_updates && change.kind == MempoolEventKind::Added {
                change.transactions@.len()
            } else {
                0
            }
        },
        PluginEvent::BestChainChanged(_) => 0,
    }
}

/// Why a transaction of an event cannot be encoded, if it cannot.
pub open spec fn item_error(event: EventEnvelope, options: EncodingOptions, index: int) -> Option<
    PluginError,
> {
    match event.payload {
        PluginEvent::BlockAccepted(block) | PluginEvent::BlockFinalized(block) => {
            transaction_error(block, options, index)
        },
        PluginEvent::MempoolChanged(change) => mempool_transaction_error(
            change.transactions@[index],
        ),
        PluginEvent::BestChainChanged(_) => None,
    }
}

/// Whether updates are those of one transaction of an event.
pub open spec fn encodes_item(
    updates: Seq<SubscribeUpdate>,
    metadata: UpdateMetadata,
    event: EventEnvelope,
    options: EncodingOptions,
    index: int,
) -> bool {
    match event.payload {
        PluginEvent::BlockAccepted(block) => encodes_block_transaction(
            updates,
            metadata,
            block,
            BlockCommitment::Accepted,
            options,
            index,
        ),
        PluginEvent::BlockFinalized(block) => encodes_block_transaction(
            updates,
            metadata,
            block,
            BlockCommitment::Finalized,
            options,
            index,
        ),
        PluginEvent::MempoolChanged(change) => {
            &&& updates.len() == 1
            &&& stamped(updates[0], metadata, EventType::MempoolTransaction)
            &&& updates[0].update matches Some(Update::MempoolTransaction(message))
            &&& encodes_mempool_transaction(*message, change.network, change.transactions@[index])
        },
        PluginEvent::BestChainChanged(_) => false,
    }
}

/// The outcome for one transaction of an event.
pub open spec fn item_outcome(
    result: Result<Vec<SubscribeUpdate>, PluginError>,
    metadata: UpdateMetadata,
    event: EventEnvelope,
    options: EncodingOptions,
    index: int,
) -> bool {
    match result {
        Ok(updates) => {
            &&& item_error(event, options, index) is None
            &&& encodes_item(updates@, metadata, event, options, index)
        },
        Err(error) => item_error(event, options, index) == Some(error),
    }
}

/// The number of transactions that an event is turned into updates for.
pub fn item_count(event: &EventEnvelope, options: EncodingOptions) -> (count: usize)
    ensures
        count == spec_item_count(*event, options),
{
    match &event.payload {
        PluginEvent::BlockAccepted(block) | PluginEvent::BlockFinalized(block) => {
            if options.transaction_updates || options.utxo_updates {
                block.transactions.len()
            } else {
                0
            }
        },
        PluginEvent::MempoolChanged(change) => {
            if options.mempool_transaction_updates && change.kind == MempoolEventKind::Added {
                change.transactions.len()
            } else {
                0
            }
        },
        PluginEvent::BestChainChanged(_) => 0,
    }
}

/// Encodes one transaction of an event.
pub fn encode_item(
    metadata: &UpdateMetadata,
    event: &EventEnvelope,
    options: EncodingOptions,
    index: usize,
) -> (result: Result<Vec<SubscribeUpdate>, PluginError>)
    requires
        event.well_formed(),
        index < spec_item_count(*event, options),
    ensures
        item_outcome(result, *metadata, *event, options, index as int),
{
    match &event.payload {
        PluginEvent::BlockAccepted(block) => encode_transaction_updates(
            metadata,
            block,
            BlockCommitment::Accepted,
            options,
            index,
        ),
        PluginEvent::BlockFinalized(block) => encode_transaction_updates(
            metadata,
            block,
            BlockCommitment::Finalized,
            options,
            index,
        ),
        PluginEvent::MempoolChanged(change) => match encode_mempool_transaction_update(
            metadata,
            &change.network,
            &change.transactions[index],
        ) {
            Ok(update) => {
                let mut updates: Vec<SubscribeUpdate> = Vec::new();
                updates.push(update);
                Ok(updates)
            },
            Err(error) => Err(error),
        },
        PluginEvent::BestChainChanged(_) => Ok(Vec::new()),
    }
}

/// Whether an event is turned into updates for its transactions.
pub open spec fn spec_wants_items(event: EventEnvelope, options: EncodingOptions) -> bool {
    match event.payload {
        PluginEvent::BlockAccepted(_) | PluginEvent::BlockFinalized(_) => {
            options.transaction_updates || options.utxo_updates
        },
        PluginEvent::MempoolChanged(_) => spec_item_count(event, options) > 0,
        PluginEvent::BestChainChanged(_) => false,
    }
}

/// Whether an event is turned into updates for its transactions.
pub fn wants_items(event: &EventEnvelope, options: EncodingOptions) -> (wanted: bool)
    ensures
        wanted == spec_wants_items(*event, options),
{
    match &event.payload {
        PluginEvent::BlockAccepted(_) | PluginEvent::BlockFinalized(_) => {
            options.transaction_updates || options.utxo_updates
        },
        PluginEvent::MempoolChanged(_) => item_count(event, options) > 0,
        PluginEvent::BestChainChanged(_) => false,
    }
}

/// Whether the transactions of an event are handed out to the encoding threads, if there are any.
pub fn encodes_in_parallel(
    event: &EventEnvelope,
    options: EncodingOptions,
    threads_available: bool,
    minimum: usize,
) -> (parallel: bool)
    ensures
        parallel == (threads_available && spec_wants_items(*event, options) && spec_item_count(
            *event,
            options,
        ) >= minimum),
{
    threads_available && wants_items(event, options) && item_count(event, options) >= minimum
}

/// Why the summary of an event cannot be encoded, if it cannot.
pub open spec fn summary_error(event: EventEnvelope) -> Option<PluginError> {
    match event.payload {
        PluginEvent::BlockAccepted(block) | PluginEvent::BlockFinalized(block) => {
            match block.encoded {
                Ok(_) => None,
                Err(reason) => Some(PluginError::Block(reason)),
            }
        },
        _ => None,
    }
}

/// Whether an update summarizes an event.
pub open spec fn encodes_summary(
    update: SubscribeUpdate,
    metadata: UpdateMetadata,
    event: EventEnvelope,
) -> bool {
    match event.payload {
        PluginEvent::BlockAccepted(block) => {
            &&& stamped(update, metadata, EventType::BlockAccepted)
            &&& update.update matches Some(Update::Block(message))
            &&& encodes_block(message, block, false)
        },
        PluginEvent::BlockFinalized(block) => {
            &&& stamped(update, metadata, EventType::BlockFinalized)
            &&& update.update matches Some(Update::Block(message))
            &&& encodes_block(message, block, true)
        },
        PluginEvent::BestChainChanged(change) => {
            &&& stamped(update, metadata, EventType::BestChainChanged)
            &&& update.update matches Some(Update::BestChain(message))
            &&& encodes_best_chain(*message, change)
        },
        PluginEvent::MempoolChanged(change) => {
            &&& stamped(update, metadata, EventType::MempoolChanged)
            &&& update.update matches Some(Update::Mempool(message))
            &&& encodes_mempool(*message, change)
        },
    }
}

/// Encodes the summary of an event.
fn encode_summary(metadata: &UpdateMetadata, event: &EventEnvelope) -> (result: Result<
    SubscribeUpdate,
    PluginError,
>)
    ensures
        match result {
            Ok(update) => {
                &&& summary_error(*event) is None
                &&& encodes_summary(update, *metadata, *event)
            },
            Err(error) => summary_error(*event) == Some(error),
        },
{
    match &event.payload {
        PluginEvent::BlockAccepted(block) => match encode_block(block, false) {
            Ok(message) => Ok(new_update(metadata, EventType::BlockAccepted, Update::Block(message))),
            Err(error) => Err(error),
        },
        PluginEvent::BlockFinalized(block) => match encode_block(block, true) {
            Ok(message) => Ok(
                new_update(metadata, EventType::BlockFinalized, Update::Block(message)),
            ),
            Err(error) => Err(error),
        },
        PluginEvent::BestChainChanged(change) => Ok(
            new_update(
                metadata,
                EventType::BestChainChanged,
                Update::BestChain(Arc::new(encode_best_chain(change))),
            ),
        ),
        PluginEvent::MempoolChanged(change) => Ok(
            new_update(
                metadata,
                EventType::MempoolChanged,
                Update::Mempool(Arc::new(encode_mempool(change))),
            ),
        ),
    }
}

/// The number of updates for one transaction of an event.
pub open spec fn item_length(event: EventEnvelope, options: EncodingOptions, index: int) -> nat {
    match event.payload {
        PluginEvent::BlockAccepted(block) | PluginEvent::BlockFinalized(block) => {
            let first: nat = if options.transaction_updates {
                1
            } else {
                0
            };
            let second: nat = if options.utxo_updates && changes_utxos(
                block.transactions@[index],
            ) {
                1
            } else {
                0
            };
            first + second
        },
        PluginEvent::MempoolChanged(_) => 1,
        PluginEvent::BestChainChanged(_) => 0,
    }
}

/// The number of updates for the first few transactions of an event.
pub open spec fn items_length(event: EventEnvelope, options: EncodingOptions, count: int) -> nat
    decreases count,
{
    if count <= 0 {
        0
    } else {
        items_length(event, options, count - 1) + item_length(event, options, count - 1)
    }
}

/// The updates for one transaction, among those of an event. The summary comes first.
pub open spec fn item_updates(
    updates: Seq<SubscribeUpdate>,
    event: EventEnvelope,
    options: EncodingOptions,
    index: int,
) -> Seq<SubscribeUpdate> {
    updates.subrange(
        1 + items_length(event, options, index) as int,
        1 + items_length(event, options, index + 1) as int,
    )
}

/// Whether the updates behind the summary are those of the first few transactions of an event,
/// one transaction after the other.
pub open spec fn encodes_items(
    updates: Seq<SubscribeUpdate>,
    metadata: UpdateMetadata,
    event: EventEnvelope,
    options: EncodingOptions,
    count: int,
) -> bool {
    &&& updates.len() == 1 + items_length(event, options, count)
    &&& forall|i: int|
        0 <= i < count ==> encodes_item(
            #[trigger] item_updates(updates, event, options, i),
            metadata,
            event,
            options,
            i,
        )
}

/// More transactions do not have fewer updates.
pub(crate) proof fn lemma_items_length_grows(
    event: EventEnvelope,
    options: EncodingOptions,
    fewer: int,
    more: int,
)
    requires
        fewer <= more,
    ensures
        items_length(event, options, fewer) <= items_length(event, options, more),
    decreases more - fewer,
{
    if fewer < more {
        lemma_items_length_grows(event, options, fewer, more - 1);
    }
}

/// Whether updates are those of an event: its summary, followed by the updates of its
/// transactions in their order.
pub open spec fn encodes_event(
    updates: Seq<SubscribeUpdate>,
    metadata: UpdateMetadata,
    event: EventEnvelope,
    options: EncodingOptions,
) -> bool {
    &&& updates.len() >= 1
    &&& encodes_summary(updates[0], metadata, event)
    &&& encodes_items(
        updates,
        metadata,
        event,
        options,
        spec_item_count(event, options) as int,
    )
}

/// Whether an error is the first one met when an event is encoded.
pub open spec fn first_error(
    error: PluginError,
    event: EventEnvelope,
    options: EncodingOptions,
) -> bool {
    ||| summary_error(event) == Some(error)
    ||| summary_error(event) is None && exists|i: int|
        {
            &&& 0 <= i < spec_item_count(event, options)
            &&& #[trigger] item_error(event, options, i) == Some(error)
            &&& forall|j: int| 0 <= j < i ==> #[trigger] item_error(event, options, j) is None
        }
}

/// The outcome of encoding an event.
pub open spec fn event_outcome(
    result: Result<Vec<SubscribeUpdate>, PluginError>,
    metadata: UpdateMetadata,
    event: EventEnvelope,
    options: EncodingOptions,
) -> bool {
    match result {
        Ok(updates) => {
            &&& summary_error(event) is None
            &&& forall|i: int|
                0 <= i < spec_item_count(event, options) ==> #[trigger] item_error(
                    event,
                    options,
                    i,
                ) is None
            &&& encodes_event(updates@, metadata, event, options)
        },
        Err(error) => first_error(error, event, options),
    }
}

/// Appends the updates of one more transaction.
fn append_item(
    updates: &mut Vec<SubscribeUpdate>,
    item: Vec<SubscribeUpdate>,
    metadata: Ghost<UpdateMetadata>,
    event: Ghost<EventEnvelope>,
    options: Ghost<EncodingOptions>,
    index: Ghost<int>,
)
    requires
        index@ >= 0,
        old(updates)@.len() >= 1,
        encodes_items(old(updates)@, metadata@, event@, options@, index@),
        encodes_item(item@, metadata@, event@, options@, index@),
    ensures
        final(updates)@ == old(updates)@ + item@,
        encodes_items(final(updates)@, metadata@, event@, options@, index@ + 1),
{
    let ghost before = updates@;
    let ghost added = item@;
    let mut item = item;
    updates.append(&mut item);
    proof {
        assert forall|i: int| 0 <= i < index@ + 1 implies encodes_item(
            #[trigger] item_updates(updates@, event@, options@, i),
            metadata@,
            event@,
            options@,
            i,
        ) by {
            if i < index@ {
                lemma_items_length_grows(event@, options@, i + 1, index@);
                assert(item_updates(updates@, event@, options@, i) =~= item_updates(
                    before,
                    event@,
                    options@,
                    i,
                ));
            } else {
                assert(item_updates(updates@, event@, options@, i) =~= added);
            }
        }
    }
}

/// Puts the updates of an event together from the outcomes for its transactions, which may come
/// from several threads.
pub fn assemble_event(
    metadata: &UpdateMetadata,
    event: &EventEnvelope,
    options: EncodingOptions,
    items: Vec<Result<Vec<SubscribeUpdate>, PluginError>>,
) -> (result: Result<Vec<SubscribeUpdate>, PluginError>)
    requires
        items@.len() == spec_item_count(*event, options),
        forall|i: int|
            0 <= i < items@.len() ==> item_outcome(
                #[trigger] items@[i],
                *metadata,
                *event,
                options,
                i,
            ),
    ensures
        event_outcome(result, *metadata, *event, options),
{
    let summary = match encode_summary(metadata, event) {
        Ok(summary) => summary,
        Err(error) => {
            return Err(error);
        },
    };
    let mut updates: Vec<SubscribeUpdate> = Vec::new();
    updates.push(summary);
    let ghost all = items@;
    let count: usize = items.len();
    let mut index: usize = 0;
    for item in iter: items
        invariant
            iter.seq() == all,
            all.len() == count,
            all.len() == spec_item_count(*event, options),
            index == iter.index(),
            forall|i: int|
                0 <= i < all.len() ==> item_outcome(
                    #[trigger] all[i],
                    *metadata,
                    *event,
                    options,
                    i,
                ),
            forall|i: int|
                0 <= i < index ==> #[trigger] item_error(*event, options, i) is None,
            summary_error(*event) is None,
            updates@.len() >= 1,
            encodes_summary(updates@[0], *metadata, *event),
            encodes_items(updates@, *metadata, *event, options, index as int),
    {
        proof {
            assert(item_outcome(all[index as int], *metadata, *event, options, index as int));
        }
        match item {
            Ok(item) => {
                append_item(
                    &mut updates,
                    item,
                    Ghost(*metadata),
                    Ghost(*event),
                    Ghost(options),
                    Ghost(index as int),
                );
            },
            Err(error) => {
                return Err(error);
            },
        }
        index = index + 1;
    }
    Ok(updates)
}

/// Turns an event into updates: its summary, followed by the updates of its transactions.
pub fn encode_event(event: &EventEnvelope, options: EncodingOptions) -> (result: Result<
    Vec<SubscribeUpdate>,
    PluginError,
>)
    requires
        event.well_formed(),
    ensures
        exists|metadata: UpdateMetadata|
            {
                &&& #[trigger] metadata.describes(*event)
                &&& event_outcome(result, metadata, *event, options)
            },
{
    let metadata = UpdateMetadata::new(event);
    let summary = match encode_summary(&metadata, event) {
        Ok(summary) => summary,
        Err(error) => {
            proof {
                assert(metadata.describes(*event));
            }
            return Err(error);
        },
    };
    let mut updates: Vec<SubscribeUpdate> = Vec::new();
    updates.push(summary);
    let count: usize = item_count(event, options);
    for index in 0..count
        invariant
            event.well_formed(),
            metadata.describes(*event),
            count == spec_item_count(*event, options),
            forall|i: int|
                0 <= i < index ==> #[trigger] item_error(*event, options, i) is None,
            summary_error(*event) is None,
            updates@.len() >= 1,
            encodes_summary(updates@[0], metadata, *event),
            encodes_items(updates@, metadata, *event, options, index as int),
    {
        match encode_item(&metadata, event, options, index) {
            Ok(item) => {
                append_item(
                    &mut updates,
                    item,
                    Ghost(metadata),
                    Ghost(*event),
                    Ghost(options),
                    Ghost(index as int),
                );
            },
            Err(error) => {
                proof {
                    assert(item_error(*event, options, index as int) == Some(error));
                }
                return Err(error);
            },
        }
    }
    Ok(updates)
}

/// Every update behind the summary belongs to one transaction.
pub(crate) proof fn lemma_item_of_update(
    event: EventEnvelope,
    options: EncodingOptions,
    count: int,
    position: int,
) -> (index: int)
    requires
        count >= 0,
        0 <= position < items_length(event, options, count),
    ensures
        0 <= index < count,
        items_length(event, options, index) <= position < items_length(event, options, index + 1),
    decreases count,
{
    if count <= 0 {
        0
    } else if position < items_length(event, options, count - 1) {
        lemma_item_of_update(event, options, count - 1, position)
    } else {
        count - 1
    }
}

/// All updates of an event belong to the same height: that of its block or of the new tip, or
/// none for a mempool event.
pub proof fn law_event_updates_share_one_height(
    updates: Seq<SubscribeUpdate>,
    metadata: UpdateMetadata,
    event: EventEnvelope,
    options: EncodingOptions,
)
    requires
        encodes_event(updates, metadata, event, options),
    ensures
        forall|k: int|
            0 <= k < updates.len() ==> spec_block_height(#[trigger] updates[k]) == (
            match event.payload {
                PluginEvent::BlockAccepted(block) | PluginEvent::BlockFinalized(block) => Some(
                    block.height,
                ),
                PluginEvent::BestChainChanged(change) => Some(
                    match change {
                        BestChainChange::Grow { height, .. } => height,
                        BestChainChange::Reset { height, .. } => height,
                    },
                ),
                PluginEvent::MempoolChanged(_) => None,
            }),
{
    let count = spec_item_count(event, options) as int;
    assert forall|k: int| 0 <= k < updates.len() implies spec_block_height(#[trigger] updates[k])
        == (match event.payload {
        PluginEvent::BlockAccepted(block) | PluginEvent::BlockFinalized(block) => Some(
            block.height,
        ),
        PluginEvent::BestChainChanged(change) => Some(
            match change {
                BestChainChange::Grow { height, .. } => height,
                BestChainChange::Reset { height, .. } => height,
            },
        ),
        PluginEvent::MempoolChanged(_) => None,
    }) by {
        if k > 0 {
            let index = lemma_item_of_update(event, options, count, k - 1);
            let item = item_updates(updates, event, options, index);
            assert(encodes_item(item, metadata, event, options, index));
            let offset = k - 1 - items_length(event, options, index);
            lemma_items_length_grows(event, options, index + 1, count);
            assert(item[offset] == updates[k]);
            assert(offset == 0 || offset == 1);
        }
    }
}

/// There is one summary of an event.
proof fn lemma_one_summary(
    left: SubscribeUpdate,
    right: SubscribeUpdate,
    left_metadata: UpdateMetadata,
    right_metadata: UpdateMetadata,
    event: EventEnvelope,
)
    requires
        left_metadata.describes(event),
        right_metadata.describes(event),
        encodes_summary(left, left_metadata, event),
        encodes_summary(right, right_metadata, event),
    ensures
        same_update(left, right),
{
    assert(texts(left.filters@) =~= texts(right.filters@));
    match event.payload {
        PluginEvent::BestChainChanged(BestChainChange::Grow { .. }) => {
            let one = left.update->0->BestChain_0.change->0->Grow_0;
            let other = right.update->0->BestChain_0.change->0->Grow_0;
            assert(texts(one.transaction_ids@) =~= texts(other.transaction_ids@));
        },
        PluginEvent::MempoolChanged(_) => {
            let one = left.update->0->Mempool_0;
            let other = right.update->0->Mempool_0;
            assert(texts(one.transaction_ids@) =~= texts(other.transaction_ids@));
        },
        _ => {},
    }
}

/// There is one encoding of a transaction of an event.
proof fn lemma_one_encoding_of_item(
    left: Seq<SubscribeUpdate>,
    right: Seq<SubscribeUpdate>,
    left_metadata: UpdateMetadata,
    right_metadata: UpdateMetadata,
    event: EventEnvelope,
    options: EncodingOptions,
    index: int,
)
    requires
        left_metadata.describes(event),
        right_metadata.describes(event),
        encodes_item(left, left_metadata, event, options, index),
        encodes_item(right, right_metadata, event, options, index),
    ensures
        same_updates(left, right),
{
    assert forall|i: int| 0 <= i < left.len() implies same_update(#[trigger] left[i], right[i]) by {
        assert(texts(left[i].filters@) =~= texts(right[i].filters@));
        match event.payload {
            PluginEvent::BlockAccepted(block) | PluginEvent::BlockFinalized(block) => {
                let transaction = block.transactions@[index];
                let previous = PreviousOutputs::Block(&block.spent_outputs);
                let network = block.network.address_kind;
                match (left[i].update, right[i].update) {
                    (Some(Update::Transaction(one)), Some(Update::Transaction(other))) => {
                        lemma_one_encoding_of_inputs(
                            one.transparent_inputs@,
                            other.transparent_inputs@,
                            transaction.inputs@,
                            previous,
                            network,
                        );
                        lemma_one_encoding_of_outputs(
                            one.transparent_outputs@,
                            other.transparent_outputs@,
                            transaction.outputs@,
                            network,
                        );
                    },
                    (Some(Update::Utxo(one)), Some(Update::Utxo(other))) => {
                        lemma_one_encoding_of_changes(
                            one.changes@,
                            other.changes@,
                            transaction,
                            displayed_hash(transaction.id@),
                            previous,
                            network,
                        );
                    },
                    _ => {},
                }
            },
            PluginEvent::MempoolChanged(change) => {
                let verified = change.transactions@[index];
                let previous = PreviousOutputs::Mempool(&verified.spent_outputs);
                let network = change.network.address_kind;
                if let (
                    Some(Update::MempoolTransaction(one)),
                    Some(Update::MempoolTransaction(other)),
                ) = (left[i].update, right[i].update) {
                    lemma_one_encoding_of_inputs(
                        one.transparent_inputs@,
                        other.transparent_inputs@,
                        verified.transaction.inputs@,
                        previous,
                        network,
                    );
                    lemma_one_encoding_of_outputs(
                        one.transparent_outputs@,
                        other.transparent_outputs@,
                        verified.transaction.outputs@,
                        network,
                    );
                }
            },
            PluginEvent::BestChainChanged(_) => {},
        }
    }
}

/// There is one update at each position of an event.
proof fn lemma_one_update(
    left: Seq<SubscribeUpdate>,
    right: Seq<SubscribeUpdate>,
    left_metadata: UpdateMetadata,
    right_metadata: UpdateMetadata,
    event: EventEnvelope,
    options: EncodingOptions,
    position: int,
)
    requires
        left_metadata.describes(event),
        right_metadata.describes(event),
        encodes_event(left, left_metadata, event, options),
        encodes_event(right, right_metadata, event, options),
        0 <= position < left.len(),
    ensures
        left.len() == right.len(),
        same_update(left[position], right[position]),
{
    if position == 0 {
        lemma_one_summary(left[0], right[0], left_metadata, right_metadata, event);
    } else {
        let count = spec_item_count(event, options) as int;
        let index = lemma_item_of_update(event, options, count, position - 1);
        let one = item_updates(left, event, options, index);
        let other = item_updates(right, event, options, index);
        assert(encodes_item(one, left_metadata, event, options, index));
        assert(encodes_item(other, right_metadata, event, options, index));
        lemma_one_encoding_of_item(
            one,
            other,
            left_metadata,
            right_metadata,
            event,
            options,
            index,
        );
        lemma_items_length_grows(event, options, index + 1, count);
        let offset = position - 1 - items_length(event, options, index);
        assert(one[offset] == left[position]);
        assert(other[offset] == right[position]);
    }
}

/// There is one first error of an event.
proof fn lemma_one_error(
    left: PluginError,
    right: PluginError,
    event: EventEnvelope,
    options: EncodingOptions,
)
    requires
        first_error(left, event, options),
        first_error(right, event, options),
    ensures
        left == right,
{
    if summary_error(event) is None {
        let i = choose|i: int|
            {
                &&& 0 <= i < spec_item_count(event, options)
                &&& #[trigger] item_error(event, options, i) == Some(left)
                &&& forall|j: int| 0 <= j < i ==> #[trigger] item_error(event, options, j) is None
            };
        let k = choose|k: int|
            {
                &&& 0 <= k < spec_item_count(event, options)
                &&& #[trigger] item_error(event, options, k) == Some(right)
                &&& forall|j: int| 0 <= j < k ==> #[trigger] item_error(event, options, j) is None
            };
        assert(i == k);
    }
}

/// An event has one encoding. In particular, putting it together from the outcomes for its
/// transactions, which may come from several threads, gives the same updates in the same order, or
/// the same error, as encoding its transactions one after the other.
pub proof fn law_parallel_encoding_equals_sequential(
    parallel: Result<Vec<SubscribeUpdate>, PluginError>,
    sequential: Result<Vec<SubscribeUpdate>, PluginError>,
    parallel_metadata: UpdateMetadata,
    sequential_metadata: UpdateMetadata,
    event: EventEnvelope,
    options: EncodingOptions,
)
    requires
        parallel_metadata.describes(event),
        sequential_metadata.describes(event),
        event_outcome(parallel, parallel_metadata, event, options),
        event_outcome(sequential, sequential_metadata, event, options),
    ensures
        same_outcome(parallel, sequential),
{
    match (parallel, sequential) {
        (Ok(left), Ok(right)) => {
            assert forall|k: int| 0 <= k < left@.len() implies same_update(
                #[trigger] left@[k],
                right@[k],
            ) by {
                lemma_one_update(
                    left@,
                    right@,
                    parallel_metadata,
                    sequential_metadata,
                    event,
                    options,
                    k,
                );
            }
        },
        (Err(left), Err(right)) => {
            lemma_one_error(left, right, event, options);
        },
        _ => {},
    }
}

} // verus!
