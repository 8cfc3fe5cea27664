//! Which updates an event of the node is turned into.

use crate::buffer::bytes_contents;
use crate::chain::displayed_hash;
use crate::equality::same_outcome;
use crate::event::{
    assemble_event, changes_utxos, encode_event, encode_item, encodes_canonical_block, encodes_item,
    item_count, item_error, item_updates, items_length, lemma_item_of_update,
    lemma_items_length_grows, spec_item_count, stamped, EncodingOptions, UpdateMetadata,
};
use crate::laws::encoding::{
    is_known_of, lemma_known, lemma_spending, reports_created, reports_input, reports_output,
    reports_spent, spending, KnownOutput,
};
use crate::node::{
    BestChainChange, BlockEvent, ChainBlock, ChainInput, ChainNetwork, ChainTransaction,
    EventEnvelope, MempoolEvent, MempoolEventKind, PluginError, PluginEvent, VerifiedTransaction,
};
use crate::proto::{
    BestChainUpdate, BestChainUpdateChange, BlockUpdate, CanonicalBlock, EventType,
    MempoolTransactionUpdate, MempoolUpdate, SubscribeUpdate, TransactionUpdate, Update, UtxoUpdate,
};
use crate::transparent::{
    encode_transparent_updates, encodes_created, encodes_input, encodes_output, encodes_spent,
    lemma_spent_count_grows, lemma_spent_count_step, spent_count, transparent_error,
    EncodedTransparentUpdates, PreviousOutputs,
};
use bytes::Bytes;
use vstd::prelude::*;

verus! {

/// The number that bytes make up, most significant first.
pub open spec fn made_up_of(bytes: Seq<u8>) -> int {
    bytes.fold_left(0int, |number: int, byte: u8| number * 256 + byte)
}

/// Whether an update comes from an event and is of the type with some number.
pub open spec fn comes_from(
    update: SubscribeUpdate,
    event: EventEnvelope,
    event_type: int,
) -> bool {
    &&& update.event_type == event_type
    &&& update.schema_version == event.schema_version
    &&& update.source_sequence == event.sequence
    &&& bytes_contents(update.session_id).len() == 16
    &&& made_up_of(bytes_contents(update.session_id)) == event.session_id
    &&& update.observed_at is Some
    &&& match event.observed_at {
        Some(time) => {
            &&& update.observed_at->0.nanos == time.nanos
            &&& time.seconds <= i64::MAX ==> update.observed_at->0.seconds == time.seconds
            &&& time.seconds > i64::MAX ==> update.observed_at->0.seconds == i64::MAX
        },
        None => update.observed_at->0.seconds == 0 && update.observed_at->0.nanos == 0,
    }
    &&& update.sequence == 0
    &&& update.filters@.len() == 0
}

spec fn largest(length: nat) -> int
    decreases length,
{
    if length == 0 {
        1
    } else {
        256 * largest((length - 1) as nat)
    }
}

proof fn lemma_made_up_of(value: nat, length: nat)
    requires
        value < largest(length),
    ensures
        crate::event::big_endian(value, length).len() == length,
        made_up_of(crate::event::big_endian(value, length)) == value,
    decreases length,
{
    if length > 0 {
        lemma_made_up_of(value / 256, (length - 1) as nat);
        let bytes = crate::event::big_endian(value, length);
        assert(bytes.drop_last() =~= crate::event::big_endian(value / 256, (length - 1) as nat));
    }
}

proof fn lemma_comes_from(
    update: SubscribeUpdate,
    metadata: UpdateMetadata,
    event: EventEnvelope,
    event_type: EventType,
)
    requires
        metadata.describes(event),
        event.well_formed(),
        stamped(update, metadata, event_type),
    ensures
        comes_from(update, event, event_type.spec_number() as int),
{
    assert(event.session_id < largest(16)) by {
        reveal_with_fuel(largest, 17);
    }
    lemma_made_up_of(event.session_id as nat, 16);
}

/// Whether a message is about a block, in full.
pub open spec fn is_about_block(message: BlockUpdate, block: BlockEvent, finalized: bool) -> bool {
    &&& message.height == block.height
    &&& message.hash@ == displayed_hash(block.hash@)
    &&& block.encoded matches Ok(encoded)
    &&& bytes_contents(message.block) == bytes_contents(encoded)
    &&& message.receipt_order == block.receipt_order
    &&& message.finalized == finalized
    &&& message.payload == 1
}

/// Whether a message is about a block of the best chain.
pub open spec fn is_chain_block(message: CanonicalBlock, block: ChainBlock) -> bool {
    &&& message.height == block.height
    &&& message.hash@ == displayed_hash(block.hash@)
    &&& message.previous_block_hash@ == displayed_hash(block.previous_block_hash@)
}

/// Whether a message is about a change of the best chain.
pub open spec fn is_about_change(message: BestChainUpdate, change: BestChainChange) -> bool {
    match change {
        BestChainChange::Grow { height, hash, previous_block_hash, transaction_ids } => {
            &&& message.height == height
            &&& message.hash@ == displayed_hash(hash@)
            &&& message.change matches Some(BestChainUpdateChange::Grow(grow))
            &&& grow.previous_block_hash@ == displayed_hash(previous_block_hash@)
            &&& grow.transaction_ids@.len() == transaction_ids@.len()
            &&& forall|i: int|
                0 <= i < transaction_ids@.len() ==> (#[trigger] grow.transaction_ids@[i])@
                    == displayed_hash(transaction_ids@[i]@)
        },
        BestChainChange::Reset {
            height,
            hash,
            disconnected_blocks,
            connected_blocks,
            diff_complete,
        } => {
            &&& message.height == height
            &&& message.hash@ == displayed_hash(hash@)
            &&& message.change matches Some(BestChainUpdateChange::Reset(reset))
            &&& reset.disconnected_blocks@.len() == disconnected_blocks@.len()
            &&& forall|i: int|
                0 <= i < disconnected_blocks@.len() ==> is_chain_block(
                    #[trigger] reset.disconnected_blocks@[i],
                    disconnected_blocks@[i],
                )
            &&& reset.connected_blocks@.len() == connected_blocks@.len()
            &&& forall|i: int|
                0 <= i < connected_blocks@.len() ==> is_chain_block(
                    #[trigger] reset.connected_blocks@[i],
                    connected_blocks@[i],
                )
            &&& reset.diff_complete == diff_complete
        },
    }
}

/// Whether a text is the identifier of an unmined transaction: its ID, followed by its authorizing
/// digest where there is one.
pub open spec fn names_unmined(
    text: Seq<char>,
    transaction_id: [u8; 32],
    auth_digest: Option<[u8; 32]>,
) -> bool {
    match auth_digest {
        Some(digest) => text == displayed_hash(transaction_id@) + displayed_hash(digest@),
        None => text == displayed_hash(transaction_id@),
    }
}

/// Whether a message is about transactions that entered or left the mempool.
pub open spec fn is_about_mempool(message: MempoolUpdate, change: MempoolEvent) -> bool {
    &&& message.action == (match change.kind {
        MempoolEventKind::Added => 1int,
        MempoolEventKind::Invalidated => 2,
        MempoolEventKind::Mined => 3,
    })
    &&& message.transaction_ids@.len() == change.transaction_ids@.len()
    &&& forall|i: int|
        0 <= i < change.transaction_ids@.len() ==> names_unmined(
            (#[trigger] message.transaction_ids@[i])@,
            change.transaction_ids@[i].mined_id,
            change.transaction_ids@[i].auth_digest,
        )
}

/// The first update of an event is its summary.
pub proof fn law_events_start_with_their_summary(
    event: EventEnvelope,
    options: EncodingOptions,
    updates: Vec<SubscribeUpdate>,
)
    requires
        event.well_formed(),
        call_ensures(encode_event, (&event, options), Ok(updates)),
    ensures
        updates@.len() > 0,
        match event.payload {
            PluginEvent::BlockAccepted(block) => {
                &&& comes_from(updates@[0], event, 1)
                &&& updates@[0].update matches Some(Update::Block(message))
                &&& is_about_block(message, block, false)
            },
            PluginEvent::BestChainChanged(change) => {
                &&& comes_from(updates@[0], event, 2)
                &&& updates@[0].update matches Some(Update::BestChain(message))
                &&& is_about_change(*message, change)
            },
            PluginEvent::BlockFinalized(block) => {
                &&& comes_from(updates@[0], event, 3)
                &&& updates@[0].update matches Some(Update::Block(message))
                &&& is_about_block(message, block, true)
            },
            PluginEvent::MempoolChanged(change) => {
                &&& comes_from(updates@[0], event, 4)
                &&& updates@[0].update matches Some(Update::Mempool(message))
                &&& is_about_mempool(*message, change)
            },
        },
        event.payload is BestChainChanged ==> updates@.len() == 1,
{
    let metadata = choose|metadata: UpdateMetadata|
        {
            &&& #[trigger] metadata.describes(event)
            &&& crate::event::event_outcome(
                Ok::<Vec<SubscribeUpdate>, PluginError>(updates),
                metadata,
                event,
                options,
            )
        };
    let event_type = match event.payload {
        PluginEvent::BlockAccepted(_) => EventType::BlockAccepted,
        PluginEvent::BestChainChanged(_) => EventType::BestChainChanged,
        PluginEvent::BlockFinalized(_) => EventType::BlockFinalized,
        PluginEvent::MempoolChanged(_) => EventType::MempoolChanged,
    };
    lemma_comes_from(updates@[0], metadata, event, event_type);
    if event.payload is BestChainChanged {
        let change = event.payload->BestChainChanged_0;
        let message = updates@[0].update->0->BestChain_0;
        if change is Reset {
            let reset = message.change->0->Reset_0;
            assert forall|i: int|
                0 <= i < change->disconnected_blocks@.len() implies is_chain_block(
                #[trigger] reset.disconnected_blocks@[i],
                change->disconnected_blocks@[i],
            ) by {
                assert(encodes_canonical_block(
                    reset.disconnected_blocks@[i],
                    change->disconnected_blocks@[i],
                ));
            }
            assert forall|i: int| 0 <= i < change->connected_blocks@.len() implies is_chain_block(
                #[trigger] reset.connected_blocks@[i],
                change->connected_blocks@[i],
            ) by {
                assert(encodes_canonical_block(
                    reset.connected_blocks@[i],
                    change->connected_blocks@[i],
                ));
            }
        }
    }
}

/// Whether a transaction is the coinbase transaction of its block.
pub open spec fn creates_coins(transaction: ChainTransaction) -> bool {
    transaction.inputs@.len() == 1 && transaction.inputs@[0] is Coinbase
}

/// Whether an authorizing digest is shown where there is one.
pub open spec fn shows_digest(text: Option<String>, digest: Option<[u8; 32]>) -> bool {
    match digest {
        Some(digest) => text is Some && text->0@ == displayed_hash(digest@),
        None => text is None,
    }
}

/// Whether a buffer is the consensus encoding of a transaction.
pub open spec fn holds_transaction(buffer: Bytes, transaction: ChainTransaction) -> bool {
    transaction.encoded matches Ok(encoded) && bytes_contents(buffer) == bytes_contents(encoded)
}

/// Whether a message is about the transaction at some position of a block.
pub open spec fn is_about_mined(
    message: TransactionUpdate,
    block: BlockEvent,
    finalized: bool,
    index: int,
) -> bool {
    let transaction = block.transactions@[index];
    &&& message.transaction_id@ == displayed_hash(transaction.id@)
    &&& names_unmined(message.unmined_transaction_id@, transaction.id, transaction.auth_digest)
    &&& shows_digest(message.auth_digest, transaction.auth_digest)
    &&& holds_transaction(message.transaction, transaction)
    &&& message.height == block.height
    &&& message.block_hash@ == displayed_hash(block.hash@)
    &&& message.transaction_index == index
    &&& message.commitment == (if finalized {
        2int
    } else {
        1
    })
    &&& message.coinbase == creates_coins(transaction)
    &&& message.transparent_inputs@.len() == transaction.inputs@.len()
    &&& message.transparent_outputs@.len() == transaction.outputs@.len()
    &&& message.version == transaction.version
    &&& message.lock_time == transaction.lock_time
    &&& message.lock_time_is_time == transaction.lock_time_is_time
    &&& message.expiry_height == transaction.expiry_height
    &&& message.network@ == block.network.name@
    &&& message.has_transparent == (transaction.inputs@.len() > 0 || transaction.outputs@.len() > 0)
    &&& message.has_sapling == transaction.has_sapling
    &&& message.has_orchard == transaction.has_orchard
}

/// Whether a message is about the outputs that the transaction at some position of a block spends
/// and creates.
pub open spec fn is_about_outputs(
    message: UtxoUpdate,
    block: BlockEvent,
    finalized: bool,
    index: int,
) -> bool {
    let transaction = block.transactions@[index];
    &&& message.height == block.height
    &&& message.block_hash@ == displayed_hash(block.hash@)
    &&& message.transaction_id@ == displayed_hash(transaction.id@)
    &&& message.transaction_index == index
    &&& message.commitment == (if finalized {
        2int
    } else {
        1
    })
    &&& message.changes@.len() == spending(transaction.inputs@).len() + transaction.outputs@.len()
    &&& message.changes@.len() > 0
    &&& message.coinbase == creates_coins(transaction)
    &&& message.version == transaction.version
    &&& message.has_transparent == (transaction.inputs@.len() > 0 || transaction.outputs@.len() > 0)
    &&& message.has_sapling == transaction.has_sapling
    &&& message.has_orchard == transaction.has_orchard
}

/// Whether a message is about a transaction that entered the mempool.
pub open spec fn is_about_unmined(
    message: MempoolTransactionUpdate,
    network: ChainNetwork,
    verified: VerifiedTransaction,
) -> bool {
    let transaction = verified.transaction;
    &&& message.transaction_id@ == displayed_hash(transaction.id@)
    &&& names_unmined(message.unmined_transaction_id@, transaction.id, transaction.auth_digest)
    &&& shows_digest(message.auth_digest, transaction.auth_digest)
    &&& holds_transaction(message.transaction, transaction)
    &&& message.network@ == network.name@
    &&& message.transparent_inputs@.len() == transaction.inputs@.len()
    &&& message.transparent_outputs@.len() == transaction.outputs@.len()
    &&& message.version == transaction.version
    &&& message.lock_time == transaction.lock_time
    &&& message.lock_time_is_time == transaction.lock_time_is_time
    &&& message.expiry_height == transaction.expiry_height
    &&& message.miner_fee_zat == verified.miner_fee_zat
    &&& message.admitted_at == verified.admitted_at
    &&& message.admitted_height == verified.admitted_height
    &&& message.conventional_actions == verified.conventional_actions
    &&& message.unpaid_actions == verified.unpaid_actions
    &&& message.legacy_sigop_count == verified.legacy_sigop_count
    &&& message.p2sh_sigop_count == verified.p2sh_sigop_count
    &&& message.fee_weight_ratio_bits == verified.fee_weight_ratio_bits
    &&& message.coinbase == creates_coins(transaction)
    &&& message.has_transparent == (transaction.inputs@.len() > 0 || transaction.outputs@.len() > 0)
    &&& message.has_sapling == transaction.has_sapling
    &&& message.has_orchard == transaction.has_orchard
}

/// Whether an event is about a block.
pub open spec fn is_of_block(event: EventEnvelope, block: BlockEvent) -> bool {
    match event.payload {
        PluginEvent::BlockAccepted(accepted) => accepted == block,
        PluginEvent::BlockFinalized(finalized) => finalized == block,
        _ => false,
    }
}

/// The number of updates for a transaction of a block: one for the transaction, and one for the
/// outputs that it spends and creates, if there are any.
pub open spec fn updates_of(transaction: ChainTransaction, options: EncodingOptions) -> int {
    (if options.transaction_updates {
        1int
    } else {
        0
    }) + (if options.utxo_updates && (spending(transaction.inputs@).len() > 0
        || transaction.outputs@.len() > 0) {
        1int
    } else {
        0
    })
}

/// The number of updates for transactions of a block.
pub open spec fn updates_of_all(
    transactions: Seq<ChainTransaction>,
    options: EncodingOptions,
) -> int {
    transactions.fold_left(
        0int,
        |number: int, transaction: ChainTransaction| number + updates_of(transaction, options),
    )
}

proof fn lemma_updates_before(
    event: EventEnvelope,
    block: BlockEvent,
    options: EncodingOptions,
    count: int,
)
    requires
        is_of_block(event, block),
        0 <= count <= block.transactions@.len(),
    ensures
        updates_of_all(block.transactions@.take(count), options) == items_length(
            event,
            options,
            count,
        ),
    decreases count,
{
    let before = block.transactions@.take(count);
    if count > 0 {
        lemma_updates_before(event, block, options, count - 1);
        assert(before.drop_last() =~= block.transactions@.take(count - 1));
        lemma_spending(block.transactions@[count - 1].inputs@);
    }
}

/// Each update behind the summary is one of a transaction.
proof fn lemma_item_at(
    updates: Seq<SubscribeUpdate>,
    metadata: UpdateMetadata,
    event: EventEnvelope,
    options: EncodingOptions,
    position: int,
) -> (item: (int, int))
    requires
        crate::event::encodes_event(updates, metadata, event, options),
        0 < position < updates.len(),
    ensures
        0 <= item.0 < spec_item_count(event, options),
        encodes_item(
            item_updates(updates, event, options, item.0),
            metadata,
            event,
            options,
            item.0,
        ),
        0 <= item.1 < item_updates(updates, event, options, item.0).len(),
        item_updates(updates, event, options, item.0)[item.1] == updates[position],
{
    let count = spec_item_count(event, options) as int;
    let index = lemma_item_of_update(event, options, count, position - 1);
    lemma_items_length_grows(event, options, index + 1, count);
    let offset = position - 1 - items_length(event, options, index);
    (index, offset)
}

/// What was encoded of an event belongs to one set of metadata.
proof fn lemma_metadata(
    event: EventEnvelope,
    options: EncodingOptions,
    updates: Vec<SubscribeUpdate>,
) -> (metadata: UpdateMetadata)
    requires
        event.well_formed(),
        call_ensures(encode_event, (&event, options), Ok(updates)),
    ensures
        metadata.describes(event),
        crate::event::event_outcome(
            Ok::<Vec<SubscribeUpdate>, PluginError>(updates),
            metadata,
            event,
            options,
        ),
{
    choose|metadata: UpdateMetadata|
        {
            &&& #[trigger] metadata.describes(event)
            &&& crate::event::event_outcome(
                Ok::<Vec<SubscribeUpdate>, PluginError>(updates),
                metadata,
                event,
                options,
            )
        }
}

/// Every update of a transaction, and of the outputs of one, is about the transaction at the
/// position that it carries, and reports the totals that the transaction adds up to.
pub proof fn law_transaction_updates_are_about_their_transaction(
    event: EventEnvelope,
    block: BlockEvent,
    options: EncodingOptions,
    updates: Vec<SubscribeUpdate>,
    position: int,
    index: int,
    transaction_id: String,
    encoded: EncodedTransparentUpdates,
)
    requires
        event.well_formed(),
        call_ensures(encode_event, (&event, options), Ok(updates)),
        is_of_block(event, block),
        0 < position < updates@.len(),
        updates@[position].update matches Some(Update::Transaction(message)) ==> index
            == message.transaction_index,
        updates@[position].update matches Some(Update::Utxo(message)) ==> index
            == message.transaction_index,
        call_ensures(
            encode_transparent_updates,
            (
                &block.transactions@[index],
                &transaction_id,
                block.network.address_kind,
                PreviousOutputs::Block(&block.spent_outputs),
                true,
                true,
            ),
            Ok(encoded),
        ),
    ensures
        0 <= index < block.transactions@.len(),
        match updates@[position].update {
            Some(Update::Transaction(message)) => {
                &&& options.transaction_updates
                &&& comes_from(updates@[position], event, 5)
                &&& is_about_mined(*message, block, event.payload is BlockFinalized, index)
                &&& message.transparent_input_value_zat == encoded.transparent_input_value_zat
                &&& message.transparent_output_value_zat == encoded.transparent_output_value_zat
            },
            Some(Update::Utxo(message)) => {
                &&& options.utxo_updates
                &&& comes_from(updates@[position], event, 6)
                &&& is_about_outputs(*message, block, event.payload is BlockFinalized, index)
                &&& message.transparent_input_value_zat == encoded.transparent_input_value_zat
                &&& message.transparent_output_value_zat == encoded.transparent_output_value_zat
            },
            _ => false,
        },
{
    let metadata = lemma_metadata(event, options, updates);
    let item = lemma_item_at(updates@, metadata, event, options, position);
    let update = updates@[position];
    assert(item.1 == 0 || item.1 == 1);
    lemma_spending(block.transactions@[item.0].inputs@);
    if update.update->0 is Transaction {
        lemma_comes_from(update, metadata, event, EventType::Transaction);
    } else {
        lemma_comes_from(update, metadata, event, EventType::Utxo);
    }
}

/// The updates of the transactions of a block follow the summary in the order of the transactions,
/// each transaction before its outputs.
pub proof fn law_transaction_updates_keep_the_order(
    event: EventEnvelope,
    block: BlockEvent,
    options: EncodingOptions,
    updates: Vec<SubscribeUpdate>,
    index: int,
)
    requires
        event.well_formed(),
        call_ensures(encode_event, (&event, options), Ok(updates)),
        is_of_block(event, block),
        0 <= index < block.transactions@.len(),
    ensures
        updates@.len() == 1 + updates_of_all(block.transactions@, options),
        options.transaction_updates ==> {
            let update = updates@[1 + updates_of_all(block.transactions@.take(index), options)];
            update.update matches Some(Update::Transaction(message)) && message.transaction_index
                == index
        },
        options.utxo_updates && (spending(block.transactions@[index].inputs@).len() > 0
            || block.transactions@[index].outputs@.len() > 0) ==> {
            let update = updates@[updates_of_all(block.transactions@.take(index + 1), options)];
            update.update matches Some(Update::Utxo(message)) && message.transaction_index == index
        },
{
    let metadata = lemma_metadata(event, options, updates);
    let transactions = block.transactions@;
    let count = transactions.len() as int;
    lemma_updates_before(event, block, options, index);
    lemma_updates_before(event, block, options, index + 1);
    lemma_updates_before(event, block, options, count);
    assert(transactions.take(count) =~= transactions);
    if options.transaction_updates || options.utxo_updates {
        lemma_items_length_grows(event, options, index + 1, count);
        let item = item_updates(updates@, event, options, index);
        assert(encodes_item(item, metadata, event, options, index));
        lemma_spending(transactions[index].inputs@);
        let at = 1 + items_length(event, options, index) as int;
        if options.transaction_updates {
            assert(item[0] == updates@[at]);
        }
        if options.utxo_updates && changes_utxos(transactions[index]) {
            let first: int = if options.transaction_updates {
                1
            } else {
                0
            };
            assert(item[first] == updates@[at + first]);
        }
    } else {
        lemma_no_updates(event, block, options, count);
    }
}

proof fn lemma_no_updates(
    event: EventEnvelope,
    block: BlockEvent,
    options: EncodingOptions,
    count: int,
)
    requires
        is_of_block(event, block),
        !options.transaction_updates,
        !options.utxo_updates,
    ensures
        items_length(event, options, count) == 0,
    decreases count,
{
    if count > 0 {
        lemma_no_updates(event, block, options, count - 1);
    }
}

/// The update of a transaction in a block reports each of its inputs and outputs.
pub proof fn law_transaction_updates_report_inputs_and_outputs(
    event: EventEnvelope,
    block: BlockEvent,
    options: EncodingOptions,
    updates: Vec<SubscribeUpdate>,
    position: int,
    index: int,
    place: int,
    known: Option<KnownOutput>,
)
    requires
        event.well_formed(),
        call_ensures(encode_event, (&event, options), Ok(updates)),
        is_of_block(event, block),
        0 < position < updates@.len(),
        updates@[position].update matches Some(Update::Transaction(message)) && index
            == message.transaction_index,
        0 <= place,
        place < block.transactions@[index].inputs@.len() ==> (
        block.transactions@[index].inputs@[place] matches ChainInput::Prevout { outpoint, .. }
            ==> is_known_of(
            known,
            outpoint,
            place,
            PreviousOutputs::Block(&block.spent_outputs),
        )),
    ensures
        updates@[position].update matches Some(Update::Transaction(message)) && {
            &&& place < block.transactions@[index].inputs@.len() ==> reports_input(
                message.transparent_inputs@[place],
                block.transactions@[index].inputs@[place],
                place,
                known,
                block.network.address_kind,
            )
            &&& place < block.transactions@[index].outputs@.len() ==> reports_output(
                message.transparent_outputs@[place],
                block.transactions@[index].outputs@[place],
                place,
                block.network.address_kind,
            )
        },
{
    let metadata = lemma_metadata(event, options, updates);
    let item = lemma_item_at(updates@, metadata, event, options, position);
    assert(item.1 == 0 || item.1 == 1);
    assert(index == item.0);
    let message = updates@[position].update->0->Transaction_0;
    let transaction = block.transactions@[index];
    let previous = PreviousOutputs::Block(&block.spent_outputs);
    let network = block.network.address_kind;
    if place < transaction.inputs@.len() {
        let input = transaction.inputs@[place];
        assert(encodes_input(message.transparent_inputs@[place], input, place, previous, network));
        if input is Prevout {
            lemma_known(known, input->outpoint, place, previous);
        }
    }
    if place < transaction.outputs@.len() {
        assert(encodes_output(
            message.transparent_outputs@[place],
            transaction.outputs@[place],
            place,
            network,
        ));
    }
}

/// The update of the outputs of a transaction in a block reports each output that is spent, in the
/// order of the inputs, and then each output that is created, in the order of the outputs.
pub proof fn law_utxo_updates_report_changes(
    event: EventEnvelope,
    block: BlockEvent,
    options: EncodingOptions,
    updates: Vec<SubscribeUpdate>,
    position: int,
    index: int,
    place: int,
    known: Option<KnownOutput>,
)
    requires
        event.well_formed(),
        call_ensures(encode_event, (&event, options), Ok(updates)),
        is_of_block(event, block),
        0 < position < updates@.len(),
        updates@[position].update matches Some(Update::Utxo(message)) && index
            == message.transaction_index,
        0 <= place,
        place < block.transactions@[index].inputs@.len() ==> (
        block.transactions@[index].inputs@[place] matches ChainInput::Prevout { outpoint, .. }
            ==> is_known_of(
            known,
            outpoint,
            place,
            PreviousOutputs::Block(&block.spent_outputs),
        )),
    ensures
        updates@[position].update matches Some(Update::Utxo(message)) && {
            let transaction = block.transactions@[index];
            let spent = spending(transaction.inputs@).len();
            &&& place < transaction.inputs@.len() && transaction.inputs@[place] is Prevout
                ==> reports_spent(
                message.changes@[spending(transaction.inputs@.take(place)).len() as int],
                transaction.inputs@[place],
                place,
                known,
                block.network.address_kind,
            )
            &&& place < transaction.outputs@.len() ==> reports_created(
                message.changes@[spent + place],
                transaction.outputs@[place],
                place,
                displayed_hash(transaction.id@),
                block.network.address_kind,
            )
        },
{
    let metadata = lemma_metadata(event, options, updates);
    let item = lemma_item_at(updates@, metadata, event, options, position);
    assert(item.1 == 0 || item.1 == 1);
    assert(index == item.0);
    let message = updates@[position].update->0->Utxo_0;
    let transaction = block.transactions@[index];
    let inputs = transaction.inputs@;
    let previous = PreviousOutputs::Block(&block.spent_outputs);
    let network = block.network.address_kind;
    let spent = spent_count(inputs) as int;
    lemma_spending(inputs);
    if place < inputs.len() && inputs[place] is Prevout {
        let input = inputs[place];
        lemma_spending(inputs.take(place));
        lemma_known(known, input->outpoint, place, previous);
        lemma_spent_count_step(inputs, place);
        lemma_spent_count_grows(inputs, place + 1, inputs.len() as int);
        assert(inputs.take(inputs.len() as int) =~= inputs);
        assert(encodes_spent(
            message.changes@.take(spent)[spent_count(inputs.take(place)) as int],
            input,
            place,
            previous,
            network,
        ));
    }
    if place < transaction.outputs@.len() {
        assert(encodes_created(
            message.changes@.skip(spent)[place],
            transaction.outputs@[place],
            place,
            displayed_hash(transaction.id@),
            network,
        ));
    }
}

/// Transactions that enter the mempool follow the summary in their order, one update for each, with
/// the totals that the transaction adds up to. Those that leave the mempool have no update of their
/// own.
pub proof fn law_mempool_transactions_follow_in_order(
    event: EventEnvelope,
    change: MempoolEvent,
    options: EncodingOptions,
    updates: Vec<SubscribeUpdate>,
    index: int,
    place: int,
    known: Option<KnownOutput>,
    transaction_id: String,
    encoded: EncodedTransparentUpdates,
)
    requires
        event.well_formed(),
        call_ensures(encode_event, (&event, options), Ok(updates)),
        event.payload == PluginEvent::MempoolChanged(change),
        0 <= index < change.transactions@.len(),
        0 <= place,
        place < change.transactions@[index].transaction.inputs@.len() ==> (
        change.transactions@[index].transaction.inputs@[place] matches ChainInput::Prevout {
            outpoint,
            ..
        } ==> is_known_of(
            known,
            outpoint,
            place,
            PreviousOutputs::Mempool(&change.transactions@[index].spent_outputs),
        )),
        call_ensures(
            encode_transparent_updates,
            (
                &change.transactions@[index].transaction,
                &transaction_id,
                change.network.address_kind,
                PreviousOutputs::Mempool(&change.transactions@[index].spent_outputs),
                true,
                true,
            ),
            Ok(encoded),
        ),
    ensures
        updates@.len() == 1 + (if options.mempool_transaction_updates && change.kind
            == MempoolEventKind::Added {
            change.transactions@.len()
        } else {
            0
        }),
        options.mempool_transaction_updates && change.kind == MempoolEventKind::Added ==> {
            let transaction = change.transactions@[index].transaction;
            let network = change.network.address_kind;
            &&& comes_from(updates@[1 + index], event, 7)
            &&& updates@[1 + index].update matches Some(Update::MempoolTransaction(message))
            &&& is_about_unmined(*message, change.network, change.transactions@[index])
            &&& message.transparent_input_value_zat == encoded.transparent_input_value_zat
            &&& message.transparent_output_value_zat == encoded.transparent_output_value_zat
            &&& place < transaction.inputs@.len() ==> reports_input(
                message.transparent_inputs@[place],
                transaction.inputs@[place],
                place,
                known,
                network,
            )
            &&& place < transaction.outputs@.len() ==> reports_output(
                message.transparent_outputs@[place],
                transaction.outputs@[place],
                place,
                network,
            )
        },
{
    let metadata = lemma_metadata(event, options, updates);
    let count = spec_item_count(event, options) as int;
    lemma_one_each(event, change, options, count);
    if options.mempool_transaction_updates && change.kind == MempoolEventKind::Added {
        lemma_one_each(event, change, options, index);
        lemma_one_each(event, change, options, index + 1);
        let item = item_updates(updates@, event, options, index);
        assert(encodes_item(item, metadata, event, options, index));
        assert(item[0] == updates@[1 + index]);
        lemma_comes_from(updates@[1 + index], metadata, event, EventType::MempoolTransaction);
        let message = updates@[1 + index].update->0->MempoolTransaction_0;
        let verified = change.transactions@[index];
        let transaction = verified.transaction;
        let previous = PreviousOutputs::Mempool(&verified.spent_outputs);
        let network = change.network.address_kind;
        if place < transaction.inputs@.len() {
            let input = transaction.inputs@[place];
            assert(encodes_input(
                message.transparent_inputs@[place],
                input,
                place,
                previous,
                network,
            ));
            if input is Prevout {
                lemma_known(known, input->outpoint, place, previous);
            }
        }
        if place < transaction.outputs@.len() {
            assert(encodes_output(
                message.transparent_outputs@[place],
                transaction.outputs@[place],
                place,
                network,
            ));
        }
    }
}

proof fn lemma_one_each(
    event: EventEnvelope,
    change: MempoolEvent,
    options: EncodingOptions,
    count: int,
)
    requires
        event.payload == PluginEvent::MempoolChanged(change),
        count >= 0,
    ensures
        items_length(event, options, count) == count,
    decreases count,
{
    if count > 0 {
        lemma_one_each(event, change, options, count - 1);
    }
}

/// Whether the inputs and outputs of a transaction can be encoded.
pub open spec fn adds_up(
    transaction: ChainTransaction,
    network: ChainNetwork,
    previous: PreviousOutputs<'_>,
) -> bool {
    exists|transaction_id: String, encoded: EncodedTransparentUpdates| #[trigger]
        call_ensures(
            encode_transparent_updates,
            (&transaction, &transaction_id, network.address_kind, previous, true, true),
            Ok(encoded),
        )
}

/// Whether every transaction of a block can be encoded.
pub open spec fn all_encodable(block: BlockEvent, options: EncodingOptions) -> bool {
    &&& block.transactions@.len() <= 0x1_0000_0000
    &&& forall|i: int|
        0 <= i < block.transactions@.len() ==> {
            &&& adds_up(
                #[trigger] block.transactions@[i],
                block.network,
                PreviousOutputs::Block(&block.spent_outputs),
            )
            &&& options.transaction_updates ==> block.transactions@[i].encoded is Ok
        }
}

/// Whether every transaction that entered the mempool can be encoded.
pub open spec fn all_entering_encodable(change: MempoolEvent) -> bool {
    forall|i: int|
        0 <= i < change.transactions@.len() ==> {
            &&& adds_up(
                (#[trigger] change.transactions@[i]).transaction,
                change.network,
                PreviousOutputs::Mempool(&change.transactions@[i].spent_outputs),
            )
            &&& change.transactions@[i].transaction.encoded is Ok
        }
}

/// The event of a block is encoded unless the node has no encoding of the block or of a wanted
/// transaction, or the inputs and outputs of a wanted transaction do not add up, or there are more
/// transactions than the protocol can number. Without an encoding of the block, the reason is
/// reported.
pub proof fn law_encodable_blocks_are_encoded(
    event: EventEnvelope,
    block: BlockEvent,
    options: EncodingOptions,
    result: Result<Vec<SubscribeUpdate>, PluginError>,
)
    requires
        event.well_formed(),
        is_of_block(event, block),
        call_ensures(encode_event, (&event, options), result),
    ensures
        block.encoded is Err ==> (result matches Err(PluginError::Block(reason)) && block.encoded
            == Err::<Bytes, String>(reason)),
        block.encoded is Ok && !options.transaction_updates && !options.utxo_updates
            ==> result is Ok,
        block.encoded is Ok && all_encodable(block, options) ==> result is Ok,
        result is Ok && options.transaction_updates ==> forall|i: int|
            0 <= i < block.transactions@.len() ==> (#[trigger] block.transactions@[i]).encoded is Ok,
        result is Ok && (options.transaction_updates || options.utxo_updates)
            ==> block.transactions@.len() <= 0x1_0000_0000,
{
    let metadata = choose|metadata: UpdateMetadata|
        {
            &&& #[trigger] metadata.describes(event)
            &&& crate::event::event_outcome(result, metadata, event, options)
        };
    let transactions = block.transactions@;
    let previous = PreviousOutputs::Block(&block.spent_outputs);
    if all_encodable(block, options) {
        assert forall|i: int| 0 <= i < transactions.len() implies #[trigger] item_error(
            event,
            options,
            i,
        ) is None by {
            assert(adds_up(transactions[i], block.network, previous));
            lemma_adds_up(transactions[i], block.network, previous);
        }
    }
    if result is Ok && (options.transaction_updates || options.utxo_updates) {
        assert forall|i: int| 0 <= i < transactions.len() && options.transaction_updates implies (
        #[trigger] transactions[i]).encoded is Ok by {
            assert(item_error(event, options, i) is None);
        }
        if transactions.len() > 0 {
            assert(item_error(event, options, transactions.len() - 1) is None);
        }
    }
}

/// The first transaction of a block that cannot be encoded is the one whose error is reported: that
/// of its inputs and outputs, or that of its encoding.
pub proof fn law_first_failure_is_reported(
    event: EventEnvelope,
    block: BlockEvent,
    options: EncodingOptions,
    index: int,
    transaction_id: String,
    parts: Result<EncodedTransparentUpdates, PluginError>,
    result: Result<Vec<SubscribeUpdate>, PluginError>,
)
    requires
        event.well_formed(),
        is_of_block(event, block),
        block.encoded is Ok,
        options.transaction_updates || options.utxo_updates,
        0 <= index < block.transactions@.len(),
        index < 0x1_0000_0000,
        forall|i: int|
            0 <= i < index ==> adds_up(
                #[trigger] block.transactions@[i],
                block.network,
                PreviousOutputs::Block(&block.spent_outputs),
            ) && block.transactions@[i].encoded is Ok,
        call_ensures(
            encode_transparent_updates,
            (
                &block.transactions@[index],
                &transaction_id,
                block.network.address_kind,
                PreviousOutputs::Block(&block.spent_outputs),
                true,
                true,
            ),
            parts,
        ),
        call_ensures(encode_event, (&event, options), result),
    ensures
        parts matches Err(error) ==> result == Err::<Vec<SubscribeUpdate>, PluginError>(error),
        parts is Ok && options.transaction_updates && block.transactions@[index].encoded is Err
            ==> result == Err::<Vec<SubscribeUpdate>, PluginError>(
            PluginError::Transaction(block.transactions@[index].encoded->Err_0),
        ),
{
    let metadata = choose|metadata: UpdateMetadata|
        {
            &&& #[trigger] metadata.describes(event)
            &&& crate::event::event_outcome(result, metadata, event, options)
        };
    let previous = PreviousOutputs::Block(&block.spent_outputs);
    assert forall|i: int| 0 <= i < index implies #[trigger] item_error(event, options, i) is None by {
        assert(adds_up(block.transactions@[i], block.network, previous));
        lemma_adds_up(block.transactions@[i], block.network, previous);
    }
    if item_error(event, options, index) is Some {
        assert(result is Err);
        let i = choose|i: int|
            {
                &&& 0 <= i < spec_item_count(event, options)
                &&& #[trigger] item_error(event, options, i) == Some(result->Err_0)
                &&& forall|j: int| 0 <= j < i ==> #[trigger] item_error(event, options, j) is None
            };
        assert(i == index);
    }
}

/// Changes of the best chain are always encoded. The event of the mempool is encoded unless the
/// node has no encoding of a wanted transaction, or its inputs and outputs do not add up.
pub proof fn law_encodable_changes_are_encoded(
    event: EventEnvelope,
    options: EncodingOptions,
    result: Result<Vec<SubscribeUpdate>, PluginError>,
)
    requires
        event.well_formed(),
        call_ensures(encode_event, (&event, options), result),
    ensures
        event.payload is BestChainChanged ==> result is Ok,
        event.payload matches PluginEvent::MempoolChanged(change) ==> {
            &&& !options.mempool_transaction_updates || change.kind != MempoolEventKind::Added
                ==> result is Ok
            &&& all_entering_encodable(change) ==> result is Ok
        },
{
    let metadata = choose|metadata: UpdateMetadata|
        {
            &&& #[trigger] metadata.describes(event)
            &&& crate::event::event_outcome(result, metadata, event, options)
        };
    if event.payload is MempoolChanged {
        let change = event.payload->MempoolChanged_0;
        let transactions = change.transactions@;
        if all_entering_encodable(change) {
            assert forall|i: int| 0 <= i < transactions.len() implies #[trigger] item_error(
                event,
                options,
                i,
            ) is None by {
                let previous = PreviousOutputs::Mempool(&transactions[i].spent_outputs);
                assert(adds_up(transactions[i].transaction, change.network, previous));
                lemma_adds_up(transactions[i].transaction, change.network, previous);
            }
        }
    }
}

proof fn lemma_adds_up(
    transaction: ChainTransaction,
    network: ChainNetwork,
    previous: PreviousOutputs<'_>,
)
    requires
        adds_up(transaction, network, previous),
    ensures
        transparent_error(transaction, previous, true) is None,
{
}

/// An event that is put together from the outcomes for its transactions, wherever these were
/// encoded, has the same updates in the same order as one that is encoded at once, or the same
/// error.
pub proof fn law_assembled_events_are_the_same(
    event: EventEnvelope,
    options: EncodingOptions,
    metadata: UpdateMetadata,
    count: usize,
    items: Vec<Result<Vec<SubscribeUpdate>, PluginError>>,
    assembled: Result<Vec<SubscribeUpdate>, PluginError>,
    encoded: Result<Vec<SubscribeUpdate>, PluginError>,
)
    requires
        event.well_formed(),
        call_ensures(UpdateMetadata::new, (&event,), metadata),
        call_ensures(item_count, (&event, options), count),
        items@.len() == count,
        forall|i: int|
            0 <= i < items@.len() ==> call_ensures(
                encode_item,
                (&metadata, &event, options, i as usize),
                #[trigger] items@[i],
            ),
        call_ensures(assemble_event, (&metadata, &event, options, items), assembled),
        call_ensures(encode_event, (&event, options), encoded),
    ensures
        same_outcome(assembled, encoded),
{
    let other = choose|other: UpdateMetadata|
        {
            &&& #[trigger] other.describes(event)
            &&& crate::event::event_outcome(encoded, other, event, options)
        };
    crate::event::law_parallel_encoding_equals_sequential(
        assembled,
        encoded,
        metadata,
        other,
        event,
        options,
    );
}

} // verus!
