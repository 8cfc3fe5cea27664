//! When two updates carry the same contents.
//!
//! Texts are compared by their characters, buffers by their bytes, and lists item by item.

use crate::buffer::bytes_contents;
use crate::node::PluginError;
use crate::proto::{
    BestChainGrow, BestChainReset, BestChainUpdate, BestChainUpdateChange, BlockUpdate,
    CanonicalBlock, MempoolTransactionUpdate, MempoolUpdate, Outpoint, SubscribeUpdate,
    TransactionUpdate, TransparentCoinbaseInput, TransparentInput, TransparentInputKind,
    TransparentOutput, TransparentPrevoutInput, Update, UtxoChange, UtxoChangeKind, UtxoCreated,
    UtxoSpent, UtxoUpdate,
};
use crate::text::{text_view, texts};
use crate::transparent::optional_contents;
use vstd::prelude::*;

verus! {

/// Whether two references name the same output.
pub open spec fn same_outpoint(left: Option<Outpoint>, right: Option<Outpoint>) -> bool {
    match (left, right) {
        (Some(left), Some(right)) => {
            &&& left.transaction_id@ == right.transaction_id@
            &&& left.output_index == right.output_index
        },
        (None, None) => true,
        _ => false,
    }
}

/// Whether two inputs spend the same output in the same way.
pub open spec fn same_prevout(
    left: TransparentPrevoutInput,
    right: TransparentPrevoutInput,
) -> bool {
    &&& same_outpoint(left.previous_output, right.previous_output)
    &&& bytes_contents(left.unlock_script) == bytes_contents(right.unlock_script)
    &&& left.previous_value_zat == right.previous_value_zat
    &&& optional_contents(left.previous_lock_script) == optional_contents(
        right.previous_lock_script,
    )
    &&& text_view(left.previous_address) == text_view(right.previous_address)
    &&& left.previous_height == right.previous_height
    &&& left.previous_from_coinbase == right.previous_from_coinbase
}

/// Whether two inputs create coins in the same way.
pub open spec fn same_coinbase(
    left: TransparentCoinbaseInput,
    right: TransparentCoinbaseInput,
) -> bool {
    &&& left.height == right.height
    &&& bytes_contents(left.data) == bytes_contents(right.data)
}

/// Whether two inputs are of the same form, with the same contents.
pub open spec fn same_input_kind(
    left: Option<TransparentInputKind>,
    right: Option<TransparentInputKind>,
) -> bool {
    match (left, right) {
        (
            Some(TransparentInputKind::Prevout(left)),
            Some(TransparentInputKind::Prevout(right)),
        ) => same_prevout(left, right),
        (
            Some(TransparentInputKind::Coinbase(left)),
            Some(TransparentInputKind::Coinbase(right)),
        ) => same_coinbase(left, right),
        (None, None) => true,
        _ => false,
    }
}

/// Whether two inputs are the same.
pub open spec fn same_input(left: TransparentInput, right: TransparentInput) -> bool {
    &&& left.input_index == right.input_index
    &&& left.sequence == right.sequence
    &&& same_input_kind(left.input, right.input)
}

/// Whether two lists hold the same inputs.
pub open spec fn same_inputs(left: Seq<TransparentInput>, right: Seq<TransparentInput>) -> bool {
    &&& left.len() == right.len()
    &&& forall|i: int| 0 <= i < left.len() ==> same_input(#[trigger] left[i], right[i])
}

/// Whether two outputs are the same.
pub open spec fn same_output(left: TransparentOutput, right: TransparentOutput) -> bool {
    &&& left.output_index == right.output_index
    &&& left.value_zat == right.value_zat
    &&& bytes_contents(left.lock_script) == bytes_contents(right.lock_script)
    &&& text_view(left.address) == text_view(right.address)
}

/// Whether two lists hold the same outputs.
pub open spec fn same_outputs(left: Seq<TransparentOutput>, right: Seq<TransparentOutput>) -> bool {
    &&& left.len() == right.len()
    &&& forall|i: int| 0 <= i < left.len() ==> same_output(#[trigger] left[i], right[i])
}

/// Whether two created outputs are the same.
pub open spec fn same_created(left: UtxoCreated, right: UtxoCreated) -> bool {
    &&& same_outpoint(left.outpoint, right.outpoint)
    &&& left.value_zat == right.value_zat
    &&& bytes_contents(left.lock_script) == bytes_contents(right.lock_script)
    &&& text_view(left.address) == text_view(right.address)
}

/// Whether two spent outputs are the same.
pub open spec fn same_spent(left: UtxoSpent, right: UtxoSpent) -> bool {
    &&& same_outpoint(left.outpoint, right.outpoint)
    &&& left.input_index == right.input_index
    &&& bytes_contents(left.unlock_script) == bytes_contents(right.unlock_script)
    &&& left.sequence == right.sequence
    &&& left.previous_value_zat == right.previous_value_zat
    &&& optional_contents(left.previous_lock_script) == optional_contents(
        right.previous_lock_script,
    )
    &&& text_view(left.previous_address) == text_view(right.previous_address)
    &&& left.previous_height == right.previous_height
    &&& left.previous_from_coinbase == right.previous_from_coinbase
}

/// Whether two changes create or spend the same output.
pub open spec fn same_change(left: UtxoChange, right: UtxoChange) -> bool {
    match (left.change, right.change) {
        (Some(UtxoChangeKind::Created(left)), Some(UtxoChangeKind::Created(right))) => {
            same_created(left, right)
        },
        (Some(UtxoChangeKind::Spent(left)), Some(UtxoChangeKind::Spent(right))) => same_spent(
            left,
            right,
        ),
        (None, None) => true,
        _ => false,
    }
}

/// Whether two lists hold the same changes.
pub open spec fn same_changes(left: Seq<UtxoChange>, right: Seq<UtxoChange>) -> bool {
    &&& left.len() == right.len()
    &&& forall|i: int| 0 <= i < left.len() ==> same_change(#[trigger] left[i], right[i])
}

/// Whether two messages carry the same block.
pub open spec fn same_block(left: BlockUpdate, right: BlockUpdate) -> bool {
    &&& left.height == right.height
    &&& left.hash@ == right.hash@
    &&& bytes_contents(left.block) == bytes_contents(right.block)
    &&& left.receipt_order == right.receipt_order
    &&& left.finalized == right.finalized
    &&& left.payload == right.payload
}

/// Whether two messages carry the same block of the best chain.
pub open spec fn same_canonical_block(left: CanonicalBlock, right: CanonicalBlock) -> bool {
    &&& left.height == right.height
    &&& left.hash@ == right.hash@
    &&& left.previous_block_hash@ == right.previous_block_hash@
}

/// Whether two lists hold the same blocks of the best chain.
pub open spec fn same_blocks(left: Seq<CanonicalBlock>, right: Seq<CanonicalBlock>) -> bool {
    &&& left.len() == right.len()
    &&& forall|i: int| 0 <= i < left.len() ==> same_canonical_block(#[trigger] left[i], right[i])
}

/// Whether the best chain grew in the same way.
pub open spec fn same_grow(left: BestChainGrow, right: BestChainGrow) -> bool {
    &&& left.previous_block_hash@ == right.previous_block_hash@
    &&& texts(left.transaction_ids@) == texts(right.transaction_ids@)
}

/// Whether the best chain switched in the same way.
pub open spec fn same_reset(left: BestChainReset, right: BestChainReset) -> bool {
    &&& same_blocks(left.disconnected_blocks@, right.disconnected_blocks@)
    &&& same_blocks(left.connected_blocks@, right.connected_blocks@)
    &&& left.diff_complete == right.diff_complete
}

/// Whether the best chain changed in the same way.
pub open spec fn same_chain_change(
    left: Option<BestChainUpdateChange>,
    right: Option<BestChainUpdateChange>,
) -> bool {
    match (left, right) {
        (Some(BestChainUpdateChange::Grow(left)), Some(BestChainUpdateChange::Grow(right))) => {
            same_grow(left, right)
        },
        (Some(BestChainUpdateChange::Reset(left)), Some(BestChainUpdateChange::Reset(right))) => {
            same_reset(left, right)
        },
        (None, None) => true,
        _ => false,
    }
}

/// Whether two messages carry the same change of the best chain.
pub open spec fn same_best_chain(left: BestChainUpdate, right: BestChainUpdate) -> bool {
    &&& left.height == right.height
    &&& left.hash@ == right.hash@
    &&& same_chain_change(left.change, right.change)
}

/// Whether two messages carry the same change of the mempool.
pub open spec fn same_mempool(left: MempoolUpdate, right: MempoolUpdate) -> bool {
    &&& left.action == right.action
    &&& texts(left.transaction_ids@) == texts(right.transaction_ids@)
}

/// Whether two messages carry the same transaction of a block.
pub open spec fn same_transaction(left: TransactionUpdate, right: TransactionUpdate) -> bool {
    &&& left.transaction_id@ == right.transaction_id@
    &&& left.unmined_transaction_id@ == right.unmined_transaction_id@
    &&& text_view(left.auth_digest) == text_view(right.auth_digest)
    &&& bytes_contents(left.transaction) == bytes_contents(right.transaction)
    &&& left.height == right.height
    &&& left.block_hash@ == right.block_hash@
    &&& left.transaction_index == right.transaction_index
    &&& left.commitment == right.commitment
    &&& left.coinbase == right.coinbase
    &&& same_inputs(left.transparent_inputs@, right.transparent_inputs@)
    &&& same_outputs(left.transparent_outputs@, right.transparent_outputs@)
    &&& left.version == right.version
    &&& left.lock_time == right.lock_time
    &&& left.lock_time_is_time == right.lock_time_is_time
    &&& left.expiry_height == right.expiry_height
    &&& left.network@ == right.network@
    &&& left.transparent_input_value_zat == right.transparent_input_value_zat
    &&& left.transparent_output_value_zat == right.transparent_output_value_zat
    &&& left.has_transparent == right.has_transparent
    &&& left.has_sapling == right.has_sapling
    &&& left.has_orchard == right.has_orchard
}

/// Whether two messages carry the same transaction of the mempool.
pub open spec fn same_mempool_transaction(
    left: MempoolTransactionUpdate,
    right: MempoolTransactionUpdate,
) -> bool {
    &&& left.transaction_id@ == right.transaction_id@
    &&& left.unmined_transaction_id@ == right.unmined_transaction_id@
    &&& text_view(left.auth_digest) == text_view(right.auth_digest)
    &&& bytes_contents(left.transaction) == bytes_contents(right.transaction)
    &&& left.network@ == right.network@
    &&& same_inputs(left.transparent_inputs@, right.transparent_inputs@)
    &&& same_outputs(left.transparent_outputs@, right.transparent_outputs@)
    &&& left.version == right.version
    &&& left.lock_time == right.lock_time
    &&& left.lock_time_is_time == right.lock_time_is_time
    &&& left.expiry_height == right.expiry_height
    &&& left.transparent_input_value_zat == right.transparent_input_value_zat
    &&& left.transparent_output_value_zat == right.transparent_output_value_zat
    &&& left.miner_fee_zat == right.miner_fee_zat
    &&& left.admitted_at == right.admitted_at
    &&& left.admitted_height == right.admitted_height
    &&& left.conventional_actions == right.conventional_actions
    &&& left.unpaid_actions == right.unpaid_actions
    &&& left.legacy_sigop_count == right.legacy_sigop_count
    &&& left.p2sh_sigop_count == right.p2sh_sigop_count
    &&& left.fee_weight_ratio_bits == right.fee_weight_ratio_bits
    &&& left.coinbase == right.coinbase
    &&& left.has_transparent == right.has_transparent
    &&& left.has_sapling == right.has_sapling
    &&& left.has_orchard == right.has_orchard
}

/// Whether two messages carry the same created and spent outputs.
pub open spec fn same_utxo(left: UtxoUpdate, right: UtxoUpdate) -> bool {
    &&& left.height == right.height
    &&& left.block_hash@ == right.block_hash@
    &&& left.transaction_id@ == right.transaction_id@
    &&& left.transaction_index == right.transaction_index
    &&& left.commitment == right.commitment
    &&& same_changes(left.changes@, right.changes@)
    &&& left.coinbase == right.coinbase
    &&& left.version == right.version
    &&& left.has_transparent == right.has_transparent
    &&& left.has_sapling == right.has_sapling
    &&& left.has_orchard == right.has_orchard
    &&& left.transparent_input_value_zat == right.transparent_input_value_zat
    &&& left.transparent_output_value_zat == right.transparent_output_value_zat
}

/// Whether two payloads are of the same kind, with the same contents.
pub open spec fn same_payload(left: Option<Update>, right: Option<Update>) -> bool {
    match (left, right) {
        (Some(Update::Block(left)), Some(Update::Block(right))) => same_block(left, right),
        (Some(Update::BestChain(left)), Some(Update::BestChain(right))) => same_best_chain(
            *left,
            *right,
        ),
        (Some(Update::Mempool(left)), Some(Update::Mempool(right))) => same_mempool(*left, *right),
        (Some(Update::Transaction(left)), Some(Update::Transaction(right))) => same_transaction(
            *left,
            *right,
        ),
        (Some(Update::Utxo(left)), Some(Update::Utxo(right))) => same_utxo(*left, *right),
        (Some(Update::MempoolTransaction(left)), Some(Update::MempoolTransaction(right))) => {
            same_mempool_transaction(*left, *right)
        },
        (Some(Update::Ping(left)), Some(Update::Ping(right))) => left == right,
        (Some(Update::Pong(left)), Some(Update::Pong(right))) => left == right,
        (None, None) => true,
        _ => false,
    }
}

/// Whether two updates are the same.
pub open spec fn same_update(left: SubscribeUpdate, right: SubscribeUpdate) -> bool {
    &&& left.schema_version == right.schema_version
    &&& bytes_contents(left.session_id) == bytes_contents(right.session_id)
    &&& left.sequence == right.sequence
    &&& left.observed_at == right.observed_at
    &&& left.event_type == right.event_type
    &&& texts(left.filters@) == texts(right.filters@)
    &&& left.source_sequence == right.source_sequence
    &&& same_payload(left.update, right.update)
}

/// Whether two lists hold the same updates, in the same order.
pub open spec fn same_updates(left: Seq<SubscribeUpdate>, right: Seq<SubscribeUpdate>) -> bool {
    &&& left.len() == right.len()
    &&& forall|i: int| 0 <= i < left.len() ==> same_update(#[trigger] left[i], right[i])
}

/// Whether two attempts to turn an event into updates end in the same way: with the same updates
/// in the same order, or with the same error.
pub open spec fn same_outcome(
    left: Result<Vec<SubscribeUpdate>, PluginError>,
    right: Result<Vec<SubscribeUpdate>, PluginError>,
) -> bool {
    match (left, right) {
        (Ok(left), Ok(right)) => same_updates(left@, right@),
        (Err(left), Err(right)) => left == right,
        _ => false,
    }
}

} // verus!
