//! The encoded form of updates, byte by byte.

use crate::buffer::bytes_contents;
use crate::filter::FilterMatch;
use crate::proto::{
    BestChainGrow, BestChainReset, BestChainUpdate, BestChainUpdateChange, BlockPayload,
    BlockUpdate, CanonicalBlock, MempoolTransactionUpdate, MempoolUpdate, Outpoint, SubscribeUpdate,
    Timestamp, TransactionUpdate, TransparentCoinbaseInput, TransparentInput, TransparentInputKind,
    TransparentOutput, TransparentPrevoutInput, Update, UtxoChange, UtxoChangeKind, UtxoCreated,
    UtxoSpent, UtxoUpdate,
};
use crate::replay::PublishedUpdate;
use crate::session::{project, Delivery};
use crate::wire::{
    bool_field, buffer_field, delimited, float_field, int_field, key_length, optional_bool_field,
    optional_buffer_field, optional_text_field, optional_uint_field, repeated_message_field,
    repeated_text_field, text_field, uint_field, varint_len, wide32, wide64,
};
use bytes::Bytes;
use vstd::prelude::*;
use vstd::utf8::encode_utf8;

verus! {

/// A number in groups of seven bits, lowest first. All groups but the last one are marked.
pub open spec fn varint(value: nat) -> Seq<u8>
    decreases value,
{
    if value < 128 {
        seq![value as u8]
    } else {
        seq![(value % 128 + 128) as u8] + varint(value / 128)
    }
}

/// The key of a field: its tag and how its payload is delimited.
pub open spec fn key(tag: nat, kind: nat) -> Seq<u8> {
    varint(tag * 8 + kind)
}

/// A field with a length.
pub open spec fn nested(tag: nat, contents: Seq<u8>) -> Seq<u8> {
    key(tag, 2) + varint(contents.len()) + contents
}

/// A number, left out when it is zero.
pub open spec fn number(tag: nat, value: nat) -> Seq<u8> {
    if value == 0 {
        Seq::empty()
    } else {
        key(tag, 0) + varint(value)
    }
}

/// A number, left out when it is absent.
pub open spec fn optional_number(tag: nat, value: Option<nat>) -> Seq<u8> {
    match value {
        Some(value) => key(tag, 0) + varint(value),
        None => Seq::empty(),
    }
}

/// A signed number, left out when it is zero; a negative one in 64 bits.
pub open spec fn signed_number(tag: nat, value: int) -> Seq<u8> {
    if value < 0 {
        key(tag, 0) + varint((0x1_0000_0000_0000_0000 + value) as nat)
    } else {
        number(tag, value as nat)
    }
}

/// A flag, left out when it is false.
pub open spec fn flag(tag: nat, value: bool) -> Seq<u8> {
    if value {
        key(tag, 0) + seq![1u8]
    } else {
        Seq::empty()
    }
}

/// A flag, left out when it is absent.
pub open spec fn optional_flag(tag: nat, value: Option<bool>) -> Seq<u8> {
    match value {
        Some(value) => key(tag, 0) + seq![
            if value {
                1u8
            } else {
                0u8
            },
        ],
        None => Seq::empty(),
    }
}

/// A single-precision number, left out when it is a zero of either sign.
pub open spec fn single(tag: nat, bits: u32) -> Seq<u8> {
    if bits == 0 || bits == 0x8000_0000 {
        Seq::empty()
    } else {
        key(tag, 5) + Seq::new(
            4,
            |i: int|
                (if i == 0 {
                    bits % 0x100
                } else if i == 1 {
                    bits / 0x100 % 0x100
                } else if i == 2 {
                    bits / 0x1_0000 % 0x100
                } else {
                    bits / 0x100_0000
                }) as u8,
        )
    }
}

/// Bytes, left out when there are none.
pub open spec fn raw(tag: nat, contents: Seq<u8>) -> Seq<u8> {
    if contents.len() == 0 {
        Seq::empty()
    } else {
        nested(tag, contents)
    }
}

/// A text, left out when it is empty.
pub open spec fn text(tag: nat, value: String) -> Seq<u8> {
    raw(tag, encode_utf8(value@))
}

/// A text, left out when it is absent.
pub open spec fn optional_text(tag: nat, value: Option<String>) -> Seq<u8> {
    match value {
        Some(value) => nested(tag, encode_utf8(value@)),
        None => Seq::empty(),
    }
}

/// A buffer, left out when it is empty.
pub open spec fn buffer(tag: nat, value: Bytes) -> Seq<u8> {
    raw(tag, bytes_contents(value))
}

/// A buffer, left out when it is absent.
pub open spec fn optional_buffer(tag: nat, value: Option<Bytes>) -> Seq<u8> {
    match value {
        Some(value) => nested(tag, bytes_contents(value)),
        None => Seq::empty(),
    }
}

/// Texts, each in a field of its own.
pub open spec fn repeated_text(tag: nat, values: Seq<String>) -> Seq<u8> {
    values.fold_left(
        Seq::empty(),
        |bytes: Seq<u8>, value: String| bytes + nested(tag, encode_utf8(value@)),
    )
}

/// A message, left out when it is absent.
pub open spec fn optional_nested<T>(
    tag: nat,
    value: Option<T>,
    encoded: spec_fn(T) -> Seq<u8>,
) -> Seq<u8> {
    match value {
        Some(value) => nested(tag, encoded(value)),
        None => Seq::empty(),
    }
}

/// Messages, each in a field of its own.
pub open spec fn repeated_nested<T>(
    tag: nat,
    values: Seq<T>,
    encoded: spec_fn(T) -> Seq<u8>,
) -> Seq<u8> {
    values.fold_left(
        Seq::empty(),
        |bytes: Seq<u8>, value: T| bytes + nested(tag, encoded(value)),
    )
}

/// The encoded form of a point in time.
pub open spec fn timestamp_bytes(message: Timestamp) -> Seq<u8> {
        signed_number(1, message.seconds as int)
            + signed_number(2, message.nanos as int)
}

/// The encoded form of a reference to an output.
pub open spec fn outpoint_bytes(message: Outpoint) -> Seq<u8> {
        text(1, message.transaction_id)
            + number(2, message.output_index as nat)
}

/// The encoded form of an input that spends an output.
pub open spec fn transparent_prevout_input_bytes(message: TransparentPrevoutInput) -> Seq<u8> {
        optional_nested(1, message.previous_output, |value: Outpoint| outpoint_bytes(value))
            + buffer(2, message.unlock_script)
            + optional_number(3, wide64(message.previous_value_zat))
            + optional_buffer(4, message.previous_lock_script)
            + optional_text(5, message.previous_address)
            + optional_number(6, wide32(message.previous_height))
            + optional_flag(7, message.previous_from_coinbase)
}

/// The encoded form of an input that creates coins.
pub open spec fn transparent_coinbase_input_bytes(message: TransparentCoinbaseInput) -> Seq<u8> {
        number(1, message.height as nat)
            + buffer(2, message.data)
}

/// The encoded form of an input.
pub open spec fn transparent_input_bytes(message: TransparentInput) -> Seq<u8> {
        number(1, message.input_index as nat)
            + number(2, message.sequence as nat)
            + (match message.input {
            Some(TransparentInputKind::Prevout(value)) => nested(3, transparent_prevout_input_bytes(value)),
            Some(TransparentInputKind::Coinbase(value)) => nested(4, transparent_coinbase_input_bytes(value)),
            None => Seq::empty(),
        })
}

/// The encoded form of an output.
pub open spec fn transparent_output_bytes(message: TransparentOutput) -> Seq<u8> {
        number(1, message.output_index as nat)
            + number(2, message.value_zat as nat)
            + buffer(3, message.lock_script)
            + optional_text(4, message.address)
}

/// The encoded form of an output that was created.
pub open spec fn utxo_created_bytes(message: UtxoCreated) -> Seq<u8> {
        optional_nested(1, message.outpoint, |value: Outpoint| outpoint_bytes(value))
            + number(2, message.value_zat as nat)
            + buffer(3, message.lock_script)
            + optional_text(4, message.address)
}

/// The encoded form of an output that was spent.
pub open spec fn utxo_spent_bytes(message: UtxoSpent) -> Seq<u8> {
        optional_nested(1, message.outpoint, |value: Outpoint| outpoint_bytes(value))
            + number(2, message.input_index as nat)
            + buffer(3, message.unlock_script)
            + number(4, message.sequence as nat)
            + optional_number(5, wide64(message.previous_value_zat))
            + optional_buffer(6, message.previous_lock_script)
            + optional_text(7, message.previous_address)
            + optional_number(8, wide32(message.previous_height))
            + optional_flag(9, message.previous_from_coinbase)
}

/// The encoded form of a change of the unspent outputs.
pub open spec fn utxo_change_bytes(message: UtxoChange) -> Seq<u8> {
        (match message.change {
            Some(UtxoChangeKind::Created(value)) => nested(1, utxo_created_bytes(value)),
            Some(UtxoChangeKind::Spent(value)) => nested(2, utxo_spent_bytes(value)),
            None => Seq::empty(),
        })
}

/// The encoded form of the outputs that a transaction spends and creates.
pub open spec fn utxo_update_bytes(message: UtxoUpdate) -> Seq<u8> {
        number(1, message.height as nat)
            + text(2, message.block_hash)
            + text(3, message.transaction_id)
            + number(4, message.transaction_index as nat)
            + signed_number(5, message.commitment as int)
            + repeated_nested(
                6,
                message.changes@,
                |value: UtxoChange| utxo_change_bytes(value),
            )
            + flag(7, message.coinbase)
            + number(8, message.version as nat)
            + flag(9, message.has_transparent)
            + flag(10, message.has_sapling)
            + flag(11, message.has_orchard)
            + optional_number(12, wide64(message.transparent_input_value_zat))
            + number(13, message.transparent_output_value_zat as nat)
}

/// The encoded form of a transaction of a block.
pub open spec fn transaction_update_bytes(message: TransactionUpdate) -> Seq<u8> {
        text(1, message.transaction_id)
            + text(2, message.unmined_transaction_id)
            + optional_text(3, message.auth_digest)
            + buffer(4, message.transaction)
            + number(5, message.height as nat)
            + text(6, message.block_hash)
            + number(7, message.transaction_index as nat)
            + signed_number(8, message.commitment as int)
            + flag(9, message.coinbase)
            + repeated_nested(
                10,
                message.transparent_inputs@,
                |value: TransparentInput| transparent_input_bytes(value),
            )
            + repeated_nested(
                11,
                message.transparent_outputs@,
                |value: TransparentOutput| transparent_output_bytes(value),
            )
            + number(12, message.version as nat)
            + number(13, message.lock_time as nat)
            + flag(14, message.lock_time_is_time)
            + optional_number(15, wide32(message.expiry_height))
            + text(16, message.network)
            + optional_number(17, wide64(message.transparent_input_value_zat))
            + number(18, message.transparent_output_value_zat as nat)
            + flag(19, message.has_transparent)
            + flag(20, message.has_sapling)
            + flag(21, message.has_orchard)
}

/// The encoded form of a transaction of the mempool.
pub open spec fn mempool_transaction_update_bytes(message: MempoolTransactionUpdate) -> Seq<u8> {
        text(1, message.transaction_id)
            + text(2, message.unmined_transaction_id)
            + optional_text(3, message.auth_digest)
            + buffer(4, message.transaction)
            + text(5, message.network)
            + repeated_nested(
                6,
                message.transparent_inputs@,
                |value: TransparentInput| transparent_input_bytes(value),
            )
            + repeated_nested(
                7,
                message.transparent_outputs@,
                |value: TransparentOutput| transparent_output_bytes(value),
            )
            + number(8, message.version as nat)
            + number(9, message.lock_time as nat)
            + flag(10, message.lock_time_is_time)
            + optional_number(11, wide32(message.expiry_height))
            + optional_number(12, wide64(message.transparent_input_value_zat))
            + number(13, message.transparent_output_value_zat as nat)
            + number(14, message.miner_fee_zat as nat)
            + optional_nested(
                15,
                message.admitted_at,
                |value: Timestamp| timestamp_bytes(value),
            )
            + optional_number(16, wide32(message.admitted_height))
            + number(17, message.conventional_actions as nat)
            + number(18, message.unpaid_actions as nat)
            + number(19, message.legacy_sigop_count as nat)
            + number(20, message.p2sh_sigop_count as nat)
            + single(21, message.fee_weight_ratio_bits)
            + flag(22, message.coinbase)
            + flag(23, message.has_transparent)
            + flag(24, message.has_sapling)
            + flag(25, message.has_orchard)
}

/// The encoded form of a block.
pub open spec fn block_update_bytes(message: BlockUpdate) -> Seq<u8> {
        number(1, message.height as nat)
            + text(2, message.hash)
            + buffer(3, message.block)
            + number(4, message.receipt_order as nat)
            + flag(5, message.finalized)
            + signed_number(6, message.payload as int)
}

/// The encoded form of a block of the best chain.
pub open spec fn canonical_block_bytes(message: CanonicalBlock) -> Seq<u8> {
        number(1, message.height as nat)
            + text(2, message.hash)
            + text(3, message.previous_block_hash)
}

/// The encoded form of a block that was added.
pub open spec fn best_chain_grow_bytes(message: BestChainGrow) -> Seq<u8> {
        text(1, message.previous_block_hash)
            + repeated_text(2, message.transaction_ids@)
}

/// The encoded form of a move to another branch.
pub open spec fn best_chain_reset_bytes(message: BestChainReset) -> Seq<u8> {
        repeated_nested(1, message.disconnected_blocks@, |value: CanonicalBlock| canonical_block_bytes(value))
            + repeated_nested(
                2,
                message.connected_blocks@,
                |value: CanonicalBlock| canonical_block_bytes(value),
            )
            + flag(3, message.diff_complete)
}

/// The encoded form of a change of the best chain.
pub open spec fn best_chain_update_bytes(message: BestChainUpdate) -> Seq<u8> {
        number(1, message.height as nat)
            + text(2, message.hash)
            + (match message.change {
            Some(BestChainUpdateChange::Grow(value)) => nested(3, best_chain_grow_bytes(value)),
            Some(BestChainUpdateChange::Reset(value)) => nested(4, best_chain_reset_bytes(value)),
            None => Seq::empty(),
        })
}

/// The encoded form of a change of the mempool.
pub open spec fn mempool_update_bytes(message: MempoolUpdate) -> Seq<u8> {
        signed_number(1, message.action as int)
            + repeated_text(2, message.transaction_ids@)
}

/// The encoded form of a payload.
pub open spec fn payload_bytes(payload: Update) -> Seq<u8> {
    match payload {
        Update::Block(value) => nested(8, block_update_bytes(value)),
        Update::BestChain(value) => nested(9, best_chain_update_bytes(*value)),
        Update::Mempool(value) => nested(10, mempool_update_bytes(*value)),
        Update::Transaction(value) => nested(11, transaction_update_bytes(*value)),
        Update::Utxo(value) => nested(12, utxo_update_bytes(*value)),
        Update::MempoolTransaction(value) => nested(13, mempool_transaction_update_bytes(*value)),
        Update::Ping(value) => nested(14, signed_number(1, value.id as int)),
        Update::Pong(value) => nested(15, signed_number(1, value.id as int)),
    }
}

/// The encoded form of an update.
pub open spec fn update_bytes(update: SubscribeUpdate) -> Seq<u8> {
    number(1, update.schema_version as nat)
        + buffer(2, update.session_id)
        + number(3, update.sequence as nat)
        + optional_nested(
            4,
            update.observed_at,
            |value: Timestamp| timestamp_bytes(value),
        )
        + signed_number(5, update.event_type as int)
        + repeated_text(6, update.filters@)
        + number(7, update.source_sequence as nat)
        + (match update.update {
        Some(payload) => payload_bytes(payload),
        None => Seq::empty(),
    })
}

proof fn lemma_varint(value: nat)
    ensures
        varint(value).len() == varint_len(value),
    decreases value,
{
    if value >= 128 {
        lemma_varint(value / 128);
    }
}

proof fn lemma_key(tag: nat, kind: nat)
    requires
        kind < 8,
    ensures
        key(tag, kind).len() == key_length(tag),
{
    lemma_varint(tag * 8 + kind);
    if tag < 16 {
        assert(tag * 8 + kind < 128);
    } else {
        assert((tag * 8 + kind) / 128 == tag * 8 / 128);
    }
}

proof fn lemma_nested(tag: nat, contents: Seq<u8>)
    ensures
        nested(tag, contents).len() == delimited(tag, contents.len()),
{
    lemma_key(tag, 2);
    lemma_varint(contents.len());
}

/// The lengths of the fields.
proof fn lemma_fields()
    ensures
        forall|tag: nat, contents: Seq<u8>| #[trigger]
            nested(tag, contents).len() == delimited(tag, contents.len()),
        forall|tag: nat, value: nat| #[trigger] number(tag, value).len() == uint_field(tag, value),
        forall|tag: nat, value: Option<nat>| #[trigger]
            optional_number(tag, value).len() == optional_uint_field(tag, value),
        forall|tag: nat, value: int| #[trigger]
            signed_number(tag, value).len() == int_field(tag, value),
        forall|tag: nat, value: bool| #[trigger] flag(tag, value).len() == bool_field(tag, value),
        forall|tag: nat, value: Option<bool>| #[trigger]
            optional_flag(tag, value).len() == optional_bool_field(tag, value),
        forall|tag: nat, bits: u32| #[trigger] single(tag, bits).len() == float_field(tag, bits),
        forall|tag: nat, value: String| #[trigger] text(tag, value).len() == text_field(tag, value),
        forall|tag: nat, value: Option<String>| #[trigger]
            optional_text(tag, value).len() == optional_text_field(tag, value),
        forall|tag: nat, value: Bytes| #[trigger]
            buffer(tag, value).len() == buffer_field(tag, value),
        forall|tag: nat, value: Option<Bytes>| #[trigger]
            optional_buffer(tag, value).len() == optional_buffer_field(tag, value),
{
    assert forall|tag: nat, contents: Seq<u8>| #[trigger]
        nested(tag, contents).len() == delimited(tag, contents.len()) by {
        lemma_nested(tag, contents);
    }
    assert forall|tag: nat, value: nat| #[trigger]
        number(tag, value).len() == uint_field(tag, value) by {
        lemma_key(tag, 0);
        lemma_varint(value);
    }
    assert forall|tag: nat, value: Option<nat>| #[trigger]
        optional_number(tag, value).len() == optional_uint_field(tag, value) by {
        lemma_key(tag, 0);
        if value is Some {
            lemma_varint(value->0);
        }
    }
    assert forall|tag: nat, value: int| #[trigger]
        signed_number(tag, value).len() == int_field(tag, value) by {
        lemma_key(tag, 0);
        lemma_varint(value as nat);
        lemma_varint((0x1_0000_0000_0000_0000 + value) as nat);
    }
    assert forall|tag: nat, value: bool| #[trigger]
        flag(tag, value).len() == bool_field(tag, value) by {
        lemma_key(tag, 0);
    }
    assert forall|tag: nat, value: Option<bool>| #[trigger]
        optional_flag(tag, value).len() == optional_bool_field(tag, value) by {
        lemma_key(tag, 0);
    }
    assert forall|tag: nat, bits: u32| #[trigger]
        single(tag, bits).len() == float_field(tag, bits) by {
        lemma_key(tag, 5);
    }
}

proof fn lemma_repeated_text(tag: nat, values: Seq<String>)
    ensures
        repeated_text(tag, values).len() == repeated_text_field(tag, values),
    decreases values.len(),
{
    if values.len() > 0 {
        lemma_repeated_text(tag, values.drop_last());
        lemma_nested(tag, encode_utf8(values.last()@));
    }
}

proof fn lemma_repeated<T>(
    tag: nat,
    values: Seq<T>,
    encoded: spec_fn(T) -> Seq<u8>,
    length: spec_fn(T) -> nat,
)
    requires
        forall|value: T| #[trigger] encoded(value).len() == length(value),
    ensures
        repeated_nested(tag, values, encoded).len() == repeated_message_field(tag, values, length),
    decreases values.len(),
{
    if values.len() > 0 {
        lemma_repeated(tag, values.drop_last(), encoded, length);
        lemma_nested(tag, encoded(values.last()));
    }
}

proof fn lemma_timestamp(message: &Timestamp)
    ensures
        timestamp_bytes(*message).len() == message.spec_encoded_len(),
{
    lemma_fields();
}

proof fn lemma_outpoint(message: &Outpoint)
    ensures
        outpoint_bytes(*message).len() == message.spec_encoded_len(),
{
    lemma_fields();
}

proof fn lemma_transparent_prevout_input(message: &TransparentPrevoutInput)
    ensures
        transparent_prevout_input_bytes(*message).len() == message.spec_encoded_len(),
{
    lemma_fields();
    if message.previous_output is Some {
        lemma_outpoint(&message.previous_output->0);
    }
}

proof fn lemma_transparent_coinbase_input(message: &TransparentCoinbaseInput)
    ensures
        transparent_coinbase_input_bytes(*message).len() == message.spec_encoded_len(),
{
    lemma_fields();
}

proof fn lemma_transparent_input(message: &TransparentInput)
    ensures
        transparent_input_bytes(*message).len() == message.spec_encoded_len(),
{
    lemma_fields();
    if message.input is Some && message.input->0 is Prevout {
        lemma_transparent_prevout_input(&message.input->0->Prevout_0);
    }
    if message.input is Some && message.input->0 is Coinbase {
        lemma_transparent_coinbase_input(&message.input->0->Coinbase_0);
    }
}

proof fn lemma_transparent_output(message: &TransparentOutput)
    ensures
        transparent_output_bytes(*message).len() == message.spec_encoded_len(),
{
    lemma_fields();
}

proof fn lemma_utxo_created(message: &UtxoCreated)
    ensures
        utxo_created_bytes(*message).len() == message.spec_encoded_len(),
{
    lemma_fields();
    if message.outpoint is Some {
        lemma_outpoint(&message.outpoint->0);
    }
}

proof fn lemma_utxo_spent(message: &UtxoSpent)
    ensures
        utxo_spent_bytes(*message).len() == message.spec_encoded_len(),
{
    lemma_fields();
    if message.outpoint is Some {
        lemma_outpoint(&message.outpoint->0);
    }
}

proof fn lemma_utxo_change(message: &UtxoChange)
    ensures
        utxo_change_bytes(*message).len() == message.spec_encoded_len(),
{
    lemma_fields();
    if message.change is Some && message.change->0 is Created {
        lemma_utxo_created(&message.change->0->Created_0);
    }
    if message.change is Some && message.change->0 is Spent {
        lemma_utxo_spent(&message.change->0->Spent_0);
    }
}

proof fn lemma_utxo_update(message: &UtxoUpdate)
    ensures
        utxo_update_bytes(*message).len() == message.spec_encoded_len(),
{
    lemma_fields();
    assert forall|value: UtxoChange| #[trigger] utxo_change_bytes(value).len()
        == value.spec_encoded_len() by {
        lemma_utxo_change(&value);
    }
    lemma_repeated(
        6,
        message.changes@,
        |value: UtxoChange| utxo_change_bytes(value),
        |value: UtxoChange| value.spec_encoded_len(),
    );
}

proof fn lemma_transaction_update(message: &TransactionUpdate)
    ensures
        transaction_update_bytes(*message).len() == message.spec_encoded_len(),
{
    lemma_fields();
    assert forall|value: TransparentInput| #[trigger] transparent_input_bytes(value).len()
        == value.spec_encoded_len() by {
        lemma_transparent_input(&value);
    }
    lemma_repeated(
        10,
        message.transparent_inputs@,
        |value: TransparentInput| transparent_input_bytes(value),
        |value: TransparentInput| value.spec_encoded_len(),
    );
    assert forall|value: TransparentOutput| #[trigger] transparent_output_bytes(value).len()
        == value.spec_encoded_len() by {
        lemma_transparent_output(&value);
    }
    lemma_repeated(
        11,
        message.transparent_outputs@,
        |value: TransparentOutput| transparent_output_bytes(value),
        |value: TransparentOutput| value.spec_encoded_len(),
    );
}

proof fn lemma_mempool_transaction_update(message: &MempoolTransactionUpdate)
    ensures
        mempool_transaction_update_bytes(*message).len() == message.spec_encoded_len(),
{
    lemma_fields();
    if message.admitted_at is Some {
        lemma_timestamp(&message.admitted_at->0);
    }
    assert forall|value: TransparentInput| #[trigger] transparent_input_bytes(value).len()
        == value.spec_encoded_len() by {
        lemma_transparent_input(&value);
    }
    lemma_repeated(
        6,
        message.transparent_inputs@,
        |value: TransparentInput| transparent_input_bytes(value),
        |value: TransparentInput| value.spec_encoded_len(),
    );
    assert forall|value: TransparentOutput| #[trigger] transparent_output_bytes(value).len()
        == value.spec_encoded_len() by {
        lemma_transparent_output(&value);
    }
    lemma_repeated(
        7,
        message.transparent_outputs@,
        |value: TransparentOutput| transparent_output_bytes(value),
        |value: TransparentOutput| value.spec_encoded_len(),
    );
}

proof fn lemma_block_update(message: &BlockUpdate)
    ensures
        block_update_bytes(*message).len() == message.spec_encoded_len(),
{
    lemma_fields();
}

proof fn lemma_canonical_block(message: &CanonicalBlock)
    ensures
        canonical_block_bytes(*message).len() == message.spec_encoded_len(),
{
    lemma_fields();
}

proof fn lemma_best_chain_grow(message: &BestChainGrow)
    ensures
        best_chain_grow_bytes(*message).len() == message.spec_encoded_len(),
{
    lemma_fields();
    lemma_repeated_text(2, message.transaction_ids@);
}

proof fn lemma_best_chain_reset(message: &BestChainReset)
    ensures
        best_chain_reset_bytes(*message).len() == message.spec_encoded_len(),
{
    lemma_fields();
    assert forall|value: CanonicalBlock| #[trigger] canonical_block_bytes(value).len()
        == value.spec_encoded_len() by {
        lemma_canonical_block(&value);
    }
    lemma_repeated(
        1,
        message.disconnected_blocks@,
        |value: CanonicalBlock| canonical_block_bytes(value),
        |value: CanonicalBlock| value.spec_encoded_len(),
    );
    assert forall|value: CanonicalBlock| #[trigger] canonical_block_bytes(value).len()
        == value.spec_encoded_len() by {
        lemma_canonical_block(&value);
    }
    lemma_repeated(
        2,
        message.connected_blocks@,
        |value: CanonicalBlock| canonical_block_bytes(value),
        |value: CanonicalBlock| value.spec_encoded_len(),
    );
}

proof fn lemma_best_chain_update(message: &BestChainUpdate)
    ensures
        best_chain_update_bytes(*message).len() == message.spec_encoded_len(),
{
    lemma_fields();
    if message.change is Some && message.change->0 is Grow {
        lemma_best_chain_grow(&message.change->0->Grow_0);
    }
    if message.change is Some && message.change->0 is Reset {
        lemma_best_chain_reset(&message.change->0->Reset_0);
    }
}

proof fn lemma_mempool_update(message: &MempoolUpdate)
    ensures
        mempool_update_bytes(*message).len() == message.spec_encoded_len(),
{
    lemma_fields();
    lemma_repeated_text(2, message.transaction_ids@);
}

proof fn lemma_payload(payload: &Update)
    ensures
        payload_bytes(*payload).len() == payload.spec_encoded_len(),
{
    lemma_fields();
    if payload is Block {
        lemma_block_update(&payload->Block_0);
    }
    if payload is BestChain {
        lemma_best_chain_update(&*payload->BestChain_0);
    }
    if payload is Mempool {
        lemma_mempool_update(&*payload->Mempool_0);
    }
    if payload is Transaction {
        lemma_transaction_update(&*payload->Transaction_0);
    }
    if payload is Utxo {
        lemma_utxo_update(&*payload->Utxo_0);
    }
    if payload is MempoolTransaction {
        lemma_mempool_transaction_update(&*payload->MempoolTransaction_0);
    }
}

proof fn lemma_update(update: &SubscribeUpdate)
    ensures
        update_bytes(*update).len() == update.spec_encoded_len(),
{
    lemma_fields();
    lemma_repeated_text(6, update.filters@);
    if update.observed_at is Some {
        lemma_timestamp(&update.observed_at->0);
    }
    if update.update is Some {
        lemma_payload(&update.update->0);
    }
}

/// The encoded length of an update is the number of its bytes in the protobuf wire format, as far
/// as the machine can count them.
pub proof fn law_encoded_length_counts_the_bytes(update: SubscribeUpdate, length: usize)
    requires
        call_ensures(SubscribeUpdate::encoded_len, (&update,), length),
    ensures
        update_bytes(update).len() <= usize::MAX ==> length == update_bytes(update).len(),
        update_bytes(update).len() > usize::MAX ==> length == usize::MAX,
{
    lemma_update(&update);
}

/// What is published is the update itself with the number of its bytes, and so is what is delivered
/// without the bytes of a block.
pub proof fn law_published_lengths_count_the_bytes(
    update: SubscribeUpdate,
    published: PublishedUpdate,
    matched: FilterMatch,
    delivery: Delivery,
)
    requires
        call_ensures(PublishedUpdate::new, (update,), published),
        call_ensures(project, (&published, matched), delivery),
        update_bytes(update).len() <= usize::MAX,
        update_bytes(delivery.message).len() <= usize::MAX,
    ensures
        published.message == update,
        published.encoded_len == update_bytes(update).len(),
        matched.block_payload == BlockPayload::MetaOnly ==> delivery.encoded_len == update_bytes(
            delivery.message,
        ).len(),
{
    lemma_update(&update);
    lemma_update(&delivery.message);
}

} // verus!
