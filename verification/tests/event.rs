//! Encoding of node events.

use bytes::Bytes;
use std::sync::Arc;
use zakura_chain::amount::{Amount, NonNegative};
use zakura_chain::block::Height;
use zakura_chain::parameters::Network;
use zakura_chain::serialization::ZcashSerialize;
use zakura_chain::transaction::{self, LockTime, Transaction, VerifiedUnminedTx};
use zakura_chain::transparent::{Address, Input, OrderedUtxo, OutPoint, Output, Script};
use zakura_grpc::chain::NetworkKind;
use zakura_grpc::event::{
    assemble_event, block_height, encode_event, encode_item, encode_unmined_transaction_id,
    encodes_in_parallel, item_count, timestamp, wants_items, EncodingOptions, UpdateMetadata,
};
use zakura_grpc::node::{
    BestChainChange, BlockEvent, ChainBlock, ChainInput, ChainNetwork, ChainOutpoint, ChainOutput,
    ChainTransaction, EventEnvelope, MempoolEvent, MempoolEventKind, PluginError, PluginEvent,
    SinceEpoch, SpentOutput, SpentOutputs, UnminedTransactionId, VerifiedTransaction,
};
use zakura_grpc::proto::{
    BestChainUpdateChange, BlockCommitment, BlockPayload, EventType, MempoolAction,
    SubscribeUpdate, TransparentInputKind, Update, UtxoChangeKind,
};
use zakura_grpc::transparent::{encode_transparent_updates, PreviousOutputs};

const EVENT_SCHEMA_VERSION: u32 = 1;

const EVERYTHING: EncodingOptions = EncodingOptions {
    transaction_updates: true,
    utxo_updates: true,
    mempool_transaction_updates: true,
};

fn chain_outpoint(outpoint: OutPoint) -> ChainOutpoint {
    ChainOutpoint {
        hash: outpoint.hash.0,
        index: outpoint.index,
    }
}

fn chain_input(input: &Input) -> ChainInput {
    match input {
        Input::PrevOut {
            outpoint,
            unlock_script,
            sequence,
        } => ChainInput::Prevout {
            outpoint: chain_outpoint(*outpoint),
            unlock_script: unlock_script.as_raw_bytes().to_vec(),
            sequence: *sequence,
        },
        Input::Coinbase {
            height,
            data,
            sequence,
        } => ChainInput::Coinbase {
            height: height.0,
            data: data.clone(),
            sequence: *sequence,
        },
    }
}

fn chain_output(output: &Output) -> ChainOutput {
    ChainOutput {
        value_zat: u64::try_from(output.value.zatoshis()).unwrap(),
        lock_script: output.lock_script.as_raw_bytes().to_vec(),
    }
}

fn spent_output(previous: OrderedUtxo) -> SpentOutput {
    SpentOutput {
        output: chain_output(&previous.utxo.output),
        height: previous.utxo.height.0,
        from_coinbase: previous.utxo.from_coinbase,
    }
}

fn chain_transaction(transaction: &Transaction) -> ChainTransaction {
    let (id, auth_digest) = transaction.txid_and_auth_digest();
    ChainTransaction {
        id: id.0,
        auth_digest: auth_digest.map(|digest| digest.0),
        encoded: transaction
            .zcash_serialize_to_vec()
            .map(Bytes::from)
            .map_err(|error| error.to_string()),
        version: transaction.version(),
        lock_time: transaction.raw_lock_time(),
        lock_time_is_time: transaction.lock_time_is_time(),
        expiry_height: transaction.expiry_height().map(|height| height.0),
        inputs: transaction.inputs().iter().map(chain_input).collect(),
        outputs: transaction.outputs().iter().map(chain_output).collect(),
        has_sapling: transaction.has_sapling_shielded_data(),
        has_orchard: transaction.has_orchard_shielded_data(),
    }
}

fn verified_transaction(verified: &VerifiedUnminedTx) -> VerifiedTransaction {
    VerifiedTransaction {
        transaction: chain_transaction(verified.transaction.transaction.as_ref()),
        miner_fee_zat: u64::try_from(verified.miner_fee.zatoshis()).unwrap(),
        legacy_sigop_count: verified.legacy_sigop_count,
        p2sh_sigop_count: verified.p2sh_sigop_count,
        conventional_actions: verified.conventional_actions,
        unpaid_actions: verified.unpaid_actions,
        fee_weight_ratio_bits: verified.fee_weight_ratio.to_bits(),
        admitted_at: None,
        admitted_height: verified.height.map(|height| height.0),
        spent_outputs: verified.spent_outputs.iter().map(chain_output).collect(),
    }
}

fn mainnet() -> ChainNetwork {
    ChainNetwork {
        name: Network::Mainnet.to_string(),
        address_kind: NetworkKind::Mainnet,
    }
}

fn envelope(payload: PluginEvent) -> EventEnvelope {
    EventEnvelope {
        schema_version: EVENT_SCHEMA_VERSION,
        session_id: 7,
        sequence: 11,
        observed_at: Some(SinceEpoch {
            seconds: 0,
            nanos: 0,
        }),
        payload,
    }
}

fn pay(value: i64, byte: u8) -> Output {
    let address = Address::from_pub_key_hash(Network::Mainnet.t_addr_kind(), [byte; 20]);
    Output::new(Amount::<NonNegative>::new(value), address.script())
}

fn spend(byte: u8, index: u32) -> Input {
    Input::PrevOut {
        outpoint: OutPoint {
            hash: transaction::Hash([byte; 32]),
            index,
        },
        unlock_script: Script::new(&[0x51]),
        sequence: 42,
    }
}

fn transfer(inputs: Vec<Input>, outputs: Vec<Output>) -> Transaction {
    Transaction::V1 {
        inputs,
        outputs,
        lock_time: LockTime::unlocked(),
    }
}

fn block_event(transactions: Vec<ChainTransaction>) -> BlockEvent {
    BlockEvent {
        network: mainnet(),
        height: 77,
        hash: [5; 32],
        receipt_order: 9,
        encoded: Ok(Bytes::from(vec![1, 2, 3])),
        transactions,
        spent_outputs: SpentOutputs::new(),
    }
}

fn encoded(event: &EventEnvelope, options: EncodingOptions) -> Vec<SubscribeUpdate> {
    match encode_event(event, options) {
        Ok(updates) => updates,
        Err(error) => panic!("the event has an encoding: {}", error.message()),
    }
}

fn failure(event: &EventEnvelope, options: EncodingOptions) -> String {
    match encode_event(event, options) {
        Ok(_) => panic!("the event has no encoding"),
        Err(error) => error.message(),
    }
}

#[test]
fn encodes_atomic_canonical_reorg_diff() {
    let disconnected = ChainBlock {
        height: 11,
        hash: [11; 32],
        previous_block_hash: [10; 32],
    };
    let connected = ChainBlock {
        height: 11,
        hash: [21; 32],
        previous_block_hash: [10; 32],
    };
    let event = envelope(PluginEvent::BestChainChanged(BestChainChange::Reset {
        height: connected.height,
        hash: connected.hash,
        disconnected_blocks: vec![disconnected],
        connected_blocks: vec![connected],
        diff_complete: true,
    }));

    let updates = encoded(&event, EVERYTHING);
    let Some(Update::BestChain(best_chain)) = updates[0].update.as_ref() else {
        panic!("best-chain event must encode as a best-chain update");
    };
    let Some(BestChainUpdateChange::Reset(reset)) = best_chain.change.as_ref() else {
        panic!("reset event must retain its canonical-chain diff");
    };

    assert!(reset.diff_complete);
    assert_eq!(reset.disconnected_blocks.len(), 1);
    assert_eq!(reset.disconnected_blocks[0].height, 11);
    assert_eq!(
        reset.disconnected_blocks[0].hash,
        zakura_chain::block::Hash(disconnected.hash).to_string()
    );
    assert_eq!(reset.connected_blocks.len(), 1);
    assert_eq!(
        reset.connected_blocks[0].hash,
        zakura_chain::block::Hash(connected.hash).to_string()
    );
}

#[test]
fn encodes_transaction_and_ordered_utxo_changes() {
    let network = Network::Mainnet;
    let previous = OutPoint {
        hash: transaction::Hash([7; 32]),
        index: 3,
    };
    let previous_address = Address::from_pub_key_hash(network.t_addr_kind(), [8; 20]);
    let output_address = Address::from_pub_key_hash(network.t_addr_kind(), [9; 20]);
    let previous_address_string = previous_address.to_string();
    let output_address_string = output_address.to_string();
    let mut spent_outputs = SpentOutputs::new();
    spent_outputs.insert(
        chain_outpoint(previous),
        spent_output(OrderedUtxo::new(
            Output::new(Amount::<NonNegative>::new(456), previous_address.script()),
            Height(12),
            0,
        )),
    );
    let transaction = Transaction::V1 {
        inputs: vec![Input::PrevOut {
            outpoint: previous,
            unlock_script: Script::new(&[0x51]),
            sequence: 42,
        }],
        outputs: vec![Output::new(
            Amount::<NonNegative>::new(123),
            output_address.script(),
        )],
        lock_time: LockTime::unlocked(),
    };
    let transaction_id = transaction.hash();

    assert_eq!(
        encode_unmined_transaction_id(&transaction_id.0, &None),
        transaction_id.to_string()
    );
    assert_eq!(
        encode_unmined_transaction_id(&transaction_id.0, &Some([8; 32])).len(),
        128
    );

    let encoded = encode_transparent_updates(
        &chain_transaction(&transaction),
        &transaction_id.to_string(),
        NetworkKind::Mainnet,
        PreviousOutputs::Block(&spent_outputs),
        true,
        true,
    )
    .ok()
    .unwrap();
    assert_eq!(encoded.transaction_inputs.len(), 1);
    assert_eq!(encoded.transaction_outputs.len(), 1);
    assert_eq!(encoded.utxo_changes.len(), 2);
    assert_eq!(encoded.transparent_input_value_zat, Some(456));
    assert_eq!(encoded.transparent_output_value_zat, 123);

    let input = &encoded.transaction_inputs[0];
    assert_eq!(input.input_index, 0);
    assert_eq!(input.sequence, 42);
    let Some(TransparentInputKind::Prevout(prevout)) = &input.input else {
        panic!("the transparent input must preserve its previous output");
    };
    assert_eq!(prevout.unlock_script.as_ref(), [0x51]);
    assert_eq!(prevout.previous_output.as_ref().unwrap().output_index, 3);
    assert_eq!(prevout.previous_value_zat, Some(456));
    assert_eq!(
        prevout.previous_address.as_deref(),
        Some(previous_address_string.as_str())
    );
    assert_eq!(prevout.previous_height, Some(12));
    assert_eq!(prevout.previous_from_coinbase, Some(true));

    let output = &encoded.transaction_outputs[0];
    assert_eq!(output.output_index, 0);
    assert_eq!(output.value_zat, 123);
    assert_eq!(
        output.address.as_deref(),
        Some(output_address_string.as_str())
    );

    let Some(UtxoChangeKind::Spent(spent)) = &encoded.utxo_changes[0].change else {
        panic!("the input must produce a spent UTXO change");
    };
    assert_eq!(spent.input_index, 0);
    assert_eq!(spent.sequence, 42);
    assert_eq!(spent.unlock_script.as_ref(), [0x51]);
    assert_eq!(spent.outpoint.as_ref().unwrap().output_index, 3);

    let Some(UtxoChangeKind::Created(created)) = &encoded.utxo_changes[1].change else {
        panic!("the output must produce a created UTXO change");
    };
    assert_eq!(created.value_zat, 123);
    assert_eq!(
        created.address.as_deref(),
        Some(output_address_string.as_str())
    );
    assert_eq!(created.outpoint.as_ref().unwrap().output_index, 0);
    assert_eq!(
        created.outpoint.as_ref().unwrap().transaction_id,
        transaction_id.to_string()
    );
}

#[test]
fn encodes_coinbase_input_without_a_spent_utxo() {
    let transaction = Transaction::V1 {
        inputs: vec![Input::Coinbase {
            height: Height(99),
            data: vec![1, 2, 3],
            sequence: 7,
        }],
        outputs: Vec::new(),
        lock_time: LockTime::unlocked(),
    };

    let encoded = encode_transparent_updates(
        &chain_transaction(&transaction),
        &transaction.hash().to_string(),
        NetworkKind::Mainnet,
        PreviousOutputs::Block(&SpentOutputs::new()),
        true,
        true,
    )
    .ok()
    .unwrap();
    assert!(encoded.transaction_outputs.is_empty());
    assert!(encoded.utxo_changes.is_empty());
    assert_eq!(encoded.transparent_input_value_zat, Some(0));
    assert_eq!(encoded.transparent_output_value_zat, 0);

    let input = &encoded.transaction_inputs[0];
    assert_eq!(input.input_index, 0);
    assert_eq!(input.sequence, 7);
    let Some(TransparentInputKind::Coinbase(coinbase)) = &input.input else {
        panic!("the transparent input must preserve its coinbase data");
    };
    assert_eq!(coinbase.height, 99);
    assert_eq!(coinbase.data.as_ref(), [1, 2, 3]);
}

#[test]
fn encodes_full_mempool_transaction_with_previous_output_context() {
    let network = Network::Mainnet;
    let previous = OutPoint {
        hash: transaction::Hash([3; 32]),
        index: 1,
    };
    let previous_address = Address::from_pub_key_hash(network.t_addr_kind(), [4; 20]);
    let output_address = Address::from_pub_key_hash(network.t_addr_kind(), [5; 20]);
    let previous_output = Output::new(
        Amount::<NonNegative>::new(10_123),
        previous_address.script(),
    );
    let transaction = Transaction::V1 {
        inputs: vec![Input::PrevOut {
            outpoint: previous,
            unlock_script: Script::new(&[0x51]),
            sequence: 9,
        }],
        outputs: vec![Output::new(
            Amount::<NonNegative>::new(123),
            output_address.script(),
        )],
        lock_time: LockTime::unlocked(),
    };
    let mut verified = VerifiedUnminedTx::new(
        transaction.into(),
        Amount::<NonNegative>::new(10_000),
        2,
        3,
        Arc::new(vec![previous_output]),
    )
    .unwrap();
    verified.height = Some(Height(55));
    let transaction_id = verified.transaction.id;
    let event = envelope(PluginEvent::MempoolChanged(MempoolEvent {
        network: mainnet(),
        kind: MempoolEventKind::Added,
        transaction_ids: vec![UnminedTransactionId {
            mined_id: transaction_id.mined_id().0,
            auth_digest: transaction_id.auth_digest().map(|digest| digest.0),
        }],
        transactions: vec![verified_transaction(&verified)],
    }));

    let summary_only = encoded(
        &event,
        EncodingOptions {
            mempool_transaction_updates: false,
            ..EVERYTHING
        },
    );
    assert_eq!(summary_only.len(), 1);
    assert_eq!(summary_only[0].event_type, EventType::MempoolChanged.number());

    let updates = encoded(&event, EVERYTHING);
    assert_eq!(updates.len(), 2);
    assert_eq!(updates[0].event_type, EventType::MempoolChanged.number());
    let Some(Update::MempoolTransaction(transaction)) = updates[1].update.as_ref() else {
        panic!("added mempool transactions must include their full payload");
    };
    assert_eq!(updates[1].event_type, EventType::MempoolTransaction.number());
    assert_eq!(transaction.miner_fee_zat, 10_000);
    assert_eq!(transaction.admitted_height, Some(55));
    assert_eq!(transaction.transparent_input_value_zat, Some(10_123));
    assert_eq!(transaction.transparent_output_value_zat, 123);
    assert!(!transaction.coinbase);
    assert!(transaction.has_transparent);
    assert!(!transaction.has_sapling);
    assert!(!transaction.has_orchard);
    assert_eq!(transaction.legacy_sigop_count, 2);
    assert_eq!(transaction.p2sh_sigop_count, 3);

    let Some(TransparentInputKind::Prevout(input)) =
        transaction.transparent_inputs[0].input.as_ref()
    else {
        panic!("the mempool input must retain its previous output");
    };
    assert_eq!(input.previous_value_zat, Some(10_123));
    assert_eq!(
        input.previous_address.as_deref(),
        Some(previous_address.to_string().as_str())
    );
    assert_eq!(input.previous_height, None);
    assert_eq!(input.previous_from_coinbase, None);

    assert_eq!(transaction.network, "Mainnet");
    assert_eq!(
        transaction.transaction_id,
        transaction_id.mined_id().to_string()
    );
    assert_eq!(
        transaction.fee_weight_ratio_bits,
        verified.fee_weight_ratio.to_bits()
    );
    assert_eq!(block_height(&updates[0]), None);
    assert_eq!(block_height(&updates[1]), None);
}

#[test]
fn blocks_carry_transactions_in_order() {
    let coinbase = transfer(
        vec![Input::Coinbase {
            height: Height(77),
            data: vec![4],
            sequence: 0,
        }],
        vec![pay(50, 1)],
    );
    let payment = transfer(vec![spend(7, 3)], vec![pay(10, 2), pay(20, 3)]);
    let event = envelope(PluginEvent::BlockFinalized(block_event(vec![
        chain_transaction(&coinbase),
        chain_transaction(&payment),
    ])));
    let updates = encoded(&event, EVERYTHING);
    let kinds: Vec<i32> = updates.iter().map(|update| update.event_type).collect();
    assert_eq!(
        kinds,
        vec![
            EventType::BlockFinalized.number(),
            EventType::Transaction.number(),
            EventType::Utxo.number(),
            EventType::Transaction.number(),
            EventType::Utxo.number(),
        ]
    );
    for update in &updates {
        assert_eq!(block_height(update), Some(77));
        assert_eq!(update.schema_version, EVENT_SCHEMA_VERSION);
        assert_eq!(update.session_id.as_ref(), 7u128.to_be_bytes());
        assert_eq!(update.sequence, 0);
        assert_eq!(update.source_sequence, 11);
        assert!(update.filters.is_empty());
    }
    let Some(Update::Block(block)) = updates[0].update.as_ref() else {
        panic!("the first update is the block");
    };
    assert_eq!(block.hash, zakura_chain::block::Hash([5; 32]).to_string());
    assert_eq!(block.block.as_ref(), [1, 2, 3]);
    assert_eq!(block.receipt_order, 9);
    assert!(block.finalized);
    assert_eq!(block.payload, BlockPayload::Full.number());
    let Some(Update::Transaction(first)) = updates[1].update.as_ref() else {
        panic!("the second update is a transaction");
    };
    assert!(first.coinbase);
    assert_eq!(first.transaction_index, 0);
    assert_eq!(first.commitment, BlockCommitment::Finalized.number());
    let Some(Update::Transaction(second)) = updates[3].update.as_ref() else {
        panic!("the fourth update is a transaction");
    };
    assert!(!second.coinbase);
    assert_eq!(second.transaction_index, 1);
    assert_eq!(second.transaction_id, payment.hash().to_string());
    assert_eq!(
        second.transaction.as_ref(),
        payment.zcash_serialize_to_vec().unwrap()
    );
    assert_eq!(second.transparent_input_value_zat, None);
    assert_eq!(second.transparent_output_value_zat, 30);
    let Some(Update::Utxo(changes)) = updates[4].update.as_ref() else {
        panic!("the fifth update lists changes");
    };
    assert_eq!(changes.changes.len(), 3);
    assert_eq!(changes.transaction_id, second.transaction_id);
    assert_eq!(changes.block_hash, block.hash);
}

#[test]
fn accepted_blocks_are_not_finalized() {
    let event = envelope(PluginEvent::BlockAccepted(block_event(vec![
        chain_transaction(&transfer(vec![spend(1, 0)], Vec::new())),
    ])));
    let updates = encoded(&event, EVERYTHING);
    let Some(Update::Block(block)) = updates[0].update.as_ref() else {
        panic!("the first update is the block");
    };
    assert!(!block.finalized);
    assert_eq!(updates[0].event_type, EventType::BlockAccepted.number());
    let Some(Update::Transaction(transaction)) = updates[1].update.as_ref() else {
        panic!("the second update is a transaction");
    };
    assert_eq!(transaction.commitment, BlockCommitment::Accepted.number());
}

#[test]
fn disabled_views_are_left_out() {
    let transactions = || vec![chain_transaction(&transfer(vec![spend(1, 0)], vec![pay(5, 5)]))];
    let event = envelope(PluginEvent::BlockAccepted(block_event(transactions())));
    let only_utxo = encoded(
        &event,
        EncodingOptions {
            transaction_updates: false,
            ..EVERYTHING
        },
    );
    assert_eq!(only_utxo.len(), 2);
    assert_eq!(only_utxo[1].event_type, EventType::Utxo.number());
    let only_transactions = encoded(
        &event,
        EncodingOptions {
            utxo_updates: false,
            ..EVERYTHING
        },
    );
    assert_eq!(only_transactions.len(), 2);
    assert_eq!(
        only_transactions[1].event_type,
        EventType::Transaction.number()
    );
    let neither = encoded(
        &event,
        EncodingOptions {
            transaction_updates: false,
            utxo_updates: false,
            mempool_transaction_updates: true,
        },
    );
    assert_eq!(neither.len(), 1);
}

#[test]
fn transactions_without_changes_have_no_utxo_update() {
    let event = envelope(PluginEvent::BlockAccepted(block_event(vec![
        chain_transaction(&transfer(Vec::new(), Vec::new())),
    ])));
    let updates = encoded(&event, EVERYTHING);
    assert_eq!(updates.len(), 2);
    assert_eq!(updates[1].event_type, EventType::Transaction.number());
}

#[test]
fn missing_encodings_fail_the_event() {
    let mut block = block_event(Vec::new());
    block.encoded = Err("no bytes".to_owned());
    let event = envelope(PluginEvent::BlockAccepted(block));
    assert_eq!(failure(&event, EVERYTHING), "failed to encode block: no bytes");

    let mut transaction = chain_transaction(&transfer(Vec::new(), vec![pay(1, 1)]));
    transaction.encoded = Err("too long".to_owned());
    let event = envelope(PluginEvent::BlockAccepted(block_event(vec![transaction])));
    assert_eq!(
        failure(&event, EVERYTHING),
        "failed to encode transaction: too long"
    );
    let only_utxo = EncodingOptions {
        transaction_updates: false,
        ..EVERYTHING
    };
    assert_eq!(encoded(&event, only_utxo).len(), 2);
}

#[test]
fn value_totals_that_overflow_fail_the_event() {
    let wide = |value_zat: u64| ChainOutput {
        value_zat,
        lock_script: Vec::new(),
    };
    let mut transaction = chain_transaction(&transfer(Vec::new(), Vec::new()));
    transaction.outputs = vec![wide(u64::MAX), wide(1)];
    let event = envelope(PluginEvent::BlockAccepted(block_event(vec![transaction])));
    assert_eq!(
        failure(&event, EVERYTHING),
        "transparent output value exceeds the gRPC protocol's u64 range"
    );

    let transaction = chain_transaction(&transfer(vec![spend(1, 0), spend(1, 1)], Vec::new()));
    let previous = vec![wide(u64::MAX), wide(1)];
    let result = encode_transparent_updates(
        &transaction,
        &"id".to_owned(),
        NetworkKind::Mainnet,
        PreviousOutputs::Mempool(&previous),
        true,
        false,
    );
    match result {
        Ok(_) => panic!("the total does not fit"),
        Err(error) => assert_eq!(
            error.message(),
            "transparent input value exceeds the gRPC protocol's u64 range"
        ),
    }
}

#[test]
fn errors_have_messages() {
    assert_eq!(
        PluginError::TransactionIndexRange.message(),
        "transaction index exceeds the gRPC protocol's u32 range"
    );
    assert_eq!(
        PluginError::InputIndexRange.message(),
        "input index exceeds the gRPC protocol's u32 range"
    );
    assert_eq!(
        PluginError::OutputIndexRange.message(),
        "output index exceeds the gRPC protocol's u32 range"
    );
    assert_eq!(
        PluginError::AlreadyRunning.message(),
        "Zakura gRPC plugin is already running"
    );
    assert_eq!(
        PluginError::SequenceExhausted.message(),
        "Zakura gRPC update sequence exhausted"
    );
}

#[test]
fn unknown_inputs_hide_the_total() {
    let transaction = chain_transaction(&transfer(vec![spend(1, 0), spend(2, 0)], Vec::new()));
    let mut outputs = SpentOutputs::new();
    outputs.insert(
        ChainOutpoint {
            hash: [1; 32],
            index: 0,
        },
        SpentOutput {
            output: chain_output(&pay(70, 1)),
            height: 3,
            from_coinbase: false,
        },
    );
    let encoded = encode_transparent_updates(
        &transaction,
        &"id".to_owned(),
        NetworkKind::Mainnet,
        PreviousOutputs::Block(&outputs),
        true,
        true,
    )
    .ok()
    .unwrap();
    assert_eq!(encoded.transparent_input_value_zat, None);
    let Some(UtxoChangeKind::Spent(known)) = &encoded.utxo_changes[0].change else {
        panic!("the input is spent");
    };
    assert_eq!(known.previous_value_zat, Some(70));
    assert_eq!(known.previous_from_coinbase, Some(false));
    assert_eq!(
        known.outpoint.as_ref().unwrap().transaction_id,
        transaction::Hash([1; 32]).to_string()
    );
    let Some(UtxoChangeKind::Spent(unknown)) = &encoded.utxo_changes[1].change else {
        panic!("the input is spent");
    };
    assert_eq!(unknown.previous_value_zat, None);
    assert!(unknown.previous_lock_script.is_none());
    assert_eq!(unknown.previous_address, None);
    assert_eq!(unknown.previous_height, None);
    assert_eq!(unknown.previous_from_coinbase, None);
}

#[test]
fn outpoints_are_told_apart_by_hash_and_index() {
    let mut outputs = SpentOutputs::new();
    let entry = |value: i64| SpentOutput {
        output: chain_output(&pay(value, 1)),
        height: 1,
        from_coinbase: false,
    };
    let outpoint = |byte: u8, index: u32| ChainOutpoint {
        hash: [byte; 32],
        index,
    };
    outputs.insert(outpoint(1, 1), entry(10));
    outputs.insert(outpoint(1, 11), entry(20));
    outputs.insert(outpoint(2, 1), entry(30));
    outputs.insert(outpoint(1, 1), entry(40));
    assert_eq!(outputs.get(&outpoint(1, 1)).unwrap().output.value_zat, 40);
    assert_eq!(outputs.get(&outpoint(1, 11)).unwrap().output.value_zat, 20);
    assert_eq!(outputs.get(&outpoint(2, 1)).unwrap().output.value_zat, 30);
    assert!(outputs.get(&outpoint(2, 2)).is_none());
}

#[test]
fn growth_lists_its_transactions() {
    let event = envelope(PluginEvent::BestChainChanged(BestChainChange::Grow {
        height: 4,
        hash: [4; 32],
        previous_block_hash: [3; 32],
        transaction_ids: vec![[1; 32], [2; 32]],
    }));
    let updates = encoded(&event, EVERYTHING);
    assert_eq!(updates.len(), 1);
    assert_eq!(updates[0].event_type, EventType::BestChainChanged.number());
    let Some(Update::BestChain(change)) = updates[0].update.as_ref() else {
        panic!("the update describes the best chain");
    };
    assert_eq!(change.height, 4);
    let Some(BestChainUpdateChange::Grow(grow)) = change.change.as_ref() else {
        panic!("the chain grew");
    };
    assert_eq!(
        grow.previous_block_hash,
        zakura_chain::block::Hash([3; 32]).to_string()
    );
    assert_eq!(
        grow.transaction_ids,
        vec![
            transaction::Hash([1; 32]).to_string(),
            transaction::Hash([2; 32]).to_string()
        ]
    );
}

#[test]
fn mempool_summaries_name_unmined_transactions() {
    for (kind, action) in [
        (MempoolEventKind::Added, MempoolAction::Added),
        (MempoolEventKind::Invalidated, MempoolAction::Invalidated),
        (MempoolEventKind::Mined, MempoolAction::Mined),
    ] {
        let event = envelope(PluginEvent::MempoolChanged(MempoolEvent {
            network: mainnet(),
            kind,
            transaction_ids: vec![
                UnminedTransactionId {
                    mined_id: [1; 32],
                    auth_digest: None,
                },
                UnminedTransactionId {
                    mined_id: [1; 32],
                    auth_digest: Some([2; 32]),
                },
            ],
            transactions: Vec::new(),
        }));
        let updates = encoded(&event, EVERYTHING);
        assert_eq!(updates.len(), 1);
        let Some(Update::Mempool(change)) = updates[0].update.as_ref() else {
            panic!("the update describes the mempool");
        };
        assert_eq!(change.action, action.number());
        let id = transaction::Hash([1; 32]).to_string();
        let digest = transaction::AuthDigest([2; 32]).to_string();
        assert_eq!(
            change.transaction_ids,
            vec![id.clone(), format!("{id}{digest}")]
        );
    }
}

#[test]
fn only_added_transactions_are_encoded_in_full() {
    let event = envelope(PluginEvent::MempoolChanged(MempoolEvent {
        network: mainnet(),
        kind: MempoolEventKind::Mined,
        transaction_ids: Vec::new(),
        transactions: vec![VerifiedTransaction {
            transaction: chain_transaction(&transfer(Vec::new(), vec![pay(1, 1)])),
            miner_fee_zat: 1,
            legacy_sigop_count: 0,
            p2sh_sigop_count: 0,
            conventional_actions: 0,
            unpaid_actions: 0,
            fee_weight_ratio_bits: 0,
            admitted_at: None,
            admitted_height: None,
            spent_outputs: Vec::new(),
        }],
    }));
    assert_eq!(encoded(&event, EVERYTHING).len(), 1);
    assert_eq!(item_count(&event, EVERYTHING), 0);
}

#[test]
fn items_encoded_one_by_one_assemble_the_event() {
    let transactions = vec![
        chain_transaction(&transfer(vec![spend(1, 0)], vec![pay(1, 1)])),
        chain_transaction(&transfer(vec![spend(2, 0)], vec![pay(2, 2)])),
        chain_transaction(&transfer(Vec::new(), vec![pay(3, 3)])),
    ];
    let event = envelope(PluginEvent::BlockAccepted(block_event(transactions)));
    assert_eq!(item_count(&event, EVERYTHING), 3);
    let metadata = UpdateMetadata::new(&event);
    let items = (0..3)
        .map(|index| encode_item(&metadata, &event, EVERYTHING, index))
        .collect();
    let assembled = match assemble_event(&metadata, &event, EVERYTHING, items) {
        Ok(updates) => updates,
        Err(error) => panic!("the event has an encoding: {}", error.message()),
    };
    let direct = encoded(&event, EVERYTHING);
    assert_eq!(format!("{assembled:?}"), format!("{direct:?}"));
    assert!(encodes_in_parallel(&event, EVERYTHING, true, 3));
    assert!(!encodes_in_parallel(&event, EVERYTHING, true, 4));
    assert!(!encodes_in_parallel(&event, EVERYTHING, false, 3));

    let nothing = EncodingOptions {
        transaction_updates: false,
        utxo_updates: false,
        mempool_transaction_updates: false,
    };
    assert!(wants_items(&event, EVERYTHING));
    assert!(!wants_items(&event, nothing));
    assert!(!encodes_in_parallel(&event, nothing, true, 0));
    let empty = envelope(PluginEvent::BlockAccepted(block_event(Vec::new())));
    assert!(wants_items(&empty, EVERYTHING));
    assert!(encodes_in_parallel(&empty, EVERYTHING, true, 0));
    assert!(!encodes_in_parallel(&empty, EVERYTHING, true, 1));
}

#[test]
fn errors_do_not_depend_on_how_an_event_is_encoded() {
    let mut broken = chain_transaction(&transfer(vec![spend(2, 0)], vec![pay(2, 2)]));
    broken.encoded = Err("first".to_owned());
    let mut later = chain_transaction(&transfer(Vec::new(), vec![pay(3, 3)]));
    later.encoded = Err("second".to_owned());
    let transactions = vec![
        chain_transaction(&transfer(vec![spend(1, 0)], vec![pay(1, 1)])),
        broken,
        later,
    ];
    let event = envelope(PluginEvent::BlockAccepted(block_event(transactions)));
    let metadata = UpdateMetadata::new(&event);
    let items = (0..3)
        .map(|index| encode_item(&metadata, &event, EVERYTHING, index))
        .collect();
    let assembled = assemble_event(&metadata, &event, EVERYTHING, items);
    let direct = encode_event(&event, EVERYTHING);
    let message = "failed to encode transaction: first";
    assert!(matches!(assembled, Err(error) if error.message() == message));
    assert!(matches!(direct, Err(error) if error.message() == message));
}

#[test]
fn commitments_have_numbers_and_names() {
    for (number, commitment, name) in [
        (0, BlockCommitment::Unspecified, "BLOCK_COMMITMENT_UNSPECIFIED"),
        (1, BlockCommitment::Accepted, "BLOCK_COMMITMENT_ACCEPTED"),
        (2, BlockCommitment::Finalized, "BLOCK_COMMITMENT_FINALIZED"),
    ] {
        assert_eq!(BlockCommitment::from_number(number), Some(commitment));
        assert_eq!(commitment.number(), number);
        assert_eq!(commitment.as_str_name(), name);
    }
    assert_eq!(BlockCommitment::from_number(3), None);
}

#[test]
fn timestamps_follow_the_epoch() {
    let stamp = timestamp(Some(SinceEpoch {
        seconds: 12,
        nanos: 345,
    }));
    assert_eq!((stamp.seconds, stamp.nanos), (12, 345));
    let stamp = timestamp(None);
    assert_eq!((stamp.seconds, stamp.nanos), (0, 0));
    let stamp = timestamp(Some(SinceEpoch {
        seconds: u64::MAX,
        nanos: 999_999_999,
    }));
    assert_eq!((stamp.seconds, stamp.nanos), (i64::MAX, 999_999_999));
}
