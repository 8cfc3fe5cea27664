//! Encoded lengths, held against encodings written field by field.

use bytes::Bytes;
use prost::encoding::{bool, bytes as buffers, encode_key, encode_varint, float, int32, int64};
use prost::encoding::{string, uint32, uint64, WireType};
use std::sync::Arc;
use zakura_grpc::proto::{
    BestChainGrow, BestChainReset, BestChainUpdate, BestChainUpdateChange, BlockUpdate,
    CanonicalBlock, MempoolTransactionUpdate, MempoolUpdate, Outpoint, PingUpdate, PongUpdate,
    SubscribeUpdate, Timestamp, TransactionUpdate, TransparentCoinbaseInput, TransparentInput,
    TransparentInputKind, TransparentOutput, TransparentPrevoutInput, Update, UtxoChange,
    UtxoChangeKind, UtxoCreated, UtxoSpent, UtxoUpdate,
};

fn nested(tag: u32, contents: Vec<u8>, buffer: &mut Vec<u8>) {
    encode_key(tag, WireType::LengthDelimited, buffer);
    encode_varint(contents.len() as u64, buffer);
    buffer.extend(contents);
}

fn with(update: Update) -> SubscribeUpdate {
    SubscribeUpdate {
        update: Some(update),
        ..SubscribeUpdate::default()
    }
}

fn outer(tag: u32, contents: Vec<u8>) -> usize {
    let mut buffer = Vec::new();
    nested(tag, contents, &mut buffer);
    buffer.len()
}

fn long(length: usize) -> String {
    "é".repeat(length / 2)
}

#[test]
fn empty_updates_have_no_bytes() {
    assert_eq!(SubscribeUpdate::default().encoded_len(), 0);
}

#[test]
fn header_fields_are_measured() {
    let update = SubscribeUpdate {
        schema_version: 300,
        session_id: Bytes::from(vec![7; 16]),
        sequence: u64::MAX,
        observed_at: Some(Timestamp {
            seconds: -1,
            nanos: 999_999_999,
        }),
        event_type: -2,
        filters: vec!["wallet".to_owned(), String::new(), long(200)],
        source_sequence: 1 << 35,
        update: None,
    };
    let mut time = Vec::new();
    int64::encode(1, &-1, &mut time);
    int32::encode(2, &999_999_999, &mut time);
    let mut expected = Vec::new();
    uint32::encode(1, &300, &mut expected);
    buffers::encode(2, &update.session_id, &mut expected);
    uint64::encode(3, &u64::MAX, &mut expected);
    nested(4, time, &mut expected);
    int32::encode(5, &-2, &mut expected);
    for filter in &update.filters {
        string::encode(6, filter, &mut expected);
    }
    uint64::encode(7, &update.source_sequence, &mut expected);
    assert_eq!(update.encoded_len(), expected.len());
}

#[test]
fn blocks_are_measured() {
    let block = BlockUpdate {
        height: 1_000_000,
        hash: long(64),
        block: Bytes::from(vec![1; 20_000]),
        receipt_order: 128,
        finalized: true,
        payload: 1,
    };
    let mut expected = Vec::new();
    uint32::encode(1, &block.height, &mut expected);
    string::encode(2, &block.hash, &mut expected);
    buffers::encode(3, &block.block, &mut expected);
    uint64::encode(4, &block.receipt_order, &mut expected);
    bool::encode(5, &true, &mut expected);
    int32::encode(6, &1, &mut expected);
    assert_eq!(with(Update::Block(block)).encoded_len(), outer(8, expected));
}

#[test]
fn chain_changes_are_measured() {
    let grow = BestChainUpdate {
        height: 5,
        hash: long(64),
        change: Some(BestChainUpdateChange::Grow(BestChainGrow {
            previous_block_hash: long(64),
            transaction_ids: vec![long(64), long(64)],
        })),
    };
    let mut inner = Vec::new();
    string::encode(1, &long(64), &mut inner);
    string::encode(2, &long(64), &mut inner);
    string::encode(2, &long(64), &mut inner);
    let mut expected = Vec::new();
    uint32::encode(1, &5, &mut expected);
    string::encode(2, &long(64), &mut expected);
    nested(3, inner, &mut expected);
    assert_eq!(
        with(Update::BestChain(Arc::new(grow))).encoded_len(),
        outer(9, expected)
    );

    let block = CanonicalBlock {
        height: 300,
        hash: long(64),
        previous_block_hash: long(62),
    };
    let mut canonical = Vec::new();
    uint32::encode(1, &300, &mut canonical);
    string::encode(2, &long(64), &mut canonical);
    string::encode(3, &long(62), &mut canonical);
    let reset = BestChainUpdate {
        height: 0,
        hash: String::new(),
        change: Some(BestChainUpdateChange::Reset(BestChainReset {
            disconnected_blocks: vec![block.clone(), block.clone()],
            connected_blocks: vec![block],
            diff_complete: true,
        })),
    };
    let mut inner = Vec::new();
    nested(1, canonical.clone(), &mut inner);
    nested(1, canonical.clone(), &mut inner);
    nested(2, canonical, &mut inner);
    bool::encode(3, &true, &mut inner);
    let mut expected = Vec::new();
    nested(4, inner, &mut expected);
    assert_eq!(
        with(Update::BestChain(Arc::new(reset))).encoded_len(),
        outer(9, expected)
    );
}

#[test]
fn mempool_summaries_and_keepalives_are_measured() {
    let mempool = MempoolUpdate {
        action: 3,
        transaction_ids: vec![long(128)],
    };
    let mut expected = Vec::new();
    int32::encode(1, &3, &mut expected);
    string::encode(2, &long(128), &mut expected);
    assert_eq!(
        with(Update::Mempool(Arc::new(mempool))).encoded_len(),
        outer(10, expected)
    );
    let mut expected = Vec::new();
    int32::encode(1, &-1, &mut expected);
    assert_eq!(
        with(Update::Ping(PingUpdate { id: -1 })).encoded_len(),
        outer(14, expected.clone())
    );
    assert_eq!(
        with(Update::Pong(PongUpdate { id: -1 })).encoded_len(),
        outer(15, expected)
    );
    assert_eq!(
        with(Update::Pong(PongUpdate { id: 0 })).encoded_len(),
        outer(15, Vec::new())
    );
}

fn outpoint() -> (Outpoint, Vec<u8>) {
    let mut expected = Vec::new();
    string::encode(1, &long(64), &mut expected);
    uint32::encode(2, &3, &mut expected);
    let outpoint = Outpoint {
        transaction_id: long(64),
        output_index: 3,
    };
    (outpoint, expected)
}

fn inputs() -> (Vec<TransparentInput>, Vec<Vec<u8>>) {
    let (previous, previous_bytes) = outpoint();
    let script = Bytes::from(vec![0x51]);
    let mut prevout = Vec::new();
    nested(1, previous_bytes, &mut prevout);
    buffers::encode(2, &script, &mut prevout);
    uint64::encode(3, &0, &mut prevout);
    buffers::encode(4, &Bytes::new(), &mut prevout);
    string::encode(5, &"t1".to_owned(), &mut prevout);
    uint32::encode(6, &0, &mut prevout);
    bool::encode(7, &false, &mut prevout);
    let mut first = Vec::new();
    uint32::encode(2, &u32::MAX, &mut first);
    nested(3, prevout, &mut first);
    let mut coinbase = Vec::new();
    uint32::encode(1, &99, &mut coinbase);
    buffers::encode(2, &script, &mut coinbase);
    let mut second = Vec::new();
    uint32::encode(1, &1, &mut second);
    nested(4, coinbase, &mut second);
    let inputs = vec![
        TransparentInput {
            input_index: 0,
            sequence: u32::MAX,
            input: Some(TransparentInputKind::Prevout(TransparentPrevoutInput {
                previous_output: Some(previous),
                unlock_script: script.clone(),
                previous_value_zat: Some(0),
                previous_lock_script: Some(Bytes::new()),
                previous_address: Some("t1".to_owned()),
                previous_height: Some(0),
                previous_from_coinbase: Some(false),
            })),
        },
        TransparentInput {
            input_index: 1,
            sequence: 0,
            input: Some(TransparentInputKind::Coinbase(TransparentCoinbaseInput {
                height: 99,
                data: script,
            })),
        },
    ];
    (inputs, vec![first, second])
}

fn outputs() -> (Vec<TransparentOutput>, Vec<Vec<u8>>) {
    let script = Bytes::from(vec![2; 25]);
    let mut first = Vec::new();
    uint64::encode(2, &5_000_000_000, &mut first);
    buffers::encode(3, &script, &mut first);
    string::encode(4, &String::new(), &mut first);
    let mut second = Vec::new();
    uint32::encode(1, &1, &mut second);
    let outputs = vec![
        TransparentOutput {
            output_index: 0,
            value_zat: 5_000_000_000,
            lock_script: script,
            address: Some(String::new()),
        },
        TransparentOutput {
            output_index: 1,
            ..TransparentOutput::default()
        },
    ];
    (outputs, vec![first, second])
}

#[test]
fn transactions_are_measured() {
    let (transparent_inputs, input_bytes) = inputs();
    let (transparent_outputs, output_bytes) = outputs();
    let transaction = TransactionUpdate {
        transaction_id: long(64),
        unmined_transaction_id: long(128),
        auth_digest: Some(long(64)),
        transaction: Bytes::from(vec![9; 300]),
        height: 70_000,
        block_hash: long(64),
        transaction_index: 200,
        commitment: 2,
        coinbase: true,
        transparent_inputs,
        transparent_outputs,
        version: 5,
        lock_time: 500_000_000,
        lock_time_is_time: true,
        expiry_height: Some(0),
        network: "Mainnet".to_owned(),
        transparent_input_value_zat: Some(1),
        transparent_output_value_zat: 2,
        has_transparent: true,
        has_sapling: true,
        has_orchard: true,
    };
    let mut expected = Vec::new();
    string::encode(1, &long(64), &mut expected);
    string::encode(2, &long(128), &mut expected);
    string::encode(3, &long(64), &mut expected);
    buffers::encode(4, &transaction.transaction, &mut expected);
    uint32::encode(5, &70_000, &mut expected);
    string::encode(6, &long(64), &mut expected);
    uint32::encode(7, &200, &mut expected);
    int32::encode(8, &2, &mut expected);
    bool::encode(9, &true, &mut expected);
    for input in input_bytes {
        nested(10, input, &mut expected);
    }
    for output in output_bytes {
        nested(11, output, &mut expected);
    }
    uint32::encode(12, &5, &mut expected);
    uint32::encode(13, &500_000_000, &mut expected);
    bool::encode(14, &true, &mut expected);
    uint32::encode(15, &0, &mut expected);
    string::encode(16, &"Mainnet".to_owned(), &mut expected);
    uint64::encode(17, &1, &mut expected);
    uint64::encode(18, &2, &mut expected);
    bool::encode(19, &true, &mut expected);
    bool::encode(20, &true, &mut expected);
    bool::encode(21, &true, &mut expected);
    assert_eq!(
        with(Update::Transaction(Arc::new(transaction))).encoded_len(),
        outer(11, expected)
    );
}

#[test]
fn mempool_transactions_are_measured() {
    let (transparent_inputs, input_bytes) = inputs();
    let (transparent_outputs, output_bytes) = outputs();
    let ratio: f32 = 1.25;
    let transaction = MempoolTransactionUpdate {
        transaction_id: long(64),
        unmined_transaction_id: long(128),
        auth_digest: None,
        transaction: Bytes::from(vec![9; 100]),
        network: "Testnet".to_owned(),
        transparent_inputs,
        transparent_outputs,
        version: 5,
        lock_time: 1,
        lock_time_is_time: true,
        expiry_height: Some(7),
        transparent_input_value_zat: None,
        transparent_output_value_zat: 300,
        miner_fee_zat: 10_000,
        admitted_at: Some(Timestamp {
            seconds: 1_700_000_000,
            nanos: 1,
        }),
        admitted_height: Some(55),
        conventional_actions: 2,
        unpaid_actions: 1,
        legacy_sigop_count: 2,
        p2sh_sigop_count: 3,
        fee_weight_ratio_bits: ratio.to_bits(),
        coinbase: true,
        has_transparent: true,
        has_sapling: true,
        has_orchard: true,
    };
    let mut time = Vec::new();
    int64::encode(1, &1_700_000_000, &mut time);
    int32::encode(2, &1, &mut time);
    let mut expected = Vec::new();
    string::encode(1, &long(64), &mut expected);
    string::encode(2, &long(128), &mut expected);
    buffers::encode(4, &transaction.transaction, &mut expected);
    string::encode(5, &"Testnet".to_owned(), &mut expected);
    for input in input_bytes {
        nested(6, input, &mut expected);
    }
    for output in output_bytes {
        nested(7, output, &mut expected);
    }
    uint32::encode(8, &5, &mut expected);
    uint32::encode(9, &1, &mut expected);
    bool::encode(10, &true, &mut expected);
    uint32::encode(11, &7, &mut expected);
    uint64::encode(13, &300, &mut expected);
    uint64::encode(14, &10_000, &mut expected);
    nested(15, time, &mut expected);
    uint32::encode(16, &55, &mut expected);
    uint32::encode(17, &2, &mut expected);
    uint32::encode(18, &1, &mut expected);
    uint32::encode(19, &2, &mut expected);
    uint32::encode(20, &3, &mut expected);
    float::encode(21, &ratio, &mut expected);
    bool::encode(22, &true, &mut expected);
    bool::encode(23, &true, &mut expected);
    bool::encode(24, &true, &mut expected);
    bool::encode(25, &true, &mut expected);
    assert_eq!(
        with(Update::MempoolTransaction(Arc::new(transaction))).encoded_len(),
        outer(13, expected)
    );
    let zero: f32 = -0.0;
    let empty = MempoolTransactionUpdate {
        fee_weight_ratio_bits: zero.to_bits(),
        ..MempoolTransactionUpdate::default()
    };
    assert_eq!(
        with(Update::MempoolTransaction(Arc::new(empty))).encoded_len(),
        outer(13, Vec::new())
    );
}

#[test]
fn utxo_changes_are_measured() {
    let (created_outpoint, outpoint_bytes) = outpoint();
    let script = Bytes::from(vec![3; 25]);
    let mut created = Vec::new();
    nested(1, outpoint_bytes.clone(), &mut created);
    uint64::encode(2, &123, &mut created);
    buffers::encode(3, &script, &mut created);
    string::encode(4, &"t1".to_owned(), &mut created);
    let mut spent = Vec::new();
    nested(1, outpoint_bytes, &mut spent);
    uint32::encode(2, &1, &mut spent);
    buffers::encode(3, &script, &mut spent);
    uint32::encode(4, &42, &mut spent);
    uint64::encode(5, &456, &mut spent);
    buffers::encode(6, &script, &mut spent);
    string::encode(7, &"t2".to_owned(), &mut spent);
    uint32::encode(8, &12, &mut spent);
    bool::encode(9, &true, &mut spent);
    let mut first = Vec::new();
    nested(1, created, &mut first);
    let mut second = Vec::new();
    nested(2, spent, &mut second);
    let mut expected = Vec::new();
    uint32::encode(1, &77, &mut expected);
    string::encode(2, &long(64), &mut expected);
    string::encode(3, &long(64), &mut expected);
    uint32::encode(4, &1, &mut expected);
    int32::encode(5, &1, &mut expected);
    nested(6, first, &mut expected);
    nested(6, second, &mut expected);
    nested(6, Vec::new(), &mut expected);
    bool::encode(7, &true, &mut expected);
    uint32::encode(8, &4, &mut expected);
    bool::encode(9, &true, &mut expected);
    bool::encode(10, &true, &mut expected);
    bool::encode(11, &true, &mut expected);
    uint64::encode(12, &456, &mut expected);
    uint64::encode(13, &123, &mut expected);
    let utxo = UtxoUpdate {
        height: 77,
        block_hash: long(64),
        transaction_id: long(64),
        transaction_index: 1,
        commitment: 1,
        changes: vec![
            UtxoChange {
                change: Some(UtxoChangeKind::Created(UtxoCreated {
                    outpoint: Some(created_outpoint.clone()),
                    value_zat: 123,
                    lock_script: script.clone(),
                    address: Some("t1".to_owned()),
                })),
            },
            UtxoChange {
                change: Some(UtxoChangeKind::Spent(UtxoSpent {
                    outpoint: Some(created_outpoint),
                    input_index: 1,
                    unlock_script: script.clone(),
                    sequence: 42,
                    previous_value_zat: Some(456),
                    previous_lock_script: Some(script),
                    previous_address: Some("t2".to_owned()),
                    previous_height: Some(12),
                    previous_from_coinbase: Some(true),
                })),
            },
            UtxoChange { change: None },
        ],
        coinbase: true,
        version: 4,
        has_transparent: true,
        has_sapling: true,
        has_orchard: true,
        transparent_input_value_zat: Some(456),
        transparent_output_value_zat: 123,
    };
    assert_eq!(
        with(Update::Utxo(Arc::new(utxo))).encoded_len(),
        outer(12, expected)
    );
}
