//! Subscription filters: validation, compilation and matching.

use std::sync::Arc;
use zakura_chain::parameters::Network;
use zakura_chain::transaction;
use zakura_chain::transparent::Address;
use zakura_grpc::config::FilterLimits;
use zakura_grpc::filter::{
    compile_transaction_ids, event_type_bit, filter_is_empty, CompiledFilter, EventFilter,
};
use zakura_grpc::matching::{
    transaction_feature_bits, update_transparent_addresses, TransactionFacts, UpdateContext,
    HAS_ORCHARD, HAS_SAPLING, HAS_TRANSPARENT,
};
use zakura_grpc::proto::{
    BestChainGrow, BestChainReset, BestChainUpdate, BestChainUpdateChange, BlockPayload,
    BlockUpdate, EventType, MempoolTransactionUpdate, MempoolUpdate, SubscribeRequest,
    SubscribeRequestFilter, SubscribeUpdate, TransactionUpdate, TransparentCoinbaseInput,
    TransparentInput, TransparentInputKind, TransparentOutput, TransparentPrevoutInput, Update,
    UtxoChange, UtxoChangeKind, UtxoCreated, UtxoSpent, UtxoUpdate,
};
use zakura_grpc::rejection::{FilterError, ListField};
use zakura_grpc::status::Code;

fn update(height: u32, kind: EventType) -> SubscribeUpdate {
    SubscribeUpdate {
        event_type: kind.into(),
        update: Some(Update::Block(BlockUpdate {
            height,
            ..BlockUpdate::default()
        })),
        ..SubscribeUpdate::default()
    }
}

fn transaction_message(transaction_id: String, address: String) -> TransactionUpdate {
    TransactionUpdate {
        transaction_id,
        transparent_outputs: vec![TransparentOutput {
            address: Some(address),
            ..TransparentOutput::default()
        }],
        version: 5,
        has_transparent: true,
        ..TransactionUpdate::default()
    }
}

fn with_transaction(message: TransactionUpdate) -> SubscribeUpdate {
    SubscribeUpdate {
        event_type: EventType::Transaction.into(),
        update: Some(Update::Transaction(Arc::new(message))),
        ..SubscribeUpdate::default()
    }
}

fn transaction_update(transaction_id: String, address: String) -> SubscribeUpdate {
    with_transaction(transaction_message(transaction_id, address))
}

fn mempool_transaction_update(transaction_id: String, address: String) -> SubscribeUpdate {
    SubscribeUpdate {
        event_type: EventType::MempoolTransaction.into(),
        update: Some(Update::MempoolTransaction(Arc::new(MempoolTransactionUpdate {
            transaction_id,
            transparent_outputs: vec![TransparentOutput {
                address: Some(address),
                ..TransparentOutput::default()
            }],
            version: 5,
            has_transparent: true,
            ..MempoolTransactionUpdate::default()
        }))),
        ..SubscribeUpdate::default()
    }
}

fn named(filters: Vec<(&str, SubscribeRequestFilter)>) -> SubscribeRequest {
    SubscribeRequest {
        filters: filters
            .into_iter()
            .map(|(name, filter)| (name.to_owned(), filter))
            .collect(),
        ..SubscribeRequest::default()
    }
}

fn compiled(request: &SubscribeRequest) -> EventFilter {
    match EventFilter::new(request, &FilterLimits::default()) {
        Ok(filter) => filter,
        Err(status) => panic!("the request is valid: {}", status.message),
    }
}

fn rejected(request: &SubscribeRequest, limits: &FilterLimits) -> (Code, String) {
    match EventFilter::new(request, limits) {
        Ok(_) => panic!("the request is invalid"),
        Err(status) => (status.code(), status.message),
    }
}

fn matched_names(filter: &EventFilter, update: &SubscribeUpdate) -> Option<Vec<String>> {
    filter.matched(update).map(|matched| matched.names)
}

fn address(byte: u8) -> String {
    Address::from_pub_key_hash(Network::Mainnet.t_addr_kind(), [byte; 20]).to_string()
}

fn transaction_id(byte: u8) -> String {
    transaction::Hash([byte; 32]).to_string()
}

#[test]
fn empty_request_matches_everything() {
    let filter = compiled(&SubscribeRequest::default());
    assert_eq!(
        matched_names(&filter, &update(1, EventType::BlockFinalized)),
        Some(Vec::new())
    );
}

#[test]
fn named_filters_return_every_match_in_stable_order() {
    let filter = compiled(&named(vec![
        (
            "tip",
            SubscribeRequestFilter {
                event_types: vec![EventType::BlockFinalized.into()],
                min_height: Some(10),
                ..SubscribeRequestFilter::default()
            },
        ),
        (
            "blocks",
            SubscribeRequestFilter {
                event_types: vec![EventType::BlockFinalized.into()],
                min_height: None,
                ..SubscribeRequestFilter::default()
            },
        ),
    ]));

    assert_eq!(
        matched_names(&filter, &update(10, EventType::BlockFinalized)),
        Some(vec!["blocks".to_owned(), "tip".to_owned()])
    );
    assert_eq!(
        matched_names(&filter, &update(9, EventType::BlockFinalized)),
        Some(vec!["blocks".to_owned()])
    );
}

#[test]
fn limits_reject_excess_named_filters() {
    let request = named(vec![
        ("one", SubscribeRequestFilter::default()),
        ("two", SubscribeRequestFilter::default()),
    ]);
    let limits = FilterLimits {
        max_named_filters: 1,
        ..FilterLimits::default()
    };
    assert_eq!(
        rejected(&request, &limits),
        (
            Code::InvalidArgument,
            "at most 1 named filters are allowed".to_owned()
        )
    );
}

#[test]
fn named_filter_matches_transaction_id_and_address() {
    let transaction_id = transaction_id(7);
    let address = address(9);
    let filter = compiled(&named(vec![(
        "wallet",
        SubscribeRequestFilter {
            event_types: vec![EventType::Transaction.into()],
            transaction_ids: vec![transaction_id.clone()],
            transparent_addresses: vec![address.clone()],
            ..SubscribeRequestFilter::default()
        },
    )]));

    assert_eq!(
        matched_names(&filter, &transaction_update(transaction_id, address)),
        Some(vec!["wallet".to_owned()])
    );
}

#[test]
fn named_filter_matches_mempool_transaction_id_and_address() {
    let transaction_id = transaction_id(8);
    let address = address(10);
    let filter = compiled(&named(vec![(
        "mempool-wallet",
        SubscribeRequestFilter {
            event_types: vec![EventType::MempoolTransaction.into()],
            transaction_ids: vec![transaction_id.clone()],
            transparent_addresses: vec![address.clone()],
            ..SubscribeRequestFilter::default()
        },
    )]));

    assert_eq!(
        matched_names(&filter, &mempool_transaction_update(transaction_id, address)),
        Some(vec!["mempool-wallet".to_owned()])
    );
}

#[test]
fn address_include_exclude_and_required_use_zcash_semantics() {
    let required_a = address(1);
    let required_b = address(2);
    let excluded = address(3);
    let filter = compiled(&named(vec![(
        "wallet",
        SubscribeRequestFilter {
            event_types: vec![EventType::Transaction.into()],
            address_include: vec![required_a.clone()],
            address_exclude: vec![excluded.clone()],
            address_required: vec![required_a.clone(), required_b.clone()],
            ..SubscribeRequestFilter::default()
        },
    )]));
    let transaction_id = transaction_id(4);
    let mut matching = transaction_message(transaction_id.clone(), required_a.clone());
    matching.transparent_outputs.push(TransparentOutput {
        address: Some(required_b),
        ..TransparentOutput::default()
    });
    assert_eq!(
        matched_names(&filter, &with_transaction(matching.clone())),
        Some(vec!["wallet".to_owned()])
    );

    let missing_required = transaction_update(transaction_id, required_a);
    assert_eq!(matched_names(&filter, &missing_required), None);

    let mut contains_excluded = matching;
    contains_excluded.transparent_outputs.push(TransparentOutput {
        address: Some(excluded),
        ..TransparentOutput::default()
    });
    assert_eq!(
        matched_names(&filter, &with_transaction(contains_excluded)),
        None
    );
}

#[test]
fn transaction_metadata_filters_are_combined_with_and() {
    let filter = compiled(&named(vec![(
        "shielded",
        SubscribeRequestFilter {
            event_types: vec![EventType::Transaction.into()],
            coinbase: Some(false),
            transaction_version: Some(5),
            has_transparent: Some(true),
            has_sapling: Some(true),
            has_orchard: Some(false),
            min_value_zat: Some(50),
            ..SubscribeRequestFilter::default()
        },
    )]));
    let mut matching = transaction_message(transaction_id(5), address(5));
    matching.has_sapling = true;
    matching.transparent_output_value_zat = 50;
    assert_eq!(
        matched_names(&filter, &with_transaction(matching.clone())),
        Some(vec!["shielded".to_owned()])
    );

    matching.has_orchard = true;
    assert_eq!(matched_names(&filter, &with_transaction(matching)), None);
}

#[test]
fn block_payload_uses_the_richest_matching_named_filter() {
    let filter = compiled(&named(vec![
        (
            "meta",
            SubscribeRequestFilter {
                event_types: vec![EventType::BlockFinalized.into()],
                block_payload: BlockPayload::MetaOnly.into(),
                ..SubscribeRequestFilter::default()
            },
        ),
        (
            "full-from-100",
            SubscribeRequestFilter {
                event_types: vec![EventType::BlockFinalized.into()],
                min_height: Some(100),
                block_payload: BlockPayload::Full.into(),
                ..SubscribeRequestFilter::default()
            },
        ),
    ]));

    let meta = filter
        .matched(&update(99, EventType::BlockFinalized))
        .unwrap();
    assert_eq!(meta.names, vec!["meta".to_owned()]);
    assert_eq!(meta.block_payload, BlockPayload::MetaOnly);

    let full = filter
        .matched(&update(100, EventType::BlockFinalized))
        .unwrap();
    assert_eq!(
        full.names,
        vec!["full-from-100".to_owned(), "meta".to_owned()]
    );
    assert_eq!(full.block_payload, BlockPayload::Full);
}

#[test]
fn payload_selection_does_not_bypass_disabled_catch_all_filters() {
    let request = named(vec![(
        "meta",
        SubscribeRequestFilter {
            block_payload: BlockPayload::MetaOnly.into(),
            ..SubscribeRequestFilter::default()
        },
    )]);
    let limits = FilterLimits {
        allow_all: false,
        ..FilterLimits::default()
    };

    assert_eq!(
        rejected(&request, &limits),
        (
            Code::InvalidArgument,
            "named filter \"meta\" must select at least one event type".to_owned()
        )
    );
}

#[test]
fn address_limits_and_reject_lists_are_field_specific() {
    let address = address(6);
    let request = named(vec![(
        "wallet",
        SubscribeRequestFilter {
            address_include: vec![address.clone()],
            ..SubscribeRequestFilter::default()
        },
    )]);
    let limits = FilterLimits {
        address_include_reject: vec![address.clone()],
        ..FilterLimits::default()
    };
    assert_eq!(
        rejected(&request, &limits),
        (
            Code::InvalidArgument,
            format!("address_include contains rejected transparent address {address:?}")
        )
    );

    let disabled = FilterLimits {
        max_address_include: 0,
        ..FilterLimits::default()
    };
    assert_eq!(
        rejected(&request, &disabled),
        (
            Code::InvalidArgument,
            "at most 0 values are allowed in address_include per filter".to_owned()
        )
    );
}

#[test]
fn utxo_updates_support_address_feature_and_value_filters() {
    let address = address(7);
    let filter = compiled(&named(vec![(
        "orchard-utxo",
        SubscribeRequestFilter {
            event_types: vec![EventType::Utxo.into()],
            address_required: vec![address.clone()],
            transaction_version: Some(5),
            has_transparent: Some(true),
            has_sapling: Some(false),
            has_orchard: Some(true),
            min_value_zat: Some(100),
            ..SubscribeRequestFilter::default()
        },
    )]));
    let update = SubscribeUpdate {
        event_type: EventType::Utxo.into(),
        update: Some(Update::Utxo(Arc::new(UtxoUpdate {
            version: 5,
            has_transparent: true,
            has_orchard: true,
            transparent_output_value_zat: 100,
            changes: vec![UtxoChange {
                change: Some(UtxoChangeKind::Created(UtxoCreated {
                    address: Some(address),
                    ..UtxoCreated::default()
                })),
            }],
            ..UtxoUpdate::default()
        }))),
        ..SubscribeUpdate::default()
    };

    assert_eq!(
        matched_names(&filter, &update),
        Some(vec!["orchard-utxo".to_owned()])
    );
}

#[test]
fn every_rejection_has_its_message() {
    let limits = FilterLimits {
        allow_all: false,
        max_event_types: 2,
        max_name_bytes: 4,
        max_transaction_ids: 1,
        ..FilterLimits::default()
    };
    let argument = |message: &str| (Code::InvalidArgument, message.to_owned());
    assert_eq!(
        rejected(&SubscribeRequest::default(), &limits),
        argument("an empty filter is disabled; select at least one event type")
    );
    let types = |event_types: Vec<i32>| SubscribeRequest {
        event_types,
        ..SubscribeRequest::default()
    };
    assert_eq!(
        rejected(&types(vec![1, 2, 3]), &limits),
        argument("at most 2 event types are allowed per filter")
    );
    assert_eq!(
        rejected(&types(vec![1, 99]), &limits),
        argument("unknown event type 99")
    );
    assert_eq!(
        rejected(&types(vec![-7]), &limits),
        argument("unknown event type -7")
    );
    assert_eq!(
        rejected(&types(vec![0]), &limits),
        argument("EVENT_TYPE_UNSPECIFIED cannot be used as a filter")
    );
    let filter = SubscribeRequestFilter {
        min_height: Some(1),
        ..SubscribeRequestFilter::default()
    };
    assert_eq!(
        rejected(&named(vec![("", filter.clone())]), &limits),
        argument("filter names cannot be empty")
    );
    assert_eq!(
        rejected(&named(vec![("ééé", filter.clone())]), &limits),
        argument("filter name is longer than 4 bytes")
    );
    let ids = |transaction_ids: Vec<String>| {
        named(vec![(
            "ids",
            SubscribeRequestFilter {
                transaction_ids,
                ..SubscribeRequestFilter::default()
            },
        )])
    };
    assert_eq!(
        rejected(&ids(vec![transaction_id(1), transaction_id(2)]), &limits),
        argument("at most 1 values are allowed in transaction_ids per filter")
    );
    assert_eq!(
        rejected(&ids(vec!["not\"hex".to_owned()]), &limits),
        argument("invalid transaction ID \"not\\\"hex\"")
    );
    let reject = FilterLimits {
        transaction_id_reject: vec![transaction_id(1).to_uppercase()],
        ..FilterLimits::default()
    };
    assert_eq!(
        rejected(&ids(vec![transaction_id(1)]), &reject),
        (
            Code::InvalidArgument,
            format!(
                "transaction_ids contains rejected transaction ID {:?}",
                transaction_id(1)
            )
        )
    );
    let broken = FilterLimits {
        transaction_id_reject: vec!["zz".to_owned()],
        ..FilterLimits::default()
    };
    assert_eq!(
        rejected(&ids(Vec::new()), &broken),
        (
            Code::Internal,
            "invalid configured transaction ID reject-list".to_owned()
        )
    );
    let broken = FilterLimits {
        address_required_reject: vec!["zz".to_owned()],
        ..FilterLimits::default()
    };
    assert_eq!(
        rejected(&ids(Vec::new()), &broken),
        (
            Code::Internal,
            "invalid configured transparent address reject-list".to_owned()
        )
    );
    let addresses = named(vec![(
        "a",
        SubscribeRequestFilter {
            address_exclude: vec!["t1nonsense".to_owned()],
            ..SubscribeRequestFilter::default()
        },
    )]);
    assert_eq!(
        rejected(&addresses, &FilterLimits::default()),
        argument("invalid transparent address \"t1nonsense\"")
    );
    let payload = named(vec![(
        "a",
        SubscribeRequestFilter {
            block_payload: 3,
            ..SubscribeRequestFilter::default()
        },
    )]);
    assert_eq!(
        rejected(&payload, &FilterLimits::default()),
        argument("unknown block payload mode 3")
    );
}

#[test]
fn names_are_measured_in_bytes() {
    let limits = FilterLimits {
        max_name_bytes: 4,
        ..FilterLimits::default()
    };
    let fits = named(vec![("éé", SubscribeRequestFilter::default())]);
    assert!(EventFilter::new(&fits, &limits).is_ok());
}

#[test]
fn transaction_ids_are_case_insensitive() {
    let filter = compiled(&named(vec![(
        "tx",
        SubscribeRequestFilter {
            transaction_ids: vec![transaction_id(0xab).to_uppercase()],
            ..SubscribeRequestFilter::default()
        },
    )]));
    assert_eq!(
        matched_names(&filter, &transaction_update(transaction_id(0xab), address(1))),
        Some(vec!["tx".to_owned()])
    );
    assert_eq!(
        matched_names(&filter, &transaction_update(transaction_id(0xac), address(1))),
        None
    );
    let ids = compile_transaction_ids(
        &vec![transaction_id(0xab).to_uppercase()],
        4,
        &Vec::new(),
    )
    .unwrap();
    assert_eq!(ids, vec![transaction_id(0xab)]);
}

#[test]
fn tex_filters_select_the_public_key_hash_address() {
    let tex = "tex1s2rt77ggv6q989lr49rkgzmh5slsksa9khdgte".to_owned();
    let key = "t1VmmGiyjVNeCjxDZzg7vZmd99WyzVby9yC".to_owned();
    let filter = compiled(&named(vec![(
        "tex",
        SubscribeRequestFilter {
            address_include: vec![tex],
            ..SubscribeRequestFilter::default()
        },
    )]));
    assert_eq!(
        matched_names(&filter, &transaction_update(transaction_id(1), key)),
        Some(vec!["tex".to_owned()])
    );
    assert_eq!(
        matched_names(&filter, &transaction_update(transaction_id(1), address(8))),
        None
    );
}

#[test]
fn request_order_does_not_change_the_answer() {
    let filter = |kind: EventType| SubscribeRequestFilter {
        event_types: vec![kind.into()],
        ..SubscribeRequestFilter::default()
    };
    let names = ["delta", "alpha", "charlie", "bravo", "Zulu", "alphabet"];
    let mut filters: Vec<(&str, SubscribeRequestFilter)> = names
        .iter()
        .map(|name| (*name, filter(EventType::BlockAccepted)))
        .collect();
    let forward = compiled(&named(filters.clone()));
    filters.reverse();
    let backward = compiled(&named(filters));
    let expected: Vec<String> = ["Zulu", "alpha", "alphabet", "bravo", "charlie", "delta"]
        .iter()
        .map(|name| (*name).to_owned())
        .collect();
    let block = update(1, EventType::BlockAccepted);
    assert_eq!(matched_names(&forward, &block), Some(expected.clone()));
    assert_eq!(matched_names(&backward, &block), Some(expected));
}

#[test]
fn names_come_in_the_order_of_their_code_points() {
    let mut names = vec![
        "b", "a", "ab", "é", "z", "\u{ffff}", "\u{10000}", "aé", "a b", "~", "A",
    ];
    let filters = names
        .iter()
        .map(|name| (*name, SubscribeRequestFilter::default()))
        .collect();
    let matched = matched_names(
        &compiled(&named(filters)),
        &update(1, EventType::BlockAccepted),
    );
    names.sort_unstable();
    let expected: Vec<String> = names.iter().map(|name| (*name).to_owned()).collect();
    assert_eq!(matched, Some(expected));
}

#[test]
fn legacy_event_types_ask_for_full_blocks() {
    let filter = compiled(&SubscribeRequest {
        event_types: vec![EventType::BlockAccepted.into()],
        ..SubscribeRequest::default()
    });
    let matched = filter.matched(&update(1, EventType::BlockAccepted)).unwrap();
    assert!(matched.names.is_empty());
    assert_eq!(matched.block_payload, BlockPayload::Full);
    assert!(filter.matched(&update(1, EventType::BlockFinalized)).is_none());
}

#[test]
fn minimum_height_excludes_updates_without_height() {
    let filter = compiled(&named(vec![(
        "high",
        SubscribeRequestFilter {
            min_height: Some(0),
            ..SubscribeRequestFilter::default()
        },
    )]));
    let mempool = SubscribeUpdate {
        event_type: EventType::MempoolChanged.into(),
        update: Some(Update::Mempool(Arc::new(MempoolUpdate::default()))),
        ..SubscribeUpdate::default()
    };
    assert!(matched_names(&filter, &mempool).is_none());
    assert!(matched_names(&filter, &update(0, EventType::BlockAccepted)).is_some());
}

#[test]
fn transaction_ids_match_summaries() {
    let wanted = transaction_id(1);
    let filter = compiled(&named(vec![(
        "tx",
        SubscribeRequestFilter {
            transaction_ids: vec![wanted.clone()],
            ..SubscribeRequestFilter::default()
        },
    )]));
    let mempool = |ids: Vec<String>| SubscribeUpdate {
        update: Some(Update::Mempool(Arc::new(MempoolUpdate {
            transaction_ids: ids,
            ..MempoolUpdate::default()
        }))),
        ..SubscribeUpdate::default()
    };
    assert!(matched_names(&filter, &mempool(vec![transaction_id(2), wanted.clone()])).is_some());
    assert!(matched_names(&filter, &mempool(vec![transaction_id(2)])).is_none());
    let chain = |change: Option<BestChainUpdateChange>| SubscribeUpdate {
        update: Some(Update::BestChain(Arc::new(BestChainUpdate {
            change,
            ..BestChainUpdate::default()
        }))),
        ..SubscribeUpdate::default()
    };
    let grow = BestChainUpdateChange::Grow(BestChainGrow {
        transaction_ids: vec![wanted],
        ..BestChainGrow::default()
    });
    assert!(matched_names(&filter, &chain(Some(grow))).is_some());
    let reset = BestChainUpdateChange::Reset(BestChainReset::default());
    assert!(matched_names(&filter, &chain(Some(reset))).is_none());
    assert!(matched_names(&filter, &chain(None)).is_none());
    assert!(matched_names(&filter, &update(1, EventType::BlockAccepted)).is_none());
}

#[test]
fn addresses_are_collected_from_inputs_and_outputs() {
    let prevout = |address: Option<&str>| TransparentInput {
        input: Some(TransparentInputKind::Prevout(TransparentPrevoutInput {
            previous_address: address.map(str::to_owned),
            ..TransparentPrevoutInput::default()
        })),
        ..TransparentInput::default()
    };
    let message = TransactionUpdate {
        transparent_inputs: vec![
            prevout(Some("in-1")),
            prevout(None),
            TransparentInput {
                input: Some(TransparentInputKind::Coinbase(
                    TransparentCoinbaseInput::default(),
                )),
                ..TransparentInput::default()
            },
            prevout(Some("in-2")),
        ],
        transparent_outputs: vec![
            TransparentOutput::default(),
            TransparentOutput {
                address: Some("out-1".to_owned()),
                ..TransparentOutput::default()
            },
        ],
        ..TransactionUpdate::default()
    };
    let update_with_inputs = with_transaction(message);
    assert_eq!(
        update_transparent_addresses(&update_with_inputs),
        Some(vec!["in-1", "in-2", "out-1"])
    );
    let utxo = SubscribeUpdate {
        update: Some(Update::Utxo(Arc::new(UtxoUpdate {
            changes: vec![
                UtxoChange {
                    change: Some(UtxoChangeKind::Spent(UtxoSpent {
                        previous_address: Some("spent".to_owned()),
                        ..UtxoSpent::default()
                    })),
                },
                UtxoChange { change: None },
                UtxoChange {
                    change: Some(UtxoChangeKind::Created(UtxoCreated {
                        address: Some("created".to_owned()),
                        ..UtxoCreated::default()
                    })),
                },
            ],
            ..UtxoUpdate::default()
        }))),
        ..SubscribeUpdate::default()
    };
    assert_eq!(
        update_transparent_addresses(&utxo),
        Some(vec!["spent", "created"])
    );
    assert_eq!(
        update_transparent_addresses(&update(1, EventType::BlockAccepted)),
        None
    );
}

#[test]
fn exclusion_alone_needs_an_update_with_addresses() {
    let filter = compiled(&named(vec![(
        "others",
        SubscribeRequestFilter {
            address_exclude: vec![address(1)],
            ..SubscribeRequestFilter::default()
        },
    )]));
    assert!(matched_names(&filter, &transaction_update(transaction_id(1), address(2))).is_some());
    assert!(matched_names(&filter, &transaction_update(transaction_id(1), address(1))).is_none());
    assert!(matched_names(&filter, &update(1, EventType::BlockAccepted)).is_none());
}

#[test]
fn minimum_value_looks_at_inputs_and_outputs() {
    let filter = compiled(&named(vec![(
        "large",
        SubscribeRequestFilter {
            min_value_zat: Some(100),
            ..SubscribeRequestFilter::default()
        },
    )]));
    let with_values = |input: Option<u64>, output: u64| {
        let mut message = transaction_message(transaction_id(1), address(1));
        message.transparent_input_value_zat = input;
        message.transparent_output_value_zat = output;
        with_transaction(message)
    };
    assert!(matched_names(&filter, &with_values(Some(100), 0)).is_some());
    assert!(matched_names(&filter, &with_values(None, 100)).is_some());
    assert!(matched_names(&filter, &with_values(Some(99), 99)).is_none());
    assert!(matched_names(&filter, &with_values(None, 0)).is_none());
    assert!(matched_names(&filter, &update(1, EventType::BlockAccepted)).is_none());
}

#[test]
fn event_type_bits_cover_the_mask() {
    assert_eq!(event_type_bit(0), Some(1));
    assert_eq!(event_type_bit(5), Some(32));
    assert_eq!(event_type_bit(63), Some(1 << 63));
    assert_eq!(event_type_bit(64), None);
    assert_eq!(event_type_bit(-1), None);
}

#[test]
fn feature_bits_are_told_apart() {
    assert_eq!(transaction_feature_bits(false, false, false), 0);
    assert_eq!(transaction_feature_bits(true, false, true), 5);
    let facts = TransactionFacts {
        coinbase: false,
        version: 5,
        features: transaction_feature_bits(true, false, true),
        transparent_input_value_zat: None,
        transparent_output_value_zat: 0,
    };
    assert!(facts.has_feature(HAS_TRANSPARENT));
    assert!(!facts.has_feature(HAS_SAPLING));
    assert!(facts.has_feature(HAS_ORCHARD));
}

#[test]
fn compiled_filters_can_be_held_against_an_update() {
    let filter = CompiledFilter::from_proto(
        &SubscribeRequestFilter {
            event_types: vec![EventType::Transaction.into()],
            address_include: vec![address(1)],
            ..SubscribeRequestFilter::default()
        },
        &FilterLimits::default(),
    )
    .ok()
    .unwrap();
    assert!(filter.uses_addresses());
    let matching = transaction_update(transaction_id(1), address(1));
    assert!(filter.matches(&UpdateContext::new(&matching, true)));
    let other = transaction_update(transaction_id(1), address(2));
    assert!(!filter.matches(&UpdateContext::new(&other, true)));
    assert!(filter_is_empty(&SubscribeRequestFilter::default()));
    assert!(!filter_is_empty(&SubscribeRequestFilter {
        coinbase: Some(false),
        ..SubscribeRequestFilter::default()
    }));
}

#[test]
fn rejections_carry_their_code() {
    let error = FilterError::ListTooLong {
        field: ListField::AddressExclude,
        maximum: 2,
    };
    assert_eq!(error.code(), Code::InvalidArgument);
    assert_eq!(
        error.status().message,
        "at most 2 values are allowed in address_exclude per filter"
    );
    let error = FilterError::InvalidRejectList {
        field: ListField::TransparentAddresses,
    };
    assert_eq!(error.code(), Code::Internal);
}
