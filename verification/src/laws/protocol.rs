//! Numbers, names and other small forms.

use crate::chain::{canonical_transparent_address, Address, AddressKind};
use crate::config::{Config, FilterLimits};
use crate::event::{encodes_in_parallel, item_count, timestamp, wants_items, EncodingOptions};
use crate::filter::{event_type_bit, filter_is_empty, validate_list_size, validate_name};
use crate::laws::matching::{any_address, any_height, any_metadata, any_transaction, any_type};
use crate::matching::{
    law_features_are_independent, transaction_feature_bits, update_transaction_facts,
    TransactionFacts, HAS_ORCHARD, HAS_SAPLING, HAS_TRANSPARENT,
};
use crate::node::{
    ChainTransaction, EventEnvelope, MempoolEventKind, PluginError, PluginEvent, SinceEpoch,
};
use crate::plugin::{EventSubscriptions, GrpcPlugin};
use crate::proto::{
    BlockCommitment, BlockPayload, EventType, SubscribeRequestFilter, SubscribeUpdate, Timestamp,
    Update,
};
use crate::reconnect::{ClientAction, ClientEvent, Subscription};
use crate::rejection::{FilterError, ListField};
use crate::session::event_type_label;
use crate::text::{decimal, digit};
use vstd::prelude::*;
use vstd::utf8::encode_utf8;

verus! {

/// The number of each event type, payload mode and commitment is read back as what it was written
/// for, and no other number is.
pub proof fn law_numbers_are_read_back(
    kind: EventType,
    payload: BlockPayload,
    commitment: BlockCommitment,
    numbers: (i32, i32, i32),
    number: i32,
    read: (Option<EventType>, Option<BlockPayload>, Option<BlockCommitment>),
)
    requires
        call_ensures(EventType::number, (kind,), numbers.0),
        call_ensures(BlockPayload::number, (payload,), numbers.1),
        call_ensures(BlockCommitment::number, (commitment,), numbers.2),
        call_ensures(EventType::from_number, (number,), read.0),
        call_ensures(BlockPayload::from_number, (number,), read.1),
        call_ensures(BlockCommitment::from_number, (number,), read.2),
    ensures
        read.0 == Some(kind) <==> number == numbers.0,
        read.1 == Some(payload) <==> number == numbers.1,
        read.2 == Some(commitment) <==> number == numbers.2,
        read.0 is Some <==> 0 <= number <= 7,
        read.1 is Some <==> 0 <= number <= 2,
        read.2 is Some <==> 0 <= number <= 2,
        kind == EventType::Unspecified <==> numbers.0 == 0,
        payload == BlockPayload::Unspecified <==> numbers.1 == 0,
        commitment == BlockCommitment::Unspecified <==> numbers.2 == 0,
{
}

/// An event type is labelled with its own name. Numbers of no event type share the label of the
/// unspecified one.
pub proof fn law_labels_are_names(
    kind: EventType,
    number: i32,
    name: &str,
    label: &str,
    unspecified: &str,
    unknown: i32,
    unknown_label: &str,
)
    requires
        call_ensures(EventType::number, (kind,), number),
        call_ensures(EventType::as_str_name, (kind,), name),
        call_ensures(event_type_label, (number,), label),
        call_ensures(EventType::as_str_name, (EventType::Unspecified,), unspecified),
        unknown < 0 || unknown > 7,
        call_ensures(event_type_label, (unknown,), unknown_label),
    ensures
        label@ == name@,
        unknown_label@ == unspecified@,
{
}

/// Every event type has a bit of its own in a mask.
pub proof fn law_event_types_have_their_own_bits(
    one: i32,
    other: i32,
    one_bit: Option<u64>,
    other_bit: Option<u64>,
)
    requires
        call_ensures(event_type_bit, (one,), one_bit),
        call_ensures(event_type_bit, (other,), other_bit),
    ensures
        0 <= one <= 7 ==> one_bit is Some && one_bit->0 != 0,
        one < 0 ==> one_bit is None,
        one_bit is Some && other_bit is Some && one != other ==> one_bit->0 & other_bit->0 == 0,
{
    if one_bit is Some {
        let place = one as u32;
        assert(1u64 << place != 0) by (bit_vector)
            requires
                place < 64,
        ;
        if other_bit is Some && one != other {
            let apart = other as u32;
            assert((1u64 << place) & (1u64 << apart) == 0) by (bit_vector)
                requires
                    place < 64,
                    apart < 64,
                    place != apart,
            ;
        }
    }
}

/// What is known of the transaction of an update is what the update says, for transactions in
/// blocks and in the mempool, and for their outputs. Other updates are about no transaction.
pub proof fn law_facts_are_what_updates_say(
    update: SubscribeUpdate,
    found: Option<TransactionFacts>,
    transparent: bool,
    sapling: bool,
    orchard: bool,
)
    requires
        call_ensures(update_transaction_facts, (&update,), found),
        found matches Some(facts) ==> {
            &&& call_ensures(TransactionFacts::has_feature, (facts, HAS_TRANSPARENT), transparent)
            &&& call_ensures(TransactionFacts::has_feature, (facts, HAS_SAPLING), sapling)
            &&& call_ensures(TransactionFacts::has_feature, (facts, HAS_ORCHARD), orchard)
        },
    ensures
        match update.update {
            Some(Update::Transaction(message)) => {
                &&& found matches Some(facts)
                &&& facts.coinbase == message.coinbase
                &&& facts.version == message.version
                &&& facts.transparent_input_value_zat == message.transparent_input_value_zat
                &&& facts.transparent_output_value_zat == message.transparent_output_value_zat
                &&& transparent == message.has_transparent
                &&& sapling == message.has_sapling
                &&& orchard == message.has_orchard
            },
            Some(Update::MempoolTransaction(message)) => {
                &&& found matches Some(facts)
                &&& facts.coinbase == message.coinbase
                &&& facts.version == message.version
                &&& facts.transparent_input_value_zat == message.transparent_input_value_zat
                &&& facts.transparent_output_value_zat == message.transparent_output_value_zat
                &&& transparent == message.has_transparent
                &&& sapling == message.has_sapling
                &&& orchard == message.has_orchard
            },
            Some(Update::Utxo(message)) => {
                &&& found matches Some(facts)
                &&& facts.coinbase == message.coinbase
                &&& facts.version == message.version
                &&& facts.transparent_input_value_zat == message.transparent_input_value_zat
                &&& facts.transparent_output_value_zat == message.transparent_output_value_zat
                &&& transparent == message.has_transparent
                &&& sapling == message.has_sapling
                &&& orchard == message.has_orchard
            },
            _ => found is None,
        },
{
    if update.update is Some {
        let payload = update.update->0;
        if payload is Transaction {
            law_features_are_independent(
                payload->Transaction_0.has_transparent,
                payload->Transaction_0.has_sapling,
                payload->Transaction_0.has_orchard,
            );
        }
        if payload is MempoolTransaction {
            law_features_are_independent(
                payload->MempoolTransaction_0.has_transparent,
                payload->MempoolTransaction_0.has_sapling,
                payload->MempoolTransaction_0.has_orchard,
            );
        }
        if payload is Utxo {
            law_features_are_independent(
                payload->Utxo_0.has_transparent,
                payload->Utxo_0.has_sapling,
                payload->Utxo_0.has_orchard,
            );
        }
    }
}

/// Each pool that a transaction touches is found in its bits, and no other one.
pub proof fn law_pools_are_found_in_the_bits(
    transparent: bool,
    sapling: bool,
    orchard: bool,
    bits: u8,
)
    requires
        call_ensures(transaction_feature_bits, (transparent, sapling, orchard), bits),
    ensures
        bits & 1 != 0 <==> transparent,
        bits & 2 != 0 <==> sapling,
        bits & 4 != 0 <==> orchard,
        bits < 8,
{
    law_features_are_independent(transparent, sapling, orchard);
}

/// A coinbase transaction has one input, which creates coins. A transaction moves transparent funds
/// if it has an input or an output.
pub proof fn law_kinds_of_transactions(
    transaction: ChainTransaction,
    coinbase: bool,
    transparent: bool,
)
    requires
        call_ensures(ChainTransaction::is_coinbase, (&transaction,), coinbase),
        call_ensures(
            ChainTransaction::has_transparent_inputs_or_outputs,
            (&transaction,),
            transparent,
        ),
    ensures
        coinbase <==> transaction.inputs@.len() == 1 && transaction.inputs@[0] is Coinbase,
        transparent <==> transaction.inputs@.len() > 0 || transaction.outputs@.len() > 0,
{
}

/// A time of observation keeps its seconds and nanoseconds. A time before the epoch becomes the
/// epoch, and a second that is too large for the protocol becomes the largest one.
pub proof fn law_times_are_kept(time: Option<SinceEpoch>, stamp: Timestamp)
    requires
        time is Some ==> time->0.nanos < 1_000_000_000,
        call_ensures(timestamp, (time,), stamp),
    ensures
        match time {
            Some(time) => {
                &&& stamp.nanos == time.nanos
                &&& time.seconds <= i64::MAX ==> stamp.seconds == time.seconds
                &&& time.seconds > i64::MAX ==> stamp.seconds == i64::MAX
            },
            None => stamp.seconds == 0 && stamp.nanos == 0,
        },
{
}

/// The transactions of a block are encoded if updates of transactions or of outputs are wanted, and
/// those that enter the mempool if updates of these are. They are handed out to threads if there
/// are threads and enough transactions.
pub proof fn law_wanted_transactions_are_encoded(
    event: EventEnvelope,
    options: EncodingOptions,
    threads_available: bool,
    minimum: usize,
    count: usize,
    wanted: bool,
    parallel: bool,
)
    requires
        call_ensures(item_count, (&event, options), count),
        call_ensures(wants_items, (&event, options), wanted),
        call_ensures(encodes_in_parallel, (&event, options, threads_available, minimum), parallel),
    ensures
        count == (match event.payload {
            PluginEvent::BlockAccepted(block) => if options.transaction_updates
                || options.utxo_updates {
                block.transactions@.len()
            } else {
                0
            },
            PluginEvent::BlockFinalized(block) => if options.transaction_updates
                || options.utxo_updates {
                block.transactions@.len()
            } else {
                0
            },
            PluginEvent::MempoolChanged(change) => if options.mempool_transaction_updates
                && change.kind == MempoolEventKind::Added {
                change.transactions@.len()
            } else {
                0
            },
            PluginEvent::BestChainChanged(_) => 0,
        }),
        count > 0 ==> wanted,
        wanted ==> !(event.payload is BestChainChanged),
        parallel <==> threads_available && wanted && count >= minimum,
{
}

/// A filter without conditions is empty, whatever payload it asks for.
pub proof fn law_empty_filters_have_no_conditions(filter: SubscribeRequestFilter, empty: bool)
    requires
        call_ensures(filter_is_empty, (&filter,), empty),
    ensures
        empty <==> any_type(filter) && any_height(filter) && any_transaction(filter)
            && any_address(filter) && any_metadata(filter),
{
}

/// A name has at least one character and at most as many bytes as the limits allow. A list has at
/// most as many entries as it may.
pub proof fn law_names_and_lists_are_bounded(
    name: &str,
    limits: FilterLimits,
    named: Result<(), FilterError>,
    field: ListField,
    actual: usize,
    maximum: usize,
    listed: Result<(), FilterError>,
)
    requires
        call_ensures(validate_name, (name, &limits), named),
        call_ensures(validate_list_size, (field, actual, maximum), listed),
    ensures
        named is Ok <==> name@.len() > 0 && encode_utf8(name@).len() <= limits.max_name_bytes,
        listed is Ok <==> actual <= maximum,
{
}

/// A plugin is not running at first. It runs once it was loaded, and can then not be loaded again
/// until it was unloaded. It asks for encoding threads where more than one is configured and there
/// are none yet. Its updates are those that its configuration asks for.
pub proof fn law_plugins_are_loaded_once(
    config: Config,
    subscriptions: EventSubscriptions,
    stopped: &mut GrpcPlugin,
    started: &mut GrpcPlugin,
    has_encoding_pool: bool,
    first: Result<bool, PluginError>,
    second: Result<bool, PluginError>,
    third: Result<bool, PluginError>,
    running: (bool, bool, bool),
    asked: EventSubscriptions,
    options: EncodingOptions,
)
    requires
        call_ensures(GrpcPlugin::new, (config, subscriptions), *stopped),
        call_ensures(GrpcPlugin::is_running, (&*stopped,), running.0),
        call_ensures(GrpcPlugin::begin_load, (&*stopped, has_encoding_pool), first),
        call_ensures(GrpcPlugin::loaded, (stopped,), ()),
        *started == *final(stopped),
        call_ensures(GrpcPlugin::is_running, (&*started,), running.1),
        call_ensures(GrpcPlugin::begin_load, (&*started, has_encoding_pool), second),
        call_ensures(GrpcPlugin::on_unload, (started,), ()),
        call_ensures(GrpcPlugin::is_running, (&*final(started),), running.2),
        call_ensures(GrpcPlugin::begin_load, (&*final(started), has_encoding_pool), third),
        call_ensures(GrpcPlugin::subscriptions, (&*final(started),), asked),
        call_ensures(GrpcPlugin::encoding_options, (&*final(started),), options),
    ensures
        running == (false, true, false),
        first is Ok && third is Ok,
        first->Ok_0 <==> config.event_encoding_threads > 1 && !has_encoding_pool,
        third->Ok_0 <==> config.event_encoding_threads > 1 && !has_encoding_pool,
        second is Err && second->Err_0 is AlreadyRunning,
        asked == subscriptions,
        options.transaction_updates == config.transaction_updates,
        options.utxo_updates == config.utxo_updates,
        options.mempool_transaction_updates == config.mempool_transaction_updates,
{
}

/// The application may send requests until it says that it sends no more.
pub proof fn law_requests_stay_open(
    subscription: &mut Subscription,
    event: ClientEvent,
    action: ClientAction,
    before: bool,
    after: bool,
)
    requires
        subscription.well_formed(),
        call_ensures(Subscription::commands_open, (&*subscription,), before),
        call_ensures(Subscription::step, (subscription, event), action),
        call_ensures(Subscription::commands_open, (&*final(subscription),), after),
    ensures
        event is CommandsClosed ==> !after,
        event is Message ==> after == before,
{
}

/// A TEX address stands for the public-key-hash address with its network and hash. Every other
/// address stands for itself.
pub proof fn law_addresses_stand_for_themselves(address: Address, canonical: Address)
    requires
        call_ensures(canonical_transparent_address, (address,), canonical),
    ensures
        canonical@.1 == address@.1,
        canonical@.2 == address@.2,
        address@.0 == AddressKind::Tex ==> canonical@.0 == AddressKind::PublicKeyHash,
        address@.0 != AddressKind::Tex ==> canonical@.0 == address@.0,
{
}

/// The number that decimal digits make up.
pub open spec fn read_decimal(text: Seq<char>) -> int {
    text.fold_left(0int, |number: int, c: char| number * 10 + (c as int - '0' as int))
}

/// A number in decimal consists of digits, makes up that number, and does not start with a zero
/// unless it is zero.
pub proof fn law_decimals_make_up_their_number(value: nat)
    ensures
        read_decimal(decimal(value)) == value,
        decimal(value).len() > 0,
        forall|i: int|
            0 <= i < decimal(value).len() ==> '0' as int <= (#[trigger] decimal(value)[i]) as int
                && decimal(value)[i] as int <= '9' as int,
        value > 0 ==> decimal(value)[0] != '0',
    decreases value,
{
    let text = decimal(value);
    let last = digit(value % 10);
    assert(last as int == '0' as int + value % 10);
    if value < 10 {
        assert(text =~= seq![last]);
        assert(text.drop_last() =~= Seq::empty());
        assert(text.drop_last().fold_left(
            0int,
            |number: int, c: char| number * 10 + (c as int - '0' as int),
        ) == 0);
        assert(text.last() == last);
    } else {
        law_decimals_make_up_their_number(value / 10);
        assert(text.drop_last() =~= decimal(value / 10));
        assert forall|i: int| 0 <= i < text.len() implies '0' as int <= (#[trigger] text[i]) as int
            && text[i] as int <= '9' as int by {
            if i < text.len() - 1 {
                assert(text[i] == decimal(value / 10)[i]);
            }
        }
        assert(text[0] == decimal(value / 10)[0]);
    }
}

} // verus!
