//! Which updates a subscription selects.

use crate::chain::{canonical_address, canonical_id};
use crate::config::FilterLimits;
use crate::event::spec_block_height;
use crate::filter::{
    all_valid, canonical, canonical_set, compiles, entries_error, filter_view, matched_names,
    requested_filters, EventFilter, FilterMatch,
};
use crate::laws::dedup::lemma_scope;
use crate::laws::scope::at_height;
use crate::matching::{
    change_addresses, input_addresses, law_features_are_independent, output_addresses, present,
    update_addresses,
};
use crate::proto::{
    BestChainUpdateChange, BlockPayload, SubscribeRequest, SubscribeRequestFilter, SubscribeUpdate,
    TransparentInput, TransparentInputKind, TransparentOutput, Update, UtxoChange, UtxoChangeKind,
};
use crate::rejection::ListField;
use crate::text::texts;
use vstd::prelude::*;

verus! {

/// Whether a request was accepted, and what it says of an update.
pub open spec fn answers(
    request: SubscribeRequest,
    limits: FilterLimits,
    filter: EventFilter,
    update: SubscribeUpdate,
    result: Option<FilterMatch>,
) -> bool {
    &&& call_ensures(EventFilter::new, (&request, &limits), Ok(filter))
    &&& call_ensures(EventFilter::matched, (&filter, &update), result)
}

/// Whether a request consists of one named filter.
pub open spec fn is_one_filter(
    request: SubscribeRequest,
    name: String,
    filter: SubscribeRequestFilter,
) -> bool {
    &&& request.event_types@.len() == 0
    &&& request.filters@ == seq![(name, filter)]
}

/// Whether a filter has no condition on event types.
pub open spec fn any_type(filter: SubscribeRequestFilter) -> bool {
    filter.event_types@.len() == 0
}

/// Whether a filter has no condition on heights.
pub open spec fn any_height(filter: SubscribeRequestFilter) -> bool {
    filter.min_height is None
}

/// Whether a filter has no condition on transaction IDs.
pub open spec fn any_transaction(filter: SubscribeRequestFilter) -> bool {
    filter.transaction_ids@.len() == 0
}

/// Whether a filter has no condition on addresses.
pub open spec fn any_address(filter: SubscribeRequestFilter) -> bool {
    &&& filter.transparent_addresses@.len() == 0
    &&& filter.address_include@.len() == 0
    &&& filter.address_exclude@.len() == 0
    &&& filter.address_required@.len() == 0
}

/// Whether a filter has no condition on what a transaction is like.
pub open spec fn any_metadata(filter: SubscribeRequestFilter) -> bool {
    &&& filter.coinbase is None
    &&& filter.transaction_version is None
    &&& filter.has_transparent is None
    &&& filter.has_sapling is None
    &&& filter.has_orchard is None
    &&& filter.min_value_zat is None
}

/// Whether an input spends from an address.
pub open spec fn spends_from(input: TransparentInput, address: Seq<char>) -> bool {
    input.input matches Some(TransparentInputKind::Prevout(prevout))
        && prevout.previous_address matches Some(text) && text@ == address
}

/// Whether an output pays to an address.
pub open spec fn pays_to(output: TransparentOutput, address: Seq<char>) -> bool {
    output.address matches Some(text) && text@ == address
}

/// Whether a created or spent output belongs to an address.
pub open spec fn moves_funds_of(change: UtxoChange, address: Seq<char>) -> bool {
    match change.change {
        Some(UtxoChangeKind::Created(created)) => created.address matches Some(text) && text@
            == address,
        Some(UtxoChangeKind::Spent(spent)) => spent.previous_address matches Some(text) && text@
            == address,
        None => false,
    }
}

/// Whether an input or output of a transaction has an address.
pub open spec fn involves(
    inputs: Seq<TransparentInput>,
    outputs: Seq<TransparentOutput>,
    address: Seq<char>,
) -> bool {
    ||| exists|i: int| 0 <= i < inputs.len() && spends_from(#[trigger] inputs[i], address)
    ||| exists|i: int| 0 <= i < outputs.len() && pays_to(#[trigger] outputs[i], address)
}

/// Whether an update is about funds of an address.
pub open spec fn touches(update: SubscribeUpdate, address: Seq<char>) -> bool {
    match update.update {
        Some(Update::Transaction(transaction)) => involves(
            transaction.transparent_inputs@,
            transaction.transparent_outputs@,
            address,
        ),
        Some(Update::MempoolTransaction(transaction)) => involves(
            transaction.transparent_inputs@,
            transaction.transparent_outputs@,
            address,
        ),
        Some(Update::Utxo(utxo)) => exists|i: int|
            0 <= i < utxo.changes@.len() && moves_funds_of(#[trigger] utxo.changes@[i], address),
        _ => false,
    }
}

/// Whether an update is about one transaction.
pub open spec fn is_about_transaction(update: SubscribeUpdate) -> bool {
    match update.update {
        Some(Update::Transaction(_)) => true,
        Some(Update::MempoolTransaction(_)) => true,
        Some(Update::Utxo(_)) => true,
        _ => false,
    }
}

/// Whether a list of a request names an address, in whatever form.
pub open spec fn names_address(list: Seq<String>, address: Seq<char>) -> bool {
    exists|i: int|
        0 <= i < list.len() && canonical_address((#[trigger] list[i])@) == Some(address)
}

/// Whether a list of a request names a transaction, in whatever form.
pub open spec fn names_transaction(list: Seq<String>, id: Seq<char>) -> bool {
    exists|i: int| 0 <= i < list.len() && canonical_id((#[trigger] list[i])@) == Some(id)
}

/// Whether a text occurs in a list.
pub open spec fn lists_text(list: Seq<String>, text: Seq<char>) -> bool {
    exists|i: int| 0 <= i < list.len() && (#[trigger] list[i])@ == text
}

/// Whether an update names a transaction.
pub open spec fn concerns_transaction(update: SubscribeUpdate, id: Seq<char>) -> bool {
    match update.update {
        Some(Update::Transaction(transaction)) => transaction.transaction_id@ == id,
        Some(Update::MempoolTransaction(transaction)) => transaction.transaction_id@ == id,
        Some(Update::Utxo(utxo)) => utxo.transaction_id@ == id,
        Some(Update::Mempool(mempool)) => lists_text(mempool.transaction_ids@, id),
        Some(Update::BestChain(change)) => change.change matches Some(
            BestChainUpdateChange::Grow(grow),
        ) && lists_text(grow.transaction_ids@, id),
        _ => false,
    }
}

/// A request of one named filter has one compiled filter.
proof fn lemma_one_filter(
    request: SubscribeRequest,
    limits: FilterLimits,
    compiled: EventFilter,
    update: SubscribeUpdate,
    result: Option<FilterMatch>,
    name: String,
    filter: SubscribeRequestFilter,
)
    requires
        answers(request, limits, compiled, update, result),
        is_one_filter(request, name, filter),
    ensures
        result is Some <==> filter_view(filter).matches(update),
        result matches Some(found) ==> texts(found.names@) == seq![name@],
        result matches Some(found) ==> found.block_payload == filter_view(filter).block_payload,
        crate::filter::named_error((name, filter), limits) is None,
        crate::filter::filter_error(filter, limits) is None,
{
    broadcast use vstd::seq_lib::group_to_multiset_ensures;

    let named = compiled@.named;
    let requested = requested_filters(request.filters@);
    let entry = (name@, filter_view(filter));
    assert(requested =~= seq![entry]);
    assert(named.to_multiset().len() == requested.to_multiset().len());
    assert(named.len() == 1);
    assert(requested.contains(entry)) by {
        assert(requested[0] == entry);
    }
    assert(named.to_multiset().count(entry) > 0);
    assert(named.contains(entry));
    assert(named =~= seq![entry]);
    assert(compiled@.legacy is None);
    assert(!compiled@.all);
    assert(named[0] == entry);
    assert(named.drop_last() =~= Seq::empty());
    reveal_with_fuel(matched_names, 2);
    if entry.1.matches(update) {
        assert(matched_names(named, update) =~= seq![name@]);
        assert(compiled@.selects(update));
    }
    assert(request.filters@.drop_last() =~= Seq::empty());
    assert(request.filters@.last() == (name, filter));
    reveal_with_fuel(crate::filter::named_errors, 2);
}

/// A list without errors has valid entries only.
proof fn lemma_valid_entries(field: ListField, values: Seq<String>, rejected: Set<Seq<char>>)
    requires
        entries_error(field, values, rejected) is None,
    ensures
        all_valid(field, values),
        forall|i: int|
            0 <= i < values.len() ==> !rejected.contains(
                canonical(field, (#[trigger] values[i])@)->0,
            ),
    decreases values.len(),
{
    if values.len() > 0 {
        let rest = values.drop_last();
        lemma_valid_entries(field, rest, rejected);
        assert forall|i: int| 0 <= i < values.len() implies canonical(
            field,
            (#[trigger] values[i])@,
        ) is Some && !rejected.contains(canonical(field, values[i]@)->0) by {
            if i < rest.len() {
                assert(rest[i] == values[i]);
            }
        }
    }
}

/// A list of valid addresses is empty if and only if it names none.
proof fn lemma_named_addresses(field: ListField, values: Seq<String>)
    requires
        field != ListField::TransactionIds,
        all_valid(field, values),
    ensures
        canonical_set(field, values).is_empty() <==> values.len() == 0,
        forall|address: Seq<char>| #[trigger]
            canonical_set(field, values).contains(address) <==> names_address(values, address),
{
    if values.len() > 0 {
        let address = canonical(field, values[0]@)->0;
        assert(canonical_set(field, values).contains(address));
    }
    assert forall|address: Seq<char>| #[trigger]
        canonical_set(field, values).contains(address) <==> names_address(values, address) by {
        if canonical_set(field, values).contains(address) {
            let i = choose|i: int|
                0 <= i < values.len() && canonical(field, (#[trigger] values[i])@) == Some(
                    address,
                );
            assert(canonical_address(values[i]@) == Some(address));
        }
        if names_address(values, address) {
            let i = choose|i: int|
                0 <= i < values.len() && canonical_address((#[trigger] values[i])@) == Some(
                    address,
                );
            assert(canonical(field, values[i]@) == Some(address));
        }
    }
}

/// A list of valid transaction IDs is empty if and only if it names none.
proof fn lemma_named_transactions(values: Seq<String>)
    requires
        all_valid(ListField::TransactionIds, values),
    ensures
        canonical_set(ListField::TransactionIds, values).is_empty() <==> values.len() == 0,
        forall|id: Seq<char>| #[trigger]
            canonical_set(ListField::TransactionIds, values).contains(id) <==> names_transaction(
                values,
                id,
            ),
{
    let field = ListField::TransactionIds;
    if values.len() > 0 {
        let id = canonical(field, values[0]@)->0;
        assert(canonical_set(field, values).contains(id));
    }
    assert forall|id: Seq<char>| #[trigger]
        canonical_set(field, values).contains(id) <==> names_transaction(values, id) by {
        if canonical_set(field, values).contains(id) {
            let i = choose|i: int|
                0 <= i < values.len() && canonical(field, (#[trigger] values[i])@) == Some(id);
            assert(canonical_id(values[i]@) == Some(id));
        }
        if names_transaction(values, id) {
            let i = choose|i: int|
                0 <= i < values.len() && canonical_id((#[trigger] values[i])@) == Some(id);
            assert(canonical(field, values[i]@) == Some(id));
        }
    }
}

/// What a filter that was accepted names.
proof fn lemma_accepted_lists(filter: SubscribeRequestFilter, limits: FilterLimits)
    requires
        crate::filter::filter_error(filter, limits) is None,
    ensures
        all_valid(ListField::TransactionIds, filter.transaction_ids@),
        all_valid(ListField::TransparentAddresses, filter.transparent_addresses@),
        all_valid(ListField::AddressInclude, filter.address_include@),
        all_valid(ListField::AddressExclude, filter.address_exclude@),
        all_valid(ListField::AddressRequired, filter.address_required@),
{
    lemma_valid_entries(
        ListField::TransactionIds,
        filter.transaction_ids@,
        canonical_set(ListField::TransactionIds, limits.transaction_id_reject@),
    );
    lemma_valid_entries(
        ListField::TransparentAddresses,
        filter.transparent_addresses@,
        canonical_set(ListField::TransparentAddresses, limits.transparent_address_reject@),
    );
    lemma_valid_entries(
        ListField::AddressInclude,
        filter.address_include@,
        canonical_set(ListField::AddressInclude, limits.address_include_reject@),
    );
    lemma_valid_entries(
        ListField::AddressExclude,
        filter.address_exclude@,
        canonical_set(ListField::AddressExclude, limits.address_exclude_reject@),
    );
    lemma_valid_entries(
        ListField::AddressRequired,
        filter.address_required@,
        canonical_set(ListField::AddressRequired, limits.address_required_reject@),
    );
}

/// What is present is one of the values.
proof fn lemma_present_contains<T>(values: Seq<Option<T>>, value: T)
    ensures
        present(values).contains(value) <==> exists|i: int|
            0 <= i < values.len() && (#[trigger] values[i]) == Some(value),
    decreases values.len(),
{
    if values.len() > 0 {
        let rest = values.drop_last();
        lemma_present_contains(rest, value);
        let all = present(values);
        let before = present(rest);
        if exists|i: int| 0 <= i < values.len() && (#[trigger] values[i]) == Some(value) {
            let i = choose|i: int| 0 <= i < values.len() && (#[trigger] values[i]) == Some(value);
            if i < rest.len() {
                assert(rest[i] == values[i]);
                let k = before.index_of(value);
                assert(all[k] == value);
            } else {
                assert(all[all.len() - 1] == value);
            }
        }
        if all.contains(value) {
            let k = all.index_of(value);
            if k < before.len() {
                assert(before[k] == value);
                let i = choose|i: int| 0 <= i < rest.len() && (#[trigger] rest[i]) == Some(value);
                assert(values[i] == rest[i]);
            } else {
                assert(values[values.len() - 1] == Some(value));
            }
        }
    }
}

/// The addresses of a transaction.
proof fn lemma_involved(
    inputs: Seq<TransparentInput>,
    outputs: Seq<TransparentOutput>,
    address: Seq<char>,
)
    ensures
        (input_addresses(inputs) + output_addresses(outputs)).contains(address) <==> involves(
            inputs,
            outputs,
            address,
        ),
{
    let ins = inputs.map_values(|input: TransparentInput| crate::matching::input_address(input));
    let outs = outputs.map_values(
        |output: TransparentOutput| crate::matching::output_address(output),
    );
    lemma_present_contains(ins, address);
    lemma_present_contains(outs, address);
    let left = input_addresses(inputs);
    let right = output_addresses(outputs);
    let all = left + right;
    if left.contains(address) {
        assert(all[left.index_of(address)] == address);
        let i = choose|i: int| 0 <= i < ins.len() && (#[trigger] ins[i]) == Some(address);
        assert(spends_from(inputs[i], address));
    }
    if right.contains(address) {
        assert(all[left.len() + right.index_of(address)] == address);
        let i = choose|i: int| 0 <= i < outs.len() && (#[trigger] outs[i]) == Some(address);
        assert(pays_to(outputs[i], address));
    }
    if all.contains(address) {
        let k = all.index_of(address);
        if k < left.len() {
            assert(left[k] == address);
        } else {
            assert(right[k - left.len()] == address);
        }
    }
    if exists|i: int| 0 <= i < inputs.len() && spends_from(#[trigger] inputs[i], address) {
        let i = choose|i: int| 0 <= i < inputs.len() && spends_from(#[trigger] inputs[i], address);
        assert(ins[i] == Some(address));
    }
    if exists|i: int| 0 <= i < outputs.len() && pays_to(#[trigger] outputs[i], address) {
        let i = choose|i: int| 0 <= i < outputs.len() && pays_to(#[trigger] outputs[i], address);
        assert(outs[i] == Some(address));
    }
}

/// The addresses of an update.
proof fn lemma_touched(update: SubscribeUpdate, address: Seq<char>)
    ensures
        update_addresses(update) is Some <==> is_about_transaction(update),
        update_addresses(update) is Some ==> (update_addresses(update)->0.contains(address)
            <==> touches(update, address)),
{
    match update.update {
        Some(Update::Transaction(transaction)) => {
            lemma_involved(
                transaction.transparent_inputs@,
                transaction.transparent_outputs@,
                address,
            );
        },
        Some(Update::MempoolTransaction(transaction)) => {
            lemma_involved(
                transaction.transparent_inputs@,
                transaction.transparent_outputs@,
                address,
            );
        },
        Some(Update::Utxo(utxo)) => {
            let changes = utxo.changes@;
            let known = changes.map_values(
                |change: UtxoChange| crate::matching::change_address(change),
            );
            lemma_present_contains(known, address);
            if change_addresses(changes).contains(address) {
                let i = choose|i: int| 0 <= i < known.len() && (#[trigger] known[i]) == Some(address);
                assert(moves_funds_of(changes[i], address));
            }
            if touches(update, address) {
                let i = choose|i: int|
                    0 <= i < changes.len() && moves_funds_of(#[trigger] changes[i], address);
                assert(known[i] == Some(address));
            }
        },
        _ => {},
    }
}

/// A filter on addresses alone selects an update if and only if the update is about a transaction
/// and involves one of the included addresses, if there are any, none of the excluded ones, and all
/// of the required ones. It does not matter whether an address is spent from or paid to, nor
/// whether the transaction is in a block or in the mempool.
pub proof fn law_addresses_are_looked_up_everywhere(
    request: SubscribeRequest,
    limits: FilterLimits,
    compiled: EventFilter,
    update: SubscribeUpdate,
    result: Option<FilterMatch>,
    name: String,
    filter: SubscribeRequestFilter,
)
    requires
        answers(request, limits, compiled, update, result),
        is_one_filter(request, name, filter),
        any_type(filter),
        any_height(filter),
        any_transaction(filter),
        any_metadata(filter),
        !any_address(filter),
    ensures
        result is Some <==> {
            &&& is_about_transaction(update)
            &&& filter.address_include@.len() == 0 && filter.transparent_addresses@.len() == 0
                || exists|address: Seq<char>|
                {
                    &&& #[trigger] touches(update, address)
                    &&& names_address(filter.address_include@, address) || names_address(
                        filter.transparent_addresses@,
                        address,
                    )
                }
            &&& forall|address: Seq<char>| #[trigger]
                names_address(filter.address_exclude@, address) ==> !touches(update, address)
            &&& forall|address: Seq<char>| #[trigger]
                names_address(filter.address_required@, address) ==> touches(update, address)
        },
{
    lemma_one_filter(request, limits, compiled, update, result, name, filter);
    lemma_accepted_lists(filter, limits);
    lemma_no_other_conditions(filter);
    lemma_named_addresses(ListField::AddressInclude, filter.address_include@);
    lemma_named_addresses(ListField::TransparentAddresses, filter.transparent_addresses@);
    lemma_named_addresses(ListField::AddressExclude, filter.address_exclude@);
    lemma_named_addresses(ListField::AddressRequired, filter.address_required@);
    let view = filter_view(filter);
    let first = canonical_set(ListField::AddressInclude, filter.address_include@);
    let second = canonical_set(ListField::TransparentAddresses, filter.transparent_addresses@);
    assert(view.address_include == first.union(second));
    if first.is_empty() && second.is_empty() {
        assert(view.address_include =~= Set::empty());
    } else if !first.is_empty() {
        let address = choose|address: Seq<char>| first.contains(address);
        assert(view.address_include.contains(address));
    } else {
        let address = choose|address: Seq<char>| second.contains(address);
        assert(view.address_include.contains(address));
    }
    assert(view.uses_addresses());
    lemma_touched(update, Seq::empty());
    if is_about_transaction(update) {
        let found = update_addresses(update)->0;
        assert forall|address: Seq<char>| found.contains(address) <==> #[trigger] touches(
            update,
            address,
        ) by {
            lemma_touched(update, address);
        }
        if crate::matching::has_one_of(found, view.address_include) {
            let i = choose|i: int|
                0 <= i < found.len() && view.address_include.contains(#[trigger] found[i]);
            assert(found.contains(found[i]));
            assert(touches(update, found[i]));
            assert(first.contains(found[i]) || second.contains(found[i]));
        }
        if exists|address: Seq<char>|
            {
                &&& #[trigger] touches(update, address)
                &&& names_address(filter.address_include@, address) || names_address(
                    filter.transparent_addresses@,
                    address,
                )
            } {
            let address = choose|address: Seq<char>|
                {
                    &&& #[trigger] touches(update, address)
                    &&& names_address(filter.address_include@, address) || names_address(
                        filter.transparent_addresses@,
                        address,
                    )
                };
            assert(first.contains(address) || second.contains(address));
            let i = found.index_of(address);
            assert(found[i] == address);
            assert(crate::matching::has_one_of(found, view.address_include));
        }
        if crate::matching::has_none_of(found, view.address_exclude) {
            assert forall|address: Seq<char>| #[trigger]
                names_address(filter.address_exclude@, address) implies !touches(update, address) by {
                if touches(update, address) {
                    assert(found[found.index_of(address)] == address);
                    assert(view.address_exclude.contains(address));
                }
            }
        }
        if forall|address: Seq<char>| #[trigger]
            names_address(filter.address_exclude@, address) ==> !touches(update, address) {
            assert forall|i: int| 0 <= i < found.len() implies !view.address_exclude.contains(
                #[trigger] found[i],
            ) by {
                assert(found.contains(found[i]));
                assert(touches(update, found[i]));
            }
        }
        if crate::matching::has_all_of(found, view.address_required) {
            assert forall|address: Seq<char>| #[trigger]
                names_address(filter.address_required@, address) implies touches(update, address) by {
                assert(view.address_required.contains(address));
            }
        }
        if forall|address: Seq<char>| #[trigger]
            names_address(filter.address_required@, address) ==> touches(update, address) {
            assert forall|address: Seq<char>| #[trigger]
                view.address_required.contains(address) implies found.contains(address) by {
                assert(names_address(filter.address_required@, address));
            }
        }
    }
}

/// A transaction that spends from an address, pays to it, or both, in a block or in the mempool, is
/// selected by a filter that includes this address and asks for nothing else, and is not selected
/// by one that excludes it.
pub proof fn law_spending_and_paying_count(
    including: SubscribeRequest,
    excluding: SubscribeRequest,
    limits: FilterLimits,
    compiled: (EventFilter, EventFilter),
    update: SubscribeUpdate,
    results: (Option<FilterMatch>, Option<FilterMatch>),
    names: (String, String),
    filters: (SubscribeRequestFilter, SubscribeRequestFilter),
    entry: String,
    inputs: Seq<TransparentInput>,
    outputs: Seq<TransparentOutput>,
    address: Seq<char>,
)
    requires
        answers(including, limits, compiled.0, update, results.0),
        answers(excluding, limits, compiled.1, update, results.1),
        is_one_filter(including, names.0, filters.0),
        is_one_filter(excluding, names.1, filters.1),
        any_type(filters.0) && any_height(filters.0) && any_transaction(filters.0) && any_metadata(
            filters.0,
        ),
        any_type(filters.1) && any_height(filters.1) && any_transaction(filters.1) && any_metadata(
            filters.1,
        ),
        filters.0.address_include@ == seq![entry] && filters.0.transparent_addresses@.len() == 0
            || filters.0.transparent_addresses@ == seq![entry]
            && filters.0.address_include@.len() == 0,
        filters.0.address_exclude@.len() == 0,
        filters.0.address_required@.len() == 0,
        filters.1.address_exclude@ == seq![entry],
        filters.1.address_include@.len() == 0,
        filters.1.transparent_addresses@.len() == 0,
        filters.1.address_required@.len() == 0,
        canonical_address(entry@) == Some(address),
        match update.update {
            Some(Update::Transaction(transaction)) => {
                &&& inputs == transaction.transparent_inputs@
                &&& outputs == transaction.transparent_outputs@
            },
            Some(Update::MempoolTransaction(transaction)) => {
                &&& inputs == transaction.transparent_inputs@
                &&& outputs == transaction.transparent_outputs@
            },
            _ => false,
        },
    ensures
        results.0 is Some <==> involves(inputs, outputs, address),
        results.1 is Some <==> !involves(inputs, outputs, address),
{
    law_addresses_are_looked_up_everywhere(
        including,
        limits,
        compiled.0,
        update,
        results.0,
        names.0,
        filters.0,
    );
    law_addresses_are_looked_up_everywhere(
        excluding,
        limits,
        compiled.1,
        update,
        results.1,
        names.1,
        filters.1,
    );
    let listed = seq![entry];
    assert(listed[0] == entry);
    assert forall|other: Seq<char>| #[trigger] names_address(listed, other) <==> other
        == address by {
        if names_address(listed, other) {
            let i = choose|i: int|
                0 <= i < listed.len() && canonical_address((#[trigger] listed[i])@) == Some(other);
            assert(listed[i] == entry);
        }
    }
    assert(names_address(listed, address));
    assert(touches(update, address) == involves(inputs, outputs, address));
}

/// A filter on event types alone selects the updates of these types.
pub proof fn law_event_types_select(
    request: SubscribeRequest,
    limits: FilterLimits,
    compiled: EventFilter,
    update: SubscribeUpdate,
    result: Option<FilterMatch>,
    name: String,
    filter: SubscribeRequestFilter,
)
    requires
        answers(request, limits, compiled, update, result),
        is_one_filter(request, name, filter),
        any_height(filter),
        any_transaction(filter),
        any_address(filter),
        any_metadata(filter),
    ensures
        result is Some <==> filter.event_types@.len() == 0 || filter.event_types@.contains(
            update.event_type,
        ),
{
    lemma_one_filter(request, limits, compiled, update, result, name, filter);
    lemma_no_other_conditions(filter);
    if filter.event_types@.len() > 0 {
        assert(filter_view(filter).kinds.contains(filter.event_types@[0]));
    }
}

/// A filter on the height alone selects what belongs to a block of that height or a higher one.
pub proof fn law_lowest_height_selects(
    request: SubscribeRequest,
    limits: FilterLimits,
    compiled: EventFilter,
    update: SubscribeUpdate,
    result: Option<FilterMatch>,
    name: String,
    filter: SubscribeRequestFilter,
    lowest: u32,
)
    requires
        answers(request, limits, compiled, update, result),
        is_one_filter(request, name, filter),
        any_type(filter),
        any_transaction(filter),
        any_address(filter),
        any_metadata(filter),
        filter.min_height == Some(lowest),
    ensures
        result is Some <==> exists|height: u32| #[trigger]
            at_height(update, height) && height >= lowest,
{
    lemma_one_filter(request, limits, compiled, update, result, name, filter);
    lemma_no_other_conditions(filter);
    lemma_scope(update);
    if result is Some {
        assert(at_height(update, spec_block_height(update)->0));
    }
}

/// A filter on transaction IDs alone selects the updates that name one of these transactions: the
/// transaction itself, in a block or in the mempool, its outputs, and the summaries that list it.
pub proof fn law_transaction_ids_select(
    request: SubscribeRequest,
    limits: FilterLimits,
    compiled: EventFilter,
    update: SubscribeUpdate,
    result: Option<FilterMatch>,
    name: String,
    filter: SubscribeRequestFilter,
)
    requires
        answers(request, limits, compiled, update, result),
        is_one_filter(request, name, filter),
        any_type(filter),
        any_height(filter),
        any_address(filter),
        any_metadata(filter),
        !any_transaction(filter),
    ensures
        result is Some <==> exists|id: Seq<char>| #[trigger]
            names_transaction(filter.transaction_ids@, id) && concerns_transaction(update, id),
{
    lemma_one_filter(request, limits, compiled, update, result, name, filter);
    lemma_accepted_lists(filter, limits);
    lemma_no_other_conditions(filter);
    lemma_named_transactions(filter.transaction_ids@);
    let wanted = filter_view(filter).transaction_ids;
    assert forall|list: Seq<String>| #[trigger]
        crate::matching::lists_one_of(list, wanted) <==> exists|id: Seq<char>| #[trigger]
        names_transaction(filter.transaction_ids@, id) && lists_text(list, id) by {
        if crate::matching::lists_one_of(list, wanted) {
            let i = choose|i: int| 0 <= i < list.len() && wanted.contains((#[trigger] list[i])@);
            assert(names_transaction(filter.transaction_ids@, list[i]@));
            assert(lists_text(list, list[i]@));
        }
        if exists|id: Seq<char>| #[trigger]
            names_transaction(filter.transaction_ids@, id) && lists_text(list, id) {
            let id = choose|id: Seq<char>| #[trigger]
                names_transaction(filter.transaction_ids@, id) && lists_text(list, id);
            let i = choose|i: int| 0 <= i < list.len() && (#[trigger] list[i])@ == id;
            assert(wanted.contains(list[i]@));
        }
    }
    match update.update {
        Some(Update::Transaction(transaction)) => {
            assert(wanted.contains(transaction.transaction_id@) == names_transaction(
                filter.transaction_ids@,
                transaction.transaction_id@,
            ));
        },
        Some(Update::MempoolTransaction(transaction)) => {
            assert(wanted.contains(transaction.transaction_id@) == names_transaction(
                filter.transaction_ids@,
                transaction.transaction_id@,
            ));
        },
        Some(Update::Utxo(utxo)) => {
            assert(wanted.contains(utxo.transaction_id@) == names_transaction(
                filter.transaction_ids@,
                utxo.transaction_id@,
            ));
        },
        Some(Update::Mempool(mempool)) => {
            assert(crate::matching::lists_one_of(mempool.transaction_ids@, wanted) == exists|
                id: Seq<char>,
            | #[trigger]
                names_transaction(filter.transaction_ids@, id) && lists_text(
                    mempool.transaction_ids@,
                    id,
                ));
        },
        Some(Update::BestChain(change)) => {
            let list = change.change->0->Grow_0.transaction_ids@;
            assert(crate::matching::lists_one_of(list, wanted) == exists|id: Seq<char>| #[trigger]
                names_transaction(filter.transaction_ids@, id) && lists_text(list, id));
        },
        _ => {},
    }
}

/// What a filter can ask of a transaction.
pub struct TransactionTerms {
    pub coinbase: bool,
    pub version: u32,
    pub has_transparent: bool,
    pub has_sapling: bool,
    pub has_orchard: bool,
    /// The total of the inputs, if it is known.
    pub inputs_zat: Option<u64>,
    pub outputs_zat: u64,
}

/// What the transaction of an update is like.
pub open spec fn describes_transaction(update: SubscribeUpdate, terms: TransactionTerms) -> bool {
    match update.update {
        Some(Update::Transaction(message)) => {
            &&& terms.coinbase == message.coinbase
            &&& terms.version == message.version
            &&& terms.has_transparent == message.has_transparent
            &&& terms.has_sapling == message.has_sapling
            &&& terms.has_orchard == message.has_orchard
            &&& terms.inputs_zat == message.transparent_input_value_zat
            &&& terms.outputs_zat == message.transparent_output_value_zat
        },
        Some(Update::MempoolTransaction(message)) => {
            &&& terms.coinbase == message.coinbase
            &&& terms.version == message.version
            &&& terms.has_transparent == message.has_transparent
            &&& terms.has_sapling == message.has_sapling
            &&& terms.has_orchard == message.has_orchard
            &&& terms.inputs_zat == message.transparent_input_value_zat
            &&& terms.outputs_zat == message.transparent_output_value_zat
        },
        Some(Update::Utxo(message)) => {
            &&& terms.coinbase == message.coinbase
            &&& terms.version == message.version
            &&& terms.has_transparent == message.has_transparent
            &&& terms.has_sapling == message.has_sapling
            &&& terms.has_orchard == message.has_orchard
            &&& terms.inputs_zat == message.transparent_input_value_zat
            &&& terms.outputs_zat == message.transparent_output_value_zat
        },
        _ => false,
    }
}

/// A filter on what a transaction is like selects the transactions that have every property asked
/// for, in blocks, in the mempool, and by their outputs. A value is reached by the inputs or by the
/// outputs; inputs whose total is not known reach none. Other updates are not selected.
pub proof fn law_transaction_properties_select(
    request: SubscribeRequest,
    limits: FilterLimits,
    compiled: EventFilter,
    update: SubscribeUpdate,
    result: Option<FilterMatch>,
    name: String,
    filter: SubscribeRequestFilter,
    terms: TransactionTerms,
)
    requires
        answers(request, limits, compiled, update, result),
        is_one_filter(request, name, filter),
        any_type(filter),
        any_height(filter),
        any_transaction(filter),
        any_address(filter),
        !any_metadata(filter),
        is_about_transaction(update) ==> describes_transaction(update, terms),
    ensures
        result is Some <==> {
            &&& is_about_transaction(update)
            &&& filter.coinbase matches Some(wanted) ==> wanted == terms.coinbase
            &&& filter.transaction_version matches Some(wanted) ==> wanted == terms.version
            &&& filter.has_transparent matches Some(wanted) ==> wanted == terms.has_transparent
            &&& filter.has_sapling matches Some(wanted) ==> wanted == terms.has_sapling
            &&& filter.has_orchard matches Some(wanted) ==> wanted == terms.has_orchard
            &&& filter.min_value_zat matches Some(least) ==> terms.outputs_zat >= least || (
            terms.inputs_zat is Some && terms.inputs_zat->0 >= least)
        },
{
    lemma_one_filter(request, limits, compiled, update, result, name, filter);
    lemma_no_other_conditions(filter);
    law_features_are_independent(terms.has_transparent, terms.has_sapling, terms.has_orchard);
}

/// The conditions of a filter are independent of each other: a filter selects an update if and only
/// if each of five filters does that have one kind of its conditions each.
pub proof fn law_conditions_are_combined(
    requests: Seq<SubscribeRequest>,
    limits: FilterLimits,
    compiled: Seq<EventFilter>,
    update: SubscribeUpdate,
    results: Seq<Option<FilterMatch>>,
    names: Seq<String>,
    filters: Seq<SubscribeRequestFilter>,
)
    requires
        requests.len() == 6,
        compiled.len() == 6,
        results.len() == 6,
        names.len() == 6,
        filters.len() == 6,
        forall|i: int|
            0 <= i < 6 ==> answers(
                #[trigger] requests[i],
                limits,
                compiled[i],
                update,
                results[i],
            ),
        forall|i: int|
            0 <= i < 6 ==> is_one_filter(#[trigger] requests[i], names[i], filters[i]),
        forall|i: int|
            1 <= i < 6 ==> {
                let filter = #[trigger] filters[i];
                &&& i != 1 ==> any_type(filter)
                &&& i != 2 ==> any_height(filter)
                &&& i != 3 ==> any_transaction(filter)
                &&& i != 4 ==> any_address(filter)
                &&& i != 5 ==> any_metadata(filter)
            },
        filters[1].event_types@ == filters[0].event_types@,
        filters[2].min_height == filters[0].min_height,
        filters[3].transaction_ids@ == filters[0].transaction_ids@,
        filters[4].transparent_addresses@ == filters[0].transparent_addresses@,
        filters[4].address_include@ == filters[0].address_include@,
        filters[4].address_exclude@ == filters[0].address_exclude@,
        filters[4].address_required@ == filters[0].address_required@,
        filters[5].coinbase == filters[0].coinbase,
        filters[5].transaction_version == filters[0].transaction_version,
        filters[5].has_transparent == filters[0].has_transparent,
        filters[5].has_sapling == filters[0].has_sapling,
        filters[5].has_orchard == filters[0].has_orchard,
        filters[5].min_value_zat == filters[0].min_value_zat,
    ensures
        results[0] is Some <==> results[1] is Some && results[2] is Some && results[3] is Some
            && results[4] is Some && results[5] is Some,
{
    assert forall|i: int| 0 <= i < 6 implies ((#[trigger] results[i]) is Some <==> filter_view(
        filters[i],
    ).matches(update)) by {
        assert(answers(requests[i], limits, compiled[i], update, results[i]));
        lemma_one_filter(
            requests[i],
            limits,
            compiled[i],
            update,
            results[i],
            names[i],
            filters[i],
        );
    }
    lemma_no_other_conditions(filters[1]);
    lemma_no_other_conditions(filters[2]);
    lemma_no_other_conditions(filters[3]);
    lemma_no_other_conditions(filters[4]);
    lemma_no_other_conditions(filters[5]);
    assert(results[0] is Some <==> filter_view(filters[0]).matches(update));
    assert(results[1] is Some <==> filter_view(filters[1]).matches(update));
    assert(results[2] is Some <==> filter_view(filters[2]).matches(update));
    assert(results[3] is Some <==> filter_view(filters[3]).matches(update));
    assert(results[4] is Some <==> filter_view(filters[4]).matches(update));
    assert(results[5] is Some <==> filter_view(filters[5]).matches(update));
}

/// A request of one named filter names it on the updates that it selects, and asks for full blocks
/// unless it says that metadata is enough.
pub proof fn law_one_filter_is_named(
    request: SubscribeRequest,
    limits: FilterLimits,
    compiled: EventFilter,
    update: SubscribeUpdate,
    result: Option<FilterMatch>,
    name: String,
    filter: SubscribeRequestFilter,
)
    requires
        answers(request, limits, compiled, update, result),
        is_one_filter(request, name, filter),
    ensures
        result matches Some(found) ==> {
            &&& found.names@.len() == 1
            &&& found.names@[0]@ == name@
            &&& found.block_payload == (if filter.block_payload == 2 {
                BlockPayload::MetaOnly
            } else {
                BlockPayload::Full
            })
        },
{
    lemma_one_filter(request, limits, compiled, update, result, name, filter);
    if let Some(found) = result {
        assert(texts(found.names@).len() == 1);
        assert(texts(found.names@)[0] == found.names@[0]@);
    }
}

/// A request without conditions selects every update in full. Event types without a name select the
/// updates of these types in full, and nothing else when there are no named filters.
pub proof fn law_unnamed_event_types_select(
    request: SubscribeRequest,
    limits: FilterLimits,
    compiled: EventFilter,
    update: SubscribeUpdate,
    result: Option<FilterMatch>,
)
    requires
        answers(request, limits, compiled, update, result),
    ensures
        request.filters@.len() == 0 ==> {
            &&& result is Some <==> request.event_types@.len() == 0
                || request.event_types@.contains(update.event_type)
            &&& result matches Some(found) ==> found.names@.len() == 0
        },
        request.event_types@.contains(update.event_type) || request.event_types@.len() == 0
            && request.filters@.len() == 0 ==> {
            &&& result matches Some(found)
            &&& found.block_payload == BlockPayload::Full
        },
{
    broadcast use vstd::seq_lib::group_to_multiset_ensures;

    let requested = requested_filters(request.filters@);
    assert(compiled@.named.to_multiset().len() == requested.to_multiset().len());
    if request.event_types@.len() > 0 {
        assert(request.event_types@.to_set().contains(request.event_types@[0]));
    }
    if request.filters@.len() == 0 {
        assert(compiled@.named.len() == 0);
        if let Some(found) = result {
            assert(texts(found.names@).len() == 0);
        }
    }
}

/// Where a filter of a request stands among the compiled ones.
proof fn lemma_compiled_place(view: crate::filter::RequestView, request: SubscribeRequest, index: int)
    requires
        compiles(view, request),
        0 <= index < request.filters@.len(),
    ensures
        view.named.contains(
            (request.filters@[index].0@, filter_view(request.filters@[index].1)),
        ),
{
    broadcast use vstd::seq_lib::group_to_multiset_ensures;

    let requested = requested_filters(request.filters@);
    let entry = (request.filters@[index].0@, filter_view(request.filters@[index].1));
    assert(requested[index] == entry);
    assert(requested.contains(entry));
    assert(view.named.to_multiset().count(entry) > 0);
}

/// Which filter of a request a compiled one comes from.
proof fn lemma_compiled_origin(
    view: crate::filter::RequestView,
    request: SubscribeRequest,
    place: int,
) -> (index: int)
    requires
        compiles(view, request),
        0 <= place < view.named.len(),
    ensures
        0 <= index < request.filters@.len(),
        view.named[place] == (
            request.filters@[index].0@,
            filter_view(request.filters@[index].1),
        ),
{
    broadcast use vstd::seq_lib::group_to_multiset_ensures;

    let requested = requested_filters(request.filters@);
    let entry = view.named[place];
    assert(view.named.contains(entry));
    assert(requested.to_multiset().count(entry) > 0);
    assert(requested.contains(entry));
    let index = requested.index_of(entry);
    assert(requested[index] == entry);
    index
}

/// Named filters do not influence each other: a filter of a request is named on an update if and
/// only if it would be on its own. What it asks for in full on its own is delivered in full.
pub proof fn law_named_filters_are_independent(
    request: SubscribeRequest,
    alone: SubscribeRequest,
    limits: FilterLimits,
    compiled: (EventFilter, EventFilter),
    update: SubscribeUpdate,
    result: Option<FilterMatch>,
    alone_result: Option<FilterMatch>,
    index: int,
)
    requires
        answers(request, limits, compiled.0, update, result),
        answers(alone, limits, compiled.1, update, alone_result),
        0 <= index < request.filters@.len(),
        is_one_filter(alone, request.filters@[index].0, request.filters@[index].1),
    ensures
        alone_result is Some ==> {
            &&& result matches Some(found)
            &&& lists_text(found.names@, request.filters@[index].0@)
            &&& alone_result->0.block_payload == BlockPayload::Full ==> found.block_payload
                == BlockPayload::Full
        },
        alone_result is None && (forall|other: int|
            0 <= other < request.filters@.len() && other != index ==> (
            #[trigger] request.filters@[other]).0@ != request.filters@[index].0@) ==> (
        result matches Some(found) ==> !lists_text(found.names@, request.filters@[index].0@)),
{
    let name = request.filters@[index].0;
    let filter = request.filters@[index].1;
    lemma_one_filter(alone, limits, compiled.1, update, alone_result, name, filter);
    let view = compiled.0@;
    lemma_compiled_place(view, request, index);
    let entry = (name@, filter_view(filter));
    let place = view.named.index_of(entry);
    assert(view.named[place] == entry);
    let matched = matched_names(view.named, update);
    crate::filter::law_every_matching_name_is_returned(view.named, update, name@);
    if alone_result is Some {
        assert(view.selects(update));
        assert(crate::filter::is_matched(view.named, update, name@));
        let found = result->0;
        let k = matched.index_of(name@);
        assert(texts(found.names@)[k] == found.names@[k]@);
        assert(found.names@[k]@ == name@);
        if alone_result->0.block_payload == BlockPayload::Full {
            assert(view.wants_full(update));
        }
    }
    if alone_result is None && (forall|other: int|
        0 <= other < request.filters@.len() && other != index ==> (
        #[trigger] request.filters@[other]).0@ != name@) {
        if let Some(found) = result {
            if lists_text(found.names@, name@) {
                let k = choose|k: int| 0 <= k < found.names@.len() && (#[trigger] found.names@[k])@
                    == name@;
                assert(texts(found.names@)[k] == name@);
                assert(matched.contains(name@));
                let at = choose|at: int|
                    0 <= at < view.named.len() && (#[trigger] view.named[at]).1.matches(update)
                        && view.named[at].0 == name@;
                let origin = lemma_compiled_origin(view, request, at);
                assert(origin == index);
                assert(false);
            }
        }
    }
}

/// An update is selected by one of the filters of a request, or by its event types without a name,
/// or because the request has no conditions. It is delivered in full only if one of them asks for
/// it. The names that come with it are names of filters, in alphabetical order.
pub proof fn law_selection_has_a_reason(
    request: SubscribeRequest,
    limits: FilterLimits,
    compiled: EventFilter,
    update: SubscribeUpdate,
    result: Option<FilterMatch>,
)
    requires
        answers(request, limits, compiled, update, result),
        !request.event_types@.contains(update.event_type),
        request.filters@.len() > 0,
    ensures
        result matches Some(found) ==> {
            &&& found.names@.len() > 0
            &&& forall|k: int|
                0 <= k < found.names@.len() ==> exists|index: int|
                    0 <= index < request.filters@.len() && (#[trigger] request.filters@[index]).0@
                        == (#[trigger] found.names@[k])@
            &&& found.block_payload == BlockPayload::Full ==> exists|index: int|
                0 <= index < request.filters@.len() && (#[trigger] request.filters@[index]).1.block_payload
                    != 2
            &&& forall|i: int, j: int|
                0 <= i < j < found.names@.len() ==> comes_before_or_equals(
                    (#[trigger] found.names@[i])@,
                    (#[trigger] found.names@[j])@,
                )
        },
{
    let view = compiled@;
    if let Some(found) = result {
        let matched = matched_names(view.named, update);
        assert(texts(found.names@) == matched);
        assert(!view.legacy_matches(update)) by {
            if request.event_types@.len() > 0 {
                assert(request.event_types@.to_set().contains(request.event_types@[0]));
            }
        }
        let at = choose|at: int|
            0 <= at < view.named.len() && (#[trigger] view.named[at]).1.matches(update);
        crate::filter::law_every_matching_name_is_returned(view.named, update, view.named[at].0);
        assert(crate::filter::is_matched(view.named, update, view.named[at].0));
        assert(matched.contains(view.named[at].0));
        assert(found.names@.len() == matched.len());
        assert forall|k: int| 0 <= k < found.names@.len() implies exists|index: int|
            0 <= index < request.filters@.len() && (#[trigger] request.filters@[index]).0@ == (
            #[trigger] found.names@[k])@ by {
            assert(matched[k] == found.names@[k]@);
            crate::filter::law_every_matching_name_is_returned(view.named, update, matched[k]);
            assert(matched.contains(matched[k]));
            let place = choose|place: int|
                0 <= place < view.named.len() && (#[trigger] view.named[place]).1.matches(update)
                    && view.named[place].0 == matched[k];
            let index = lemma_compiled_origin(view, request, place);
            assert(request.filters@[index].0@ == found.names@[k]@);
        }
        if found.block_payload == BlockPayload::Full {
            let place = choose|place: int|
                {
                    &&& 0 <= place < view.named.len()
                    &&& (#[trigger] view.named[place]).1.matches(update)
                    &&& view.named[place].1.block_payload == BlockPayload::Full
                };
            let index = lemma_compiled_origin(view, request, place);
            assert(request.filters@[index].1.block_payload != 2);
        }
        crate::filter::law_matched_names_are_sorted(view.named, update);
        assert forall|i: int, j: int| 0 <= i < j < found.names@.len() implies comes_before_or_equals(
            (#[trigger] found.names@[i])@,
            (#[trigger] found.names@[j])@,
        ) by {
            assert(matched[i] == found.names@[i]@ && matched[j] == found.names@[j]@);
            lemma_order(found.names@[i]@, found.names@[j]@);
        }
    }
}

/// Whether two texts are equal, or the first one comes before the second one: it has the smaller
/// character where they first differ, or ends there.
pub open spec fn comes_before_or_equals(left: Seq<char>, right: Seq<char>) -> bool {
    left == right || exists|place: int|
        {
            &&& 0 <= place <= left.len()
            &&& place < right.len()
            &&& #[trigger] left.take(place) == right.take(place)
            &&& place == left.len() || left[place] < right[place]
        }
}

/// What does not come behind another text comes before it or equals it.
proof fn lemma_order(left: Seq<char>, right: Seq<char>)
    requires
        !crate::text::precedes(right, left),
    ensures
        comes_before_or_equals(left, right),
    decreases left.len(),
{
    if left.len() == 0 {
        if right.len() == 0 {
            assert(left =~= right);
        } else {
            assert(left.take(0) =~= right.take(0));
        }
    } else if right.len() > 0 {
        if left[0] == right[0] {
            let left_rest = left.drop_first();
            let right_rest = right.drop_first();
            lemma_order(left_rest, right_rest);
            assert(left =~= seq![left[0]] + left_rest);
            assert(right =~= seq![right[0]] + right_rest);
            if left_rest != right_rest {
                let place = choose|place: int|
                    {
                        &&& 0 <= place <= left_rest.len()
                        &&& place < right_rest.len()
                        &&& #[trigger] left_rest.take(place) == right_rest.take(place)
                        &&& place == left_rest.len() || left_rest[place] < right_rest[place]
                    };
                assert(left.take(place + 1) =~= seq![left[0]] + left_rest.take(place));
                assert(right.take(place + 1) =~= seq![right[0]] + right_rest.take(place));
            }
        } else {
            assert(left.take(0) =~= right.take(0));
        }
    }
}

/// Conditions that a filter does not have select everything.
proof fn lemma_no_other_conditions(filter: SubscribeRequestFilter)
    ensures
        any_type(filter) ==> filter_view(filter).kinds.is_empty(),
        any_transaction(filter) ==> filter_view(filter).transaction_ids.is_empty(),
        any_address(filter) ==> !filter_view(filter).uses_addresses(),
        any_metadata(filter) ==> !filter_view(filter).uses_metadata(),
{
    let view = filter_view(filter);
    if any_type(filter) {
        assert(view.kinds =~= Set::empty());
    }
    if any_transaction(filter) {
        assert(view.transaction_ids =~= Set::empty());
    }
    if any_address(filter) {
        assert(view.address_include =~= Set::empty());
        assert(view.address_exclude =~= Set::empty());
        assert(view.address_required =~= Set::empty());
    }
}

} // verus!
