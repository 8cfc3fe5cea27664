//! Which subscription requests are accepted.

use crate::chain::{canonical_address, canonical_id};
use crate::config::FilterLimits;
use crate::filter::{
    all_valid, canonical, canonical_set, entries_error, filter_error, kind_error, kinds_error,
    list_error, named_error, named_errors, EventFilter,
};
use crate::laws::matching::{
    any_address, any_height, any_metadata, any_transaction, any_type, names_address,
    names_transaction,
};
use crate::laws::messages::{lemma_ends_with, lemma_mentions, mentions};
use crate::proto::{SubscribeRequest, SubscribeRequestFilter};
use crate::rejection::ListField;
use crate::status::{Code, Status};
use crate::text::decimal;
use vstd::prelude::*;
use vstd::utf8::encode_utf8;

verus! {

/// Whether event types are those of the protocol, and not too many.
pub open spec fn acceptable_types(event_types: Seq<i32>, most: usize) -> bool {
    &&& event_types.len() <= most
    &&& forall|i: int| 0 <= i < event_types.len() ==> 1 <= #[trigger] event_types[i] <= 7
}

/// Whether addresses are valid, not too many, and none of them is refused, in whatever form.
pub open spec fn acceptable_addresses(
    list: Seq<String>,
    most: usize,
    refused: Seq<String>,
) -> bool {
    &&& list.len() <= most
    &&& forall|i: int|
        0 <= i < refused.len() ==> canonical_address((#[trigger] refused[i])@) is Some
    &&& forall|i: int|
        0 <= i < list.len() ==> {
            &&& canonical_address((#[trigger] list[i])@) matches Some(address)
            &&& !names_address(refused, address)
        }
}

/// Whether transaction IDs are valid, not too many, and none of them is refused, in whatever form.
pub open spec fn acceptable_transactions(
    list: Seq<String>,
    most: usize,
    refused: Seq<String>,
) -> bool {
    &&& list.len() <= most
    &&& forall|i: int| 0 <= i < refused.len() ==> canonical_id((#[trigger] refused[i])@) is Some
    &&& forall|i: int|
        0 <= i < list.len() ==> {
            &&& canonical_id((#[trigger] list[i])@) matches Some(id)
            &&& !names_transaction(refused, id)
        }
}

/// Whether the conditions of a filter are acceptable.
pub open spec fn acceptable_filter(filter: SubscribeRequestFilter, limits: FilterLimits) -> bool {
    &&& acceptable_types(filter.event_types@, limits.max_event_types)
    &&& acceptable_transactions(
        filter.transaction_ids@,
        limits.max_transaction_ids,
        limits.transaction_id_reject@,
    )
    &&& acceptable_addresses(
        filter.transparent_addresses@,
        limits.max_transparent_addresses,
        limits.transparent_address_reject@,
    )
    &&& acceptable_addresses(
        filter.address_include@,
        limits.max_address_include,
        limits.address_include_reject@,
    )
    &&& acceptable_addresses(
        filter.address_exclude@,
        limits.max_address_exclude,
        limits.address_exclude_reject@,
    )
    &&& acceptable_addresses(
        filter.address_required@,
        limits.max_address_required,
        limits.address_required_reject@,
    )
    &&& 0 <= filter.block_payload <= 2
}

/// Whether a named filter is acceptable: its name fits, it has a condition unless that is not
/// asked for, and its conditions are acceptable.
pub open spec fn acceptable_named(
    named: (String, SubscribeRequestFilter),
    limits: FilterLimits,
) -> bool {
    &&& named.0@.len() > 0
    &&& encode_utf8(named.0@).len() <= limits.max_name_bytes
    &&& any_type(named.1) && any_height(named.1) && any_transaction(named.1) && any_address(named.1)
        && any_metadata(named.1) ==> limits.allow_all
    &&& acceptable_filter(named.1, limits)
}

/// Whether the configured lists of refused entries are valid.
pub open spec fn valid_refusals(limits: FilterLimits) -> bool {
    &&& acceptable_transactions(Seq::empty(), 0, limits.transaction_id_reject@)
    &&& acceptable_addresses(Seq::empty(), 0, limits.transparent_address_reject@)
    &&& acceptable_addresses(Seq::empty(), 0, limits.address_include_reject@)
    &&& acceptable_addresses(Seq::empty(), 0, limits.address_exclude_reject@)
    &&& acceptable_addresses(Seq::empty(), 0, limits.address_required_reject@)
}

/// A list of addresses.
proof fn lemma_addresses(
    field: ListField,
    values: Seq<String>,
    most: usize,
    refused: Seq<String>,
)
    requires
        field != ListField::TransactionIds,
    ensures
        list_error(field, values, most, refused) is None <==> acceptable_addresses(
            values,
            most,
            refused,
        ),
{
    let set = canonical_set(field, refused);
    assert forall|i: int| 0 <= i < refused.len() implies canonical_address(
        (#[trigger] refused[i])@,
    ) == canonical(field, refused[i]@) by {}
    assert(all_valid(field, refused) <==> (forall|i: int|
        0 <= i < refused.len() ==> canonical_address((#[trigger] refused[i])@) is Some)) by {
        if all_valid(field, refused) {
            assert forall|i: int| 0 <= i < refused.len() implies canonical_address(
                (#[trigger] refused[i])@,
            ) is Some by {
                assert(canonical(field, refused[i]@) is Some);
            }
        }
    }
    assert forall|address: Seq<char>| set.contains(address) <==> #[trigger] names_address(
        refused,
        address,
    ) by {
        if set.contains(address) {
            let i = choose|i: int|
                0 <= i < refused.len() && canonical(field, (#[trigger] refused[i])@) == Some(
                    address,
                );
            assert(canonical_address(refused[i]@) == Some(address));
        }
        if names_address(refused, address) {
            let i = choose|i: int|
                0 <= i < refused.len() && canonical_address((#[trigger] refused[i])@) == Some(
                    address,
                );
            assert(canonical(field, refused[i]@) == Some(address));
        }
    }
    lemma_entries(field, values, set);
    if entries_error(field, values, set) is None {
        assert forall|i: int| 0 <= i < values.len() implies {
            &&& canonical_address((#[trigger] values[i])@) matches Some(address)
            &&& !names_address(refused, address)
        } by {
            assert(canonical(field, values[i]@) is Some);
        }
    }
    if acceptable_addresses(values, most, refused) {
        assert forall|i: int| 0 <= i < values.len() implies {
            &&& canonical(field, (#[trigger] values[i])@) matches Some(entry)
            &&& !set.contains(entry)
        } by {
            assert(canonical_address(values[i]@) is Some);
        }
    }
}

/// A list of transaction IDs.
proof fn lemma_transactions(values: Seq<String>, most: usize, refused: Seq<String>)
    ensures
        list_error(ListField::TransactionIds, values, most, refused) is None
            <==> acceptable_transactions(values, most, refused),
{
    let field = ListField::TransactionIds;
    let set = canonical_set(field, refused);
    assert(all_valid(field, refused) <==> (forall|i: int|
        0 <= i < refused.len() ==> canonical_id((#[trigger] refused[i])@) is Some)) by {
        if all_valid(field, refused) {
            assert forall|i: int| 0 <= i < refused.len() implies canonical_id(
                (#[trigger] refused[i])@,
            ) is Some by {
                assert(canonical(field, refused[i]@) is Some);
            }
        }
    }
    assert forall|id: Seq<char>| set.contains(id) <==> #[trigger] names_transaction(refused, id) by {
        if set.contains(id) {
            let i = choose|i: int|
                0 <= i < refused.len() && canonical(field, (#[trigger] refused[i])@) == Some(id);
            assert(canonical_id(refused[i]@) == Some(id));
        }
        if names_transaction(refused, id) {
            let i = choose|i: int|
                0 <= i < refused.len() && canonical_id((#[trigger] refused[i])@) == Some(id);
            assert(canonical(field, refused[i]@) == Some(id));
        }
    }
    lemma_entries(field, values, set);
    if entries_error(field, values, set) is None {
        assert forall|i: int| 0 <= i < values.len() implies {
            &&& canonical_id((#[trigger] values[i])@) matches Some(id)
            &&& !names_transaction(refused, id)
        } by {
            assert(canonical(field, values[i]@) is Some);
        }
    }
    if acceptable_transactions(values, most, refused) {
        assert forall|i: int| 0 <= i < values.len() implies {
            &&& canonical(field, (#[trigger] values[i])@) matches Some(entry)
            &&& !set.contains(entry)
        } by {
            assert(canonical_id(values[i]@) is Some);
        }
    }
}

/// The entries of a list have no error if none of them has one.
proof fn lemma_entries(field: ListField, values: Seq<String>, refused: Set<Seq<char>>)
    ensures
        entries_error(field, values, refused) is None <==> forall|i: int|
            0 <= i < values.len() ==> {
                &&& canonical(field, (#[trigger] values[i])@) matches Some(entry)
                &&& !refused.contains(entry)
            },
    decreases values.len(),
{
    if values.len() > 0 {
        let rest = values.drop_last();
        lemma_entries(field, rest, refused);
        if entries_error(field, values, refused) is None {
            assert forall|i: int| 0 <= i < values.len() implies {
                &&& canonical(field, (#[trigger] values[i])@) matches Some(entry)
                &&& !refused.contains(entry)
            } by {
                if i < rest.len() {
                    assert(rest[i] == values[i]);
                }
            }
        }
        if forall|i: int|
            0 <= i < values.len() ==> {
                &&& canonical(field, (#[trigger] values[i])@) matches Some(entry)
                &&& !refused.contains(entry)
            } {
            assert forall|i: int| 0 <= i < rest.len() implies {
                &&& canonical(field, (#[trigger] rest[i])@) matches Some(entry)
                &&& !refused.contains(entry)
            } by {
                assert(rest[i] == values[i]);
            }
            assert(canonical(field, values[values.len() - 1]@) is Some);
        }
    }
}

/// Event types have no error if none of them has one.
proof fn lemma_types(values: Seq<i32>)
    ensures
        kinds_error(values) is None <==> forall|i: int|
            0 <= i < values.len() ==> 1 <= #[trigger] values[i] <= 7,
    decreases values.len(),
{
    if values.len() > 0 {
        let rest = values.drop_last();
        lemma_types(rest);
        assert(forall|i: int| 0 <= i < rest.len() ==> rest[i] == #[trigger] values[i]);
        if kinds_error(values) is None {
            assert forall|i: int| 0 <= i < values.len() implies 1 <= #[trigger] values[i] <= 7 by {
                if i < rest.len() {
                    assert(1 <= rest[i] <= 7);
                }
            }
        }
        if forall|i: int| 0 <= i < values.len() ==> 1 <= #[trigger] values[i] <= 7 {
            assert forall|i: int| 0 <= i < rest.len() implies 1 <= #[trigger] rest[i] <= 7 by {
                assert(1 <= values[i] <= 7);
            }
            assert(1 <= values[values.len() - 1] <= 7);
        }
    }
}

/// A named filter has no error if it is acceptable.
proof fn lemma_named(named: (String, SubscribeRequestFilter), limits: FilterLimits)
    ensures
        named_error(named, limits) is None <==> acceptable_named(named, limits),
{
    lemma_filter(named.1, limits);
}

/// A filter has no error if it is acceptable.
proof fn lemma_filter(filter: SubscribeRequestFilter, limits: FilterLimits)
    ensures
        crate::filter::filter_error(filter, limits) is None <==> acceptable_filter(filter, limits),
{
    lemma_types(filter.event_types@);
    lemma_transactions(
        filter.transaction_ids@,
        limits.max_transaction_ids,
        limits.transaction_id_reject@,
    );
    lemma_addresses(
        ListField::TransparentAddresses,
        filter.transparent_addresses@,
        limits.max_transparent_addresses,
        limits.transparent_address_reject@,
    );
    lemma_addresses(
        ListField::AddressInclude,
        filter.address_include@,
        limits.max_address_include,
        limits.address_include_reject@,
    );
    lemma_addresses(
        ListField::AddressExclude,
        filter.address_exclude@,
        limits.max_address_exclude,
        limits.address_exclude_reject@,
    );
    lemma_addresses(
        ListField::AddressRequired,
        filter.address_required@,
        limits.max_address_required,
        limits.address_required_reject@,
    );
}

/// Named filters have no error if all of them are acceptable.
proof fn lemma_all_named(filters: Seq<(String, SubscribeRequestFilter)>, limits: FilterLimits)
    ensures
        named_errors(filters, limits) is None <==> forall|i: int|
            0 <= i < filters.len() ==> acceptable_named(#[trigger] filters[i], limits),
    decreases filters.len(),
{
    if filters.len() > 0 {
        let rest = filters.drop_last();
        lemma_all_named(rest, limits);
        lemma_named(filters.last(), limits);
        if named_errors(filters, limits) is None {
            assert forall|i: int| 0 <= i < filters.len() implies acceptable_named(
                #[trigger] filters[i],
                limits,
            ) by {
                if i < rest.len() {
                    assert(rest[i] == filters[i]);
                }
            }
        }
        if forall|i: int| 0 <= i < filters.len() ==> acceptable_named(#[trigger] filters[i], limits) {
            assert forall|i: int| 0 <= i < rest.len() implies acceptable_named(
                #[trigger] rest[i],
                limits,
            ) by {
                assert(rest[i] == filters[i]);
            }
            assert(acceptable_named(filters[filters.len() - 1], limits));
        }
    }
}

/// A request is accepted if and only if it keeps the limits: on the number of named filters, on
/// requests and filters without conditions, on names, event types and lists, and on what the server
/// refuses to be asked for.
pub proof fn law_requests_within_the_limits_are_accepted(
    request: SubscribeRequest,
    limits: FilterLimits,
    result: Result<EventFilter, Status>,
)
    requires
        call_ensures(EventFilter::new, (&request, &limits), result),
    ensures
        result is Ok <==> {
            &&& request.filters@.len() <= limits.max_named_filters
            &&& request.event_types@.len() == 0 && request.filters@.len() == 0
                ==> limits.allow_all
            &&& request.event_types@.len() > 0 ==> {
                &&& acceptable_types(request.event_types@, limits.max_event_types)
                &&& valid_refusals(limits)
            }
            &&& forall|i: int|
                0 <= i < request.filters@.len() ==> acceptable_named(
                    #[trigger] request.filters@[i],
                    limits,
                )
        },
{
    lemma_all_named(request.filters@, limits);
    lemma_types(request.event_types@);
    lemma_transactions(
        Seq::empty(),
        limits.max_transaction_ids,
        limits.transaction_id_reject@,
    );
    lemma_addresses(
        ListField::TransparentAddresses,
        Seq::empty(),
        limits.max_transparent_addresses,
        limits.transparent_address_reject@,
    );
    lemma_addresses(
        ListField::AddressInclude,
        Seq::empty(),
        limits.max_address_include,
        limits.address_include_reject@,
    );
    lemma_addresses(
        ListField::AddressExclude,
        Seq::empty(),
        limits.max_address_exclude,
        limits.address_exclude_reject@,
    );
    lemma_addresses(
        ListField::AddressRequired,
        Seq::empty(),
        limits.max_address_required,
        limits.address_required_reject@,
    );
}

proof fn lemma_entries_at_fault(field: ListField, values: Seq<String>, refused: Set<Seq<char>>)
    ensures
        entries_error(field, values, refused) matches Some(error) ==> !(error is InvalidRejectList),
    decreases values.len(),
{
    if values.len() > 0 {
        lemma_entries_at_fault(field, values.drop_last(), refused);
    }
}

proof fn lemma_list_at_fault(
    field: ListField,
    values: Seq<String>,
    most: usize,
    refused: Seq<String>,
)
    requires
        forall|i: int|
            0 <= i < refused.len() ==> canonical(field, (#[trigger] refused[i])@) is Some,
    ensures
        list_error(field, values, most, refused) matches Some(error)
            ==> !(error is InvalidRejectList),
{
    lemma_entries_at_fault(field, values, canonical_set(field, refused));
}

proof fn lemma_types_at_fault(event_types: Seq<i32>)
    ensures
        kinds_error(event_types) matches Some(error) ==> !(error is InvalidRejectList),
    decreases event_types.len(),
{
    if event_types.len() > 0 {
        lemma_types_at_fault(event_types.drop_last());
    }
}

proof fn lemma_filter_at_fault(filter: SubscribeRequestFilter, limits: FilterLimits)
    requires
        valid_refusals(limits),
    ensures
        filter_error(filter, limits) matches Some(error) ==> !(error is InvalidRejectList),
{
    lemma_types_at_fault(filter.event_types@);
    lemma_list_at_fault(
        ListField::TransactionIds,
        filter.transaction_ids@,
        limits.max_transaction_ids,
        limits.transaction_id_reject@,
    );
    lemma_list_at_fault(
        ListField::TransparentAddresses,
        filter.transparent_addresses@,
        limits.max_transparent_addresses,
        limits.transparent_address_reject@,
    );
    lemma_list_at_fault(
        ListField::AddressInclude,
        filter.address_include@,
        limits.max_address_include,
        limits.address_include_reject@,
    );
    lemma_list_at_fault(
        ListField::AddressExclude,
        filter.address_exclude@,
        limits.max_address_exclude,
        limits.address_exclude_reject@,
    );
    lemma_list_at_fault(
        ListField::AddressRequired,
        filter.address_required@,
        limits.max_address_required,
        limits.address_required_reject@,
    );
}

proof fn lemma_named_at_fault(
    filters: Seq<(String, SubscribeRequestFilter)>,
    limits: FilterLimits,
)
    requires
        valid_refusals(limits),
    ensures
        named_errors(filters, limits) matches Some(error) ==> !(error is InvalidRejectList),
    decreases filters.len(),
{
    if filters.len() > 0 {
        lemma_named_at_fault(filters.drop_last(), limits);
        lemma_filter_at_fault(filters.last().1, limits);
    }
}

/// A request that is refused is at fault itself, as long as the configured lists of refused entries
/// are valid. Where one of them is not, a request that is in order is refused as the server's
/// fault.
pub proof fn law_refusals_tell_who_is_at_fault(
    request: SubscribeRequest,
    limits: FilterLimits,
    status: Status,
)
    requires
        call_ensures(EventFilter::new, (&request, &limits), Err(status)),
    ensures
        status.code == Code::InvalidArgument || status.code == Code::Internal,
        valid_refusals(limits) ==> status.code == Code::InvalidArgument,
        request.filters@.len() == 0 && request.event_types@.len() > 0 && acceptable_types(
            request.event_types@,
            limits.max_event_types,
        ) ==> status.code == Code::Internal,
{
    lemma_types(request.event_types@);
    if valid_refusals(limits) {
        lemma_named_at_fault(request.filters@, limits);
        lemma_types_at_fault(request.event_types@);
        lemma_list_at_fault(
            ListField::TransactionIds,
            Seq::empty(),
            limits.max_transaction_ids,
            limits.transaction_id_reject@,
        );
        lemma_list_at_fault(
            ListField::TransparentAddresses,
            Seq::empty(),
            limits.max_transparent_addresses,
            limits.transparent_address_reject@,
        );
        lemma_list_at_fault(
            ListField::AddressInclude,
            Seq::empty(),
            limits.max_address_include,
            limits.address_include_reject@,
        );
        lemma_list_at_fault(
            ListField::AddressExclude,
            Seq::empty(),
            limits.max_address_exclude,
            limits.address_exclude_reject@,
        );
        lemma_list_at_fault(
            ListField::AddressRequired,
            Seq::empty(),
            limits.max_address_required,
            limits.address_required_reject@,
        );
    }
}

proof fn lemma_first_type(event_types: Seq<i32>)
    requires
        event_types.len() > 0,
        kind_error(event_types[0]) is Some,
    ensures
        kinds_error(event_types) == kind_error(event_types[0]),
    decreases event_types.len(),
{
    if event_types.len() > 1 {
        lemma_first_type(event_types.drop_last());
    } else {
        assert(event_types.drop_last() =~= Seq::empty());
        assert(kinds_error(event_types.drop_last()) is None);
    }
}

/// Who has too many filters or event types is told how many there may be. Who asks for an event
/// type that does not exist is told its number.
pub proof fn law_refusals_name_the_limit(
    request: SubscribeRequest,
    limits: FilterLimits,
    status: Status,
)
    requires
        call_ensures(EventFilter::new, (&request, &limits), Err(status)),
    ensures
        request.filters@.len() > limits.max_named_filters ==> mentions(
            status.message@,
            decimal(limits.max_named_filters as nat),
        ),
        request.filters@.len() == 0 && request.event_types@.len() > limits.max_event_types
            ==> mentions(status.message@, decimal(limits.max_event_types as nat)),
        request.filters@.len() == 0 && 0 < request.event_types@.len() <= limits.max_event_types
            && request.event_types@[0] > 7 ==> mentions(
            status.message@,
            decimal(request.event_types@[0] as nat),
        ),
{
    let types = request.event_types@;
    if request.filters@.len() > limits.max_named_filters {
        lemma_mentions(
            "at most "@,
            decimal(limits.max_named_filters as nat),
            " named filters are allowed"@,
        );
    } else if request.filters@.len() == 0 && types.len() > limits.max_event_types {
        lemma_mentions(
            "at most "@,
            decimal(limits.max_event_types as nat),
            " event types are allowed per filter"@,
        );
    } else if request.filters@.len() == 0 && types.len() > 0 && types[0] > 7 {
        lemma_first_type(types);
        lemma_ends_with("unknown event type "@, decimal(types[0] as nat));
    }
}

} // verus!
