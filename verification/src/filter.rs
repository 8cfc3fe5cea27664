//! Validates subscription requests and compiles them for the live path.

use crate::chain::{
    canonical_address, canonical_id, canonical_transaction_id, canonical_transparent_address_string,
};
use crate::config::{same_limits, FilterLimits};
use crate::event::block_height;
use crate::matching::{
    has_all_of, has_none_of, has_one_of, optional_slices, optional_view, slices,
    update_matches_transaction_id, FilterView, TransactionFacts, UpdateContext, HAS_ORCHARD,
    HAS_SAPLING, HAS_TRANSPARENT,
};
use crate::proto::{
    BlockPayload, EventType, SubscribeRequest, SubscribeRequestFilter, SubscribeUpdate,
};
use crate::rejection::{FilterError, ListField};
use crate::status::Status;
use crate::text::{
    is_empty, lemma_precedes_asymmetric, lemma_precedes_total, lemma_precedes_transitive, precedes,
    same_text, text_precedes, text_set, text_view, texts,
};
use vstd::hash_set::StringHashSet;
use vstd::prelude::*;
use vstd::utf8::encode_utf8;

verus! {

/// The bit of an event type in a mask, if its number has one.
pub open spec fn spec_event_type_bit(event_type: i32) -> Option<u64> {
    if 0 <= event_type < 64 {
        Some(1u64 << (event_type as u32))
    } else {
        None
    }
}

/// The bit of an event type in a mask.
pub fn event_type_bit(event_type: i32) -> (bit: Option<u64>)
    ensures
        bit == spec_event_type_bit(event_type),
{
    if 0 <= event_type && event_type < 64 {
        Some(1u64 << (event_type as u32))
    } else {
        None
    }
}

/// The event types of a mask.
pub open spec fn mask_kinds(mask: u64) -> Set<i32> {
    Set::new(|kind: i32| 0 <= kind < 64 && mask & (1u64 << (kind as u32)) != 0)
}

/// Setting a bit adds its event type.
proof fn lemma_mask_insert(mask: u64, kind: i32)
    requires
        0 <= kind < 64,
    ensures
        mask_kinds(mask | (1u64 << (kind as u32))) == mask_kinds(mask).insert(kind),
        mask | (1u64 << (kind as u32)) != 0,
{
    let bit = kind as u32;
    let grown = mask | (1u64 << bit);
    assert forall|other: i32| mask_kinds(grown).contains(other) == mask_kinds(mask).insert(
        kind,
    ).contains(other) by {
        if 0 <= other < 64 {
            let position = other as u32;
            assert(((mask | (1u64 << bit)) & (1u64 << position) != 0) == (mask & (1u64 << position)
                != 0 || position == bit)) by (bit_vector)
                requires
                    bit < 64,
                    position < 64,
            ;
        }
    }
    assert(mask_kinds(grown) =~= mask_kinds(mask).insert(kind));
    assert(mask | (1u64 << bit) != 0) by (bit_vector)
        requires
            bit < 64,
    ;
}

/// An empty mask has no event types.
proof fn lemma_mask_empty()
    ensures
        mask_kinds(0) == Set::<i32>::empty(),
{
    assert forall|kind: i32| !mask_kinds(0).contains(kind) by {
        let position = kind as u32;
        assert(0u64 & (1u64 << position) == 0) by (bit_vector);
    }
    assert(mask_kinds(0) =~= Set::<i32>::empty());
}

/// A filter compiled for the live path.
pub struct CompiledFilter {
    kinds: u64,
    min_height: Option<u32>,
    transaction_ids: StringHashSet,
    address_include: StringHashSet,
    address_exclude: StringHashSet,
    address_required: Vec<String>,
    coinbase: Option<bool>,
    transaction_version: Option<u32>,
    has_transparent: Option<bool>,
    has_sapling: Option<bool>,
    has_orchard: Option<bool>,
    min_value_zat: Option<u64>,
    block_payload: BlockPayload,
}

impl View for CompiledFilter {
    type V = FilterView;

    closed spec fn view(&self) -> FilterView {
        FilterView {
            kinds: mask_kinds(self.kinds),
            min_height: self.min_height,
            transaction_ids: self.transaction_ids@,
            address_include: self.address_include@,
            address_exclude: self.address_exclude@,
            address_required: text_set(self.address_required@),
            coinbase: self.coinbase,
            transaction_version: self.transaction_version,
            has_transparent: self.has_transparent,
            has_sapling: self.has_sapling,
            has_orchard: self.has_orchard,
            min_value_zat: self.min_value_zat,
            block_payload: self.block_payload,
        }
    }
}

impl CompiledFilter {
    /// Whether only the empty mask has no event types.
    pub closed spec fn well_formed(self) -> bool {
        self.kinds == 0 <==> mask_kinds(self.kinds).is_empty()
    }

    /// Whether the filter has a condition on addresses.
    pub fn uses_addresses(&self) -> (uses: bool)
        ensures
            uses == self@.uses_addresses(),
    {
        proof {
            let required = text_set(self.address_required@);
            if self.address_required@.len() == 0 {
                assert(texts(self.address_required@) =~= Seq::empty());
                assert(required =~= Set::empty());
            } else {
                assert(texts(self.address_required@)[0] == self.address_required@[0]@);
                assert(required.contains(self.address_required@[0]@));
            }
        }
        !self.address_include.is_empty() || !self.address_exclude.is_empty()
            || self.address_required.len() > 0
    }

    /// Whether the addresses of an update meet the conditions on addresses.
    #[verifier::spinoff_prover]
    pub fn addresses_match(&self, addresses: &Option<Vec<&str>>) -> (matches: bool)
        ensures
            matches == self@.addresses_match(optional_slices(optional_view(*addresses))),
    {
        if !self.uses_addresses() {
            return true;
        }
        let list = match addresses {
            Some(list) => list,
            None => {
                return false;
            },
        };
        let ghost known = slices(list@);
        let ghost all_required = texts(self.address_required@);
        proof {
            assert(optional_slices(optional_view(*addresses)) == Some(known));
            assert(self@.address_required == all_required.to_set());
        }
        let mut included = self.address_include.is_empty();
        for index in 0..list.len()
            invariant
                known == slices(list@),
                optional_slices(optional_view(*addresses)) == Some(known),
                self@.uses_addresses(),
                included == (self@.address_include.is_empty() || has_one_of(
                    known.take(index as int),
                    self@.address_include,
                )),
                has_none_of(known.take(index as int), self@.address_exclude),
        {
            let address = list[index];
            let ghost before = known.take(index as int);
            let ghost after = known.take(index + 1);
            proof {
                assert(known[index as int] == address@);
                assert(after =~= before.push(address@));
                assert(after[index as int] == address@);
            }
            if self.address_exclude.contains(address) {
                proof {
                    assert(self@.address_exclude.contains(known[index as int]));
                    assert(!has_none_of(known, self@.address_exclude));
                }
                return false;
            }
            proof {
                assert forall|i: int| 0 <= i < after.len() implies !self@.address_exclude.contains(
                    #[trigger] after[i],
                ) by {
                    if i < index {
                        assert(after[i] == before[i]);
                    }
                }
                if has_one_of(before, self@.address_include) {
                    let i = choose|i: int|
                        0 <= i < before.len() && self@.address_include.contains(
                            #[trigger] before[i],
                        );
                    assert(after[i] == before[i]);
                    assert(has_one_of(after, self@.address_include));
                }
                if has_one_of(after, self@.address_include) && !self@.address_include.contains(
                    address@,
                ) {
                    let i = choose|i: int|
                        0 <= i < after.len() && self@.address_include.contains(
                            #[trigger] after[i],
                        );
                    assert(before[i] == after[i]);
                    assert(has_one_of(before, self@.address_include));
                }
            }
            if self.address_include.contains(address) {
                included = true;
            }
        }
        proof {
            assert(known.take(known.len() as int) =~= known);
        }
        if !included {
            return false;
        }
        for index in 0..self.address_required.len()
            invariant
                known == slices(list@),
                all_required == texts(self.address_required@),
                self@.address_required == all_required.to_set(),
                optional_slices(optional_view(*addresses)) == Some(known),
                self@.uses_addresses(),
                forall|i: int| 0 <= i < index ==> known.contains(#[trigger] all_required[i]),
        {
            let required = &self.address_required[index];
            proof {
                assert(all_required[index as int] == required@);
            }
            if !slice_contains(list, required.as_str()) {
                proof {
                    assert(all_required.contains(required@));
                    assert(self@.address_required.contains(required@));
                    assert(!known.contains(required@));
                    assert(!has_all_of(known, self@.address_required));
                }
                return false;
            }
        }
        proof {
            assert forall|required: Seq<char>| #[trigger]
                self@.address_required.contains(required) implies known.contains(required) by {
                let i = all_required.index_of(required);
                assert(all_required[i] == required);
            }
            assert(has_all_of(known, self@.address_required));
        }
        true
    }

    /// Whether what is known of a transaction meets the conditions on transactions.
    pub fn transaction_metadata_matches(&self, facts: Option<TransactionFacts>) -> (matches: bool)
        ensures
            matches == self@.metadata_matches(facts),
    {
        let uses_metadata = self.coinbase.is_some() || self.transaction_version.is_some()
            || self.has_transparent.is_some() || self.has_sapling.is_some()
            || self.has_orchard.is_some() || self.min_value_zat.is_some();
        if !uses_metadata {
            return true;
        }
        let facts = match facts {
            Some(facts) => facts,
            None => {
                return false;
            },
        };
        flag_met(self.coinbase, facts.coinbase) && (match self.transaction_version {
            Some(version) => version == facts.version,
            None => true,
        }) && flag_met(self.has_transparent, facts.has_feature(HAS_TRANSPARENT)) && flag_met(
            self.has_sapling,
            facts.has_feature(HAS_SAPLING),
        ) && flag_met(self.has_orchard, facts.has_feature(HAS_ORCHARD)) && (
        match self.min_value_zat {
            Some(minimum) => (match facts.transparent_input_value_zat {
                Some(value) => value >= minimum,
                None => false,
            }) || facts.transparent_output_value_zat >= minimum,
            None => true,
        })
    }

    /// Whether an update meets all conditions.
    pub fn matches(&self, context: &UpdateContext<'_>) -> (matches: bool)
        requires
            self.well_formed(),
            exists|needs_addresses: bool|
                {
                    &&& #[trigger] context.well_formed(needs_addresses)
                    &&& self@.uses_addresses() ==> needs_addresses
                },
        ensures
            matches == self@.matches(*context.update),
    {
        let kind_matches = self.kinds == 0 || (match event_type_bit(context.update.event_type) {
            Some(bit) => self.kinds & bit != 0,
            None => false,
        });
        let height_matches = match self.min_height {
            Some(minimum) => match block_height(context.update) {
                Some(height) => height >= minimum,
                None => false,
            },
            None => true,
        };
        let transaction_matches = self.transaction_ids.is_empty() || update_matches_transaction_id(
            context.update,
            &self.transaction_ids,
        );
        kind_matches && height_matches && transaction_matches && self.addresses_match(
            &context.addresses,
        ) && self.transaction_metadata_matches(context.transaction)
    }
}

/// Whether an optional flag is absent or as expected.
fn flag_met(condition: Option<bool>, actual: bool) -> (met: bool)
    ensures
        met == crate::matching::met(condition, actual),
{
    match condition {
        Some(expected) => expected == actual,
        None => true,
    }
}

/// Whether a list holds a text.
fn slice_contains(values: &Vec<&str>, wanted: &str) -> (found: bool)
    ensures
        found == slices(values@).contains(wanted@),
{
    for index in 0..values.len()
        invariant
            forall|i: int| 0 <= i < index ==> (#[trigger] slices(values@)[i]) != wanted@,
    {
        proof {
            assert(slices(values@)[index as int] == values@[index as int]@);
        }
        if same_text(values[index], wanted) {
            return true;
        }
    }
    false
}

/// The canonical form of an entry of a list, if the entry is valid.
pub open spec fn canonical(field: ListField, text: Seq<char>) -> Option<Seq<char>> {
    match field {
        ListField::TransactionIds => canonical_id(text),
        _ => canonical_address(text),
    }
}

/// Brings an entry of a list into its canonical form.
fn canonicalize(field: ListField, text: &str) -> (entry: Option<String>)
    ensures
        text_view(entry) == canonical(field, text@),
{
    match field {
        ListField::TransactionIds => canonical_transaction_id(text),
        _ => canonical_transparent_address_string(text),
    }
}

/// The canonical forms of the valid entries of a list.
pub open spec fn canonical_set(field: ListField, values: Seq<String>) -> Set<Seq<char>> {
    Set::new(
        |entry: Seq<char>|
            exists|i: int|
                0 <= i < values.len() && canonical(field, (#[trigger] values[i])@) == Some(entry),
    )
}

/// Whether every entry of a list is valid.
pub open spec fn all_valid(field: ListField, values: Seq<String>) -> bool {
    forall|i: int| 0 <= i < values.len() ==> canonical(field, (#[trigger] values[i])@) is Some
}

/// What is wrong with an entry of a list, if anything is.
pub open spec fn entry_error(
    field: ListField,
    value: String,
    rejected: Set<Seq<char>>,
) -> Option<FilterError> {
    match canonical(field, value@) {
        None => Some(FilterError::InvalidEntry { field, value }),
        Some(entry) => if rejected.contains(entry) {
            Some(FilterError::RejectedEntry { field, value })
        } else {
            None
        },
    }
}

/// What is wrong with the first bad entry of a list, if there is one.
pub open spec fn entries_error(
    field: ListField,
    values: Seq<String>,
    rejected: Set<Seq<char>>,
) -> Option<FilterError>
    decreases values.len(),
{
    if values.len() == 0 {
        None
    } else {
        match entries_error(field, values.drop_last(), rejected) {
            Some(error) => Some(error),
            None => entry_error(field, values.last(), rejected),
        }
    }
}

/// What is wrong with a list, if anything is: its length, the configured reject-list, or the
/// first bad entry.
pub open spec fn list_error(
    field: ListField,
    values: Seq<String>,
    maximum: usize,
    rejected: Seq<String>,
) -> Option<FilterError> {
    if values.len() > maximum {
        Some(FilterError::ListTooLong { field, maximum })
    } else if !all_valid(field, rejected) {
        Some(FilterError::InvalidRejectList { field })
    } else {
        entries_error(field, values, canonical_set(field, rejected))
    }
}

/// One more entry of a list.
proof fn lemma_canonical_set_step(field: ListField, values: Seq<String>, n: int)
    requires
        0 <= n < values.len(),
    ensures
        canonical_set(field, values.take(n + 1)) == (match canonical(field, values[n]@) {
            Some(entry) => canonical_set(field, values.take(n)).insert(entry),
            None => canonical_set(field, values.take(n)),
        }),
{
    let before = values.take(n);
    let after = values.take(n + 1);
    assert(after[n] == values[n]);
    assert forall|entry: Seq<char>| canonical_set(field, after).contains(entry) == (canonical_set(
        field,
        before,
    ).contains(entry) || canonical(field, values[n]@) == Some(entry)) by {
        if canonical_set(field, before).contains(entry) {
            let i = choose|i: int|
                0 <= i < before.len() && canonical(field, (#[trigger] before[i])@) == Some(entry);
            assert(after[i] == before[i]);
        }
        if canonical_set(field, after).contains(entry) {
            let i = choose|i: int|
                0 <= i < after.len() && canonical(field, (#[trigger] after[i])@) == Some(entry);
            if i < n {
                assert(before[i] == after[i]);
            }
        }
    }
    match canonical(field, values[n]@) {
        Some(entry) => {
            assert(canonical_set(field, after) =~= canonical_set(field, before).insert(entry));
        },
        None => {
            assert(canonical_set(field, after) =~= canonical_set(field, before));
        },
    }
}

/// An empty list has no entries.
proof fn lemma_canonical_set_empty(field: ListField, values: Seq<String>)
    requires
        values.len() == 0,
    ensures
        canonical_set(field, values) == Set::<Seq<char>>::empty(),
{
    assert(canonical_set(field, values) =~= Set::<Seq<char>>::empty());
}

/// A list with one more text.
proof fn lemma_text_set_push(values: Seq<String>, value: String)
    ensures
        text_set(values.push(value)) == text_set(values).insert(value@),
{
    let before = texts(values);
    let after = texts(values.push(value));
    assert(after =~= before.push(value@));
    assert(after[before.len() as int] == value@);
    assert forall|text: Seq<char>| after.contains(text) == (before.contains(text) || text == value@) by {
        if before.contains(text) {
            let i = before.index_of(text);
            assert(after[i] == text);
        }
        if after.contains(text) {
            let i = after.index_of(text);
            if i < before.len() {
                assert(before[i] == text);
            }
        }
    }
    assert(after.to_set() =~= before.to_set().insert(value@));
}

/// Collects texts into a set.
fn to_hash_set(values: &Vec<String>) -> (set: StringHashSet)
    ensures
        set@ == text_set(values@),
{
    let mut set = StringHashSet::new();
    proof {
        assert(texts(values@.take(0)) =~= Seq::empty());
        assert(text_set(values@.take(0)) =~= Set::empty());
    }
    for index in 0..values.len()
        invariant
            set@ == text_set(values@.take(index as int)),
    {
        set.insert(values[index].clone());
        proof {
            assert(values@.take(index + 1) =~= values@.take(index as int).push(
                values@[index as int],
            ));
            lemma_text_set_push(values@.take(index as int), values@[index as int]);
        }
    }
    proof {
        assert(values@.take(values@.len() as int) =~= values@);
    }
    set
}

/// Checks the length of a list.
pub fn validate_list_size(field: ListField, actual: usize, maximum: usize) -> (result: Result<
    (),
    FilterError,
>)
    ensures
        match result {
            Ok(_) => actual <= maximum,
            Err(error) => actual > maximum && error == (FilterError::ListTooLong {
                field,
                maximum,
            }),
        },
{
    if actual > maximum {
        return Err(FilterError::ListTooLong { field, maximum });
    }
    Ok(())
}

/// Brings the entries of a list into their canonical form, unless something is wrong with it.
fn compile_list(
    field: ListField,
    values: &Vec<String>,
    maximum: usize,
    rejected: &Vec<String>,
) -> (result: Result<Vec<String>, FilterError>)
    ensures
        match result {
            Ok(entries) => {
                &&& list_error(field, values@, maximum, rejected@) is None
                &&& text_set(entries@) == canonical_set(field, values@)
            },
            Err(error) => list_error(field, values@, maximum, rejected@) == Some(error),
        },
{
    match validate_list_size(field, values.len(), maximum) {
        Ok(_) => {},
        Err(error) => {
            return Err(error);
        },
    }
    let mut reject = StringHashSet::new();
    proof {
        lemma_canonical_set_empty(field, rejected@.take(0));
    }
    for index in 0..rejected.len()
        invariant
            values@.len() <= maximum,
            reject@ == canonical_set(field, rejected@.take(index as int)),
            forall|i: int|
                0 <= i < index ==> canonical(field, (#[trigger] rejected@[i])@) is Some,
    {
        proof {
            lemma_canonical_set_step(field, rejected@, index as int);
        }
        match canonicalize(field, rejected[index].as_str()) {
            Some(entry) => {
                reject.insert(entry);
            },
            None => {
                return Err(FilterError::InvalidRejectList { field });
            },
        }
    }
    let mut entries: Vec<String> = Vec::new();
    proof {
        assert(rejected@.take(rejected@.len() as int) =~= rejected@);
        lemma_canonical_set_empty(field, values@.take(0));
        assert(texts(entries@) =~= Seq::empty());
        assert(text_set(entries@) =~= Set::empty());
        assert(values@.take(0) =~= Seq::empty());
    }
    for index in 0..values.len()
        invariant
            values@.len() <= maximum,
            all_valid(field, rejected@),
            reject@ == canonical_set(field, rejected@),
            text_set(entries@) == canonical_set(field, values@.take(index as int)),
            entries_error(field, values@.take(index as int), reject@) is None,
    {
        let value = &values[index];
        proof {
            lemma_canonical_set_step(field, values@, index as int);
            assert(values@.take(index + 1).drop_last() =~= values@.take(index as int));
        }
        match canonicalize(field, value.as_str()) {
            Some(entry) => {
                if reject.contains(entry.as_str()) {
                    proof {
                        lemma_entries_error_grows(
                            field,
                            values@,
                            reject@,
                            index + 1,
                            values@.len() as int,
                        );
                        assert(values@.take(values@.len() as int) =~= values@);
                    }
                    return Err(FilterError::RejectedEntry { field, value: value.clone() });
                }
                proof {
                    lemma_text_set_push(entries@, entry);
                }
                entries.push(entry);
            },
            None => {
                proof {
                    lemma_entries_error_grows(
                        field,
                        values@,
                        reject@,
                        index + 1,
                        values@.len() as int,
                    );
                    assert(values@.take(values@.len() as int) =~= values@);
                }
                return Err(FilterError::InvalidEntry { field, value: value.clone() });
            },
        }
    }
    proof {
        assert(values@.take(values@.len() as int) =~= values@);
    }
    Ok(entries)
}

/// The first bad entry stays the first one when more entries follow.
proof fn lemma_entries_error_grows(
    field: ListField,
    values: Seq<String>,
    rejected: Set<Seq<char>>,
    n: int,
    m: int,
)
    requires
        0 <= n <= m <= values.len(),
        entries_error(field, values.take(n), rejected) is Some,
    ensures
        entries_error(field, values.take(m), rejected) == entries_error(
            field,
            values.take(n),
            rejected,
        ),
    decreases m - n,
{
    if n < m {
        lemma_entries_error_grows(field, values, rejected, n, m - 1);
        assert(values.take(m).drop_last() =~= values.take(m - 1));
    }
}

/// Compiles the transaction IDs of a filter.
pub fn compile_transaction_ids(values: &Vec<String>, maximum: usize, rejected: &Vec<String>) -> (result:
    Result<Vec<String>, FilterError>)
    ensures
        match result {
            Ok(entries) => {
                &&& list_error(ListField::TransactionIds, values@, maximum, rejected@) is None
                &&& text_set(entries@) == canonical_set(ListField::TransactionIds, values@)
            },
            Err(error) => list_error(ListField::TransactionIds, values@, maximum, rejected@)
                == Some(error),
        },
{
    compile_list(ListField::TransactionIds, values, maximum, rejected)
}

/// Compiles a list of addresses of a filter.
pub fn compile_addresses(
    field: ListField,
    values: &Vec<String>,
    maximum: usize,
    rejected: &Vec<String>,
) -> (result: Result<Vec<String>, FilterError>)
    requires
        field != ListField::TransactionIds,
    ensures
        match result {
            Ok(entries) => {
                &&& list_error(field, values@, maximum, rejected@) is None
                &&& text_set(entries@) == canonical_set(field, values@)
            },
            Err(error) => list_error(field, values@, maximum, rejected@) == Some(error),
        },
{
    compile_list(field, values, maximum, rejected)
}

/// What is wrong with a selected event type, if anything is.
pub open spec fn kind_error(value: i32) -> Option<FilterError> {
    match EventType::spec_from_number(value) {
        None => Some(FilterError::UnknownEventType { value }),
        Some(kind) => if kind == EventType::Unspecified {
            Some(FilterError::UnspecifiedEventType)
        } else {
            None
        },
    }
}

/// What is wrong with the first bad event type, if there is one.
pub open spec fn kinds_error(values: Seq<i32>) -> Option<FilterError>
    decreases values.len(),
{
    if values.len() == 0 {
        None
    } else {
        match kinds_error(values.drop_last()) {
            Some(error) => Some(error),
            None => kind_error(values.last()),
        }
    }
}

/// The first bad event type stays the first one when more event types follow.
proof fn lemma_kinds_error_grows(values: Seq<i32>, n: int, m: int)
    requires
        0 <= n <= m <= values.len(),
        kinds_error(values.take(n)) is Some,
    ensures
        kinds_error(values.take(m)) == kinds_error(values.take(n)),
    decreases m - n,
{
    if n < m {
        lemma_kinds_error_grows(values, n, m - 1);
        assert(values.take(m).drop_last() =~= values.take(m - 1));
    }
}

/// Compiles event types into a mask.
fn compile_kinds(values: &Vec<i32>) -> (result: Result<u64, FilterError>)
    ensures
        match result {
            Ok(mask) => {
                &&& kinds_error(values@) is None
                &&& mask_kinds(mask) == values@.to_set()
                &&& mask == 0 <==> values@.len() == 0
            },
            Err(error) => kinds_error(values@) == Some(error),
        },
{
    let mut mask: u64 = 0;
    proof {
        lemma_mask_empty();
        assert(values@.take(0).to_set() =~= Set::<i32>::empty());
        assert(values@.take(0) =~= Seq::empty());
    }
    for index in 0..values.len()
        invariant
            kinds_error(values@.take(index as int)) is None,
            mask_kinds(mask) == values@.take(index as int).to_set(),
            mask == 0 <==> index == 0,
    {
        let value: i32 = values[index];
        let ghost now = values@.take(index + 1);
        proof {
            assert(now.drop_last() =~= values@.take(index as int));
            assert(values@.take(values@.len() as int) =~= values@);
        }
        let bit: u64 = match EventType::from_number(value) {
            None => {
                proof {
                    lemma_kinds_error_grows(values@, index + 1, values@.len() as int);
                }
                return Err(FilterError::UnknownEventType { value });
            },
            Some(kind) => {
                if kind == EventType::Unspecified {
                    proof {
                        lemma_kinds_error_grows(values@, index + 1, values@.len() as int);
                    }
                    return Err(FilterError::UnspecifiedEventType);
                }
                1u64 << (value as u32)
            },
        };
        proof {
            lemma_mask_insert(mask, value);
            assert(now.to_set() =~= values@.take(index as int).to_set().insert(value)) by {
                let before = values@.take(index as int);
                assert(now =~= before.push(value));
                assert(now[index as int] == value);
                assert forall|kind: i32| now.contains(kind) == (before.contains(kind) || kind
                    == value) by {
                    if before.contains(kind) {
                        let i = before.index_of(kind);
                        assert(now[i] == kind);
                    }
                    if now.contains(kind) {
                        let i = now.index_of(kind);
                        if i < before.len() {
                            assert(before[i] == kind);
                        }
                    }
                }
            }
        }
        mask = mask | bit;
    }
    proof {
        assert(values@.take(values@.len() as int) =~= values@);
    }
    Ok(mask)
}

/// What is wrong with a filter, if anything is. Event types come first, then the lists in the
/// order of their fields, and then the payload mode.
pub open spec fn parts_error(
    event_types: Seq<i32>,
    transaction_ids: Seq<String>,
    transparent_addresses: Seq<String>,
    address_include: Seq<String>,
    address_exclude: Seq<String>,
    address_required: Seq<String>,
    block_payload: i32,
    limits: FilterLimits,
) -> Option<FilterError> {
    let ids = list_error(
        ListField::TransactionIds,
        transaction_ids,
        limits.max_transaction_ids,
        limits.transaction_id_reject@,
    );
    let legacy = list_error(
        ListField::TransparentAddresses,
        transparent_addresses,
        limits.max_transparent_addresses,
        limits.transparent_address_reject@,
    );
    let included = list_error(
        ListField::AddressInclude,
        address_include,
        limits.max_address_include,
        limits.address_include_reject@,
    );
    let excluded = list_error(
        ListField::AddressExclude,
        address_exclude,
        limits.max_address_exclude,
        limits.address_exclude_reject@,
    );
    let required = list_error(
        ListField::AddressRequired,
        address_required,
        limits.max_address_required,
        limits.address_required_reject@,
    );
    if event_types.len() > limits.max_event_types {
        Some(FilterError::TooManyEventTypes { maximum: limits.max_event_types })
    } else if kinds_error(event_types) is Some {
        kinds_error(event_types)
    } else if ids is Some {
        ids
    } else if legacy is Some {
        legacy
    } else if included is Some {
        included
    } else if excluded is Some {
        excluded
    } else if required is Some {
        required
    } else if BlockPayload::spec_from_number(block_payload) is None {
        Some(FilterError::UnknownBlockPayload { value: block_payload })
    } else {
        None
    }
}

/// What is wrong with a filter, if anything is.
pub open spec fn filter_error(filter: SubscribeRequestFilter, limits: FilterLimits) -> Option<
    FilterError,
> {
    parts_error(
        filter.event_types@,
        filter.transaction_ids@,
        filter.transparent_addresses@,
        filter.address_include@,
        filter.address_exclude@,
        filter.address_required@,
        filter.block_payload,
        limits,
    )
}

/// How much of a block a payload mode asks for. All but the explicit metadata mode ask for all.
pub open spec fn requested_payload(block_payload: i32) -> BlockPayload {
    if block_payload == BlockPayload::MetaOnly.spec_number() {
        BlockPayload::MetaOnly
    } else {
        BlockPayload::Full
    }
}

/// The conditions of a filter.
pub open spec fn filter_view(filter: SubscribeRequestFilter) -> FilterView {
    FilterView {
        kinds: filter.event_types@.to_set(),
        min_height: filter.min_height,
        transaction_ids: canonical_set(ListField::TransactionIds, filter.transaction_ids@),
        address_include: canonical_set(ListField::AddressInclude, filter.address_include@).union(
            canonical_set(ListField::TransparentAddresses, filter.transparent_addresses@),
        ),
        address_exclude: canonical_set(ListField::AddressExclude, filter.address_exclude@),
        address_required: canonical_set(ListField::AddressRequired, filter.address_required@),
        coinbase: filter.coinbase,
        transaction_version: filter.transaction_version,
        has_transparent: filter.has_transparent,
        has_sapling: filter.has_sapling,
        has_orchard: filter.has_orchard,
        min_value_zat: filter.min_value_zat,
        block_payload: requested_payload(filter.block_payload),
    }
}

impl CompiledFilter {
    /// Compiles a filter.
    pub fn from_proto(filter: &SubscribeRequestFilter, limits: &FilterLimits) -> (result: Result<
        Self,
        FilterError,
    >)
        ensures
            match result {
                Ok(compiled) => {
                    &&& filter_error(*filter, *limits) is None
                    &&& compiled.well_formed()
                    &&& compiled@ == filter_view(*filter)
                },
                Err(error) => filter_error(*filter, *limits) == Some(error),
            },
    {
        if filter.event_types.len() > limits.max_event_types {
            return Err(FilterError::TooManyEventTypes { maximum: limits.max_event_types });
        }
        let kinds: u64 = match compile_kinds(&filter.event_types) {
            Ok(kinds) => kinds,
            Err(error) => {
                return Err(error);
            },
        };
        let transaction_ids = match compile_transaction_ids(
            &filter.transaction_ids,
            limits.max_transaction_ids,
            &limits.transaction_id_reject,
        ) {
            Ok(entries) => entries,
            Err(error) => {
                return Err(error);
            },
        };
        let legacy_addresses = match compile_addresses(
            ListField::TransparentAddresses,
            &filter.transparent_addresses,
            limits.max_transparent_addresses,
            &limits.transparent_address_reject,
        ) {
            Ok(entries) => entries,
            Err(error) => {
                return Err(error);
            },
        };
        let included_addresses = match compile_addresses(
            ListField::AddressInclude,
            &filter.address_include,
            limits.max_address_include,
            &limits.address_include_reject,
        ) {
            Ok(entries) => entries,
            Err(error) => {
                return Err(error);
            },
        };
        let excluded_addresses = match compile_addresses(
            ListField::AddressExclude,
            &filter.address_exclude,
            limits.max_address_exclude,
            &limits.address_exclude_reject,
        ) {
            Ok(entries) => entries,
            Err(error) => {
                return Err(error);
            },
        };
        let address_required = match compile_addresses(
            ListField::AddressRequired,
            &filter.address_required,
            limits.max_address_required,
            &limits.address_required_reject,
        ) {
            Ok(entries) => entries,
            Err(error) => {
                return Err(error);
            },
        };
        let block_payload = match BlockPayload::from_number(filter.block_payload) {
            Some(BlockPayload::Unspecified) | Some(BlockPayload::Full) => BlockPayload::Full,
            Some(BlockPayload::MetaOnly) => BlockPayload::MetaOnly,
            None => {
                return Err(FilterError::UnknownBlockPayload { value: filter.block_payload });
            },
        };
        let mut address_include = to_hash_set(&included_addresses);
        proof {
            assert(legacy_addresses@.take(0) =~= Seq::empty());
            assert(texts(legacy_addresses@.take(0)) =~= Seq::empty());
            assert(text_set(legacy_addresses@.take(0)) =~= Set::empty());
            assert(address_include@.union(Set::empty()) =~= address_include@);
        }
        let ghost included = address_include@;
        for index in 0..legacy_addresses.len()
            invariant
                address_include@ == included.union(
                    text_set(legacy_addresses@.take(index as int)),
                ),
        {
            proof {
                assert(legacy_addresses@.take(index + 1) =~= legacy_addresses@.take(
                    index as int,
                ).push(legacy_addresses@[index as int]));
                lemma_text_set_push(
                    legacy_addresses@.take(index as int),
                    legacy_addresses@[index as int],
                );
            }
            address_include.insert(legacy_addresses[index].clone());
            proof {
                assert(address_include@ =~= included.union(
                    text_set(legacy_addresses@.take(index + 1)),
                ));
            }
        }
        let compiled = CompiledFilter {
            kinds,
            min_height: filter.min_height,
            transaction_ids: to_hash_set(&transaction_ids),
            address_include,
            address_exclude: to_hash_set(&excluded_addresses),
            address_required,
            coinbase: filter.coinbase,
            transaction_version: filter.transaction_version,
            has_transparent: filter.has_transparent,
            has_sapling: filter.has_sapling,
            has_orchard: filter.has_orchard,
            min_value_zat: filter.min_value_zat,
            block_payload,
        };
        proof {
            assert(legacy_addresses@.take(legacy_addresses@.len() as int) =~= legacy_addresses@);
            if filter.event_types@.len() > 0 {
                assert(filter.event_types@.to_set().contains(filter.event_types@[0]));
            } else {
                assert(filter.event_types@.to_set() =~= Set::empty());
            }
        }
        Ok(compiled)
    }
}

/// Whether a filter has no condition.
pub open spec fn spec_filter_is_empty(filter: SubscribeRequestFilter) -> bool {
    &&& filter.event_types@.len() == 0
    &&& filter.min_height is None
    &&& filter.transaction_ids@.len() == 0
    &&& filter.transparent_addresses@.len() == 0
    &&& filter.address_include@.len() == 0
    &&& filter.address_exclude@.len() == 0
    &&& filter.address_required@.len() == 0
    &&& filter.coinbase is None
    &&& filter.transaction_version is None
    &&& filter.has_transparent is None
    &&& filter.has_sapling is None
    &&& filter.has_orchard is None
    &&& filter.min_value_zat is None
}

/// Whether a filter has no condition. The payload mode is none.
pub fn filter_is_empty(filter: &SubscribeRequestFilter) -> (empty: bool)
    ensures
        empty == spec_filter_is_empty(*filter),
{
    filter.event_types.len() == 0 && filter.min_height.is_none() && filter.transaction_ids.len()
        == 0 && filter.transparent_addresses.len() == 0 && filter.address_include.len() == 0
        && filter.address_exclude.len() == 0 && filter.address_required.len() == 0
        && filter.coinbase.is_none() && filter.transaction_version.is_none()
        && filter.has_transparent.is_none() && filter.has_sapling.is_none()
        && filter.has_orchard.is_none() && filter.min_value_zat.is_none()
}

/// What is wrong with the name of a filter, if anything is.
pub open spec fn name_error(name: Seq<char>, limits: FilterLimits) -> Option<FilterError> {
    if name.len() == 0 {
        Some(FilterError::EmptyName)
    } else if encode_utf8(name).len() > limits.max_name_bytes {
        Some(FilterError::NameTooLong { maximum: limits.max_name_bytes })
    } else {
        None
    }
}

/// Checks the name of a filter.
pub fn validate_name(name: &str, limits: &FilterLimits) -> (result: Result<(), FilterError>)
    ensures
        match result {
            Ok(_) => name_error(name@, *limits) is None,
            Err(error) => name_error(name@, *limits) == Some(error),
        },
{
    if is_empty(name) {
        return Err(FilterError::EmptyName);
    }
    if name.as_bytes().len() > limits.max_name_bytes {
        return Err(FilterError::NameTooLong { maximum: limits.max_name_bytes });
    }
    Ok(())
}

/// What is wrong with a named filter, if anything is.
pub open spec fn named_error(
    named: (String, SubscribeRequestFilter),
    limits: FilterLimits,
) -> Option<FilterError> {
    if name_error(named.0@, limits) is Some {
        name_error(named.0@, limits)
    } else if spec_filter_is_empty(named.1) && !limits.allow_all {
        Some(FilterError::NamedCatchAllDisabled { name: named.0 })
    } else {
        filter_error(named.1, limits)
    }
}

/// What is wrong with the first bad named filter, if there is one.
pub open spec fn named_errors(
    filters: Seq<(String, SubscribeRequestFilter)>,
    limits: FilterLimits,
) -> Option<FilterError>
    decreases filters.len(),
{
    if filters.len() == 0 {
        None
    } else {
        match named_errors(filters.drop_last(), limits) {
            Some(error) => Some(error),
            None => named_error(filters.last(), limits),
        }
    }
}

/// The first bad named filter stays the first one when more filters follow.
proof fn lemma_named_errors_grow(
    filters: Seq<(String, SubscribeRequestFilter)>,
    limits: FilterLimits,
    n: int,
    m: int,
)
    requires
        0 <= n <= m <= filters.len(),
        named_errors(filters.take(n), limits) is Some,
    ensures
        named_errors(filters.take(m), limits) == named_errors(filters.take(n), limits),
    decreases m - n,
{
    if n < m {
        lemma_named_errors_grow(filters, limits, n, m - 1);
        assert(filters.take(m).drop_last() =~= filters.take(m - 1));
    }
}

/// Whether a request has no condition at all.
pub open spec fn is_catch_all(request: SubscribeRequest) -> bool {
    request.event_types@.len() == 0 && request.filters@.len() == 0
}

/// What is wrong with the event types that a request selects without a name, if anything is.
pub open spec fn legacy_error(event_types: Seq<i32>, limits: FilterLimits) -> Option<FilterError> {
    if event_types.len() == 0 {
        None
    } else {
        parts_error(
            event_types,
            Seq::empty(),
            Seq::empty(),
            Seq::empty(),
            Seq::empty(),
            Seq::empty(),
            0,
            limits,
        )
    }
}

/// What is wrong with a request, if anything is.
pub open spec fn request_error(request: SubscribeRequest, limits: FilterLimits) -> Option<
    FilterError,
> {
    if request.filters@.len() > limits.max_named_filters {
        Some(FilterError::TooManyNamedFilters { maximum: limits.max_named_filters })
    } else if is_catch_all(request) && !limits.allow_all {
        Some(FilterError::CatchAllDisabled)
    } else if legacy_error(request.event_types@, limits) is Some {
        legacy_error(request.event_types@, limits)
    } else {
        named_errors(request.filters@, limits)
    }
}

/// The conditions of the event types that a request selects without a name.
pub open spec fn legacy_view(event_types: Seq<i32>) -> FilterView {
    FilterView {
        kinds: event_types.to_set(),
        min_height: None,
        transaction_ids: Set::empty(),
        address_include: Set::empty(),
        address_exclude: Set::empty(),
        address_required: Set::empty(),
        coinbase: None,
        transaction_version: None,
        has_transparent: None,
        has_sapling: None,
        has_orchard: None,
        min_value_zat: None,
        block_payload: BlockPayload::Full,
    }
}

/// The named filters of a request, with their conditions.
pub open spec fn requested_filters(filters: Seq<(String, SubscribeRequestFilter)>) -> Seq<
    (Seq<char>, FilterView),
> {
    filters.map_values(
        |named: (String, SubscribeRequestFilter)| (named.0@, filter_view(named.1)),
    )
}

/// Whether named filters are in the order of their names.
pub open spec fn sorted_by_name(named: Seq<(Seq<char>, FilterView)>) -> bool {
    forall|i: int, j: int|
        0 <= i < j < named.len() ==> !precedes((#[trigger] named[j]).0, (#[trigger] named[i]).0)
}

/// What a request selects.
pub struct RequestView {
    /// Whether it selects every update.
    pub all: bool,
    /// The conditions without a name.
    pub legacy: Option<FilterView>,
    /// The conditions with a name, in the order of the names.
    pub named: Seq<(Seq<char>, FilterView)>,
}

/// Whether this is what a request selects.
pub open spec fn compiles(view: RequestView, request: SubscribeRequest) -> bool {
    &&& view.all == is_catch_all(request)
    &&& view.legacy == (if request.event_types@.len() == 0 {
        None
    } else {
        Some(legacy_view(request.event_types@))
    })
    &&& sorted_by_name(view.named)
    &&& view.named.to_multiset() == requested_filters(request.filters@).to_multiset()
}

/// A validated subscription filter compiled for the live hot path.
pub struct EventFilter {
    default_all: bool,
    legacy: Option<CompiledFilter>,
    named: Vec<(String, CompiledFilter)>,
    needs_addresses: bool,
}

/// The named filters with their conditions.
spec fn named_view(named: Seq<(String, CompiledFilter)>) -> Seq<(Seq<char>, FilterView)> {
    named.map_values(|named: (String, CompiledFilter)| (named.0@, named.1@))
}

impl View for EventFilter {
    type V = RequestView;

    closed spec fn view(&self) -> RequestView {
        RequestView {
            all: self.default_all,
            legacy: match self.legacy {
                Some(filter) => Some(filter@),
                None => None,
            },
            named: named_view(self.named@),
        }
    }
}

/// Match attribution and the richest block representation requested by its filters.
#[derive(Debug)]
pub struct FilterMatch {
    pub names: Vec<String>,
    pub block_payload: BlockPayload,
}

/// The names of the filters that an update meets, in their order.
pub open spec fn matched_names(named: Seq<(Seq<char>, FilterView)>, update: SubscribeUpdate) -> Seq<
    Seq<char>,
>
    decreases named.len(),
{
    if named.len() == 0 {
        Seq::empty()
    } else if named.last().1.matches(update) {
        matched_names(named.drop_last(), update).push(named.last().0)
    } else {
        matched_names(named.drop_last(), update)
    }
}

impl RequestView {
    /// Whether an update meets the conditions without a name.
    pub open spec fn legacy_matches(self, update: SubscribeUpdate) -> bool {
        self.legacy is Some && self.legacy->0.matches(update)
    }

    /// Whether an update is selected.
    pub open spec fn selects(self, update: SubscribeUpdate) -> bool {
        self.all || self.legacy_matches(update) || exists|i: int|
            0 <= i < self.named.len() && (#[trigger] self.named[i]).1.matches(update)
    }

    /// Whether a filter that an update meets asks for full blocks. Conditions without a name do.
    pub open spec fn wants_full(self, update: SubscribeUpdate) -> bool {
        self.all || self.legacy_matches(update) || exists|i: int|
            {
                &&& 0 <= i < self.named.len()
                &&& (#[trigger] self.named[i]).1.matches(update)
                &&& self.named[i].1.block_payload == BlockPayload::Full
            }
    }

    /// The richest block payload that the filters that an update meets ask for.
    pub open spec fn payload(self, update: SubscribeUpdate) -> BlockPayload {
        if self.wants_full(update) {
            BlockPayload::Full
        } else {
            BlockPayload::MetaOnly
        }
    }
}

/// The outcome of holding an update against a request.
pub open spec fn match_outcome(
    result: Option<FilterMatch>,
    view: RequestView,
    update: SubscribeUpdate,
) -> bool {
    match result {
        Some(matched) => {
            &&& view.selects(update)
            &&& texts(matched.names@) == matched_names(view.named, update)
            &&& matched.block_payload == view.payload(update)
        },
        None => !view.selects(update),
    }
}

/// Puts a named filter into its place.
fn insert_named(named: &mut Vec<(String, CompiledFilter)>, name: String, filter: CompiledFilter)
    requires
        sorted_by_name(named_view(old(named)@)),
    ensures
        sorted_by_name(named_view(final(named)@)),
        named_view(final(named)@).to_multiset() == named_view(old(named)@).to_multiset().insert(
            (name@, filter@),
        ),
        exists|place: int|
            0 <= place <= old(named)@.len() && final(named)@ == #[trigger] old(named)@.insert(
                place,
                (name, filter),
            ),
{
    let ghost before = named_view(named@);
    let mut place: usize = 0;
    while place < named.len() && !text_precedes(name.as_str(), named[place].0.as_str())
        invariant
            before == named_view(named@),
            place <= named@.len(),
            forall|i: int| 0 <= i < place ==> !precedes(name@, (#[trigger] before[i]).0),
        ensures
            place <= named@.len(),
            forall|i: int| 0 <= i < place ==> !precedes(name@, (#[trigger] before[i]).0),
            place < named@.len() ==> precedes(name@, before[place as int].0),
        decreases named@.len() - place,
    {
        place = place + 1;
    }
    let ghost entry = (name@, filter@);
    named.insert(place, (name, filter));
    proof {
        let after = named_view(named@);
        assert(after =~= before.insert(place as int, entry));
        vstd::seq_lib::to_multiset_insert(before, place as int, entry);
        assert forall|i: int, j: int| 0 <= i < j < after.len() implies !precedes(
            (#[trigger] after[j]).0,
            (#[trigger] after[i]).0,
        ) by {
            if i < place && j > place {
                assert(!precedes(before[j - 1].0, before[i].0));
            } else if i > place {
                assert(!precedes(before[j - 1].0, before[i - 1].0));
            } else if j < place {
                assert(!precedes(before[j].0, before[i].0));
            } else if i == place {
                if j - 1 > place {
                    assert(!precedes(before[j - 1].0, before[place as int].0));
                    lemma_precedes_transitive(
                        entry.0,
                        before[place as int].0,
                        before[j - 1].0,
                    );
                }
                lemma_precedes_asymmetric(entry.0, before[j - 1].0);
            } else {
                assert(!precedes(entry.0, before[i].0));
            }
        }
    }
}

/// Whether some filter has a condition on addresses.
spec fn some_use_addresses(named: Seq<(Seq<char>, FilterView)>) -> bool {
    exists|i: int| 0 <= i < named.len() && (#[trigger] named[i]).1.uses_addresses()
}

/// Whether all filters are well formed.
spec fn all_well_formed(named: Seq<(String, CompiledFilter)>) -> bool {
    forall|i: int| 0 <= i < named.len() ==> (#[trigger] named[i]).1.well_formed()
}

impl EventFilter {
    /// Whether addresses are collected whenever some filter has a condition on them.
    pub closed spec fn well_formed(self) -> bool {
        &&& self.legacy is Some ==> self.legacy->0.well_formed()
        &&& all_well_formed(self.named@)
        &&& self.needs_addresses == (self@.legacy is Some && self@.legacy->0.uses_addresses()
            || some_use_addresses(self@.named))
    }

    /// Compiles the named filters of a request.
    fn compile_named(filters: &Vec<(String, SubscribeRequestFilter)>, limits: &FilterLimits) -> (result:
        Result<Vec<(String, CompiledFilter)>, FilterError>)
        ensures
            match result {
                Ok(named) => {
                    &&& named_errors(filters@, *limits) is None
                    &&& all_well_formed(named@)
                    &&& sorted_by_name(named_view(named@))
                    &&& named_view(named@).to_multiset() == requested_filters(
                        filters@,
                    ).to_multiset()
                },
                Err(error) => named_errors(filters@, *limits) == Some(error),
            },
    {
        let mut named: Vec<(String, CompiledFilter)> = Vec::new();
        proof {
            assert(filters@.take(0) =~= Seq::empty());
            assert(requested_filters(filters@.take(0)) =~= named_view(named@));
            assert(filters@.take(filters@.len() as int) =~= filters@);
        }
        for index in 0..filters.len()
            invariant
                filters@.take(filters@.len() as int) == filters@,
                named_errors(filters@.take(index as int), *limits) is None,
                all_well_formed(named@),
                sorted_by_name(named_view(named@)),
                named_view(named@).to_multiset() == requested_filters(
                    filters@.take(index as int),
                ).to_multiset(),
        {
            let entry = &filters[index];
            let ghost n = index as int;
            let ghost before = named@;
            proof {
                let now = filters@.take(n + 1);
                assert(now.drop_last() =~= filters@.take(n));
                assert(requested_filters(now) =~= requested_filters(filters@.take(n)).push(
                    (entry.0@, filter_view(entry.1)),
                ));
                vstd::seq_lib::to_multiset_build(
                    requested_filters(filters@.take(n)),
                    (entry.0@, filter_view(entry.1)),
                );
                if named_errors(now, *limits) is Some {
                    lemma_named_errors_grow(filters@, *limits, n + 1, filters@.len() as int);
                }
            }
            match validate_name(entry.0.as_str(), limits) {
                Ok(_) => {},
                Err(error) => {
                    return Err(error);
                },
            }
            if filter_is_empty(&entry.1) && !limits.allow_all {
                return Err(FilterError::NamedCatchAllDisabled { name: entry.0.clone() });
            }
            let compiled = match CompiledFilter::from_proto(&entry.1, limits) {
                Ok(compiled) => compiled,
                Err(error) => {
                    return Err(error);
                },
            };
            insert_named(&mut named, entry.0.clone(), compiled);
            proof {
                let place = choose|place: int|
                    0 <= place <= before.len() && named@ == #[trigger] before.insert(
                        place,
                        (entry.0, compiled),
                    );
                assert forall|i: int| 0 <= i < named@.len() implies (
                #[trigger] named@[i]).1.well_formed() by {
                    if i < place {
                        assert(named@[i] == before[i]);
                    } else if i > place {
                        assert(named@[i] == before[i - 1]);
                    }
                }
            }
        }
        Ok(named)
    }

    /// Validates a request and compiles it.
    pub fn new(request: &SubscribeRequest, limits: &FilterLimits) -> (result: Result<Self, Status>)
        ensures
            match result {
                Ok(filter) => {
                    &&& request_error(*request, *limits) is None
                    &&& filter.well_formed()
                    &&& compiles(filter@, *request)
                },
                Err(status) => {
                    &&& request_error(*request, *limits) matches Some(error)
                    &&& status.code == error.spec_code()
                    &&& status.message@ == error.spec_message()
                },
            },
    {
        match Self::compile(request, limits) {
            Ok(filter) => Ok(filter),
            Err(error) => Err(error.status()),
        }
    }

    /// Validates a request and compiles it.
    fn compile(request: &SubscribeRequest, limits: &FilterLimits) -> (result: Result<
        Self,
        FilterError,
    >)
        ensures
            match result {
                Ok(filter) => {
                    &&& request_error(*request, *limits) is None
                    &&& filter.well_formed()
                    &&& compiles(filter@, *request)
                },
                Err(error) => request_error(*request, *limits) == Some(error),
            },
    {
        if request.filters.len() > limits.max_named_filters {
            return Err(FilterError::TooManyNamedFilters { maximum: limits.max_named_filters });
        }
        let default_all = request.event_types.len() == 0 && request.filters.len() == 0;
        if default_all && !limits.allow_all {
            return Err(FilterError::CatchAllDisabled);
        }
        let mut legacy: Option<CompiledFilter> = None;
        if request.event_types.len() > 0 {
            let filter = SubscribeRequestFilter {
                event_types: request.event_types.clone(),
                min_height: None,
                transaction_ids: Vec::new(),
                transparent_addresses: Vec::new(),
                address_include: Vec::new(),
                address_exclude: Vec::new(),
                address_required: Vec::new(),
                coinbase: None,
                transaction_version: None,
                has_transparent: None,
                has_sapling: None,
                has_orchard: None,
                min_value_zat: None,
                block_payload: 0,
            };
            proof {
                assert(filter.event_types@ =~= request.event_types@);
                lemma_canonical_set_empty(ListField::TransactionIds, Seq::empty());
                lemma_canonical_set_empty(ListField::TransparentAddresses, Seq::empty());
                lemma_canonical_set_empty(ListField::AddressInclude, Seq::empty());
                lemma_canonical_set_empty(ListField::AddressExclude, Seq::empty());
                lemma_canonical_set_empty(ListField::AddressRequired, Seq::empty());
                assert(filter_view(filter) =~= legacy_view(request.event_types@));
            }
            legacy =
            match CompiledFilter::from_proto(&filter, limits) {
                Ok(compiled) => Some(compiled),
                Err(error) => {
                    return Err(error);
                },
            };
        }
        let named = match Self::compile_named(&request.filters, limits) {
            Ok(named) => named,
            Err(error) => {
                return Err(error);
            },
        };
        let mut needs_addresses = match &legacy {
            Some(filter) => filter.uses_addresses(),
            None => false,
        };
        let ghost legacy_needs = needs_addresses;
        let ghost view = named_view(named@);
        for index in 0..named.len()
            invariant
                view == named_view(named@),
                needs_addresses == (legacy_needs || some_use_addresses(view.take(index as int))),
        {
            proof {
                let before = view.take(index as int);
                let now = view.take(index + 1);
                assert(now[index as int] == view[index as int]);
                if some_use_addresses(before) {
                    let i = choose|i: int|
                        0 <= i < before.len() && (#[trigger] before[i]).1.uses_addresses();
                    assert(now[i] == before[i]);
                }
                if some_use_addresses(now) && !view[index as int].1.uses_addresses() {
                    let i = choose|i: int|
                        0 <= i < now.len() && (#[trigger] now[i]).1.uses_addresses();
                    assert(before[i] == now[i]);
                }
            }
            if named[index].1.uses_addresses() {
                needs_addresses = true;
            }
        }
        proof {
            assert(view.take(view.len() as int) =~= view);
        }
        Ok(EventFilter { default_all, legacy, named, needs_addresses })
    }

    /// Returns match attribution and payload projection, or `None` when the update is skipped.
    pub fn matched(&self, update: &SubscribeUpdate) -> (result: Option<FilterMatch>)
        requires
            self.well_formed(),
        ensures
            match_outcome(result, self@, *update),
    {
        let context = UpdateContext::new(update, self.needs_addresses);
        proof {
            assert(context.well_formed(self.needs_addresses));
        }
        let legacy_matches = match &self.legacy {
            Some(filter) => filter.matches(&context),
            None => false,
        };
        let ghost view = named_view(self.named@);
        let mut names: Vec<String> = Vec::new();
        let mut full = self.default_all || legacy_matches;
        proof {
            assert(view.take(0) =~= Seq::empty());
            assert(texts(names@) =~= Seq::empty());
        }
        for index in 0..self.named.len()
            invariant
                self.well_formed(),
                context.update == update,
                context.well_formed(self.needs_addresses),
                view == named_view(self.named@),
                self@.named == view,
                texts(names@) == matched_names(view.take(index as int), *update),
                names@.len() > 0 <==> exists|i: int|
                    0 <= i < index && (#[trigger] view[i]).1.matches(*update),
                full == (self.default_all || legacy_matches || exists|i: int|
                    {
                        &&& 0 <= i < index
                        &&& (#[trigger] view[i]).1.matches(*update)
                        &&& view[i].1.block_payload == BlockPayload::Full
                    }),
        {
            let entry = &self.named[index];
            proof {
                assert(view[index as int] == (entry.0@, entry.1@));
                assert(view.take(index + 1).drop_last() =~= view.take(index as int));
                if entry.1@.uses_addresses() {
                    assert(some_use_addresses(view));
                }
            }
            if entry.1.matches(&context) {
                let ghost before = names@;
                names.push(entry.0.clone());
                proof {
                    assert(texts(names@) =~= texts(before).push(entry.0@));
                }
                if entry.1.block_payload == BlockPayload::Full {
                    full = true;
                }
            }
        }
        proof {
            assert(view.take(view.len() as int) =~= view);
        }
        if !self.default_all && !legacy_matches && names.len() == 0 {
            return None;
        }
        let block_payload = if full {
            BlockPayload::Full
        } else {
            BlockPayload::MetaOnly
        };
        Some(FilterMatch { names, block_payload })
    }
}

/// What is wrong with a filter depends on the limits by their contents only.
proof fn lemma_same_limits_same_filter_error(
    named: (String, SubscribeRequestFilter),
    left: FilterLimits,
    right: FilterLimits,
)
    requires
        same_limits(left, right),
    ensures
        named_error(named, left) == named_error(named, right),
{
}

/// What is wrong with named filters depends on the limits by their contents only.
proof fn lemma_same_limits_same_named_errors(
    filters: Seq<(String, SubscribeRequestFilter)>,
    left: FilterLimits,
    right: FilterLimits,
)
    requires
        same_limits(left, right),
    ensures
        named_errors(filters, left) == named_errors(filters, right),
    decreases filters.len(),
{
    if filters.len() > 0 {
        lemma_same_limits_same_named_errors(filters.drop_last(), left, right);
        lemma_same_limits_same_filter_error(filters.last(), left, right);
    }
}

/// Limits with the same contents accept the same requests, and reject the others for the same
/// reason.
pub proof fn law_same_limits_same_verdict(
    request: SubscribeRequest,
    left: FilterLimits,
    right: FilterLimits,
)
    requires
        same_limits(left, right),
    ensures
        request_error(request, left) == request_error(request, right),
{
    lemma_same_limits_same_named_errors(request.filters@, left, right);
}

/// A request without conditions selects every update, names no filter, and asks for full blocks.
pub proof fn law_empty_request_matches_everything(
    view: RequestView,
    request: SubscribeRequest,
    update: SubscribeUpdate,
)
    requires
        compiles(view, request),
        is_catch_all(request),
    ensures
        view.selects(update),
        matched_names(view.named, update).len() == 0,
        view.payload(update) == BlockPayload::Full,
{
    broadcast use vstd::seq_lib::group_to_multiset_ensures;

    let requested = requested_filters(request.filters@);
    assert(requested.len() == 0);
    assert(view.named.to_multiset().len() == requested.to_multiset().len());
    assert(view.named.len() == 0);
}

/// Whether no two filters have the same name.
pub open spec fn distinct_names(named: Seq<(Seq<char>, FilterView)>) -> bool {
    forall|i: int, j: int|
        0 <= i < j < named.len() ==> (#[trigger] named[i]).0 != (#[trigger] named[j]).0
}

/// Whether an update meets a filter with some name.
pub open spec fn is_matched(
    named: Seq<(Seq<char>, FilterView)>,
    update: SubscribeUpdate,
    name: Seq<char>,
) -> bool {
    exists|k: int|
        0 <= k < named.len() && (#[trigger] named[k]).1.matches(update) && named[k].0 == name
}

/// The filter behind one of the names.
proof fn lemma_matched_filter(
    named: Seq<(Seq<char>, FilterView)>,
    update: SubscribeUpdate,
    position: int,
) -> (index: int)
    requires
        0 <= position < matched_names(named, update).len(),
    ensures
        0 <= index < named.len(),
        named[index].1.matches(update),
        named[index].0 == matched_names(named, update)[position],
    decreases named.len(),
{
    let rest = named.drop_last();
    if position < matched_names(rest, update).len() {
        let index = lemma_matched_filter(rest, update, position);
        assert(named[index] == rest[index]);
        index
    } else {
        named.len() - 1
    }
}

/// The names that come with an update are names of filters that it meets, in ascending order.
#[verifier::spinoff_prover]
pub proof fn law_matched_names_are_sorted(
    named: Seq<(Seq<char>, FilterView)>,
    update: SubscribeUpdate,
)
    requires
        sorted_by_name(named),
    ensures
        forall|i: int, j: int|
            0 <= i < j < matched_names(named, update).len() ==> !precedes(
                #[trigger] matched_names(named, update)[j],
                #[trigger] matched_names(named, update)[i],
            ),
        forall|i: int|
            0 <= i < matched_names(named, update).len() ==> is_matched(
                named,
                update,
                #[trigger] matched_names(named, update)[i],
            ),
    decreases named.len(),
{
    let names = matched_names(named, update);
    assert forall|i: int| 0 <= i < names.len() implies is_matched(
        named,
        update,
        #[trigger] names[i],
    ) by {
        let k = lemma_matched_filter(named, update, i);
        assert(named[k].1.matches(update) && named[k].0 == names[i]);
    }
    if named.len() > 0 {
        let rest = named.drop_last();
        let earlier = matched_names(rest, update);
        assert forall|i: int, j: int| 0 <= i < j < rest.len() implies !precedes(
            (#[trigger] rest[j]).0,
            (#[trigger] rest[i]).0,
        ) by {
            assert(!precedes(named[j].0, named[i].0));
        }
        law_matched_names_are_sorted(rest, update);
        assert forall|i: int, j: int| 0 <= i < j < names.len() implies !precedes(
            #[trigger] names[j],
            #[trigger] names[i],
        ) by {
            assert(names[i] == earlier[i]);
            if j < earlier.len() {
                assert(names[j] == earlier[j]);
                assert(!precedes(earlier[j], earlier[i]));
            } else {
                let last = named.len() - 1;
                let k = lemma_matched_filter(rest, update, i);
                assert(named[k] == rest[k]);
                assert(named[k].0 == names[i] && named[last].0 == names[j]);
                assert(!precedes(named[last].0, named[k].0));
            }
        }
    }
}

/// There is one order of filters with different names.
proof fn lemma_one_order(
    first: Seq<(Seq<char>, FilterView)>,
    second: Seq<(Seq<char>, FilterView)>,
)
    requires
        sorted_by_name(first),
        sorted_by_name(second),
        distinct_names(first),
        distinct_names(second),
        first.to_multiset() == second.to_multiset(),
    ensures
        first == second,
    decreases first.len(),
{
    broadcast use vstd::seq_lib::group_to_multiset_ensures;

    assert(first.to_multiset().len() == first.len());
    assert(second.to_multiset().len() == second.len());
    if first.len() > 0 {
        assert(second.contains(first[0])) by {
            assert(first.contains(first[0]));
            assert(first.to_multiset().count(first[0]) > 0);
        }
        assert(first.contains(second[0])) by {
            assert(second.contains(second[0]));
            assert(second.to_multiset().count(second[0]) > 0);
        }
        let j = second.index_of(first[0]);
        let i = first.index_of(second[0]);
        if j > 0 && i > 0 {
            assert(!precedes(second[j].0, second[0].0));
            assert(!precedes(first[i].0, first[0].0));
            lemma_precedes_total(first[0].0, second[0].0);
            assert(second[0].0 != second[j].0);
        }
        assert(first[0] == second[0]);
        let a = first.drop_first();
        let b = second.drop_first();
        assert(a =~= first.remove(0));
        assert(b =~= second.remove(0));
        assert forall|i: int, j: int| 0 <= i < j < a.len() implies !precedes(
            (#[trigger] a[j]).0,
            (#[trigger] a[i]).0,
        ) by {
            assert(!precedes(first[j + 1].0, first[i + 1].0));
        }
        assert forall|i: int, j: int| 0 <= i < j < b.len() implies !precedes(
            (#[trigger] b[j]).0,
            (#[trigger] b[i]).0,
        ) by {
            assert(!precedes(second[j + 1].0, second[i + 1].0));
        }
        assert forall|i: int, j: int| 0 <= i < j < a.len() implies (#[trigger] a[i]).0 != (
        #[trigger] a[j]).0 by {
            assert(first[i + 1].0 != first[j + 1].0);
        }
        assert forall|i: int, j: int| 0 <= i < j < b.len() implies (#[trigger] b[i]).0 != (
        #[trigger] b[j]).0 by {
            assert(second[i + 1].0 != second[j + 1].0);
        }
        lemma_one_order(a, b);
        assert(first =~= seq![first[0]] + a);
        assert(second =~= seq![second[0]] + b);
    } else {
        assert(first =~= second);
    }
}

/// The same filters in another order have different names as well.
proof fn lemma_distinct_names(
    first: Seq<(Seq<char>, FilterView)>,
    second: Seq<(Seq<char>, FilterView)>,
)
    requires
        distinct_names(first),
        first.to_multiset() == second.to_multiset(),
    ensures
        distinct_names(second),
{
    broadcast use vstd::seq_lib::group_to_multiset_ensures;

    assert(first.no_duplicates());
    first.lemma_multiset_has_no_duplicates();
    second.lemma_multiset_has_no_duplicates_conv();
    assert forall|i: int, j: int| 0 <= i < j < second.len() implies (#[trigger] second[i]).0 != (
    #[trigger] second[j]).0 by {
        assert(second.contains(second[i]) && second.contains(second[j]));
        assert(second.to_multiset().count(second[i]) > 0);
        assert(second.to_multiset().count(second[j]) > 0);
        assert(first.contains(second[i]) && first.contains(second[j]));
        let p = first.index_of(second[i]);
        let q = first.index_of(second[j]);
        assert(second[i] != second[j]);
        assert(p != q);
    }
}

/// The order in which a request lists its filters does not matter: a request with the same
/// filters in another order selects the same updates under the same names, in the same order.
pub proof fn law_request_order_does_not_matter(
    first: RequestView,
    request: SubscribeRequest,
    second: RequestView,
    reordered: SubscribeRequest,
)
    requires
        compiles(first, request),
        compiles(second, reordered),
        request.event_types@ == reordered.event_types@,
        distinct_names(requested_filters(request.filters@)),
        requested_filters(request.filters@).to_multiset() == requested_filters(
            reordered.filters@,
        ).to_multiset(),
    ensures
        first == second,
{
    broadcast use vstd::seq_lib::group_to_multiset_ensures;

    let requested = requested_filters(request.filters@);
    let permuted = requested_filters(reordered.filters@);
    assert(requested.to_multiset().len() == permuted.to_multiset().len());
    lemma_distinct_names(requested, first.named);
    lemma_distinct_names(requested, second.named);
    lemma_one_order(first.named, second.named);
}

/// Every named filter that an update meets is named on the update, and no other one is.
pub proof fn law_every_matching_name_is_returned(
    named: Seq<(Seq<char>, FilterView)>,
    update: SubscribeUpdate,
    name: Seq<char>,
)
    ensures
        matched_names(named, update).contains(name) <==> is_matched(named, update, name),
    decreases named.len(),
{
    let names = matched_names(named, update);
    if names.contains(name) {
        let k = lemma_matched_filter(named, update, names.index_of(name));
        assert(named[k].1.matches(update) && named[k].0 == name);
    }
    if is_matched(named, update, name) {
        let k = choose|k: int|
            0 <= k < named.len() && (#[trigger] named[k]).1.matches(update) && named[k].0 == name;
        let rest = named.drop_last();
        if k < rest.len() {
            assert(rest[k] == named[k]);
            law_every_matching_name_is_returned(rest, update, name);
            let i = matched_names(rest, update).index_of(name);
            assert(names[i] == name);
        } else {
            assert(names[names.len() - 1] == name);
        }
    }
}

} // verus!
