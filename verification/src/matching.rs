//! Which updates a filter selects.

use crate::event::spec_block_height;
use crate::proto::{
    BestChainUpdateChange, BlockPayload, SubscribeUpdate, TransparentInput, TransparentInputKind,
    TransparentOutput, Update, UtxoChange, UtxoChangeKind,
};
use vstd::hash_set::StringHashSet;
use vstd::prelude::*;

verus! {

/// The conditions of a filter. An update has to meet all of them.
#[verifier::ext_equal]
pub struct FilterView {
    /// The event types; empty selects all of them.
    pub kinds: Set<i32>,
    pub min_height: Option<u32>,
    /// The transaction IDs; empty selects every update.
    pub transaction_ids: Set<Seq<char>>,
    /// The addresses of which one has to occur; empty asks for none.
    pub address_include: Set<Seq<char>>,
    /// The addresses of which none may occur.
    pub address_exclude: Set<Seq<char>>,
    /// The addresses that all have to occur.
    pub address_required: Set<Seq<char>>,
    pub coinbase: Option<bool>,
    pub transaction_version: Option<u32>,
    pub has_transparent: Option<bool>,
    pub has_sapling: Option<bool>,
    pub has_orchard: Option<bool>,
    pub min_value_zat: Option<u64>,
    /// How much of a block the filter asks for.
    pub block_payload: BlockPayload,
}

/// The previous address of an input, if it is known.
pub open spec fn input_address(input: TransparentInput) -> Option<Seq<char>> {
    match input.input {
        Some(TransparentInputKind::Prevout(previous)) => match previous.previous_address {
            Some(address) => Some(address@),
            None => None,
        },
        _ => None,
    }
}

/// The address of an output, if it has one.
pub open spec fn output_address(output: TransparentOutput) -> Option<Seq<char>> {
    match output.address {
        Some(address) => Some(address@),
        None => None,
    }
}

/// The address of a created or spent output, if it is known.
pub open spec fn change_address(change: UtxoChange) -> Option<Seq<char>> {
    match change.change {
        Some(UtxoChangeKind::Created(created)) => match created.address {
            Some(address) => Some(address@),
            None => None,
        },
        Some(UtxoChangeKind::Spent(spent)) => match spent.previous_address {
            Some(address) => Some(address@),
            None => None,
        },
        None => None,
    }
}

/// The values that are present, in their order.
pub open spec fn present<T>(values: Seq<Option<T>>) -> Seq<T>
    decreases values.len(),
{
    if values.len() == 0 {
        Seq::empty()
    } else {
        match values.last() {
            Some(value) => present(values.drop_last()).push(value),
            None => present(values.drop_last()),
        }
    }
}

/// The known addresses of inputs, in their order.
pub open spec fn input_addresses(inputs: Seq<TransparentInput>) -> Seq<Seq<char>> {
    present(inputs.map_values(|input: TransparentInput| input_address(input)))
}

/// The known addresses of outputs, in their order.
pub open spec fn output_addresses(outputs: Seq<TransparentOutput>) -> Seq<Seq<char>> {
    present(outputs.map_values(|output: TransparentOutput| output_address(output)))
}

/// The known addresses of created and spent outputs, in their order.
pub open spec fn change_addresses(changes: Seq<UtxoChange>) -> Seq<Seq<char>> {
    present(changes.map_values(|change: UtxoChange| change_address(change)))
}

/// The addresses of an update, if it is of a kind that has addresses.
pub open spec fn update_addresses(update: SubscribeUpdate) -> Option<Seq<Seq<char>>> {
    match update.update {
        Some(Update::Transaction(transaction)) => Some(
            input_addresses(transaction.transparent_inputs@) + output_addresses(
                transaction.transparent_outputs@,
            ),
        ),
        Some(Update::MempoolTransaction(transaction)) => Some(
            input_addresses(transaction.transparent_inputs@) + output_addresses(
                transaction.transparent_outputs@,
            ),
        ),
        Some(Update::Utxo(utxo)) => Some(change_addresses(utxo.changes@)),
        _ => None,
    }
}

/// Whether one of the listed texts is wanted.
pub open spec fn lists_one_of(values: Seq<String>, wanted: Set<Seq<char>>) -> bool {
    exists|i: int| 0 <= i < values.len() && wanted.contains((#[trigger] values[i])@)
}

/// Whether an update is about one of the wanted transactions.
pub open spec fn mentions_transaction(update: SubscribeUpdate, wanted: Set<Seq<char>>) -> bool {
    match update.update {
        Some(Update::Transaction(transaction)) => wanted.contains(transaction.transaction_id@),
        Some(Update::MempoolTransaction(transaction)) => wanted.contains(
            transaction.transaction_id@,
        ),
        Some(Update::Utxo(utxo)) => wanted.contains(utxo.transaction_id@),
        Some(Update::Mempool(mempool)) => lists_one_of(mempool.transaction_ids@, wanted),
        Some(Update::BestChain(best_chain)) => match best_chain.change {
            Some(BestChainUpdateChange::Grow(grow)) => lists_one_of(
                grow.transaction_ids@,
                wanted,
            ),
            _ => false,
        },
        _ => false,
    }
}

/// What is known of the transaction of an update.
#[derive(Clone, Copy, Debug, PartialEq, Eq, Structural)]
pub struct TransactionFacts {
    pub coinbase: bool,
    pub version: u32,
    /// The pools that the transaction touches, one bit for each.
    pub features: u8,
    pub transparent_input_value_zat: Option<u64>,
    pub transparent_output_value_zat: u64,
}

/// The bit for transparent inputs or outputs.
pub const HAS_TRANSPARENT: u8 = 1;

/// The bit for Sapling data.
pub const HAS_SAPLING: u8 = 2;

/// The bit for Orchard data.
pub const HAS_ORCHARD: u8 = 4;

/// The bits for the pools that a transaction touches.
pub open spec fn feature_bits(has_transparent: bool, has_sapling: bool, has_orchard: bool) -> u8 {
    ((if has_transparent {
        1int
    } else {
        0
    }) + (if has_sapling {
        2int
    } else {
        0
    }) + (if has_orchard {
        4int
    } else {
        0
    })) as u8
}

/// The bits for the pools that a transaction touches.
pub fn transaction_feature_bits(has_transparent: bool, has_sapling: bool, has_orchard: bool) -> (bits:
    u8)
    ensures
        bits == feature_bits(has_transparent, has_sapling, has_orchard),
{
    let transparent: u8 = if has_transparent {
        HAS_TRANSPARENT
    } else {
        0
    };
    let sapling: u8 = if has_sapling {
        HAS_SAPLING
    } else {
        0
    };
    let orchard: u8 = if has_orchard {
        HAS_ORCHARD
    } else {
        0
    };
    assert((0u8 | 0u8) | 0u8 == 0u8) by (bit_vector);
    assert((1u8 | 0u8) | 0u8 == 1u8) by (bit_vector);
    assert((0u8 | 2u8) | 0u8 == 2u8) by (bit_vector);
    assert((1u8 | 2u8) | 0u8 == 3u8) by (bit_vector);
    assert((0u8 | 0u8) | 4u8 == 4u8) by (bit_vector);
    assert((1u8 | 0u8) | 4u8 == 5u8) by (bit_vector);
    assert((0u8 | 2u8) | 4u8 == 6u8) by (bit_vector);
    assert((1u8 | 2u8) | 4u8 == 7u8) by (bit_vector);
    transparent | sapling | orchard
}

impl TransactionFacts {
    /// Whether a bit is set.
    pub open spec fn spec_has_feature(self, feature: u8) -> bool {
        self.features & feature != 0
    }

    /// Whether the transaction touches a pool.
    pub fn has_feature(self, feature: u8) -> (present: bool)
        ensures
            present == self.spec_has_feature(feature),
    {
        self.features & feature != 0
    }
}

/// Each pool has a bit of its own.
pub proof fn law_features_are_independent(
    has_transparent: bool,
    has_sapling: bool,
    has_orchard: bool,
)
    ensures
        (feature_bits(has_transparent, has_sapling, has_orchard) & HAS_TRANSPARENT != 0)
            == has_transparent,
        (feature_bits(has_transparent, has_sapling, has_orchard) & HAS_SAPLING != 0) == has_sapling,
        (feature_bits(has_transparent, has_sapling, has_orchard) & HAS_ORCHARD != 0) == has_orchard,
{
    assert(0u8 & 1u8 == 0 && 0u8 & 2u8 == 0 && 0u8 & 4u8 == 0) by (bit_vector);
    assert(1u8 & 1u8 == 1 && 1u8 & 2u8 == 0 && 1u8 & 4u8 == 0) by (bit_vector);
    assert(2u8 & 1u8 == 0 && 2u8 & 2u8 == 2 && 2u8 & 4u8 == 0) by (bit_vector);
    assert(3u8 & 1u8 == 1 && 3u8 & 2u8 == 2 && 3u8 & 4u8 == 0) by (bit_vector);
    assert(4u8 & 1u8 == 0 && 4u8 & 2u8 == 0 && 4u8 & 4u8 == 4) by (bit_vector);
    assert(5u8 & 1u8 == 1 && 5u8 & 2u8 == 0 && 5u8 & 4u8 == 4) by (bit_vector);
    assert(6u8 & 1u8 == 0 && 6u8 & 2u8 == 2 && 6u8 & 4u8 == 4) by (bit_vector);
    assert(7u8 & 1u8 == 1 && 7u8 & 2u8 == 2 && 7u8 & 4u8 == 4) by (bit_vector);
}

/// What is known of the transaction of an update, if the update is about one.
pub open spec fn transaction_facts(update: SubscribeUpdate) -> Option<TransactionFacts> {
    match update.update {
        Some(Update::Transaction(transaction)) => Some(
            TransactionFacts {
                coinbase: transaction.coinbase,
                version: transaction.version,
                features: feature_bits(
                    transaction.has_transparent,
                    transaction.has_sapling,
                    transaction.has_orchard,
                ),
                transparent_input_value_zat: transaction.transparent_input_value_zat,
                transparent_output_value_zat: transaction.transparent_output_value_zat,
            },
        ),
        Some(Update::MempoolTransaction(transaction)) => Some(
            TransactionFacts {
                coinbase: transaction.coinbase,
                version: transaction.version,
                features: feature_bits(
                    transaction.has_transparent,
                    transaction.has_sapling,
                    transaction.has_orchard,
                ),
                transparent_input_value_zat: transaction.transparent_input_value_zat,
                transparent_output_value_zat: transaction.transparent_output_value_zat,
            },
        ),
        Some(Update::Utxo(utxo)) => Some(
            TransactionFacts {
                coinbase: utxo.coinbase,
                version: utxo.version,
                features: feature_bits(utxo.has_transparent, utxo.has_sapling, utxo.has_orchard),
                transparent_input_value_zat: utxo.transparent_input_value_zat,
                transparent_output_value_zat: utxo.transparent_output_value_zat,
            },
        ),
        _ => None,
    }
}

/// What is known of the transaction of an update.
pub fn update_transaction_facts(update: &SubscribeUpdate) -> (facts: Option<TransactionFacts>)
    ensures
        facts == transaction_facts(*update),
{
    match &update.update {
        Some(Update::Transaction(transaction)) => Some(
            TransactionFacts {
                coinbase: transaction.coinbase,
                version: transaction.version,
                features: transaction_feature_bits(
                    transaction.has_transparent,
                    transaction.has_sapling,
                    transaction.has_orchard,
                ),
                transparent_input_value_zat: transaction.transparent_input_value_zat,
                transparent_output_value_zat: transaction.transparent_output_value_zat,
            },
        ),
        Some(Update::MempoolTransaction(transaction)) => Some(
            TransactionFacts {
                coinbase: transaction.coinbase,
                version: transaction.version,
                features: transaction_feature_bits(
                    transaction.has_transparent,
                    transaction.has_sapling,
                    transaction.has_orchard,
                ),
                transparent_input_value_zat: transaction.transparent_input_value_zat,
                transparent_output_value_zat: transaction.transparent_output_value_zat,
            },
        ),
        Some(Update::Utxo(utxo)) => Some(
            TransactionFacts {
                coinbase: utxo.coinbase,
                version: utxo.version,
                features: transaction_feature_bits(
                    utxo.has_transparent,
                    utxo.has_sapling,
                    utxo.has_orchard,
                ),
                transparent_input_value_zat: utxo.transparent_input_value_zat,
                transparent_output_value_zat: utxo.transparent_output_value_zat,
            },
        ),
        Some(Update::Block(_)) | Some(Update::BestChain(_)) | Some(Update::Mempool(_)) | Some(
            Update::Ping(_),
        ) | Some(Update::Pong(_)) | None => None,
    }
}

/// Whether one of the listed texts is wanted.
fn list_mentions(values: &Vec<String>, wanted: &StringHashSet) -> (found: bool)
    ensures
        found == lists_one_of(values@, wanted@),
{
    for index in 0..values.len()
        invariant
            forall|i: int| 0 <= i < index ==> !wanted@.contains((#[trigger] values@[i])@),
    {
        if wanted.contains(values[index].as_str()) {
            return true;
        }
    }
    false
}

/// Whether an update is about one of the wanted transactions.
pub(crate) fn update_matches_transaction_id(
    update: &SubscribeUpdate,
    transaction_ids: &StringHashSet,
) -> (found: bool)
    ensures
        found == mentions_transaction(*update, transaction_ids@),
{
    match &update.update {
        Some(Update::Transaction(transaction)) => transaction_ids.contains(
            transaction.transaction_id.as_str(),
        ),
        Some(Update::MempoolTransaction(transaction)) => transaction_ids.contains(
            transaction.transaction_id.as_str(),
        ),
        Some(Update::Utxo(utxo)) => transaction_ids.contains(utxo.transaction_id.as_str()),
        Some(Update::Mempool(mempool)) => list_mentions(&mempool.transaction_ids, transaction_ids),
        Some(Update::BestChain(best_chain)) => match &best_chain.change {
            Some(BestChainUpdateChange::Grow(grow)) => list_mentions(
                &grow.transaction_ids,
                transaction_ids,
            ),
            Some(BestChainUpdateChange::Reset(_)) | None => false,
        },
        Some(Update::Block(_)) | Some(Update::Ping(_)) | Some(Update::Pong(_)) | None => false,
    }
}

/// The characters of every text in a list.
pub open spec fn slices(values: Seq<&str>) -> Seq<Seq<char>> {
    values.map_values(|value: &str| value@)
}

/// One more value, present or not.
proof fn lemma_present_step<T>(values: Seq<Option<T>>, n: int)
    requires
        0 <= n < values.len(),
    ensures
        present(values.take(n + 1)) == (match values[n] {
            Some(value) => present(values.take(n)).push(value),
            None => present(values.take(n)),
        }),
{
    assert(values.take(n + 1).drop_last() =~= values.take(n));
}

/// Appends the known addresses of inputs.
fn append_input_addresses<'a>(inputs: &'a Vec<TransparentInput>, addresses: &mut Vec<&'a str>)
    ensures
        slices(final(addresses)@) == slices(old(addresses)@) + input_addresses(inputs@),
{
    let ghost before = slices(addresses@);
    let ghost all = inputs@.map_values(|input: TransparentInput| input_address(input));
    proof {
        assert(all.take(0) =~= Seq::empty());
        assert(before + present(all.take(0)) =~= before);
    }
    for index in 0..inputs.len()
        invariant
            all == inputs@.map_values(|input: TransparentInput| input_address(input)),
            slices(addresses@) == before + present(all.take(index as int)),
    {
        proof {
            lemma_present_step(all, index as int);
        }
        let ghost so_far = addresses@;
        if let Some(TransparentInputKind::Prevout(previous)) = &inputs[index].input {
            if let Some(address) = &previous.previous_address {
                addresses.push(address.as_str());
                proof {
                    assert(slices(addresses@) =~= slices(so_far).push(address@));
                    assert(before + present(all.take(index + 1)) =~= (before + present(
                        all.take(index as int),
                    )).push(address@));
                }
            }
        }
    }
    proof {
        assert(all.take(all.len() as int) =~= all);
    }
}

/// Appends the known addresses of outputs.
fn append_output_addresses<'a>(outputs: &'a Vec<TransparentOutput>, addresses: &mut Vec<&'a str>)
    ensures
        slices(final(addresses)@) == slices(old(addresses)@) + output_addresses(outputs@),
{
    let ghost before = slices(addresses@);
    let ghost all = outputs@.map_values(|output: TransparentOutput| output_address(output));
    proof {
        assert(all.take(0) =~= Seq::empty());
        assert(before + present(all.take(0)) =~= before);
    }
    for index in 0..outputs.len()
        invariant
            all == outputs@.map_values(|output: TransparentOutput| output_address(output)),
            slices(addresses@) == before + present(all.take(index as int)),
    {
        proof {
            lemma_present_step(all, index as int);
        }
        let ghost so_far = addresses@;
        if let Some(address) = &outputs[index].address {
            addresses.push(address.as_str());
            proof {
                assert(slices(addresses@) =~= slices(so_far).push(address@));
                assert(before + present(all.take(index + 1)) =~= (before + present(
                    all.take(index as int),
                )).push(address@));
            }
        }
    }
    proof {
        assert(all.take(all.len() as int) =~= all);
    }
}

/// Appends the known addresses of created and spent outputs.
fn append_change_addresses<'a>(changes: &'a Vec<UtxoChange>, addresses: &mut Vec<&'a str>)
    ensures
        slices(final(addresses)@) == slices(old(addresses)@) + change_addresses(changes@),
{
    let ghost before = slices(addresses@);
    let ghost all = changes@.map_values(|change: UtxoChange| change_address(change));
    proof {
        assert(all.take(0) =~= Seq::empty());
        assert(before + present(all.take(0)) =~= before);
    }
    for index in 0..changes.len()
        invariant
            all == changes@.map_values(|change: UtxoChange| change_address(change)),
            slices(addresses@) == before + present(all.take(index as int)),
    {
        proof {
            lemma_present_step(all, index as int);
        }
        let ghost so_far = addresses@;
        let address = match &changes[index].change {
            Some(UtxoChangeKind::Created(created)) => &created.address,
            Some(UtxoChangeKind::Spent(spent)) => &spent.previous_address,
            None => &None,
        };
        if let Some(address) = address {
            addresses.push(address.as_str());
            proof {
                assert(slices(addresses@) =~= slices(so_far).push(address@));
                assert(before + present(all.take(index + 1)) =~= (before + present(
                    all.take(index as int),
                )).push(address@));
            }
        }
    }
    proof {
        assert(all.take(all.len() as int) =~= all);
    }
}

/// The characters of an optional list of texts.
pub open spec fn optional_slices(values: Option<Seq<&str>>) -> Option<Seq<Seq<char>>> {
    match values {
        Some(values) => Some(slices(values)),
        None => None,
    }
}

/// The contents of an optional list.
pub open spec fn optional_view<T>(values: Option<Vec<T>>) -> Option<Seq<T>> {
    match values {
        Some(values) => Some(values@),
        None => None,
    }
}

/// The addresses of an update, inputs before outputs.
pub fn update_transparent_addresses<'a>(update: &'a SubscribeUpdate) -> (addresses: Option<
    Vec<&'a str>,
>)
    ensures
        optional_slices(optional_view(addresses)) == update_addresses(*update),
{
    let mut addresses: Vec<&'a str> = Vec::new();
    proof {
        assert(slices(addresses@) =~= Seq::empty());
    }
    match &update.update {
        Some(Update::Transaction(transaction)) => {
            append_input_addresses(&transaction.transparent_inputs, &mut addresses);
            append_output_addresses(&transaction.transparent_outputs, &mut addresses);
            proof {
                assert(slices(addresses@) =~= input_addresses(transaction.transparent_inputs@)
                    + output_addresses(transaction.transparent_outputs@));
            }
            Some(addresses)
        },
        Some(Update::MempoolTransaction(transaction)) => {
            append_input_addresses(&transaction.transparent_inputs, &mut addresses);
            append_output_addresses(&transaction.transparent_outputs, &mut addresses);
            proof {
                assert(slices(addresses@) =~= input_addresses(transaction.transparent_inputs@)
                    + output_addresses(transaction.transparent_outputs@));
            }
            Some(addresses)
        },
        Some(Update::Utxo(utxo)) => {
            append_change_addresses(&utxo.changes, &mut addresses);
            proof {
                assert(slices(addresses@) =~= change_addresses(utxo.changes@));
            }
            Some(addresses)
        },
        Some(Update::Block(_)) | Some(Update::BestChain(_)) | Some(Update::Mempool(_)) | Some(
            Update::Ping(_),
        ) | Some(Update::Pong(_)) | None => None,
    }
}

/// Whether an optional condition is absent or met.
pub open spec fn met<T>(condition: Option<T>, actual: T) -> bool {
    condition is None || condition->0 == actual
}

/// Whether one of the addresses is found.
pub open spec fn has_one_of(found: Seq<Seq<char>>, wanted: Set<Seq<char>>) -> bool {
    exists|i: int| 0 <= i < found.len() && wanted.contains(#[trigger] found[i])
}

/// Whether none of the addresses is found.
pub open spec fn has_none_of(found: Seq<Seq<char>>, unwanted: Set<Seq<char>>) -> bool {
    forall|i: int| 0 <= i < found.len() ==> !unwanted.contains(#[trigger] found[i])
}

/// Whether all of the addresses are found.
pub open spec fn has_all_of(found: Seq<Seq<char>>, required: Set<Seq<char>>) -> bool {
    forall|address: Seq<char>| #[trigger] required.contains(address) ==> found.contains(address)
}

impl FilterView {
    /// Whether the filter has a condition on addresses.
    pub open spec fn uses_addresses(self) -> bool {
        ||| !self.address_include.is_empty()
        ||| !self.address_exclude.is_empty()
        ||| !self.address_required.is_empty()
    }

    /// Whether the addresses of an update meet the conditions on addresses. An update without
    /// addresses meets none.
    pub open spec fn addresses_match(self, addresses: Option<Seq<Seq<char>>>) -> bool {
        self.uses_addresses() ==> {
            &&& addresses matches Some(found)
            &&& self.address_include.is_empty() || has_one_of(found, self.address_include)
            &&& has_none_of(found, self.address_exclude)
            &&& has_all_of(found, self.address_required)
        }
    }

    /// Whether the filter has a condition on transactions.
    pub open spec fn uses_metadata(self) -> bool {
        ||| self.coinbase is Some
        ||| self.transaction_version is Some
        ||| self.has_transparent is Some
        ||| self.has_sapling is Some
        ||| self.has_orchard is Some
        ||| self.min_value_zat is Some
    }

    /// Whether what is known of a transaction meets the conditions on transactions. An update
    /// that is not about a transaction meets none.
    pub open spec fn metadata_matches(self, facts: Option<TransactionFacts>) -> bool {
        self.uses_metadata() ==> {
            &&& facts matches Some(facts)
            &&& met(self.coinbase, facts.coinbase)
            &&& met(self.transaction_version, facts.version)
            &&& met(self.has_transparent, facts.spec_has_feature(HAS_TRANSPARENT))
            &&& met(self.has_sapling, facts.spec_has_feature(HAS_SAPLING))
            &&& met(self.has_orchard, facts.spec_has_feature(HAS_ORCHARD))
            &&& self.min_value_zat matches Some(minimum) ==> {
                ||| facts.transparent_input_value_zat is Some
                    && facts.transparent_input_value_zat->0 >= minimum
                ||| facts.transparent_output_value_zat >= minimum
            }
        }
    }

    /// Whether an update meets all conditions.
    pub open spec fn matches(self, update: SubscribeUpdate) -> bool {
        &&& self.kinds.is_empty() || self.kinds.contains(update.event_type)
        &&& self.min_height matches Some(minimum) ==> {
            &&& spec_block_height(update) is Some
            &&& spec_block_height(update)->0 >= minimum
        }
        &&& self.transaction_ids.is_empty() || mentions_transaction(update, self.transaction_ids)
        &&& self.addresses_match(update_addresses(update))
        &&& self.metadata_matches(transaction_facts(update))
    }
}

/// The parts of an update that filters look at more than once.
pub struct UpdateContext<'a> {
    pub update: &'a SubscribeUpdate,
    pub addresses: Option<Vec<&'a str>>,
    pub transaction: Option<TransactionFacts>,
}

impl<'a> UpdateContext<'a> {
    /// Whether this belongs to its update. Addresses are collected only when they are needed.
    pub open spec fn well_formed(self, needs_addresses: bool) -> bool {
        &&& optional_slices(optional_view(self.addresses)) == (if needs_addresses {
            update_addresses(*self.update)
        } else {
            None
        })
        &&& self.transaction == transaction_facts(*self.update)
    }

    /// Collects the parts of an update.
    pub fn new(update: &'a SubscribeUpdate, needs_addresses: bool) -> (context: Self)
        ensures
            context.update == update,
            context.well_formed(needs_addresses),
    {
        UpdateContext {
            update,
            addresses: if needs_addresses {
                update_transparent_addresses(update)
            } else {
                None
            },
            transaction: update_transaction_facts(update),
        }
    }
}

} // verus!
