//! What updates say of the transparent inputs and outputs of a transaction.

use crate::buffer::bytes_contents;
use crate::chain::{displayed_address, displayed_hash, script_recipient, NetworkKind};
use crate::node::{
    law_outpoint_keys_are_distinct, outpoint_key, ChainInput, ChainOutpoint, ChainOutput,
    ChainTransaction, PluginError, SpentOutput, SpentOutputs,
};
use crate::proto::{
    Outpoint, TransparentInput, TransparentInputKind, TransparentOutput, UtxoChange, UtxoChangeKind,
};
use crate::transparent::{
    all_known, encode_transparent_updates, encodes_created, encodes_input, encodes_output,
    encodes_spent, input_value, input_values, lemma_known_sum_grows, lemma_known_sum_step,
    lemma_spent_count_grows, lemma_spent_count_step, output_values, spent_count,
    EncodedTransparentUpdates, PreviousOutputs,
};
use bytes::Bytes;
use vstd::prelude::*;

verus! {

/// What is known of the output that an input spends.
pub struct KnownOutput {
    pub value_zat: u64,
    pub lock_script: Seq<u8>,
    /// Where the output came from, as far as that is known.
    pub height: Option<u32>,
    pub from_coinbase: Option<bool>,
}

/// Whether something is what is known of the output that the input at some position spends: what
/// the block's outputs give for its reference, or the mempool's output at the same position.
pub open spec fn is_known_of(
    known: Option<KnownOutput>,
    outpoint: ChainOutpoint,
    index: int,
    previous: PreviousOutputs<'_>,
) -> bool {
    match previous {
        PreviousOutputs::Block(outputs) => exists|found: Option<&SpentOutput>|
            {
                &&& #[trigger] call_ensures(SpentOutputs::get, (outputs, &outpoint), found)
                &&& known == (match found {
                    Some(spent) => Some(
                        KnownOutput {
                            value_zat: spent.output.value_zat,
                            lock_script: spent.output.lock_script@,
                            height: Some(spent.height),
                            from_coinbase: Some(spent.from_coinbase),
                        },
                    ),
                    None => None,
                })
            },
        PreviousOutputs::Mempool(outputs) => known == (if index < outputs@.len() {
            Some(
                KnownOutput {
                    value_zat: outputs@[index].value_zat,
                    lock_script: outputs@[index].lock_script@,
                    height: None,
                    from_coinbase: None,
                },
            )
        } else {
            None
        }),
    }
}

/// Whether the input at some position brings in a value. A coinbase input brings in none.
pub open spec fn brings_in(
    input: ChainInput,
    index: int,
    previous: PreviousOutputs<'_>,
    value: Option<u64>,
) -> bool {
    match input {
        ChainInput::Prevout { outpoint, .. } => exists|known: Option<KnownOutput>|
            {
                &&& #[trigger] is_known_of(known, outpoint, index, previous)
                &&& value == (match known {
                    Some(output) => Some(output.value_zat),
                    None => None,
                })
            },
        ChainInput::Coinbase { .. } => value == Some(0u64),
    }
}

/// Whether an address is that of the recipient of a lock script.
pub open spec fn shows_recipient(
    address: Option<String>,
    lock_script: Seq<u8>,
    network: NetworkKind,
) -> bool {
    match script_recipient(lock_script) {
        Some(recipient) => address is Some && address->0@ == displayed_address(
            (recipient.0, network, recipient.1),
        ),
        None => address is None,
    }
}

/// Whether the fields of an update are what is known of a spent output.
pub open spec fn shows_known(
    known: Option<KnownOutput>,
    network: NetworkKind,
    value_zat: Option<u64>,
    lock_script: Option<Bytes>,
    address: Option<String>,
    height: Option<u32>,
    from_coinbase: Option<bool>,
) -> bool {
    match known {
        Some(output) => {
            &&& value_zat == Some(output.value_zat)
            &&& lock_script is Some && bytes_contents(lock_script->0) == output.lock_script
            &&& shows_recipient(address, output.lock_script, network)
            &&& height == output.height
            &&& from_coinbase == output.from_coinbase
        },
        None => {
            &&& value_zat is None
            &&& lock_script is None
            &&& address is None
            &&& height is None
            &&& from_coinbase is None
        },
    }
}

/// Whether a reference names an output of a transaction.
pub open spec fn refers_to(
    reference: Option<Outpoint>,
    transaction_id: Seq<char>,
    index: u32,
) -> bool {
    &&& reference is Some
    &&& reference->0.transaction_id@ == transaction_id
    &&& reference->0.output_index == index
}

/// Whether a message reports the input at some position, with what is known of the output that it
/// spends.
pub open spec fn reports_input(
    message: TransparentInput,
    input: ChainInput,
    index: int,
    known: Option<KnownOutput>,
    network: NetworkKind,
) -> bool {
    &&& message.input_index == index
    &&& match input {
        ChainInput::Prevout { outpoint, unlock_script, sequence } => {
            &&& message.sequence == sequence
            &&& message.input matches Some(TransparentInputKind::Prevout(prevout))
            &&& refers_to(
                prevout.previous_output,
                displayed_hash(outpoint.hash@),
                outpoint.index,
            )
            &&& bytes_contents(prevout.unlock_script) == unlock_script@
            &&& shows_known(
                known,
                network,
                prevout.previous_value_zat,
                prevout.previous_lock_script,
                prevout.previous_address,
                prevout.previous_height,
                prevout.previous_from_coinbase,
            )
        },
        ChainInput::Coinbase { height, data, sequence } => {
            &&& message.sequence == sequence
            &&& message.input matches Some(TransparentInputKind::Coinbase(coinbase))
            &&& coinbase.height == height
            &&& bytes_contents(coinbase.data) == data@
        },
    }
}

/// Whether a message reports the output at some position.
pub open spec fn reports_output(
    message: TransparentOutput,
    output: ChainOutput,
    index: int,
    network: NetworkKind,
) -> bool {
    &&& message.output_index == index
    &&& message.value_zat == output.value_zat
    &&& bytes_contents(message.lock_script) == output.lock_script@
    &&& shows_recipient(message.address, output.lock_script@, network)
}

/// Whether a change reports that the input at some position spends its output.
pub open spec fn reports_spent(
    change: UtxoChange,
    input: ChainInput,
    index: int,
    known: Option<KnownOutput>,
    network: NetworkKind,
) -> bool {
    &&& input matches ChainInput::Prevout { outpoint, unlock_script, sequence }
    &&& change.change matches Some(UtxoChangeKind::Spent(spent))
    &&& refers_to(spent.outpoint, displayed_hash(outpoint.hash@), outpoint.index)
    &&& spent.input_index == index
    &&& bytes_contents(spent.unlock_script) == unlock_script@
    &&& spent.sequence == sequence
    &&& shows_known(
        known,
        network,
        spent.previous_value_zat,
        spent.previous_lock_script,
        spent.previous_address,
        spent.previous_height,
        spent.previous_from_coinbase,
    )
}

/// Whether a change reports that a transaction creates the output at some position.
pub open spec fn reports_created(
    change: UtxoChange,
    output: ChainOutput,
    index: int,
    transaction_id: Seq<char>,
    network: NetworkKind,
) -> bool {
    &&& change.change matches Some(UtxoChangeKind::Created(created))
    &&& refers_to(created.outpoint, transaction_id, index as u32)
    &&& created.value_zat == output.value_zat
    &&& bytes_contents(created.lock_script) == output.lock_script@
    &&& shows_recipient(created.address, output.lock_script@, network)
}

/// The inputs that spend previous outputs.
pub open spec fn spending(inputs: Seq<ChainInput>) -> Seq<ChainInput> {
    inputs.filter(|input: ChainInput| input is Prevout)
}

pub(crate) proof fn lemma_known(
    known: Option<KnownOutput>,
    outpoint: ChainOutpoint,
    index: int,
    previous: PreviousOutputs<'_>,
)
    requires
        is_known_of(known, outpoint, index, previous),
        0 <= index,
    ensures
        previous.value(outpoint, index) == (match known {
            Some(output) => Some(output.value_zat),
            None => None,
        }),
        previous.lock_script(outpoint, index) == (match known {
            Some(output) => Some(output.lock_script),
            None => None,
        }),
        previous.height(outpoint) == (match known {
            Some(output) => output.height,
            None => None,
        }),
        previous.from_coinbase(outpoint) == (match known {
            Some(output) => output.from_coinbase,
            None => None,
        }),
{
}

proof fn lemma_brings_in(
    input: ChainInput,
    index: int,
    previous: PreviousOutputs<'_>,
    value: Option<u64>,
)
    requires
        brings_in(input, index, previous, value),
        0 <= index,
    ensures
        value == input_value(input, index, previous),
{
    match input {
        ChainInput::Prevout { outpoint, .. } => {
            let known = choose|known: Option<KnownOutput>|
                {
                    &&& #[trigger] is_known_of(known, outpoint, index, previous)
                    &&& value == (match known {
                        Some(output) => Some(output.value_zat),
                        None => None,
                    })
                };
            lemma_known(known, outpoint, index, previous);
        },
        ChainInput::Coinbase { .. } => {},
    }
}

/// One more input of a known value raises the reported total of the inputs by exactly that value.
/// Where the sum is too large for the protocol, the transaction is refused. The total of the
/// outputs does not depend on the inputs.
pub proof fn law_one_more_input_adds_its_value(
    shorter: ChainTransaction,
    longer: ChainTransaction,
    input: ChainInput,
    value: u64,
    transaction_id: String,
    network: NetworkKind,
    previous: PreviousOutputs<'_>,
    transaction_updates: bool,
    utxo_updates: bool,
    before: EncodedTransparentUpdates,
    after: Result<EncodedTransparentUpdates, PluginError>,
)
    requires
        shorter.well_formed(),
        longer.well_formed(),
        previous.well_formed(),
        call_ensures(
            encode_transparent_updates,
            (&shorter, &transaction_id, network, previous, transaction_updates, utxo_updates),
            Ok(before),
        ),
        call_ensures(
            encode_transparent_updates,
            (&longer, &transaction_id, network, previous, transaction_updates, utxo_updates),
            after,
        ),
        longer.inputs@ == shorter.inputs@.push(input),
        longer.outputs@ == shorter.outputs@,
        longer.inputs@.len() <= 0x1_0000_0000,
        before.transparent_input_value_zat is Some,
        brings_in(input, shorter.inputs@.len() as int, previous, Some(value)),
    ensures
        match after {
            Ok(after) => {
                &&& before.transparent_input_value_zat->0 + value <= u64::MAX
                &&& after.transparent_input_value_zat == Some(
                    (before.transparent_input_value_zat->0 + value) as u64,
                )
                &&& after.transparent_output_value_zat == before.transparent_output_value_zat
            },
            Err(error) => {
                &&& before.transparent_input_value_zat->0 + value > u64::MAX
                &&& error is InputValueRange
            },
        },
{
    let n = shorter.inputs@.len() as int;
    let values = input_values(longer.inputs@, previous);
    lemma_brings_in(input, n, previous, Some(value));
    assert(values.take(n) =~= input_values(shorter.inputs@, previous));
    assert(values.take(n + 1) =~= values);
    lemma_known_sum_step(values, n);
}

/// Without inputs the total of the inputs is zero, and without outputs that of the outputs is.
pub proof fn law_nothing_adds_up_to_zero(
    transaction: ChainTransaction,
    transaction_id: String,
    network: NetworkKind,
    previous: PreviousOutputs<'_>,
    transaction_updates: bool,
    utxo_updates: bool,
    encoded: EncodedTransparentUpdates,
)
    requires
        transaction.well_formed(),
        previous.well_formed(),
        call_ensures(
            encode_transparent_updates,
            (&transaction, &transaction_id, network, previous, transaction_updates, utxo_updates),
            Ok(encoded),
        ),
    ensures
        transaction.inputs@.len() == 0 && (transaction_updates || utxo_updates)
            ==> encoded.transparent_input_value_zat == Some(0u64),
        !transaction_updates && !utxo_updates ==> encoded.transparent_input_value_zat is None,
        transaction.outputs@.len() == 0 ==> encoded.transparent_output_value_zat == 0,
{
}

/// The total of the inputs is reported if and only if the value of every input is known. It is then
/// at least the value of each of them.
pub proof fn law_inputs_are_totalled_when_all_are_known(
    transaction: ChainTransaction,
    values: Seq<Option<u64>>,
    transaction_id: String,
    network: NetworkKind,
    previous: PreviousOutputs<'_>,
    transaction_updates: bool,
    utxo_updates: bool,
    encoded: EncodedTransparentUpdates,
)
    requires
        transaction.well_formed(),
        previous.well_formed(),
        transaction_updates || utxo_updates,
        call_ensures(
            encode_transparent_updates,
            (&transaction, &transaction_id, network, previous, transaction_updates, utxo_updates),
            Ok(encoded),
        ),
        values.len() == transaction.inputs@.len(),
        forall|i: int|
            0 <= i < values.len() ==> brings_in(
                transaction.inputs@[i],
                i,
                previous,
                #[trigger] values[i],
            ),
    ensures
        encoded.transparent_input_value_zat is Some <==> forall|i: int|
            0 <= i < values.len() ==> (#[trigger] values[i]) is Some,
        encoded.transparent_input_value_zat is Some ==> forall|i: int|
            0 <= i < values.len() ==> (#[trigger] values[i])->0
                <= encoded.transparent_input_value_zat->0,
{
    let known = input_values(transaction.inputs@, previous);
    assert forall|i: int| 0 <= i < values.len() implies #[trigger] values[i] == known[i] by {
        lemma_brings_in(transaction.inputs@[i], i, previous, values[i]);
    }
    assert(values =~= known);
    if all_known(known) {
        assert(known.take(known.len() as int) =~= known);
        assert forall|i: int| 0 <= i < values.len() implies (#[trigger] values[i])->0
            <= encoded.transparent_input_value_zat->0 by {
            lemma_known_sum_step(known, i);
            lemma_known_sum_grows(known, i + 1, known.len() as int);
            assert(all_known(known.take(i + 1)));
        }
    }
}

/// One more output raises the reported total of the outputs by exactly its value. Where the sum is
/// too large for the protocol, the transaction is refused. The total of the inputs does not depend
/// on the outputs.
pub proof fn law_one_more_output_adds_its_value(
    shorter: ChainTransaction,
    longer: ChainTransaction,
    output: ChainOutput,
    transaction_id: String,
    network: NetworkKind,
    previous: PreviousOutputs<'_>,
    transaction_updates: bool,
    utxo_updates: bool,
    before: EncodedTransparentUpdates,
    after: Result<EncodedTransparentUpdates, PluginError>,
)
    requires
        shorter.well_formed(),
        longer.well_formed(),
        previous.well_formed(),
        call_ensures(
            encode_transparent_updates,
            (&shorter, &transaction_id, network, previous, transaction_updates, utxo_updates),
            Ok(before),
        ),
        call_ensures(
            encode_transparent_updates,
            (&longer, &transaction_id, network, previous, transaction_updates, utxo_updates),
            after,
        ),
        longer.inputs@ == shorter.inputs@,
        longer.outputs@ == shorter.outputs@.push(output),
        longer.outputs@.len() <= 0x1_0000_0000,
    ensures
        match after {
            Ok(after) => {
                &&& after.transparent_output_value_zat == before.transparent_output_value_zat
                    + output.value_zat
                &&& after.transparent_input_value_zat == before.transparent_input_value_zat
            },
            Err(error) => {
                &&& before.transparent_output_value_zat + output.value_zat > u64::MAX
                &&& error is OutputValueRange
            },
        },
{
    let values = output_values(longer.outputs@);
    assert(values.drop_last() =~= output_values(shorter.outputs@));
}

/// A transaction is encoded only if the positions of all its inputs and outputs fit the protocol.
pub proof fn law_positions_fit_the_protocol(
    transaction: ChainTransaction,
    transaction_id: String,
    network: NetworkKind,
    previous: PreviousOutputs<'_>,
    transaction_updates: bool,
    utxo_updates: bool,
    result: Result<EncodedTransparentUpdates, PluginError>,
)
    requires
        transaction.well_formed(),
        previous.well_formed(),
        call_ensures(
            encode_transparent_updates,
            (&transaction, &transaction_id, network, previous, transaction_updates, utxo_updates),
            result,
        ),
    ensures
        result is Ok ==> transaction.inputs@.len() <= 0x1_0000_0000 && transaction.outputs@.len()
            <= 0x1_0000_0000,
        result matches Err(error) ==> match error {
            PluginError::InputIndexRange => transaction.inputs@.len() > 0x1_0000_0000,
            PluginError::OutputIndexRange => transaction.outputs@.len() > 0x1_0000_0000,
            PluginError::InputValueRange => transaction_updates || utxo_updates,
            PluginError::OutputValueRange => true,
            _ => false,
        },
{
}

pub(crate) proof fn lemma_spending(inputs: Seq<ChainInput>)
    ensures
        spending(inputs).len() == spent_count(inputs),
    decreases inputs.len(),
{
    reveal(Seq::filter);
    if inputs.len() > 0 {
        lemma_spending(inputs.drop_last());
    }
}

/// The input at each position is reported at that position, with its reference, script and sequence
/// and what is known of the output that it spends, or with its coinbase data.
pub proof fn law_inputs_are_reported_as_they_are(
    transaction: ChainTransaction,
    transaction_id: String,
    network: NetworkKind,
    previous: PreviousOutputs<'_>,
    utxo_updates: bool,
    encoded: EncodedTransparentUpdates,
    index: int,
    known: Option<KnownOutput>,
)
    requires
        transaction.well_formed(),
        previous.well_formed(),
        call_ensures(
            encode_transparent_updates,
            (&transaction, &transaction_id, network, previous, true, utxo_updates),
            Ok(encoded),
        ),
        0 <= index < transaction.inputs@.len(),
        transaction.inputs@[index] matches ChainInput::Prevout { outpoint, .. } ==> is_known_of(
            known,
            outpoint,
            index,
            previous,
        ),
    ensures
        encoded.transaction_inputs@.len() == transaction.inputs@.len(),
        reports_input(
            encoded.transaction_inputs@[index],
            transaction.inputs@[index],
            index,
            known,
            network,
        ),
{
    let input = transaction.inputs@[index];
    assert(encodes_input(encoded.transaction_inputs@[index], input, index, previous, network));
    if input is Prevout {
        lemma_known(known, input->outpoint, index, previous);
    }
}

/// The output at each position is reported at that position, with its value, script and address.
pub proof fn law_outputs_are_reported_as_they_are(
    transaction: ChainTransaction,
    transaction_id: String,
    network: NetworkKind,
    previous: PreviousOutputs<'_>,
    utxo_updates: bool,
    encoded: EncodedTransparentUpdates,
    index: int,
)
    requires
        transaction.well_formed(),
        previous.well_formed(),
        call_ensures(
            encode_transparent_updates,
            (&transaction, &transaction_id, network, previous, true, utxo_updates),
            Ok(encoded),
        ),
        0 <= index < transaction.outputs@.len(),
    ensures
        encoded.transaction_outputs@.len() == transaction.outputs@.len(),
        reports_output(
            encoded.transaction_outputs@[index],
            transaction.outputs@[index],
            index,
            network,
        ),
{
    assert(encodes_output(
        encoded.transaction_outputs@[index],
        transaction.outputs@[index],
        index,
        network,
    ));
}

/// Every input that spends an output is reported among the changes, in the order of the inputs and
/// before what is created, with what is known of the output.
pub proof fn law_spent_outputs_are_reported(
    transaction: ChainTransaction,
    transaction_id: String,
    network: NetworkKind,
    previous: PreviousOutputs<'_>,
    transaction_updates: bool,
    encoded: EncodedTransparentUpdates,
    index: int,
    known: Option<KnownOutput>,
)
    requires
        transaction.well_formed(),
        previous.well_formed(),
        call_ensures(
            encode_transparent_updates,
            (&transaction, &transaction_id, network, previous, transaction_updates, true),
            Ok(encoded),
        ),
        0 <= index < transaction.inputs@.len(),
        transaction.inputs@[index] matches ChainInput::Prevout { outpoint, .. } && is_known_of(
            known,
            outpoint,
            index,
            previous,
        ),
    ensures
        encoded.utxo_changes@.len() == spending(transaction.inputs@).len()
            + transaction.outputs@.len(),
        spending(transaction.inputs@.take(index)).len() < spending(transaction.inputs@).len(),
        reports_spent(
            encoded.utxo_changes@[spending(transaction.inputs@.take(index)).len() as int],
            transaction.inputs@[index],
            index,
            known,
            network,
        ),
{
    let inputs = transaction.inputs@;
    let input = inputs[index];
    lemma_spending(inputs);
    lemma_spending(inputs.take(index));
    lemma_known(known, input->outpoint, index, previous);
    lemma_spent_count_step(inputs, index);
    lemma_spent_count_grows(inputs, index + 1, inputs.len() as int);
    assert(inputs.take(inputs.len() as int) =~= inputs);
    let position = spent_count(inputs.take(index)) as int;
    let spent = spent_count(inputs) as int;
    assert(encodes_spent(
        encoded.utxo_changes@.take(spent)[position],
        input,
        index,
        previous,
        network,
    ));
}

/// Every output is reported as created, in the order of the outputs and after what is spent.
pub proof fn law_created_outputs_are_reported(
    transaction: ChainTransaction,
    transaction_id: String,
    network: NetworkKind,
    previous: PreviousOutputs<'_>,
    transaction_updates: bool,
    encoded: EncodedTransparentUpdates,
    index: int,
)
    requires
        transaction.well_formed(),
        previous.well_formed(),
        call_ensures(
            encode_transparent_updates,
            (&transaction, &transaction_id, network, previous, transaction_updates, true),
            Ok(encoded),
        ),
        0 <= index < transaction.outputs@.len(),
    ensures
        reports_created(
            encoded.utxo_changes@[spending(transaction.inputs@).len() + index],
            transaction.outputs@[index],
            index,
            transaction_id@,
            network,
        ),
{
    lemma_spending(transaction.inputs@);
    let spent = spent_count(transaction.inputs@) as int;
    assert(encodes_created(
        encoded.utxo_changes@.skip(spent)[index],
        transaction.outputs@[index],
        index,
        transaction_id@,
        network,
    ));
}

/// What was recorded for a reference is found under it, in place of anything earlier. What is found
/// under any other reference stays. At first nothing is found.
pub proof fn law_recorded_outputs_are_found(
    recording: &mut SpentOutputs,
    outpoint: ChainOutpoint,
    output: SpentOutput,
    other: ChainOutpoint,
    found: Option<&SpentOutput>,
    other_before: Option<&SpentOutput>,
    other_after: Option<&SpentOutput>,
)
    requires
        call_ensures(SpentOutputs::get, (&*recording, &other), other_before),
        call_ensures(SpentOutputs::insert, (recording, outpoint, output), ()),
        call_ensures(SpentOutputs::get, (&*final(recording), &outpoint), found),
        call_ensures(SpentOutputs::get, (&*final(recording), &other), other_after),
    ensures
        found == Some(&output),
        outpoint.hash@ != other.hash@ || outpoint.index != other.index ==> other_after
            == other_before,
        call_ensures(SpentOutputs::new, (), *old(recording)) ==> other_before is None,
{
    if outpoint_key(outpoint.hash@, outpoint.index) == outpoint_key(other.hash@, other.index) {
        law_outpoint_keys_are_distinct(outpoint.hash@, outpoint.index, other.hash@, other.index);
    }
}

} // verus!
