//! Decodes the transparent inputs and outputs of transactions for updates.

use crate::buffer::bytes_contents;
use crate::chain::{
    displayed_hash, output_address, output_address_text, transaction_hash_text, NetworkKind,
};
use crate::equality::{
    same_change, same_changes, same_input, same_inputs, same_output, same_outputs,
};
use crate::node::{
    ChainInput, ChainOutpoint, ChainOutput, ChainTransaction, PluginError, SpentOutputs,
};
use crate::proto::{
    Outpoint, TransparentCoinbaseInput, TransparentInput, TransparentInputKind, TransparentOutput,
    TransparentPrevoutInput, UtxoChange, UtxoChangeKind, UtxoCreated, UtxoSpent,
};
use crate::text::text_view;
use bytes::Bytes;
use vstd::prelude::*;

verus! {

/// The number of positions that an index of the protocol can express.
pub const INDEX_LIMIT: u64 = 0x1_0000_0000;

/// Where the outputs that a transaction spends are looked up.
#[derive(Clone, Copy)]
pub enum PreviousOutputs<'a> {
    /// By reference, among the outputs that the block spends.
    Block(&'a SpentOutputs),
    /// By the position of the input.
    Mempool(&'a Vec<ChainOutput>),
}

impl<'a> PreviousOutputs<'a> {
    /// Whether every lock script is short enough to be examined for an address.
    pub open spec fn well_formed(self) -> bool {
        match self {
            PreviousOutputs::Block(outputs) => outputs.well_formed(),
            PreviousOutputs::Mempool(outputs) => forall|i: int|
                0 <= i < outputs@.len() ==> (#[trigger] outputs@[i]).well_formed(),
        }
    }

    /// The output that an input spends, if it is known.
    pub open spec fn output(self, outpoint: ChainOutpoint, input_index: int) -> Option<
        ChainOutput,
    > {
        match self {
            PreviousOutputs::Block(outputs) => match outputs.spent(outpoint) {
                Some(spent) => Some(spent.output),
                None => None,
            },
            PreviousOutputs::Mempool(outputs) => if 0 <= input_index < outputs@.len() {
                Some(outputs@[input_index])
            } else {
                None
            },
        }
    }

    /// The height at which the spent output was created, if it is known.
    pub open spec fn height(self, outpoint: ChainOutpoint) -> Option<u32> {
        match self {
            PreviousOutputs::Block(outputs) => match outputs.spent(outpoint) {
                Some(spent) => Some(spent.height),
                None => None,
            },
            PreviousOutputs::Mempool(_) => None,
        }
    }

    /// Whether a coinbase transaction created the spent output, if it is known.
    pub open spec fn from_coinbase(self, outpoint: ChainOutpoint) -> Option<bool> {
        match self {
            PreviousOutputs::Block(outputs) => match outputs.spent(outpoint) {
                Some(spent) => Some(spent.from_coinbase),
                None => None,
            },
            PreviousOutputs::Mempool(_) => None,
        }
    }

    /// The value of the spent output, if it is known.
    pub open spec fn value(self, outpoint: ChainOutpoint, input_index: int) -> Option<u64> {
        match self.output(outpoint, input_index) {
            Some(output) => Some(output.value_zat),
            None => None,
        }
    }

    /// The lock script of the spent output, if it is known.
    pub open spec fn lock_script(self, outpoint: ChainOutpoint, input_index: int) -> Option<
        Seq<u8>,
    > {
        match self.output(outpoint, input_index) {
            Some(output) => Some(output.lock_script@),
            None => None,
        }
    }

    /// The address that the spent output paid to, if it is known.
    pub open spec fn address(
        self,
        outpoint: ChainOutpoint,
        input_index: int,
        network: NetworkKind,
    ) -> Option<Seq<char>> {
        match self.output(outpoint, input_index) {
            Some(output) => output_address(output.lock_script@, network),
            None => None,
        }
    }
}

/// The contents of an optional buffer.
pub open spec fn optional_contents(buffer: Option<Bytes>) -> Option<Seq<u8>> {
    match buffer {
        Some(buffer) => Some(bytes_contents(buffer)),
        None => None,
    }
}

/// What is known of a spent output, in the form in which updates carry it.
pub struct EncodedPreviousOutput {
    pub value_zat: Option<u64>,
    pub lock_script: Option<Bytes>,
    pub address: Option<String>,
    pub height: Option<u32>,
    pub from_coinbase: Option<bool>,
}

impl EncodedPreviousOutput {
    /// Whether this is what is known of the output that an input spends.
    pub open spec fn describes(
        self,
        previous: PreviousOutputs<'_>,
        outpoint: ChainOutpoint,
        input_index: int,
        network: NetworkKind,
    ) -> bool {
        &&& self.value_zat == previous.value(outpoint, input_index)
        &&& optional_contents(self.lock_script) == previous.lock_script(outpoint, input_index)
        &&& text_view(self.address) == previous.address(outpoint, input_index, network)
        &&& self.height == previous.height(outpoint)
        &&& self.from_coinbase == previous.from_coinbase(outpoint)
    }
}

/// What the encoding of transparent inputs and outputs depends on.
#[derive(Clone, Copy)]
pub struct TransparentEncodingContext<'a> {
    /// The kind of the addresses.
    pub network: NetworkKind,
    pub previous_outputs: PreviousOutputs<'a>,
    /// Whether inputs and outputs are wanted.
    pub transaction_updates: bool,
    /// Whether created and spent outputs are wanted.
    pub utxo_updates: bool,
}

/// Looks up what is known of the output that an input spends.
pub fn encode_previous_output(
    context: &TransparentEncodingContext<'_>,
    outpoint: &ChainOutpoint,
    input_index: usize,
) -> (previous: EncodedPreviousOutput)
    requires
        context.previous_outputs.well_formed(),
    ensures
        previous.describes(
            context.previous_outputs,
            *outpoint,
            input_index as int,
            context.network,
        ),
{
    let (output, height, from_coinbase) = match context.previous_outputs {
        PreviousOutputs::Block(outputs) => match outputs.get(outpoint) {
            Some(spent) => (Some(&spent.output), Some(spent.height), Some(spent.from_coinbase)),
            None => (None, None, None),
        },
        PreviousOutputs::Mempool(outputs) => if input_index < outputs.len() {
            (Some(&outputs[input_index]), None, None)
        } else {
            (None, None, None)
        },
    };
    match output {
        Some(output) => EncodedPreviousOutput {
            value_zat: Some(output.value_zat),
            lock_script: Some(Bytes::copy_from_slice(output.lock_script.as_slice())),
            address: output_address_text(output.lock_script.as_slice(), context.network),
            height,
            from_coinbase,
        },
        None => EncodedPreviousOutput {
            value_zat: None,
            lock_script: None,
            address: None,
            height: None,
            from_coinbase: None,
        },
    }
}

/// Whether a message refers to an output.
pub open spec fn names_outpoint(message: Option<Outpoint>, outpoint: ChainOutpoint) -> bool {
    &&& message is Some
    &&& message->0.transaction_id@ == displayed_hash(outpoint.hash@)
    &&& message->0.output_index == outpoint.index
}

/// Whether a message carries the input at some position.
pub open spec fn encodes_input(
    message: TransparentInput,
    input: ChainInput,
    index: int,
    previous: PreviousOutputs<'_>,
    network: NetworkKind,
) -> bool {
    &&& message.input_index == index
    &&& match input {
        ChainInput::Prevout { outpoint, unlock_script, sequence } => {
            &&& message.sequence == sequence
            &&& message.input matches Some(TransparentInputKind::Prevout(prevout))
            &&& names_outpoint(prevout.previous_output, outpoint)
            &&& bytes_contents(prevout.unlock_script) == unlock_script@
            &&& prevout.previous_value_zat == previous.value(outpoint, index)
            &&& optional_contents(prevout.previous_lock_script) == previous.lock_script(
                outpoint,
                index,
            )
            &&& text_view(prevout.previous_address) == previous.address(outpoint, index, network)
            &&& prevout.previous_height == previous.height(outpoint)
            &&& prevout.previous_from_coinbase == previous.from_coinbase(outpoint)
        },
        ChainInput::Coinbase { height, data, sequence } => {
            &&& message.sequence == sequence
            &&& message.input matches Some(TransparentInputKind::Coinbase(coinbase))
            &&& coinbase.height == height
            &&& bytes_contents(coinbase.data) == data@
        },
    }
}

/// Whether a change reports that the input at some position spends its output.
pub open spec fn encodes_spent(
    change: UtxoChange,
    input: ChainInput,
    index: int,
    previous: PreviousOutputs<'_>,
    network: NetworkKind,
) -> bool {
    &&& input matches ChainInput::Prevout { outpoint, unlock_script, sequence }
    &&& change.change matches Some(UtxoChangeKind::Spent(spent))
    &&& names_outpoint(spent.outpoint, outpoint)
    &&& spent.input_index == index
    &&& bytes_contents(spent.unlock_script) == unlock_script@
    &&& spent.sequence == sequence
    &&& spent.previous_value_zat == previous.value(outpoint, index)
    &&& optional_contents(spent.previous_lock_script) == previous.lock_script(outpoint, index)
    &&& text_view(spent.previous_address) == previous.address(outpoint, index, network)
    &&& spent.previous_height == previous.height(outpoint)
    &&& spent.previous_from_coinbase == previous.from_coinbase(outpoint)
}

/// Whether a message carries the output at some position.
pub open spec fn encodes_output(
    message: TransparentOutput,
    output: ChainOutput,
    index: int,
    network: NetworkKind,
) -> bool {
    &&& message.output_index == index
    &&& message.value_zat == output.value_zat
    &&& bytes_contents(message.lock_script) == output.lock_script@
    &&& text_view(message.address) == output_address(output.lock_script@, network)
}

/// Whether a change reports that a transaction creates the output at some position.
pub open spec fn encodes_created(
    change: UtxoChange,
    output: ChainOutput,
    index: int,
    transaction_id: Seq<char>,
    network: NetworkKind,
) -> bool {
    &&& change.change matches Some(UtxoChangeKind::Created(created))
    &&& created.outpoint matches Some(outpoint)
    &&& outpoint.transaction_id@ == transaction_id
    &&& outpoint.output_index == index
    &&& created.value_zat == output.value_zat
    &&& bytes_contents(created.lock_script) == output.lock_script@
    &&& text_view(created.address) == output_address(output.lock_script@, network)
}

/// The value that an input brings in, if it is known. A coinbase input spends nothing.
pub open spec fn input_value(
    input: ChainInput,
    index: int,
    previous: PreviousOutputs<'_>,
) -> Option<u64> {
    match input {
        ChainInput::Prevout { outpoint, .. } => previous.value(outpoint, index),
        ChainInput::Coinbase { .. } => Some(0),
    }
}

/// Encodes one input, appends what is wanted of it, and returns its value.
pub fn encode_transparent_input(
    context: &TransparentEncodingContext<'_>,
    input: &ChainInput,
    input_index: usize,
    grpc_input_index: u32,
    transaction_inputs: &mut Vec<TransparentInput>,
    utxo_changes: &mut Vec<UtxoChange>,
) -> (value: Option<u64>)
    requires
        context.previous_outputs.well_formed(),
        input_index == grpc_input_index,
    ensures
        value == input_value(*input, input_index as int, context.previous_outputs),
        if context.transaction_updates {
            &&& final(transaction_inputs)@.len() == old(transaction_inputs)@.len() + 1
            &&& final(transaction_inputs)@.drop_last() == old(transaction_inputs)@
            &&& encodes_input(
                final(transaction_inputs)@.last(),
                *input,
                input_index as int,
                context.previous_outputs,
                context.network,
            )
        } else {
            final(transaction_inputs)@ == old(transaction_inputs)@
        },
        if context.utxo_updates && *input is Prevout {
            &&& final(utxo_changes)@.len() == old(utxo_changes)@.len() + 1
            &&& final(utxo_changes)@.drop_last() == old(utxo_changes)@
            &&& encodes_spent(
                final(utxo_changes)@.last(),
                *input,
                input_index as int,
                context.previous_outputs,
                context.network,
            )
        } else {
            final(utxo_changes)@ == old(utxo_changes)@
        },
{
    match input {
        ChainInput::Prevout { outpoint, unlock_script, sequence } => {
            let previous = encode_previous_output(context, outpoint, input_index);
            let transaction_id = transaction_hash_text(&outpoint.hash);
            let unlock_script = Bytes::copy_from_slice(unlock_script.as_slice());
            if context.transaction_updates {
                transaction_inputs.push(
                    TransparentInput {
                        input_index: grpc_input_index,
                        sequence: *sequence,
                        input: Some(
                            TransparentInputKind::Prevout(
                                TransparentPrevoutInput {
                                    previous_output: Some(
                                        Outpoint {
                                            transaction_id: transaction_id.clone(),
                                            output_index: outpoint.index,
                                        },
                                    ),
                                    unlock_script: unlock_script.clone(),
                                    previous_value_zat: previous.value_zat,
                                    previous_lock_script: previous.lock_script.clone(),
                                    previous_address: previous.address.clone(),
                                    previous_height: previous.height,
                                    previous_from_coinbase: previous.from_coinbase,
                                },
                            ),
                        ),
                    },
                );
            }
            if context.utxo_updates {
                utxo_changes.push(
                    UtxoChange {
                        change: Some(
                            UtxoChangeKind::Spent(
                                UtxoSpent {
                                    outpoint: Some(
                                        Outpoint { transaction_id, output_index: outpoint.index },
                                    ),
                                    input_index: grpc_input_index,
                                    unlock_script,
                                    sequence: *sequence,
                                    previous_value_zat: previous.value_zat,
                                    previous_lock_script: previous.lock_script,
                                    previous_address: previous.address,
                                    previous_height: previous.height,
                                    previous_from_coinbase: previous.from_coinbase,
                                },
                            ),
                        ),
                    },
                );
            }
            previous.value_zat
        },
        ChainInput::Coinbase { height, data, sequence } => {
            if context.transaction_updates {
                transaction_inputs.push(
                    TransparentInput {
                        input_index: grpc_input_index,
                        sequence: *sequence,
                        input: Some(
                            TransparentInputKind::Coinbase(
                                TransparentCoinbaseInput {
                                    height: *height,
                                    data: Bytes::copy_from_slice(data.as_slice()),
                                },
                            ),
                        ),
                    },
                );
            }
            Some(0)
        },
    }
}

/// Encodes one output, appends what is wanted of it, and returns its value.
pub fn encode_transparent_output(
    context: &TransparentEncodingContext<'_>,
    output: &ChainOutput,
    output_index: u32,
    transaction_id: &String,
    transaction_outputs: &mut Vec<TransparentOutput>,
    utxo_changes: &mut Vec<UtxoChange>,
) -> (value: u64)
    requires
        output.well_formed(),
    ensures
        value == output.value_zat,
        if context.transaction_updates {
            &&& final(transaction_outputs)@.len() == old(transaction_outputs)@.len() + 1
            &&& final(transaction_outputs)@.drop_last() == old(transaction_outputs)@
            &&& encodes_output(
                final(transaction_outputs)@.last(),
                *output,
                output_index as int,
                context.network,
            )
        } else {
            final(transaction_outputs)@ == old(transaction_outputs)@
        },
        if context.utxo_updates {
            &&& final(utxo_changes)@.len() == old(utxo_changes)@.len() + 1
            &&& final(utxo_changes)@.drop_last() == old(utxo_changes)@
            &&& encodes_created(
                final(utxo_changes)@.last(),
                *output,
                output_index as int,
                transaction_id@,
                context.network,
            )
        } else {
            final(utxo_changes)@ == old(utxo_changes)@
        },
{
    let lock_script = Bytes::copy_from_slice(output.lock_script.as_slice());
    let address = output_address_text(output.lock_script.as_slice(), context.network);
    if context.transaction_updates {
        transaction_outputs.push(
            TransparentOutput {
                output_index,
                value_zat: output.value_zat,
                lock_script: lock_script.clone(),
                address: address.clone(),
            },
        );
    }
    if context.utxo_updates {
        utxo_changes.push(
            UtxoChange {
                change: Some(
                    UtxoChangeKind::Created(
                        UtxoCreated {
                            outpoint: Some(
                                Outpoint { transaction_id: transaction_id.clone(), output_index },
                            ),
                            value_zat: output.value_zat,
                            lock_script,
                            address,
                        },
                    ),
                ),
            },
        );
    }
    output.value_zat
}

/// Whether every value is known.
pub open spec fn all_known(values: Seq<Option<u64>>) -> bool {
    forall|i: int| 0 <= i < values.len() ==> (#[trigger] values[i]) is Some
}

/// The total of the values before the first unknown one.
pub open spec fn known_sum(values: Seq<Option<u64>>) -> nat
    decreases values.len(),
{
    if values.len() == 0 {
        0
    } else if all_known(values) {
        known_sum(values.drop_last()) + values.last()->0 as nat
    } else {
        known_sum(values.drop_last())
    }
}

/// The total of all values.
pub open spec fn sum(values: Seq<u64>) -> nat
    decreases values.len(),
{
    if values.len() == 0 {
        0
    } else {
        sum(values.drop_last()) + values.last() as nat
    }
}

/// The items at the positions that an index of the protocol can express.
pub open spec fn indexable<T>(items: Seq<T>) -> Seq<T> {
    if items.len() > INDEX_LIMIT {
        items.take(INDEX_LIMIT as int)
    } else {
        items
    }
}

/// The values of all inputs, as far as they are known.
pub open spec fn input_values(
    inputs: Seq<ChainInput>,
    previous: PreviousOutputs<'_>,
) -> Seq<Option<u64>> {
    Seq::new(inputs.len(), |i: int| input_value(inputs[i], i, previous))
}

/// The values of all outputs.
pub open spec fn output_values(outputs: Seq<ChainOutput>) -> Seq<u64> {
    Seq::new(outputs.len(), |i: int| outputs[i].value_zat)
}

/// The number of inputs that spend a previous output.
pub open spec fn spent_count(inputs: Seq<ChainInput>) -> nat
    decreases inputs.len(),
{
    if inputs.len() == 0 {
        0
    } else if inputs.last() is Prevout {
        spent_count(inputs.drop_last()) + 1
    } else {
        spent_count(inputs.drop_last())
    }
}

/// Whether changes report the spent outputs of the inputs, in the order of the inputs.
pub open spec fn encodes_spends(
    changes: Seq<UtxoChange>,
    inputs: Seq<ChainInput>,
    previous: PreviousOutputs<'_>,
    network: NetworkKind,
) -> bool {
    &&& changes.len() == spent_count(inputs)
    &&& forall|i: int|
        0 <= i < inputs.len() && (#[trigger] inputs[i]) is Prevout ==> encodes_spent(
            changes[spent_count(inputs.take(i)) as int],
            inputs[i],
            i,
            previous,
            network,
        )
}

/// Whether changes report the created outputs, in their order.
pub open spec fn encodes_creations(
    changes: Seq<UtxoChange>,
    outputs: Seq<ChainOutput>,
    transaction_id: Seq<char>,
    network: NetworkKind,
) -> bool {
    &&& changes.len() == outputs.len()
    &&& forall|i: int|
        0 <= i < outputs.len() ==> encodes_created(
            #[trigger] changes[i],
            outputs[i],
            i,
            transaction_id,
            network,
        )
}

/// Whether messages carry all inputs, in their order.
pub open spec fn encodes_inputs(
    messages: Seq<TransparentInput>,
    inputs: Seq<ChainInput>,
    previous: PreviousOutputs<'_>,
    network: NetworkKind,
) -> bool {
    &&& messages.len() == inputs.len()
    &&& forall|i: int|
        0 <= i < inputs.len() ==> encodes_input(
            #[trigger] messages[i],
            inputs[i],
            i,
            previous,
            network,
        )
}

/// Whether messages carry all outputs, in their order.
pub open spec fn encodes_outputs(
    messages: Seq<TransparentOutput>,
    outputs: Seq<ChainOutput>,
    network: NetworkKind,
) -> bool {
    &&& messages.len() == outputs.len()
    &&& forall|i: int|
        0 <= i < outputs.len() ==> encodes_output(#[trigger] messages[i], outputs[i], i, network)
}

/// Why the transparent parts of a transaction cannot be encoded, if they cannot. Inputs come
/// before outputs, and an earlier position before a later one. Inputs are totalled only when
/// some update is wanted.
pub open spec fn transparent_error(
    transaction: ChainTransaction,
    previous: PreviousOutputs<'_>,
    wanted: bool,
) -> Option<PluginError> {
    let inputs = input_values(transaction.inputs@, previous);
    let outputs = output_values(transaction.outputs@);
    if wanted && known_sum(indexable(inputs)) > u64::MAX {
        Some(PluginError::InputValueRange)
    } else if inputs.len() > INDEX_LIMIT {
        Some(PluginError::InputIndexRange)
    } else if sum(indexable(outputs)) > u64::MAX {
        Some(PluginError::OutputValueRange)
    } else if outputs.len() > INDEX_LIMIT {
        Some(PluginError::OutputIndexRange)
    } else {
        None
    }
}

/// The total of the inputs, if it is wanted and every value is known.
pub open spec fn input_total(
    transaction: ChainTransaction,
    previous: PreviousOutputs<'_>,
    wanted: bool,
) -> Option<u64> {
    let values = input_values(transaction.inputs@, previous);
    if wanted && all_known(values) {
        Some(known_sum(values) as u64)
    } else {
        None
    }
}

/// The total of the outputs.
pub open spec fn output_total(transaction: ChainTransaction) -> u64 {
    sum(output_values(transaction.outputs@)) as u64
}

/// The transparent parts of a transaction, in the form in which updates carry them.
pub struct EncodedTransparentUpdates {
    pub transaction_inputs: Vec<TransparentInput>,
    pub transaction_outputs: Vec<TransparentOutput>,
    pub utxo_changes: Vec<UtxoChange>,
    pub transparent_input_value_zat: Option<u64>,
    pub transparent_output_value_zat: u64,
}

/// Whether changes report everything that a transaction spends and then everything that it
/// creates.
pub open spec fn encodes_changes(
    changes: Seq<UtxoChange>,
    transaction: ChainTransaction,
    transaction_id: Seq<char>,
    previous: PreviousOutputs<'_>,
    network: NetworkKind,
) -> bool {
    let spent = spent_count(transaction.inputs@) as int;
    &&& changes.len() == spent + transaction.outputs@.len()
    &&& encodes_spends(changes.take(spent), transaction.inputs@, previous, network)
    &&& encodes_creations(changes.skip(spent), transaction.outputs@, transaction_id, network)
}

impl EncodedTransparentUpdates {
    /// Whether this is what is wanted of a transaction.
    pub open spec fn encodes(
        self,
        transaction: ChainTransaction,
        transaction_id: Seq<char>,
        context: TransparentEncodingContext<'_>,
    ) -> bool {
        &&& if context.transaction_updates {
            &&& encodes_inputs(
                self.transaction_inputs@,
                transaction.inputs@,
                context.previous_outputs,
                context.network,
            )
            &&& encodes_outputs(
                self.transaction_outputs@,
                transaction.outputs@,
                context.network,
            )
        } else {
            &&& self.transaction_inputs@.len() == 0
            &&& self.transaction_outputs@.len() == 0
        }
        &&& if context.utxo_updates {
            encodes_changes(
                self.utxo_changes@,
                transaction,
                transaction_id,
                context.previous_outputs,
                context.network,
            )
        } else {
            self.utxo_changes@.len() == 0
        }
        &&& self.transparent_input_value_zat == input_total(
            transaction,
            context.previous_outputs,
            context.transaction_updates || context.utxo_updates,
        )
        &&& self.transparent_output_value_zat == output_total(transaction)
    }
}

/// Each further input that spends an output raises the count.
pub(crate) proof fn lemma_spent_count_step(inputs: Seq<ChainInput>, n: int)
    requires
        0 <= n < inputs.len(),
    ensures
        spent_count(inputs.take(n + 1)) == spent_count(inputs.take(n)) + (if inputs[n] is Prevout {
            1nat
        } else {
            0nat
        }),
{
    assert(inputs.take(n + 1).drop_last() =~= inputs.take(n));
}

/// The count for fewer inputs is no larger, and smaller when a spending input is left out.
pub(crate) proof fn lemma_spent_count_grows(inputs: Seq<ChainInput>, i: int, n: int)
    requires
        0 <= i <= n <= inputs.len(),
    ensures
        spent_count(inputs.take(i)) <= spent_count(inputs.take(n)),
        i < n && inputs[i] is Prevout ==> spent_count(inputs.take(i)) < spent_count(inputs.take(n)),
    decreases n - i,
{
    if i < n {
        lemma_spent_count_step(inputs, n - 1);
        lemma_spent_count_grows(inputs, i, n - 1);
    }
}

/// Appending the change for one more input keeps the changes complete.
proof fn lemma_encodes_spends_step(
    before: Seq<UtxoChange>,
    after: Seq<UtxoChange>,
    inputs: Seq<ChainInput>,
    n: int,
    previous: PreviousOutputs<'_>,
    network: NetworkKind,
)
    requires
        0 <= n < inputs.len(),
        encodes_spends(before, inputs.take(n), previous, network),
        if inputs[n] is Prevout {
            &&& after.len() == before.len() + 1
            &&& after.drop_last() == before
            &&& encodes_spent(after.last(), inputs[n], n, previous, network)
        } else {
            after == before
        },
    ensures
        encodes_spends(after, inputs.take(n + 1), previous, network),
{
    let now = inputs.take(n + 1);
    lemma_spent_count_step(inputs, n);
    assert forall|i: int| 0 <= i < now.len() && (#[trigger] now[i]) is Prevout implies encodes_spent(
        after[spent_count(now.take(i)) as int],
        now[i],
        i,
        previous,
        network,
    ) by {
        assert(now.take(i) =~= inputs.take(i));
        if i < n {
            let was = inputs.take(n);
            assert(was[i] == now[i]);
            assert(was.take(i) =~= inputs.take(i));
            lemma_spent_count_grows(inputs, i, n);
            assert(after[spent_count(inputs.take(i)) as int] == before[spent_count(
                inputs.take(i),
            ) as int]);
        }
    }
}

/// The total of known values up to some position.
pub(crate) proof fn lemma_known_sum_step(values: Seq<Option<u64>>, n: int)
    requires
        0 <= n < values.len(),
    ensures
        all_known(values.take(n + 1)) == (all_known(values.take(n)) && values[n] is Some),
        known_sum(values.take(n + 1)) == known_sum(values.take(n)) + (if all_known(
            values.take(n + 1),
        ) {
            values[n]->0 as nat
        } else {
            0nat
        }),
{
    let before = values.take(n);
    let after = values.take(n + 1);
    assert(after.drop_last() =~= before);
    assert(after[n] == values[n]);
    if all_known(after) {
        assert forall|i: int| 0 <= i < before.len() implies (#[trigger] before[i]) is Some by {
            assert(before[i] == after[i]);
        }
    }
    if all_known(before) && values[n] is Some {
        assert forall|i: int| 0 <= i < after.len() implies (#[trigger] after[i]) is Some by {
            if i < n {
                assert(after[i] == before[i]);
            }
        }
    }
}

/// The total of a longer run of values is no smaller.
pub(crate) proof fn lemma_known_sum_grows(values: Seq<Option<u64>>, i: int, n: int)
    requires
        0 <= i <= n <= values.len(),
    ensures
        known_sum(values.take(i)) <= known_sum(values.take(n)),
    decreases n - i,
{
    if i < n {
        lemma_known_sum_step(values, n - 1);
        lemma_known_sum_grows(values, i, n - 1);
    }
}

/// The total of a longer run of values is no smaller.
pub(crate) proof fn lemma_sum_grows(values: Seq<u64>, i: int, n: int)
    requires
        0 <= i <= n <= values.len(),
    ensures
        sum(values.take(i)) <= sum(values.take(n)),
    decreases n - i,
{
    if i < n {
        assert(values.take(n).drop_last() =~= values.take(n - 1));
        lemma_sum_grows(values, i, n - 1);
    }
}

/// The indexable items are a prefix.
proof fn lemma_indexable<T>(items: Seq<T>)
    ensures
        indexable(items) == items.take(indexable(items).len() as int),
        indexable(items).len() <= items.len(),
        indexable(items).len() == items.len() || indexable(items).len() == INDEX_LIMIT,
{
    assert(items.take(items.len() as int) =~= items);
}

/// Encodes the transparent inputs and outputs of a transaction.
pub fn encode_transparent_updates(
    transaction: &ChainTransaction,
    transaction_id: &String,
    network: NetworkKind,
    previous_outputs: PreviousOutputs<'_>,
    transaction_updates: bool,
    utxo_updates: bool,
) -> (result: Result<EncodedTransparentUpdates, PluginError>)
    requires
        transaction.well_formed(),
        previous_outputs.well_formed(),
    ensures
        match result {
            Ok(encoded) => {
                &&& transparent_error(
                    *transaction,
                    previous_outputs,
                    transaction_updates || utxo_updates,
                ) is None
                &&& encoded.encodes(
                    *transaction,
                    transaction_id@,
                    (TransparentEncodingContext {
                        network,
                        previous_outputs,
                        transaction_updates,
                        utxo_updates,
                    }),
                )
            },
            Err(error) => transparent_error(
                *transaction,
                previous_outputs,
                transaction_updates || utxo_updates,
            ) == Some(error),
        },
{
    let context = TransparentEncodingContext {
        network,
        previous_outputs,
        transaction_updates,
        utxo_updates,
    };
    let wanted = transaction_updates || utxo_updates;
    let ghost inputs = transaction.inputs@;
    let ghost outputs = transaction.outputs@;
    let ghost ins = input_values(inputs, previous_outputs);
    let ghost outs = output_values(outputs);
    let mut transaction_inputs: Vec<TransparentInput> = Vec::new();
    let mut transaction_outputs: Vec<TransparentOutput> = Vec::new();
    let mut utxo_changes: Vec<UtxoChange> = Vec::new();
    let mut input_total: Option<u64> = if wanted {
        Some(0)
    } else {
        None
    };
    let mut output_total: u64 = 0;
    proof {
        lemma_indexable(ins);
        lemma_indexable(outs);
        assert(inputs.take(0) =~= Seq::empty());
        assert(ins.take(0) =~= Seq::empty());
    }

    let mut input_index: usize = 0;
    while input_index < transaction.inputs.len()
        invariant
            context == (TransparentEncodingContext {
                network,
                previous_outputs,
                transaction_updates,
                utxo_updates,
            }),
            wanted == (transaction_updates || utxo_updates),
            previous_outputs.well_formed(),
            inputs == transaction.inputs@,
            ins == input_values(inputs, previous_outputs),
            indexable(ins) == ins.take(indexable(ins).len() as int),
            input_index <= inputs.len(),
            input_index <= indexable(ins).len(),
            if transaction_updates {
                encodes_inputs(
                    transaction_inputs@,
                    inputs.take(input_index as int),
                    previous_outputs,
                    network,
                )
            } else {
                transaction_inputs@.len() == 0
            },
            if utxo_updates {
                encodes_spends(
                    utxo_changes@,
                    inputs.take(input_index as int),
                    previous_outputs,
                    network,
                )
            } else {
                utxo_changes@.len() == 0
            },
            input_total == (if wanted && all_known(ins.take(input_index as int)) {
                Some(known_sum(ins.take(input_index as int)) as u64)
            } else {
                None
            }),
            wanted ==> known_sum(ins.take(input_index as int)) <= u64::MAX,
        decreases inputs.len() - input_index,
    {
        let ghost n = input_index as int;
        let ghost changes_before = utxo_changes@;
        let ghost inputs_before = transaction_inputs@;
        let grpc_input_index: u32 = match u32::try_from(input_index) {
            Ok(index) => index,
            Err(_) => {
                proof {
                    assert(n == INDEX_LIMIT);
                }
                return Err(PluginError::InputIndexRange);
            },
        };
        let value = encode_transparent_input(
            &context,
            &transaction.inputs[input_index],
            input_index,
            grpc_input_index,
            &mut transaction_inputs,
            &mut utxo_changes,
        );
        proof {
            assert(ins[n] == value);
            lemma_known_sum_step(ins, n);
            if utxo_updates {
                lemma_encodes_spends_step(
                    changes_before,
                    utxo_changes@,
                    inputs,
                    n,
                    previous_outputs,
                    network,
                );
            }
            if transaction_updates {
                assert forall|i: int| 0 <= i < n + 1 implies encodes_input(
                    #[trigger] transaction_inputs@[i],
                    inputs.take(n + 1)[i],
                    i,
                    previous_outputs,
                    network,
                ) by {
                    if i < n {
                        assert(transaction_inputs@[i] == inputs_before[i]);
                        assert(inputs.take(n)[i] == inputs[i]);
                    }
                }
            }
        }
        input_total = match (input_total, value) {
            (Some(total), Some(value)) => match total.checked_add(value) {
                Some(total) => Some(total),
                None => {
                    proof {
                        lemma_known_sum_grows(ins, n + 1, indexable(ins).len() as int);
                    }
                    return Err(PluginError::InputValueRange);
                },
            },
            _ => None,
        };
        input_index = input_index + 1;
    }
    proof {
        assert(inputs.take(inputs.len() as int) =~= inputs);
        assert(ins.take(ins.len() as int) =~= ins);
        assert(outputs.take(0) =~= Seq::empty());
        assert(outs.take(0) =~= Seq::empty());
    }
    let ghost spends = utxo_changes@;

    let mut output_index: usize = 0;
    while output_index < transaction.outputs.len()
        invariant
            context == (TransparentEncodingContext {
                network,
                previous_outputs,
                transaction_updates,
                utxo_updates,
            }),
            transaction.well_formed(),
            outputs == transaction.outputs@,
            outs == output_values(outputs),
            ins.len() <= INDEX_LIMIT,
            ins == input_values(transaction.inputs@, previous_outputs),
            wanted == (transaction_updates || utxo_updates),
            wanted ==> known_sum(ins) <= u64::MAX,
            indexable(outs) == outs.take(indexable(outs).len() as int),
            output_index <= outputs.len(),
            output_index <= indexable(outs).len(),
            if transaction_updates {
                encodes_outputs(
                    transaction_outputs@,
                    outputs.take(output_index as int),
                    network,
                )
            } else {
                transaction_outputs@.len() == 0
            },
            if utxo_updates {
                &&& utxo_changes@.len() == spends.len() + output_index
                &&& utxo_changes@.take(spends.len() as int) == spends
                &&& encodes_creations(
                    utxo_changes@.skip(spends.len() as int),
                    outputs.take(output_index as int),
                    transaction_id@,
                    network,
                )
            } else {
                utxo_changes@.len() == 0
            },
            output_total == sum(outs.take(output_index as int)),
        decreases outputs.len() - output_index,
    {
        let ghost n = output_index as int;
        let ghost changes_before = utxo_changes@;
        let ghost outputs_before = transaction_outputs@;
        let grpc_output_index: u32 = match u32::try_from(output_index) {
            Ok(index) => index,
            Err(_) => {
                proof {
                    assert(n == INDEX_LIMIT);
                }
                return Err(PluginError::OutputIndexRange);
            },
        };
        let value: u64 = encode_transparent_output(
            &context,
            &transaction.outputs[output_index],
            grpc_output_index,
            transaction_id,
            &mut transaction_outputs,
            &mut utxo_changes,
        );
        proof {
            assert(outs.take(n + 1).drop_last() =~= outs.take(n));
            assert(outs[n] == value);
            if utxo_updates {
                let base = spends.len() as int;
                assert(utxo_changes@.take(base) =~= changes_before.take(base));
                assert forall|i: int| 0 <= i < n + 1 implies encodes_created(
                    #[trigger] utxo_changes@.skip(base)[i],
                    outputs.take(n + 1)[i],
                    i,
                    transaction_id@,
                    network,
                ) by {
                    if i < n {
                        assert(utxo_changes@.skip(base)[i] == changes_before.skip(base)[i]);
                        assert(outputs.take(n)[i] == outputs[i]);
                    }
                }
            }
            if transaction_updates {
                assert forall|i: int| 0 <= i < n + 1 implies encodes_output(
                    #[trigger] transaction_outputs@[i],
                    outputs.take(n + 1)[i],
                    i,
                    network,
                ) by {
                    if i < n {
                        assert(transaction_outputs@[i] == outputs_before[i]);
                        assert(outputs.take(n)[i] == outputs[i]);
                    }
                }
            }
        }
        output_total =
        match output_total.checked_add(value) {
            Some(total) => total,
            None => {
                proof {
                    lemma_sum_grows(outs, n + 1, indexable(outs).len() as int);
                }
                return Err(PluginError::OutputValueRange);
            },
        };
        output_index = output_index + 1;
    }
    proof {
        assert(outputs.take(outputs.len() as int) =~= outputs);
        assert(outs.take(outs.len() as int) =~= outs);
    }
    Ok(
        EncodedTransparentUpdates {
            transaction_inputs,
            transaction_outputs,
            utxo_changes,
            transparent_input_value_zat: input_total,
            transparent_output_value_zat: output_total,
        },
    )
}

/// Where the node has no verified context for an output that is spent, updates carry the
/// reference to the output and nothing else of it, and no total of the inputs.
pub proof fn law_missing_context_is_left_out(
    transaction: ChainTransaction,
    previous: PreviousOutputs<'_>,
    network: NetworkKind,
    wanted: bool,
    index: int,
    message: TransparentInput,
    change: UtxoChange,
)
    requires
        0 <= index < transaction.inputs@.len(),
        transaction.inputs@[index] is Prevout,
        previous.output(transaction.inputs@[index]->outpoint, index) is None,
        encodes_input(message, transaction.inputs@[index], index, previous, network),
        encodes_spent(change, transaction.inputs@[index], index, previous, network),
    ensures
        input_total(transaction, previous, wanted) is None,
        message.input matches Some(TransparentInputKind::Prevout(prevout))
            && prevout.previous_output is Some && prevout.previous_value_zat is None
            && prevout.previous_lock_script is None && prevout.previous_address is None
            && prevout.previous_height is None && prevout.previous_from_coinbase is None,
        change.change matches Some(UtxoChangeKind::Spent(spent)) && spent.outpoint is Some
            && spent.previous_value_zat is None && spent.previous_lock_script is None
            && spent.previous_address is None && spent.previous_height is None
            && spent.previous_from_coinbase is None,
{
    let values = input_values(transaction.inputs@, previous);
    assert(values[index] is None);
}

/// There is one encoding of the inputs.
pub(crate) proof fn lemma_one_encoding_of_inputs(
    left: Seq<TransparentInput>,
    right: Seq<TransparentInput>,
    inputs: Seq<ChainInput>,
    previous: PreviousOutputs<'_>,
    network: NetworkKind,
)
    requires
        encodes_inputs(left, inputs, previous, network),
        encodes_inputs(right, inputs, previous, network),
    ensures
        same_inputs(left, right),
{
    assert forall|i: int| 0 <= i < left.len() implies same_input(#[trigger] left[i], right[i]) by {
        assert(encodes_input(left[i], inputs[i], i, previous, network));
        assert(encodes_input(right[i], inputs[i], i, previous, network));
    }
}

/// There is one encoding of the outputs.
pub(crate) proof fn lemma_one_encoding_of_outputs(
    left: Seq<TransparentOutput>,
    right: Seq<TransparentOutput>,
    outputs: Seq<ChainOutput>,
    network: NetworkKind,
)
    requires
        encodes_outputs(left, outputs, network),
        encodes_outputs(right, outputs, network),
    ensures
        same_outputs(left, right),
{
    assert forall|i: int| 0 <= i < left.len() implies same_output(#[trigger] left[i], right[i]) by {
        assert(encodes_output(left[i], outputs[i], i, network));
        assert(encodes_output(right[i], outputs[i], i, network));
    }
}

/// The input behind a spent output.
proof fn lemma_spending_input(inputs: Seq<ChainInput>, position: int) -> (index: int)
    requires
        0 <= position < spent_count(inputs),
    ensures
        0 <= index < inputs.len(),
        inputs[index] is Prevout,
        spent_count(inputs.take(index)) == position,
    decreases inputs.len(),
{
    let rest = inputs.drop_last();
    if position < spent_count(rest) {
        let index = lemma_spending_input(rest, position);
        assert(rest.take(index) =~= inputs.take(index));
        index
    } else {
        assert(inputs.take(inputs.len() - 1) =~= rest);
        inputs.len() - 1
    }
}

/// There is one encoding of what a transaction spends and creates.
pub(crate) proof fn lemma_one_encoding_of_changes(
    left: Seq<UtxoChange>,
    right: Seq<UtxoChange>,
    transaction: ChainTransaction,
    transaction_id: Seq<char>,
    previous: PreviousOutputs<'_>,
    network: NetworkKind,
)
    requires
        encodes_changes(left, transaction, transaction_id, previous, network),
        encodes_changes(right, transaction, transaction_id, previous, network),
    ensures
        same_changes(left, right),
{
    let inputs = transaction.inputs@;
    let outputs = transaction.outputs@;
    let spent = spent_count(inputs) as int;
    assert forall|i: int| 0 <= i < left.len() implies same_change(#[trigger] left[i], right[i]) by {
        if i < spent {
            let index = lemma_spending_input(inputs, i);
            assert(encodes_spent(left.take(spent)[i], inputs[index], index, previous, network));
            assert(encodes_spent(right.take(spent)[i], inputs[index], index, previous, network));
        } else {
            let k = i - spent;
            assert(encodes_created(left.skip(spent)[k], outputs[k], k, transaction_id, network));
            assert(encodes_created(right.skip(spent)[k], outputs[k], k, transaction_id, network));
        }
    }
}

} // verus!
