//! Encoded lengths of updates in the protobuf wire format.
//!
//! A message is a run of fields. Each field is a key, which carries the field's tag, and a
//! payload. Scalars that hold their default value are left out, unless they are `optional`.

use crate::buffer::bytes_contents;
use crate::proto::{
    BestChainGrow, BestChainReset, BestChainUpdate, BestChainUpdateChange, BlockUpdate,
    CanonicalBlock, MempoolTransactionUpdate, MempoolUpdate, Outpoint, SubscribeUpdate, Timestamp,
    TransactionUpdate, TransparentCoinbaseInput, TransparentInput, TransparentInputKind,
    TransparentOutput, TransparentPrevoutInput, Update, UtxoChange, UtxoChangeKind, UtxoCreated,
    UtxoSpent, UtxoUpdate,
};
use bytes::Bytes;
use vstd::prelude::*;
use vstd::utf8::encode_utf8;

verus! {

/// The number of seven-bit groups that a number takes as a varint.
pub open spec fn varint_len(value: nat) -> nat
    decreases value,
{
    if value < 128 {
        1
    } else {
        1 + varint_len(value / 128)
    }
}

/// The length of a field key: the tag, shifted past the three bits of the wire type.
pub open spec fn key_length(tag: nat) -> nat {
    varint_len(tag * 8)
}

/// A length-delimited payload behind its key.
pub open spec fn delimited(tag: nat, length: nat) -> nat {
    key_length(tag) + varint_len(length) + length
}

/// An unsigned scalar, left out when it is zero.
pub open spec fn uint_field(tag: nat, value: nat) -> nat {
    if value == 0 {
        0
    } else {
        key_length(tag) + varint_len(value)
    }
}

/// An `optional` unsigned scalar, left out when it is absent.
pub open spec fn optional_uint_field(tag: nat, value: Option<nat>) -> nat {
    match value {
        Some(value) => key_length(tag) + varint_len(value),
        None => 0,
    }
}

/// A signed scalar, left out when it is zero. A negative number is sign-extended to 64 bits.
pub open spec fn int_field(tag: nat, value: int) -> nat {
    if value == 0 {
        0
    } else if value < 0 {
        key_length(tag) + varint_len((0x1_0000_0000_0000_0000 + value) as nat)
    } else {
        key_length(tag) + varint_len(value as nat)
    }
}

/// A flag, left out when it is false.
pub open spec fn bool_field(tag: nat, value: bool) -> nat {
    uint_field(tag, if value { 1nat } else { 0nat })
}

/// An `optional` flag, left out when it is absent.
pub open spec fn optional_bool_field(tag: nat, value: Option<bool>) -> nat {
    match value {
        Some(_) => key_length(tag) + 1,
        None => 0,
    }
}

/// Bytes or text of some length, left out when empty.
pub open spec fn bytes_field(tag: nat, length: nat) -> nat {
    if length == 0 {
        0
    } else {
        delimited(tag, length)
    }
}

/// A single-precision number by its bit pattern, left out when it is a positive or negative zero.
pub open spec fn float_field(tag: nat, bits: u32) -> nat {
    if bits == 0 || bits == 0x8000_0000 {
        0
    } else {
        key_length(tag) + 4
    }
}

/// The length of a text in UTF-8.
pub open spec fn utf8_len(text: String) -> nat {
    encode_utf8(text@).len()
}

/// A text field, left out when empty.
pub open spec fn text_field(tag: nat, text: String) -> nat {
    bytes_field(tag, utf8_len(text))
}

/// An `optional` text field.
pub open spec fn optional_text_field(tag: nat, text: Option<String>) -> nat {
    match text {
        Some(text) => delimited(tag, utf8_len(text)),
        None => 0,
    }
}

/// A bytes field, left out when empty.
pub open spec fn buffer_field(tag: nat, buffer: Bytes) -> nat {
    bytes_field(tag, bytes_contents(buffer).len())
}

/// An `optional` bytes field.
pub open spec fn optional_buffer_field(tag: nat, buffer: Option<Bytes>) -> nat {
    match buffer {
        Some(buffer) => delimited(tag, bytes_contents(buffer).len()),
        None => 0,
    }
}

/// Repeated text: one delimited field for each.
pub open spec fn repeated_text_field(tag: nat, values: Seq<String>) -> nat
    decreases values.len(),
{
    if values.len() == 0 {
        0
    } else {
        repeated_text_field(tag, values.drop_last()) + delimited(tag, utf8_len(values.last()))
    }
}

/// Repeated messages: one delimited field for each.
pub open spec fn repeated_message_field<T>(
    tag: nat,
    values: Seq<T>,
    length: spec_fn(T) -> nat,
) -> nat
    decreases values.len(),
{
    if values.len() == 0 {
        0
    } else {
        repeated_message_field(tag, values.drop_last(), length) + delimited(
            tag,
            length(values.last()),
        )
    }
}

/// An optional message.
pub open spec fn optional_message_field<T>(
    tag: nat,
    value: Option<T>,
    length: spec_fn(T) -> nat,
) -> nat {
    match value {
        Some(value) => delimited(tag, length(value)),
        None => 0,
    }
}

/// `u32` as an optional natural number.
pub open spec fn wide32(value: Option<u32>) -> Option<nat> {
    match value {
        Some(value) => Some(value as nat),
        None => None,
    }
}

/// `u64` as an optional natural number.
pub open spec fn wide64(value: Option<u64>) -> Option<nat> {
    match value {
        Some(value) => Some(value as nat),
        None => None,
    }
}

/// A length as the machine holds it: lengths past the address space are held at its limit.
pub open spec fn capped(length: nat) -> usize {
    if length > usize::MAX {
        usize::MAX
    } else {
        length as usize
    }
}

/// `prost::encoding::encoded_len_varint` counts the bytes of a number in the LEB128 format that
/// varints use: one for every started group of seven bits.
pub assume_specification[ prost::encoding::encoded_len_varint ](value: u64) -> (length: usize)
    ensures
        length == varint_len(value as nat),
;

/// `prost::encoding::key_len` counts the bytes of a field key, which is the varint of the tag
/// shifted left by three bits.
pub assume_specification[ prost::encoding::key_len ](tag: u32) -> (length: usize)
    requires
        tag < 0x2000_0000,
    ensures
        length == varint_len(tag as nat * 8),
;

/// A length that is being added up.
pub struct Length {
    held: usize,
    exact: Ghost<nat>,
}

impl Length {
    /// The exact sum.
    pub closed spec fn exact(self) -> nat {
        self.exact@
    }

    /// The machine holds the exact sum, up to its limit.
    pub closed spec fn wf(self) -> bool {
        self.held == capped(self.exact@)
    }

    /// Nothing added yet.
    fn zero() -> (length: Self)
        ensures
            length.wf(),
            length.exact() == 0,
    {
        Length { held: 0, exact: Ghost(0) }
    }

    /// The sum as the machine holds it.
    fn get(&self) -> (held: usize)
        requires
            self.wf(),
        ensures
            held == capped(self.exact()),
    {
        self.held
    }

    fn add(&mut self, amount: usize)
        requires
            old(self).wf(),
        ensures
            final(self).wf(),
            final(self).exact() == old(self).exact() + amount,
    {
        self.held = self.held.saturating_add(amount);
        self.exact = Ghost(self.exact@ + amount as nat);
    }

    fn add_length(&mut self, amount: &Length)
        requires
            old(self).wf(),
            amount.wf(),
        ensures
            final(self).wf(),
            final(self).exact() == old(self).exact() + amount.exact(),
    {
        self.held = self.held.saturating_add(amount.held);
        self.exact = Ghost(self.exact@ + amount.exact@);
    }

    fn varint(&mut self, tag: u32, value: u64)
        requires
            old(self).wf(),
            tag < 0x2000_0000,
        ensures
            final(self).wf(),
            final(self).exact() == old(self).exact() + key_length(tag as nat) + varint_len(
                value as nat,
            ),
    {
        self.add(prost::encoding::key_len(tag));
        self.add(prost::encoding::encoded_len_varint(value));
    }

    fn uint(&mut self, tag: u32, value: u64)
        requires
            old(self).wf(),
            tag < 0x2000_0000,
        ensures
            final(self).wf(),
            final(self).exact() == old(self).exact() + uint_field(tag as nat, value as nat),
    {
        if value != 0 {
            self.varint(tag, value);
        }
    }

    fn optional_u32(&mut self, tag: u32, value: Option<u32>)
        requires
            old(self).wf(),
            tag < 0x2000_0000,
        ensures
            final(self).wf(),
            final(self).exact() == old(self).exact() + optional_uint_field(
                tag as nat,
                wide32(value),
            ),
    {
        if let Some(value) = value {
            self.varint(tag, value as u64);
        }
    }

    fn optional_u64(&mut self, tag: u32, value: Option<u64>)
        requires
            old(self).wf(),
            tag < 0x2000_0000,
        ensures
            final(self).wf(),
            final(self).exact() == old(self).exact() + optional_uint_field(
                tag as nat,
                wide64(value),
            ),
    {
        if let Some(value) = value {
            self.varint(tag, value);
        }
    }

    fn signed(&mut self, tag: u32, value: i64)
        requires
            old(self).wf(),
            tag < 0x2000_0000,
        ensures
            final(self).wf(),
            final(self).exact() == old(self).exact() + int_field(tag as nat, value as int),
    {
        if value < 0 {
            let complement: u64 = (-(value + 1)) as u64;
            self.varint(tag, u64::MAX - complement);
        } else {
            self.uint(tag, value as u64);
        }
    }

    fn flag(&mut self, tag: u32, value: bool)
        requires
            old(self).wf(),
            tag < 0x2000_0000,
        ensures
            final(self).wf(),
            final(self).exact() == old(self).exact() + bool_field(tag as nat, value),
    {
        if value {
            self.uint(tag, 1);
        }
    }

    fn optional_flag(&mut self, tag: u32, value: Option<bool>)
        requires
            old(self).wf(),
            tag < 0x2000_0000,
        ensures
            final(self).wf(),
            final(self).exact() == old(self).exact() + optional_bool_field(tag as nat, value),
    {
        if value.is_some() {
            self.add(prost::encoding::key_len(tag));
            self.add(1);
        }
    }

    fn float(&mut self, tag: u32, bits: u32)
        requires
            old(self).wf(),
            tag < 0x2000_0000,
        ensures
            final(self).wf(),
            final(self).exact() == old(self).exact() + float_field(tag as nat, bits),
    {
        if bits != 0 && bits != 0x8000_0000 {
            self.add(prost::encoding::key_len(tag));
            self.add(4);
        }
    }

    fn payload(&mut self, tag: u32, size: usize)
        requires
            old(self).wf(),
            tag < 0x2000_0000,
        ensures
            final(self).wf(),
            final(self).exact() == old(self).exact() + delimited(tag as nat, size as nat),
    {
        self.varint(tag, size as u64);
        self.add(size);
    }

    fn text(&mut self, tag: u32, text: &String)
        requires
            old(self).wf(),
            tag < 0x2000_0000,
        ensures
            final(self).wf(),
            final(self).exact() == old(self).exact() + text_field(tag as nat, *text),
    {
        let size: usize = text.as_str().as_bytes().len();
        if size != 0 {
            self.payload(tag, size);
        }
    }

    fn optional_text(&mut self, tag: u32, text: &Option<String>)
        requires
            old(self).wf(),
            tag < 0x2000_0000,
        ensures
            final(self).wf(),
            final(self).exact() == old(self).exact() + optional_text_field(tag as nat, *text),
    {
        if let Some(text) = text {
            self.payload(tag, text.as_str().as_bytes().len());
        }
    }

    fn repeated_text(&mut self, tag: u32, values: &Vec<String>)
        requires
            old(self).wf(),
            tag < 0x2000_0000,
        ensures
            final(self).wf(),
            final(self).exact() == old(self).exact() + repeated_text_field(tag as nat, values@),
    {
        let ghost start = self.exact();
        for index in 0..values.len()
            invariant
                tag < 0x2000_0000,
                self.wf(),
                self.exact() == start + repeated_text_field(tag as nat, values@.take(index as int)),
        {
            proof {
                assert(values@.take(index + 1).drop_last() =~= values@.take(index as int));
            }
            self.payload(tag, values[index].as_str().as_bytes().len());
        }
        proof {
            assert(values@.take(values@.len() as int) =~= values@);
        }
    }

    fn buffer(&mut self, tag: u32, buffer: &Bytes)
        requires
            old(self).wf(),
            tag < 0x2000_0000,
        ensures
            final(self).wf(),
            final(self).exact() == old(self).exact() + buffer_field(tag as nat, *buffer),
    {
        let size: usize = buffer.len();
        if size != 0 {
            self.payload(tag, size);
        }
    }

    fn optional_buffer(&mut self, tag: u32, buffer: &Option<Bytes>)
        requires
            old(self).wf(),
            tag < 0x2000_0000,
        ensures
            final(self).wf(),
            final(self).exact() == old(self).exact() + optional_buffer_field(tag as nat, *buffer),
    {
        if let Some(buffer) = buffer {
            self.payload(tag, buffer.len());
        }
    }

    /// A nested message: its length, then its fields.
    ///
    /// Past the limit of the machine the nested length is not known exactly, but then the sum is
    /// past the limit too.
    fn message(&mut self, tag: u32, message: &Length)
        requires
            old(self).wf(),
            message.wf(),
            tag < 0x2000_0000,
        ensures
            final(self).wf(),
            final(self).exact() == old(self).exact() + delimited(tag as nat, message.exact()),
    {
        let ghost total = self.exact() + delimited(tag as nat, message.exact());
        self.add_length(message);
        self.add(prost::encoding::key_len(tag));
        self.add(prost::encoding::encoded_len_varint(message.held as u64));
        self.exact = Ghost(total);
    }
}

impl Length {
    fn canonical_block_list(&mut self, tag: u32, values: &Vec<CanonicalBlock>)
        requires
            old(self).wf(),
            tag < 0x2000_0000,
        ensures
            final(self).wf(),
            final(self).exact() == old(self).exact() + repeated_message_field(
                tag as nat,
                values@,
                |value: CanonicalBlock| value.spec_encoded_len(),
            ),
    {
        let ghost start = self.exact();
        let ghost measure = |value: CanonicalBlock| value.spec_encoded_len();
        for index in 0..values.len()
            invariant
                tag < 0x2000_0000,
                self.wf(),
                measure == (|value: CanonicalBlock| value.spec_encoded_len()),
                self.exact() == start + repeated_message_field(
                    tag as nat,
                    values@.take(index as int),
                    measure,
                ),
        {
            proof {
                assert(values@.take(index + 1).drop_last() =~= values@.take(index as int));
            }
            self.message(tag, &values[index].wire_length());
        }
        proof {
            assert(values@.take(values@.len() as int) =~= values@);
        }
    }

    fn transparent_input_list(&mut self, tag: u32, values: &Vec<TransparentInput>)
        requires
            old(self).wf(),
            tag < 0x2000_0000,
        ensures
            final(self).wf(),
            final(self).exact() == old(self).exact() + repeated_message_field(
                tag as nat,
                values@,
                |value: TransparentInput| value.spec_encoded_len(),
            ),
    {
        let ghost start = self.exact();
        let ghost measure = |value: TransparentInput| value.spec_encoded_len();
        for index in 0..values.len()
            invariant
                tag < 0x2000_0000,
                self.wf(),
                measure == (|value: TransparentInput| value.spec_encoded_len()),
                self.exact() == start + repeated_message_field(
                    tag as nat,
                    values@.take(index as int),
                    measure,
                ),
        {
            proof {
                assert(values@.take(index + 1).drop_last() =~= values@.take(index as int));
            }
            self.message(tag, &values[index].wire_length());
        }
        proof {
            assert(values@.take(values@.len() as int) =~= values@);
        }
    }

    fn transparent_output_list(&mut self, tag: u32, values: &Vec<TransparentOutput>)
        requires
            old(self).wf(),
            tag < 0x2000_0000,
        ensures
            final(self).wf(),
            final(self).exact() == old(self).exact() + repeated_message_field(
                tag as nat,
                values@,
                |value: TransparentOutput| value.spec_encoded_len(),
            ),
    {
        let ghost start = self.exact();
        let ghost measure = |value: TransparentOutput| value.spec_encoded_len();
        for index in 0..values.len()
            invariant
                tag < 0x2000_0000,
                self.wf(),
                measure == (|value: TransparentOutput| value.spec_encoded_len()),
                self.exact() == start + repeated_message_field(
                    tag as nat,
                    values@.take(index as int),
                    measure,
                ),
        {
            proof {
                assert(values@.take(index + 1).drop_last() =~= values@.take(index as int));
            }
            self.message(tag, &values[index].wire_length());
        }
        proof {
            assert(values@.take(values@.len() as int) =~= values@);
        }
    }

    fn utxo_change_list(&mut self, tag: u32, values: &Vec<UtxoChange>)
        requires
            old(self).wf(),
            tag < 0x2000_0000,
        ensures
            final(self).wf(),
            final(self).exact() == old(self).exact() + repeated_message_field(
                tag as nat,
                values@,
                |value: UtxoChange| value.spec_encoded_len(),
            ),
    {
        let ghost start = self.exact();
        let ghost measure = |value: UtxoChange| value.spec_encoded_len();
        for index in 0..values.len()
            invariant
                tag < 0x2000_0000,
                self.wf(),
                measure == (|value: UtxoChange| value.spec_encoded_len()),
                self.exact() == start + repeated_message_field(
                    tag as nat,
                    values@.take(index as int),
                    measure,
                ),
        {
            proof {
                assert(values@.take(index + 1).drop_last() =~= values@.take(index as int));
            }
            self.message(tag, &values[index].wire_length());
        }
        proof {
            assert(values@.take(values@.len() as int) =~= values@);
        }
    }
}

impl Timestamp {
    /// The exact length of the encoded message.
    pub open spec fn spec_encoded_len(self) -> nat {
        int_field(1, self.seconds as int)
            + int_field(2, self.nanos as int)
    }

    fn wire_length(&self) -> (length: Length)
        ensures
            length.wf(),
            length.exact() == self.spec_encoded_len(),
    {
        let mut length = Length::zero();
        length.signed(1, self.seconds);
        length.signed(2, self.nanos as i64);
        length
    }
}

impl Outpoint {
    /// The exact length of the encoded message.
    pub open spec fn spec_encoded_len(self) -> nat {
        text_field(1, self.transaction_id)
            + uint_field(2, self.output_index as nat)
    }

    fn wire_length(&self) -> (length: Length)
        ensures
            length.wf(),
            length.exact() == self.spec_encoded_len(),
    {
        let mut length = Length::zero();
        length.text(1, &self.transaction_id);
        length.uint(2, self.output_index as u64);
        length
    }
}

impl TransparentPrevoutInput {
    /// The exact length of the encoded message.
    pub open spec fn spec_encoded_len(self) -> nat {
        optional_message_field(1, self.previous_output, |value: Outpoint| value.spec_encoded_len())
            + buffer_field(2, self.unlock_script)
            + optional_uint_field(3, wide64(self.previous_value_zat))
            + optional_buffer_field(4, self.previous_lock_script)
            + optional_text_field(5, self.previous_address)
            + optional_uint_field(6, wide32(self.previous_height))
            + optional_bool_field(7, self.previous_from_coinbase)
    }

    fn wire_length(&self) -> (length: Length)
        ensures
            length.wf(),
            length.exact() == self.spec_encoded_len(),
    {
        let mut length = Length::zero();
        if let Some(value) = &self.previous_output {
            length.message(1, &value.wire_length());
        }
        length.buffer(2, &self.unlock_script);
        length.optional_u64(3, self.previous_value_zat);
        length.optional_buffer(4, &self.previous_lock_script);
        length.optional_text(5, &self.previous_address);
        length.optional_u32(6, self.previous_height);
        length.optional_flag(7, self.previous_from_coinbase);
        length
    }
}

impl TransparentCoinbaseInput {
    /// The exact length of the encoded message.
    pub open spec fn spec_encoded_len(self) -> nat {
        uint_field(1, self.height as nat)
            + buffer_field(2, self.data)
    }

    fn wire_length(&self) -> (length: Length)
        ensures
            length.wf(),
            length.exact() == self.spec_encoded_len(),
    {
        let mut length = Length::zero();
        length.uint(1, self.height as u64);
        length.buffer(2, &self.data);
        length
    }
}

impl TransparentInput {
    /// The exact length of the encoded message.
    pub open spec fn spec_encoded_len(self) -> nat {
        uint_field(1, self.input_index as nat)
            + uint_field(2, self.sequence as nat)
            + (match self.input {
            Some(TransparentInputKind::Prevout(value)) => delimited(3, value.spec_encoded_len()),
            Some(TransparentInputKind::Coinbase(value)) => delimited(4, value.spec_encoded_len()),
            None => 0,
        })
    }

    fn wire_length(&self) -> (length: Length)
        ensures
            length.wf(),
            length.exact() == self.spec_encoded_len(),
    {
        let mut length = Length::zero();
        length.uint(1, self.input_index as u64);
        length.uint(2, self.sequence as u64);
        match &self.input {
            Some(TransparentInputKind::Prevout(value)) => length.message(3, &value.wire_length()),
            Some(TransparentInputKind::Coinbase(value)) => length.message(4, &value.wire_length()),
            None => {},
        }
        length
    }
}

impl TransparentOutput {
    /// The exact length of the encoded message.
    pub open spec fn spec_encoded_len(self) -> nat {
        uint_field(1, self.output_index as nat)
            + uint_field(2, self.value_zat as nat)
            + buffer_field(3, self.lock_script)
            + optional_text_field(4, self.address)
    }

    fn wire_length(&self) -> (length: Length)
        ensures
            length.wf(),
            length.exact() == self.spec_encoded_len(),
    {
        let mut length = Length::zero();
        length.uint(1, self.output_index as u64);
        length.uint(2, self.value_zat);
        length.buffer(3, &self.lock_script);
        length.optional_text(4, &self.address);
        length
    }
}

impl UtxoCreated {
    /// The exact length of the encoded message.
    pub open spec fn spec_encoded_len(self) -> nat {
        optional_message_field(1, self.outpoint, |value: Outpoint| value.spec_encoded_len())
            + uint_field(2, self.value_zat as nat)
            + buffer_field(3, self.lock_script)
            + optional_text_field(4, self.address)
    }

    fn wire_length(&self) -> (length: Length)
        ensures
            length.wf(),
            length.exact() == self.spec_encoded_len(),
    {
        let mut length = Length::zero();
        if let Some(value) = &self.outpoint {
            length.message(1, &value.wire_length());
        }
        length.uint(2, self.value_zat);
        length.buffer(3, &self.lock_script);
        length.optional_text(4, &self.address);
        length
    }
}

impl UtxoSpent {
    /// The exact length of the encoded message.
    pub open spec fn spec_encoded_len(self) -> nat {
        optional_message_field(1, self.outpoint, |value: Outpoint| value.spec_encoded_len())
            + uint_field(2, self.input_index as nat)
            + buffer_field(3, self.unlock_script)
            + uint_field(4, self.sequence as nat)
            + optional_uint_field(5, wide64(self.previous_value_zat))
            + optional_buffer_field(6, self.previous_lock_script)
            + optional_text_field(7, self.previous_address)
            + optional_uint_field(8, wide32(self.previous_height))
            + optional_bool_field(9, self.previous_from_coinbase)
    }

    fn wire_length(&self) -> (length: Length)
        ensures
            length.wf(),
            length.exact() == self.spec_encoded_len(),
    {
        let mut length = Length::zero();
        if let Some(value) = &self.outpoint {
            length.message(1, &value.wire_length());
        }
        length.uint(2, self.input_index as u64);
        length.buffer(3, &self.unlock_script);
        length.uint(4, self.sequence as u64);
        length.optional_u64(5, self.previous_value_zat);
        length.optional_buffer(6, &self.previous_lock_script);
        length.optional_text(7, &self.previous_address);
        length.optional_u32(8, self.previous_height);
        length.optional_flag(9, self.previous_from_coinbase);
        length
    }
}

impl UtxoChange {
    /// The exact length of the encoded message.
    pub open spec fn spec_encoded_len(self) -> nat {
        (match self.change {
            Some(UtxoChangeKind::Created(value)) => delimited(1, value.spec_encoded_len()),
            Some(UtxoChangeKind::Spent(value)) => delimited(2, value.spec_encoded_len()),
            None => 0,
        })
    }

    fn wire_length(&self) -> (length: Length)
        ensures
            length.wf(),
            length.exact() == self.spec_encoded_len(),
    {
        let mut length = Length::zero();
        match &self.change {
            Some(UtxoChangeKind::Created(value)) => length.message(1, &value.wire_length()),
            Some(UtxoChangeKind::Spent(value)) => length.message(2, &value.wire_length()),
            None => {},
        }
        length
    }
}

impl UtxoUpdate {
    /// The exact length of the encoded message.
    pub open spec fn spec_encoded_len(self) -> nat {
        uint_field(1, self.height as nat)
            + text_field(2, self.block_hash)
            + text_field(3, self.transaction_id)
            + uint_field(4, self.transaction_index as nat)
            + int_field(5, self.commitment as int)
            + repeated_message_field(6, self.changes@, |value: UtxoChange| value.spec_encoded_len())
            + bool_field(7, self.coinbase)
            + uint_field(8, self.version as nat)
            + bool_field(9, self.has_transparent)
            + bool_field(10, self.has_sapling)
            + bool_field(11, self.has_orchard)
            + optional_uint_field(12, wide64(self.transparent_input_value_zat))
            + uint_field(13, self.transparent_output_value_zat as nat)
    }

    fn wire_length(&self) -> (length: Length)
        ensures
            length.wf(),
            length.exact() == self.spec_encoded_len(),
    {
        let mut length = Length::zero();
        length.uint(1, self.height as u64);
        length.text(2, &self.block_hash);
        length.text(3, &self.transaction_id);
        length.uint(4, self.transaction_index as u64);
        length.signed(5, self.commitment as i64);
        length.utxo_change_list(6, &self.changes);
        length.flag(7, self.coinbase);
        length.uint(8, self.version as u64);
        length.flag(9, self.has_transparent);
        length.flag(10, self.has_sapling);
        length.flag(11, self.has_orchard);
        length.optional_u64(12, self.transparent_input_value_zat);
        length.uint(13, self.transparent_output_value_zat);
        length
    }
}

impl TransactionUpdate {
    /// The exact length of the encoded message.
    pub open spec fn spec_encoded_len(self) -> nat {
        text_field(1, self.transaction_id)
            + text_field(2, self.unmined_transaction_id)
            + optional_text_field(3, self.auth_digest)
            + buffer_field(4, self.transaction)
            + uint_field(5, self.height as nat)
            + text_field(6, self.block_hash)
            + uint_field(7, self.transaction_index as nat)
            + int_field(8, self.commitment as int)
            + bool_field(9, self.coinbase)
            + repeated_message_field(10, self.transparent_inputs@, |value: TransparentInput| value.spec_encoded_len())
            + repeated_message_field(11, self.transparent_outputs@, |value: TransparentOutput| value.spec_encoded_len())
            + uint_field(12, self.version as nat)
            + uint_field(13, self.lock_time as nat)
            + bool_field(14, self.lock_time_is_time)
            + optional_uint_field(15, wide32(self.expiry_height))
            + text_field(16, self.network)
            + optional_uint_field(17, wide64(self.transparent_input_value_zat))
            + uint_field(18, self.transparent_output_value_zat as nat)
            + bool_field(19, self.has_transparent)
            + bool_field(20, self.has_sapling)
            + bool_field(21, self.has_orchard)
    }

    fn wire_length(&self) -> (length: Length)
        ensures
            length.wf(),
            length.exact() == self.spec_encoded_len(),
    {
        let mut length = Length::zero();
        length.text(1, &self.transaction_id);
        length.text(2, &self.unmined_transaction_id);
        length.optional_text(3, &self.auth_digest);
        length.buffer(4, &self.transaction);
        length.uint(5, self.height as u64);
        length.text(6, &self.block_hash);
        length.uint(7, self.transaction_index as u64);
        length.signed(8, self.commitment as i64);
        length.flag(9, self.coinbase);
        length.transparent_input_list(10, &self.transparent_inputs);
        length.transparent_output_list(11, &self.transparent_outputs);
        length.uint(12, self.version as u64);
        length.uint(13, self.lock_time as u64);
        length.flag(14, self.lock_time_is_time);
        length.optional_u32(15, self.expiry_height);
        length.text(16, &self.network);
        length.optional_u64(17, self.transparent_input_value_zat);
        length.uint(18, self.transparent_output_value_zat);
        length.flag(19, self.has_transparent);
        length.flag(20, self.has_sapling);
        length.flag(21, self.has_orchard);
        length
    }
}

impl MempoolTransactionUpdate {
    /// The exact length of the encoded message.
    pub open spec fn spec_encoded_len(self) -> nat {
        text_field(1, self.transaction_id)
            + text_field(2, self.unmined_transaction_id)
            + optional_text_field(3, self.auth_digest)
            + buffer_field(4, self.transaction)
            + text_field(5, self.network)
            + repeated_message_field(6, self.transparent_inputs@, |value: TransparentInput| value.spec_encoded_len())
            + repeated_message_field(7, self.transparent_outputs@, |value: TransparentOutput| value.spec_encoded_len())
            + uint_field(8, self.version as nat)
            + uint_field(9, self.lock_time as nat)
            + bool_field(10, self.lock_time_is_time)
            + optional_uint_field(11, wide32(self.expiry_height))
            + optional_uint_field(12, wide64(self.transparent_input_value_zat))
            + uint_field(13, self.transparent_output_value_zat as nat)
            + uint_field(14, self.miner_fee_zat as nat)
            + optional_message_field(15, self.admitted_at, |value: Timestamp| value.spec_encoded_len())
            + optional_uint_field(16, wide32(self.admitted_height))
            + uint_field(17, self.conventional_actions as nat)
            + uint_field(18, self.unpaid_actions as nat)
            + uint_field(19, self.legacy_sigop_count as nat)
            + uint_field(20, self.p2sh_sigop_count as nat)
            + float_field(21, self.fee_weight_ratio_bits)
            + bool_field(22, self.coinbase)
            + bool_field(23, self.has_transparent)
            + bool_field(24, self.has_sapling)
            + bool_field(25, self.has_orchard)
    }

    fn wire_length(&self) -> (length: Length)
        ensures
            length.wf(),
            length.exact() == self.spec_encoded_len(),
    {
        let mut length = Length::zero();
        length.text(1, &self.transaction_id);
        length.text(2, &self.unmined_transaction_id);
        length.optional_text(3, &self.auth_digest);
        length.buffer(4, &self.transaction);
        length.text(5, &self.network);
        length.transparent_input_list(6, &self.transparent_inputs);
        length.transparent_output_list(7, &self.transparent_outputs);
        length.uint(8, self.version as u64);
        length.uint(9, self.lock_time as u64);
        length.flag(10, self.lock_time_is_time);
        length.optional_u32(11, self.expiry_height);
        length.optional_u64(12, self.transparent_input_value_zat);
        length.uint(13, self.transparent_output_value_zat);
        length.uint(14, self.miner_fee_zat);
        if let Some(value) = &self.admitted_at {
            length.message(15, &value.wire_length());
        }
        length.optional_u32(16, self.admitted_height);
        length.uint(17, self.conventional_actions as u64);
        length.uint(18, self.unpaid_actions as u64);
        length.uint(19, self.legacy_sigop_count as u64);
        length.uint(20, self.p2sh_sigop_count as u64);
        length.float(21, self.fee_weight_ratio_bits);
        length.flag(22, self.coinbase);
        length.flag(23, self.has_transparent);
        length.flag(24, self.has_sapling);
        length.flag(25, self.has_orchard);
        length
    }
}

impl BlockUpdate {
    /// The exact length of the encoded message.
    pub open spec fn spec_encoded_len(self) -> nat {
        uint_field(1, self.height as nat)
            + text_field(2, self.hash)
            + buffer_field(3, self.block)
            + uint_field(4, self.receipt_order as nat)
            + bool_field(5, self.finalized)
            + int_field(6, self.payload as int)
    }

    fn wire_length(&self) -> (length: Length)
        ensures
            length.wf(),
            length.exact() == self.spec_encoded_len(),
    {
        let mut length = Length::zero();
        length.uint(1, self.height as u64);
        length.text(2, &self.hash);
        length.buffer(3, &self.block);
        length.uint(4, self.receipt_order);
        length.flag(5, self.finalized);
        length.signed(6, self.payload as i64);
        length
    }
}

impl CanonicalBlock {
    /// The exact length of the encoded message.
    pub open spec fn spec_encoded_len(self) -> nat {
        uint_field(1, self.height as nat)
            + text_field(2, self.hash)
            + text_field(3, self.previous_block_hash)
    }

    fn wire_length(&self) -> (length: Length)
        ensures
            length.wf(),
            length.exact() == self.spec_encoded_len(),
    {
        let mut length = Length::zero();
        length.uint(1, self.height as u64);
        length.text(2, &self.hash);
        length.text(3, &self.previous_block_hash);
        length
    }
}

impl BestChainGrow {
    /// The exact length of the encoded message.
    pub open spec fn spec_encoded_len(self) -> nat {
        text_field(1, self.previous_block_hash)
            + repeated_text_field(2, self.transaction_ids@)
    }

    fn wire_length(&self) -> (length: Length)
        ensures
            length.wf(),
            length.exact() == self.spec_encoded_len(),
    {
        let mut length = Length::zero();
        length.text(1, &self.previous_block_hash);
        length.repeated_text(2, &self.transaction_ids);
        length
    }
}

impl BestChainReset {
    /// The exact length of the encoded message.
    pub open spec fn spec_encoded_len(self) -> nat {
        repeated_message_field(1, self.disconnected_blocks@, |value: CanonicalBlock| value.spec_encoded_len())
            + repeated_message_field(2, self.connected_blocks@, |value: CanonicalBlock| value.spec_encoded_len())
            + bool_field(3, self.diff_complete)
    }

    fn wire_length(&self) -> (length: Length)
        ensures
            length.wf(),
            length.exact() == self.spec_encoded_len(),
    {
        let mut length = Length::zero();
        length.canonical_block_list(1, &self.disconnected_blocks);
        length.canonical_block_list(2, &self.connected_blocks);
        length.flag(3, self.diff_complete);
        length
    }
}

impl BestChainUpdate {
    /// The exact length of the encoded message.
    pub open spec fn spec_encoded_len(self) -> nat {
        uint_field(1, self.height as nat)
            + text_field(2, self.hash)
            + (match self.change {
            Some(BestChainUpdateChange::Grow(value)) => delimited(3, value.spec_encoded_len()),
            Some(BestChainUpdateChange::Reset(value)) => delimited(4, value.spec_encoded_len()),
            None => 0,
        })
    }

    fn wire_length(&self) -> (length: Length)
        ensures
            length.wf(),
            length.exact() == self.spec_encoded_len(),
    {
        let mut length = Length::zero();
        length.uint(1, self.height as u64);
        length.text(2, &self.hash);
        match &self.change {
            Some(BestChainUpdateChange::Grow(value)) => length.message(3, &value.wire_length()),
            Some(BestChainUpdateChange::Reset(value)) => length.message(4, &value.wire_length()),
            None => {},
        }
        length
    }
}

impl MempoolUpdate {
    /// The exact length of the encoded message.
    pub open spec fn spec_encoded_len(self) -> nat {
        int_field(1, self.action as int)
            + repeated_text_field(2, self.transaction_ids@)
    }

    fn wire_length(&self) -> (length: Length)
        ensures
            length.wf(),
            length.exact() == self.spec_encoded_len(),
    {
        let mut length = Length::zero();
        length.signed(1, self.action as i64);
        length.repeated_text(2, &self.transaction_ids);
        length
    }
}

impl Update {
    /// The exact length of the payload field: the key names the kind of payload.
    pub open spec fn spec_encoded_len(self) -> nat {
        match self {
            Update::Block(value) => delimited(8, value.spec_encoded_len()),
            Update::BestChain(value) => delimited(9, value.spec_encoded_len()),
            Update::Mempool(value) => delimited(10, value.spec_encoded_len()),
            Update::Transaction(value) => delimited(11, value.spec_encoded_len()),
            Update::Utxo(value) => delimited(12, value.spec_encoded_len()),
            Update::MempoolTransaction(value) => delimited(13, value.spec_encoded_len()),
            Update::Ping(value) => delimited(14, int_field(1, value.id as int)),
            Update::Pong(value) => delimited(15, int_field(1, value.id as int)),
        }
    }

    fn wire_length(&self) -> (length: Length)
        ensures
            length.wf(),
            length.exact() == self.spec_encoded_len(),
    {
        let mut length = Length::zero();
        match self {
            Update::Block(value) => length.message(8, &value.wire_length()),
            Update::BestChain(value) => length.message(9, &value.wire_length()),
            Update::Mempool(value) => length.message(10, &value.wire_length()),
            Update::Transaction(value) => length.message(11, &value.wire_length()),
            Update::Utxo(value) => length.message(12, &value.wire_length()),
            Update::MempoolTransaction(value) => length.message(13, &value.wire_length()),
            Update::Ping(value) => {
                let mut inner = Length::zero();
                inner.signed(1, value.id as i64);
                length.message(14, &inner);
            },
            Update::Pong(value) => {
                let mut inner = Length::zero();
                inner.signed(1, value.id as i64);
                length.message(15, &inner);
            },
        }
        length
    }
}

impl SubscribeUpdate {
    /// The exact length of the encoded update.
    pub open spec fn spec_encoded_len(self) -> nat {
        uint_field(1, self.schema_version as nat)
            + buffer_field(2, self.session_id)
            + uint_field(3, self.sequence as nat)
            + optional_message_field(
            4,
            self.observed_at,
            |value: Timestamp| value.spec_encoded_len(),
        )
            + int_field(5, self.event_type as int)
            + repeated_text_field(6, self.filters@)
            + uint_field(7, self.source_sequence as nat)
            + (match self.update {
            Some(value) => value.spec_encoded_len(),
            None => 0,
        })
    }

    /// The length of the encoded update in bytes.
    pub fn encoded_len(&self) -> (length: usize)
        ensures
            length == capped(self.spec_encoded_len()),
    {
        let mut length = Length::zero();
        length.uint(1, self.schema_version as u64);
        length.buffer(2, &self.session_id);
        length.uint(3, self.sequence);
        if let Some(value) = &self.observed_at {
            length.message(4, &value.wire_length());
        }
        length.signed(5, self.event_type as i64);
        length.repeated_text(6, &self.filters);
        length.uint(7, self.source_sequence);
        if let Some(value) = &self.update {
            let payload = value.wire_length();
            length.add_length(&payload);
        }
        length.get()
    }
}

} // verus!
