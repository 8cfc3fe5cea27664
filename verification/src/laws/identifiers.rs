//! The forms of transaction IDs and addresses.

use crate::chain::{
    canonical_transaction_id, canonical_transparent_address_string, displayed_address,
    output_address_text, parsed_address, script_recipient, AddressKind, NetworkKind,
    MAX_SCRIPT_BYTES,
};
use vstd::prelude::*;

verus! {

/// Whether a character is a decimal digit.
pub open spec fn is_decimal(c: char) -> bool {
    '0' <= c && c <= '9'
}

/// Whether a character is a hexadecimal digit beyond nine, in lowercase.
pub open spec fn is_low_letter(c: char) -> bool {
    'a' <= c && c <= 'f'
}

/// Whether a character is a hexadecimal digit beyond nine, in uppercase.
pub open spec fn is_high_letter(c: char) -> bool {
    'A' <= c && c <= 'F'
}

/// A transaction ID is valid if and only if it has 64 hexadecimal digits. Its canonical form has
/// the same digits in lowercase.
pub proof fn law_transaction_ids_are_compared_in_lowercase(text: &str, found: Option<String>)
    requires
        call_ensures(canonical_transaction_id, (text,), found),
    ensures
        found is Some <==> text@.len() == 64 && forall|i: int|
            0 <= i < 64 ==> is_decimal(#[trigger] text@[i]) || is_low_letter(text@[i])
                || is_high_letter(text@[i]),
        found matches Some(canonical) ==> {
            &&& canonical@.len() == 64
            &&& forall|i: int|
                0 <= i < 64 ==> (#[trigger] canonical@[i]) as int == text@[i] as int + (
                if is_high_letter(text@[i]) {
                    32int
                } else {
                    0
                })
        },
{
    if found is None && text@.len() == 64 && (forall|i: int|
        0 <= i < 64 ==> is_decimal(#[trigger] text@[i]) || is_low_letter(text@[i])
            || is_high_letter(text@[i])) {
        assert forall|i: int| 0 <= i < 64 implies crate::chain::hex_value(
            #[trigger] text@[i],
        ) is Some by {}
    }
}

/// An address is looked for in the form in which it is displayed; a TEX address is looked for in
/// the form of the public-key-hash address with the same network and hash. What is no address is
/// not looked for.
pub proof fn law_addresses_are_compared_as_displayed(text: &str, found: Option<String>)
    requires
        call_ensures(canonical_transparent_address_string, (text,), found),
    ensures
        match parsed_address(text@) {
            Some(address) => {
                &&& found matches Some(canonical)
                &&& canonical@ == displayed_address(
                    (
                        if address.0 == AddressKind::Tex {
                            AddressKind::PublicKeyHash
                        } else {
                            address.0
                        },
                        address.1,
                        address.2,
                    ),
                )
            },
            None => found is None,
        },
{
}

/// The address of an output is its recipient on the network, as displayed.
pub proof fn law_outputs_show_their_recipient(
    lock_script: &[u8],
    network: NetworkKind,
    found: Option<String>,
)
    requires
        lock_script@.len() <= MAX_SCRIPT_BYTES,
        call_ensures(output_address_text, (lock_script, network), found),
    ensures
        match script_recipient(lock_script@) {
            Some(recipient) => {
                &&& found matches Some(address)
                &&& address@ == displayed_address((recipient.0, network, recipient.1))
            },
            None => found is None,
        },
{
}

} // verus!
