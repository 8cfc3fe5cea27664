//! Zcash identifiers and transparent addresses.
//!
//! Identifiers are 32-byte hashes, displayed in reversed byte order as lowercase hexadecimal.

use vstd::prelude::*;

verus! {

/// The lowercase hexadecimal digit for a value below sixteen.
pub open spec fn hex_digit(value: nat) -> char {
    if value < 10 {
        (('0' as u32) + value) as char
    } else {
        (('a' as u32) + (value - 10)) as char
    }
}

/// The value of a hexadecimal digit of either case.
pub open spec fn hex_value(digit: char) -> Option<nat> {
    if '0' <= digit && digit <= '9' {
        Some((digit as u32 - '0' as u32) as nat)
    } else if 'a' <= digit && digit <= 'f' {
        Some((digit as u32 - 'a' as u32 + 10) as nat)
    } else if 'A' <= digit && digit <= 'F' {
        Some((digit as u32 - 'A' as u32 + 10) as nat)
    } else {
        None
    }
}

/// Bytes as lowercase hexadecimal, two digits for each.
pub open spec fn hex_text(bytes: Seq<u8>) -> Seq<char> {
    Seq::new(
        bytes.len() * 2,
        |i: int|
            if i % 2 == 0 {
                hex_digit((bytes[i / 2] / 16) as nat)
            } else {
                hex_digit((bytes[i / 2] % 16) as nat)
            },
    )
}

/// How a hash is displayed: reversed, in lowercase hexadecimal.
pub open spec fn displayed_hash(bytes: Seq<u8>) -> Seq<char> {
    hex_text(bytes.reverse())
}

/// Whether a text denotes a 32-byte hash: 64 hexadecimal digits of either case.
pub open spec fn is_hash_text(text: Seq<char>) -> bool {
    &&& text.len() == 64
    &&& forall|i: int| 0 <= i < 64 ==> hex_value(#[trigger] text[i]) is Some
}

/// Whether `bytes` is the hash that `text` denotes: digit pairs give the bytes, last byte first.
pub open spec fn denotes_hash(text: Seq<char>, bytes: Seq<u8>) -> bool {
    &&& bytes.len() == 32
    &&& forall|i: int|
        0 <= i < 32 ==> #[trigger] bytes[31 - i] == hex_value(text[2 * i])->0 * 16 + hex_value(
            text[2 * i + 1],
        )->0
}

/// The lowercase form of a hexadecimal digit; other characters stay.
pub open spec fn lowercase_digit(digit: char) -> char {
    if 'A' <= digit && digit <= 'F' {
        (digit as u32 - 'A' as u32 + 'a' as u32) as char
    } else {
        digit
    }
}

/// The canonical form of a transaction ID: the same digits in lowercase.
pub open spec fn canonical_id(text: Seq<char>) -> Option<Seq<char>> {
    if is_hash_text(text) {
        Some(text.map_values(|digit: char| lowercase_digit(digit)))
    } else {
        None
    }
}

/// Parses a transaction ID with `zakura_chain::transaction::Hash`'s `FromStr`, which decodes
/// exactly 32 bytes of hexadecimal digits of either case and reverses them.
#[verifier::external_body]
pub(crate) fn parse_transaction_hash(text: &str) -> (hash: Option<[u8; 32]>)
    ensures
        hash is Some <==> is_hash_text(text@),
        hash is Some ==> denotes_hash(text@, hash->0@),
{
    text.parse::<zakura_chain::transaction::Hash>().ok().map(|hash| hash.0)
}

/// Displays a transaction ID with `zakura_chain::transaction::Hash`'s `Display`, which writes the
/// reversed bytes in lowercase hexadecimal.
#[verifier::external_body]
pub(crate) fn transaction_hash_text(hash: &[u8; 32]) -> (text: String)
    ensures
        text@ == displayed_hash(hash@),
{
    zakura_chain::transaction::Hash(*hash).to_string()
}

/// Displays an authorizing digest with `zakura_chain::transaction::AuthDigest`'s `Display`, which
/// writes the reversed bytes in lowercase hexadecimal.
#[verifier::external_body]
pub(crate) fn auth_digest_text(digest: &[u8; 32]) -> (text: String)
    ensures
        text@ == displayed_hash(digest@),
{
    zakura_chain::transaction::AuthDigest(*digest).to_string()
}

/// Displays a block hash with `zakura_chain::block::Hash`'s `Display`, which writes the reversed
/// bytes in lowercase hexadecimal.
#[verifier::external_body]
pub(crate) fn block_hash_text(hash: &[u8; 32]) -> (text: String)
    ensures
        text@ == displayed_hash(hash@),
{
    zakura_chain::block::Hash(*hash).to_string()
}

/// Every hexadecimal digit value, displayed, is the lowercase digit.
proof fn lemma_digit_round_trip(digit: char)
    requires
        hex_value(digit) is Some,
    ensures
        hex_value(digit)->0 < 16,
        hex_digit(hex_value(digit)->0) == lowercase_digit(digit),
{
}

/// Displaying the hash that a text denotes gives the text in lowercase.
proof fn lemma_display_of_denoted(text: Seq<char>, bytes: Seq<u8>)
    requires
        is_hash_text(text),
        denotes_hash(text, bytes),
    ensures
        Some(displayed_hash(bytes)) == canonical_id(text),
{
    let shown = displayed_hash(bytes);
    let lower = text.map_values(|digit: char| lowercase_digit(digit));
    assert forall|i: int| 0 <= i < 64 implies shown[i] == lower[i] by {
        let k = i / 2;
        let high = text[2 * k];
        let low = text[2 * k + 1];
        lemma_digit_round_trip(high);
        lemma_digit_round_trip(low);
        assert(bytes.reverse()[k] == bytes[31 - k]);
        assert(bytes[31 - k] == hex_value(high)->0 * 16 + hex_value(low)->0);
        assert(bytes[31 - k] / 16 == hex_value(high)->0);
        assert(bytes[31 - k] % 16 == hex_value(low)->0);
    }
    assert(shown =~= lower);
}

/// Brings a transaction ID into the form in which updates carry it.
pub fn canonical_transaction_id(text: &str) -> (canonical: Option<String>)
    ensures
        crate::text::text_view(canonical) == canonical_id(text@),
{
    match parse_transaction_hash(text) {
        Some(hash) => {
            proof {
                lemma_display_of_denoted(text@, hash@);
            }
            Some(transaction_hash_text(&hash))
        },
        None => None,
    }
}

/// What a transparent address pays to.
#[derive(Clone, Copy, Debug, PartialEq, Eq, Structural)]
pub enum AddressKind {
    /// The hash of a script.
    ScriptHash,
    /// The hash of a public key.
    PublicKeyHash,
    /// The hash of a public key, from transparent sources only.
    Tex,
}

/// The kind of network that an address belongs to.
#[derive(Clone, Copy, Debug, PartialEq, Eq, Structural)]
pub enum NetworkKind {
    Mainnet,
    Testnet,
    Regtest,
}

/// A transparent address.
#[derive(Clone, Copy, Debug)]
pub struct Address {
    pub kind: AddressKind,
    pub network: NetworkKind,
    pub hash: [u8; 20],
}

/// A transparent address as a plain triple.
pub type AddressParts = (AddressKind, NetworkKind, Seq<u8>);

impl View for Address {
    type V = AddressParts;

    open spec fn view(&self) -> AddressParts {
        (self.kind, self.network, self.hash@)
    }
}

/// The address that a text denotes for `zakura_chain::transparent::Address`, if any.
pub uninterp spec fn parsed_address(text: Seq<char>) -> Option<AddressParts>;

/// How `zakura_chain::transparent::Address` displays an address.
pub uninterp spec fn displayed_address(address: AddressParts) -> Seq<char>;

/// The recipient that `zakura_chain::transparent::Output::address` finds in a lock script.
pub uninterp spec fn script_recipient(lock_script: Seq<u8>) -> Option<(AddressKind, Seq<u8>)>;

/// The longest lock script that can be examined for a recipient.
pub const MAX_SCRIPT_BYTES: usize = 2_097_152;

/// Parses an address with `zakura_chain::transparent::Address`'s `FromStr`: Base58Check with a
/// known version, or Bech32 with a TEX prefix. The outcome is named by [`parsed_address`].
#[verifier::external_body]
pub(crate) fn parse_address(text: &str) -> (address: Option<Address>)
    ensures
        parsed_address(text@) == (match address {
            Some(address) => Some(address@),
            None => None,
        }),
{
    let parsed = text.parse::<zakura_chain::transparent::Address>().ok()?;
    let network = match parsed.network_kind() {
        zakura_chain::parameters::NetworkKind::Mainnet => NetworkKind::Mainnet,
        zakura_chain::parameters::NetworkKind::Testnet => NetworkKind::Testnet,
        zakura_chain::parameters::NetworkKind::Regtest => NetworkKind::Regtest,
    };
    let kind = match parsed {
        zakura_chain::transparent::Address::PayToScriptHash { .. } => AddressKind::ScriptHash,
        zakura_chain::transparent::Address::PayToPublicKeyHash { .. } => AddressKind::PublicKeyHash,
        zakura_chain::transparent::Address::Tex { .. } => AddressKind::Tex,
    };
    Some(Address { kind, network, hash: parsed.hash_bytes() })
}

/// Displays an address with `zakura_chain::transparent::Address`'s `Display`, named by
/// [`displayed_address`]. The Base58Check text of a script-hash or public-key-hash address on the
/// main or test network parses back to the same address.
#[verifier::external_body]
pub(crate) fn address_text(address: &Address) -> (text: String)
    ensures
        text@ == displayed_address(address@),
        address.kind != AddressKind::Tex && address.network != NetworkKind::Regtest
            ==> parsed_address(text@) == Some(address@),
{
    let network_kind = match address.network {
        NetworkKind::Mainnet => zakura_chain::parameters::NetworkKind::Mainnet,
        NetworkKind::Testnet => zakura_chain::parameters::NetworkKind::Testnet,
        NetworkKind::Regtest => zakura_chain::parameters::NetworkKind::Regtest,
    };
    let hash = address.hash;
    let outside = match address.kind {
        AddressKind::ScriptHash => zakura_chain::transparent::Address::from_script_hash(network_kind, hash),
        AddressKind::PublicKeyHash => zakura_chain::transparent::Address::from_pub_key_hash(network_kind, hash),
        AddressKind::Tex => zakura_chain::transparent::Address::from_tex(network_kind, hash),
    };
    outside.to_string()
}

/// Finds the recipient of a lock script with `zakura_chain::transparent::Output::address`, named
/// by [`script_recipient`]. The network given to that function only labels the result, and so
/// does not enter here; neither does the amount. Longer scripts than the bound make it panic.
/// Only script-hash and public-key-hash recipients are recognized.
#[verifier::external_body]
pub(crate) fn find_recipient(lock_script: &[u8]) -> (recipient: Option<(AddressKind, [u8; 20])>)
    requires
        lock_script@.len() <= MAX_SCRIPT_BYTES,
    ensures
        script_recipient(lock_script@) == (match recipient {
            Some(recipient) => Some((recipient.0, recipient.1@)),
            None => None,
        }),
        recipient is Some ==> (recipient->0).0 != AddressKind::Tex,
{
    let script = zakura_chain::transparent::Script::new(lock_script);
    let output = zakura_chain::transparent::Output::new(zakura_chain::amount::Amount::zero(), script);
    let address = output.address(&zakura_chain::parameters::Network::Mainnet)?;
    let kind = match address {
        zakura_chain::transparent::Address::PayToScriptHash { .. } => AddressKind::ScriptHash,
        zakura_chain::transparent::Address::PayToPublicKeyHash { .. } => AddressKind::PublicKeyHash,
        zakura_chain::transparent::Address::Tex { .. } => AddressKind::Tex,
    };
    Some((kind, address.hash_bytes()))
}

/// The form in which chain data shows an address: on-chain scripts do not retain whether the
/// sender used a TEX encoding.
pub open spec fn canonical_parts(address: AddressParts) -> AddressParts {
    if address.0 == AddressKind::Tex {
        (AddressKind::PublicKeyHash, address.1, address.2)
    } else {
        address
    }
}

/// The canonical text of an address, if the text denotes one.
pub open spec fn canonical_address(text: Seq<char>) -> Option<Seq<char>> {
    match parsed_address(text) {
        Some(address) => Some(displayed_address(canonical_parts(address))),
        None => None,
    }
}

/// Replaces a TEX address by the public-key-hash address with the same hash.
pub fn canonical_transparent_address(address: Address) -> (canonical: Address)
    ensures
        canonical@ == canonical_parts(address@),
{
    match address.kind {
        AddressKind::Tex => Address {
            kind: AddressKind::PublicKeyHash,
            network: address.network,
            hash: address.hash,
        },
        AddressKind::ScriptHash | AddressKind::PublicKeyHash => address,
    }
}

/// Brings an address into the form in which updates carry it.
pub fn canonical_transparent_address_string(text: &str) -> (canonical: Option<String>)
    ensures
        crate::text::text_view(canonical) == canonical_address(text@),
{
    match parse_address(text) {
        Some(address) => {
            let canonical = canonical_transparent_address(address);
            Some(address_text(&canonical))
        },
        None => None,
    }
}

/// The text of the address that a lock script pays to on a network.
pub open spec fn output_address(lock_script: Seq<u8>, network: NetworkKind) -> Option<Seq<char>> {
    match script_recipient(lock_script) {
        Some(recipient) => Some(displayed_address((recipient.0, network, recipient.1))),
        None => None,
    }
}

/// Finds the address that a lock script pays to.
pub fn output_address_text(lock_script: &[u8], network: NetworkKind) -> (address: Option<String>)
    requires
        lock_script@.len() <= MAX_SCRIPT_BYTES,
    ensures
        crate::text::text_view(address) == output_address(lock_script@, network),
{
    match find_recipient(lock_script) {
        Some(recipient) => Some(
            address_text(&Address { kind: recipient.0, network, hash: recipient.1 }),
        ),
        None => None,
    }
}

/// The canonical form of a transaction ID is the form in which hashes are displayed: what is
/// displayed is already canonical, and so is every canonical form.
pub proof fn law_canonical_id_is_displayed_form(hash: Seq<u8>)
    requires
        hash.len() == 32,
    ensures
        canonical_id(displayed_hash(hash)) == Some(displayed_hash(hash)),
{
    let text = displayed_hash(hash);
    assert forall|i: int| 0 <= i < 64 implies hex_value(#[trigger] text[i]) is Some
        && lowercase_digit(text[i]) == text[i] by {
        let byte = hash.reverse()[i / 2];
        assert(byte / 16 < 16 && byte % 16 < 16);
    }
    assert(text.map_values(|digit: char| lowercase_digit(digit)) =~= text);
}

/// Bringing a transaction ID into its canonical form twice is the same as doing it once.
pub proof fn law_canonical_id_is_idempotent(text: Seq<char>)
    requires
        canonical_id(text) is Some,
    ensures
        canonical_id(canonical_id(text)->0) == canonical_id(text),
{
    let lower = canonical_id(text)->0;
    assert forall|i: int| 0 <= i < 64 implies hex_value(#[trigger] lower[i]) is Some
        && lowercase_digit(lower[i]) == lower[i] by {
        assert(hex_value(text[i]) is Some);
        assert(lower[i] == lowercase_digit(text[i]));
    }
    assert(lower.map_values(|digit: char| lowercase_digit(digit)) =~= lower);
}

/// A TEX address and the public-key-hash address with the same hash select the same updates: they
/// have one canonical form.
pub proof fn law_tex_equals_public_key_hash(
    tex: Seq<char>,
    plain: Seq<char>,
    network: NetworkKind,
    hash: Seq<u8>,
)
    requires
        parsed_address(tex) == Some((AddressKind::Tex, network, hash)),
        parsed_address(plain) == Some((AddressKind::PublicKeyHash, network, hash)),
    ensures
        canonical_address(tex) == canonical_address(plain),
{
}

/// The canonical form of an address is the text that updates carry for an output that pays to it.
pub proof fn law_filter_address_equals_output_address(
    text: Seq<char>,
    address: AddressParts,
    lock_script: Seq<u8>,
)
    requires
        parsed_address(text) == Some(address),
        script_recipient(lock_script) == Some(
            (canonical_parts(address).0, canonical_parts(address).2),
        ),
    ensures
        canonical_address(text) == output_address(lock_script, address.1),
{
}

} // verus!
