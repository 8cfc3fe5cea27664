//! Transaction IDs and transparent addresses.

use zakura_chain::parameters;
use zakura_chain::transaction;
use zakura_chain::transparent;
use zakura_grpc::chain::{
    canonical_transaction_id, canonical_transparent_address, canonical_transparent_address_string,
    output_address_text, Address, AddressKind, NetworkKind,
};

#[test]
fn transaction_ids_are_canonical_in_lowercase() {
    let hash: [u8; 32] = std::array::from_fn(|index| index as u8 * 7);
    let displayed = transaction::Hash(hash).to_string();
    assert_eq!(
        canonical_transaction_id(&displayed),
        Some(displayed.clone())
    );
    assert_eq!(
        canonical_transaction_id(&displayed.to_uppercase()),
        Some(displayed.clone())
    );
    assert_eq!(canonical_transaction_id(&displayed[1..]), None);
    assert_eq!(canonical_transaction_id(&format!("{displayed}0")), None);
    assert_eq!(canonical_transaction_id(&displayed.replace('0', "g")), None);
    assert_eq!(canonical_transaction_id(""), None);
    assert_eq!(canonical_transaction_id(&"é".repeat(32)), None);
}

#[test]
fn addresses_keep_their_text() {
    for network in [parameters::NetworkKind::Mainnet, parameters::NetworkKind::Testnet] {
        let key = transparent::Address::from_pub_key_hash(network, [7; 20]).to_string();
        let script = transparent::Address::from_script_hash(network, [7; 20]).to_string();
        assert_eq!(canonical_transparent_address_string(&key), Some(key.clone()));
        assert_eq!(
            canonical_transparent_address_string(&script),
            Some(script.clone())
        );
        assert_ne!(key, script);
    }
    assert_eq!(canonical_transparent_address_string(""), None);
    assert_eq!(canonical_transparent_address_string("t1"), None);
}

#[test]
fn tex_addresses_become_public_key_hash_addresses() {
    assert_eq!(
        canonical_transparent_address_string("tex1s2rt77ggv6q989lr49rkgzmh5slsksa9khdgte"),
        Some("t1VmmGiyjVNeCjxDZzg7vZmd99WyzVby9yC".to_owned())
    );
    assert_eq!(
        canonical_transparent_address_string("tex1s2rt77ggv6q989lr49rkgzmh5slsksa9khdgtf"),
        None
    );
    let tex = Address {
        kind: AddressKind::Tex,
        network: NetworkKind::Testnet,
        hash: [9; 20],
    };
    let canonical = canonical_transparent_address(tex);
    assert_eq!(canonical.kind, AddressKind::PublicKeyHash);
    assert_eq!(canonical.network, NetworkKind::Testnet);
    assert_eq!(canonical.hash, [9; 20]);
    let script = Address {
        kind: AddressKind::ScriptHash,
        ..tex
    };
    assert_eq!(
        canonical_transparent_address(script).kind,
        AddressKind::ScriptHash
    );
}

#[test]
fn output_addresses_follow_the_script_and_the_network() {
    let kinds = [
        (parameters::NetworkKind::Mainnet, NetworkKind::Mainnet),
        (parameters::NetworkKind::Testnet, NetworkKind::Testnet),
        (parameters::NetworkKind::Regtest, NetworkKind::Regtest),
    ];
    for (outside, network) in kinds {
        let key = transparent::Address::from_pub_key_hash(outside, [3; 20]);
        let script = transparent::Address::from_script_hash(outside, [4; 20]);
        for address in [key, script] {
            assert_eq!(
                output_address_text(address.script().as_raw_bytes(), network),
                Some(address.to_string())
            );
        }
    }
    assert_eq!(output_address_text(&[], NetworkKind::Mainnet), None);
    assert_eq!(output_address_text(&[0x51], NetworkKind::Mainnet), None);
}
