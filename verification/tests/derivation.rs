use solana_sdk::pubkey::Pubkey;
use solana_sdk::signature::Keypair;
use solana_sdk::signer::Signer;
use squads_cli::pda::{multisig_address, program_config_address};
use squads_cli::Address;

#[test]
fn program_config_address_is_deterministic() {
    let pid = Address::new(Keypair::new().pubkey().to_bytes());
    let a1 = program_config_address(&pid).unwrap();
    let a2 = program_config_address(&pid).unwrap();
    assert_eq!(a1, a2);
}

#[test]
fn program_config_address_matches_chain_derivation() {
    let pid_key = Keypair::new().pubkey();
    let pid = Address::new(pid_key.to_bytes());
    let ours = program_config_address(&pid).unwrap();
    let (expected, _bump) =
        Pubkey::find_program_address(&[b"multisig", b"program_config"], &pid_key);
    assert_eq!(ours.bytes, expected.to_bytes());
}

#[test]
fn multisig_address_is_deterministic() {
    let pid = Address::new(Keypair::new().pubkey().to_bytes());
    let key = Address::new(Keypair::new().pubkey().to_bytes());
    let a1 = multisig_address(&key, &pid).unwrap();
    let a2 = multisig_address(&key, &pid).unwrap();
    assert_eq!(a1, a2);
}

#[test]
fn multisig_address_matches_chain_derivation() {
    let pid_key = Keypair::new().pubkey();
    let pid = Address::new(pid_key.to_bytes());
    let create_key = Keypair::new().pubkey();
    let key = Address::new(create_key.to_bytes());
    let ours = multisig_address(&key, &pid).unwrap();
    let (expected, _bump) =
        Pubkey::find_program_address(&[b"multisig", b"multisig", create_key.as_ref()], &pid_key);
    assert_eq!(ours.bytes, expected.to_bytes());
}

#[test]
fn multisig_address_differs_per_create_key() {
    let pid = Address::new(Keypair::new().pubkey().to_bytes());
    let k1 = Address::new(Keypair::new().pubkey().to_bytes());
    let k2 = Address::new(Keypair::new().pubkey().to_bytes());
    assert_ne!(k1, k2);
    let a1 = multisig_address(&k1, &pid).unwrap();
    let a2 = multisig_address(&k2, &pid).unwrap();
    assert_ne!(a1, a2);
}

#[test]
fn multisig_and_config_addresses_differ() {
    let pid = Address::new(Keypair::new().pubkey().to_bytes());
    let key = Address::new(Keypair::new().pubkey().to_bytes());
    let cfg = program_config_address(&pid).unwrap();
    let ms = multisig_address(&key, &pid).unwrap();
    assert_ne!(cfg, ms);
}
