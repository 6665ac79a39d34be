use solana_program::hash::hash;
use solana_sdk::compute_budget::ComputeBudgetInstruction;
use squads_cli::config::decode_program_config;
use squads_cli::instruction::{
    compute_budget_program_address, decode_compute_unit_price, multisig_create_instruction,
    priority_fee_instruction, program_config_init_instruction, system_program_address,
};
use squads_cli::{Address, CliError, Member, Permissions};

#[test]
fn priority_defaults_to_5000() {
    let ix = priority_fee_instruction(None);
    assert_eq!(decode_compute_unit_price(&ix.data), Some(5000));
    assert!(ix.accounts.is_empty());
    let reference = ComputeBudgetInstruction::set_compute_unit_price(5000);
    assert_eq!(ix.data, reference.data);
    assert_eq!(ix.program_id.bytes, reference.program_id.to_bytes());
}

#[test]
fn priority_encodes_explicit_fee() {
    let ix = priority_fee_instruction(Some(7777));
    assert_eq!(decode_compute_unit_price(&ix.data), Some(7777));
    let reference = ComputeBudgetInstruction::set_compute_unit_price(7777);
    assert_eq!(ix.data, reference.data);
}

#[test]
fn decode_rejects_other_payloads() {
    assert_eq!(decode_compute_unit_price(&vec![]), None);
    assert_eq!(decode_compute_unit_price(&vec![2, 1, 0, 0, 0, 0, 0, 0, 0]), None);
    assert_eq!(decode_compute_unit_price(&vec![3, 1, 0, 0, 0]), None);
}

#[test]
fn program_addresses_match_chain_constants() {
    assert_eq!(
        system_program_address().bytes,
        solana_sdk::system_program::id().to_bytes()
    );
    assert_eq!(
        compute_budget_program_address().bytes,
        solana_sdk::compute_budget::id().to_bytes()
    );
}

#[test]
fn program_config_init_layout() {
    let program_id = Address::new([9; 32]);
    let program_config = Address::new([1; 32]);
    let initializer = Address::new([2; 32]);
    let authority = Address::new([3; 32]);
    let treasury = Address::new([4; 32]);
    let ix = program_config_init_instruction(
        &program_id,
        &program_config,
        &initializer,
        &authority,
        1000,
        &treasury,
    );
    assert_eq!(ix.program_id, program_id);
    assert_eq!(ix.accounts.len(), 3);
    assert_eq!(ix.accounts[0].address, program_config);
    assert!(!ix.accounts[0].is_signer && ix.accounts[0].is_writable);
    assert_eq!(ix.accounts[1].address, initializer);
    assert!(ix.accounts[1].is_signer && ix.accounts[1].is_writable);
    assert_eq!(ix.accounts[2].address, system_program_address());
    assert!(!ix.accounts[2].is_signer && !ix.accounts[2].is_writable);

    let expected_disc = &hash(b"global:program_config_init").to_bytes()[..8];
    assert_eq!(&ix.data[..8], expected_disc);
    let mut expected = expected_disc.to_vec();
    expected.extend_from_slice(&[3; 32]);
    expected.extend_from_slice(&1000u64.to_le_bytes());
    expected.extend_from_slice(&[4; 32]);
    assert_eq!(ix.data, expected);
}

#[test]
fn multisig_create_layout() {
    let program_id = Address::new([9; 32]);
    let program_config = Address::new([1; 32]);
    let treasury = Address::new([2; 32]);
    let multisig = Address::new([3; 32]);
    let create_key = Address::new([4; 32]);
    let creator = Address::new([5; 32]);
    let rent_collector = Address::new([6; 32]);
    let members = vec![
        Member { key: Address::new([7; 32]), permissions: Permissions { mask: 1 } },
        Member { key: Address::new([8; 32]), permissions: Permissions { mask: 3 } },
    ];
    let ix = multisig_create_instruction(
        &program_id,
        &program_config,
        &treasury,
        &multisig,
        &create_key,
        &creator,
        &None,
        2,
        &members,
        &Some(rent_collector),
    );
    assert_eq!(ix.program_id, program_id);
    assert_eq!(ix.accounts.len(), 6);
    let expected_flags: [(Address, bool, bool); 6] = [
        (program_config, false, false),
        (treasury, false, true),
        (multisig, false, true),
        (create_key, true, false),
        (creator, true, true),
        (system_program_address(), false, false),
    ];
    for (meta, (addr, signer, writable)) in ix.accounts.iter().zip(expected_flags.iter()) {
        assert_eq!(meta.address, *addr);
        assert_eq!(meta.is_signer, *signer);
        assert_eq!(meta.is_writable, *writable);
    }

    let mut expected = hash(b"global:multisig_create_v2").to_bytes()[..8].to_vec();
    expected.push(0); // no config authority
    expected.extend_from_slice(&2u16.to_le_bytes());
    expected.extend_from_slice(&2u32.to_le_bytes());
    expected.extend_from_slice(&[7; 32]);
    expected.push(1);
    expected.extend_from_slice(&[8; 32]);
    expected.push(3);
    expected.extend_from_slice(&0u32.to_le_bytes()); // time lock
    expected.push(1); // rent collector present
    expected.extend_from_slice(&[6; 32]);
    expected.push(0); // no memo
    assert_eq!(ix.data, expected);
}

fn config_account_bytes(fill_fee: u64) -> Vec<u8> {
    let mut data = hash(b"account:ProgramConfig").to_bytes()[..8].to_vec();
    data.extend_from_slice(&[0x11; 32]);
    data.extend_from_slice(&fill_fee.to_le_bytes());
    data.extend_from_slice(&[0x22; 32]);
    data
}

#[test]
fn decode_program_config_reads_fields() {
    let mut data = config_account_bytes(12345);
    data.extend_from_slice(&[0; 64]); // reserved trailing space is tolerated
    let cfg = decode_program_config(&data).unwrap();
    assert_eq!(cfg.authority, Address::new([0x11; 32]));
    assert_eq!(cfg.multisig_creation_fee, 12345);
    assert_eq!(cfg.treasury, Address::new([0x22; 32]));
}

#[test]
fn decode_program_config_rejects_bad_data() {
    let data = config_account_bytes(1);
    assert_eq!(decode_program_config(&data[..40].to_vec()), Err(CliError::AccountFetch));
    let mut wrong = data.clone();
    wrong[0] ^= 0xff;
    assert_eq!(decode_program_config(&wrong), Err(CliError::AccountFetch));
}
