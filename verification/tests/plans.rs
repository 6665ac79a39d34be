use solana_sdk::pubkey::Pubkey;
use solana_sdk::signature::Keypair;
use solana_sdk::signer::Signer;
use squads_cli::command::{multisig_create_plan, program_config_init_plan};
use squads_cli::transaction::check_signer_coverage;
use squads_cli::{Address, CliError, SubmitReason};

fn fresh_address() -> Address {
    Address::new(Keypair::new().pubkey().to_bytes())
}

fn hex_of(bytes: &[u8; 32]) -> String {
    let mut s = String::new();
    for b in bytes.iter() {
        s.push_str(&format!("{:02x}", b));
    }
    s
}

#[test]
fn program_config_init_scenario() {
    let pid_key = Keypair::new().pubkey();
    let program_id = Address::new(pid_key.to_bytes());
    let initializer = fresh_address();
    let authority = fresh_address();
    let treasury = fresh_address();
    let (cfg, plan) =
        program_config_init_plan(&program_id, &initializer, &authority, 1000, &treasury, None)
            .unwrap();
    let (expected, _bump) =
        Pubkey::find_program_address(&[b"multisig", b"program_config"], &pid_key);
    assert_eq!(cfg.bytes, expected.to_bytes());
    assert_eq!(plan.instructions.len(), 2);
    assert_eq!(plan.fee_payer, initializer);
    assert_eq!(plan.signers, vec![initializer]);
    assert!(check_signer_coverage(&plan.instructions, &plan.signers).is_ok());
    // the payload commits the requested configuration
    let data = &plan.instructions[1].data;
    assert_eq!(&data[8..40], &authority.bytes);
    assert_eq!(&data[40..48], &1000u64.to_le_bytes());
    assert_eq!(&data[48..80], &treasury.bytes);
}

#[test]
fn multisig_create_scenario_fresh_keys_differ() {
    let program_id = fresh_address();
    let creator = fresh_address();
    let treasury = fresh_address();
    let lines = vec![
        format!("{},1", hex_of(&fresh_address().bytes)),
        format!("{},3", hex_of(&fresh_address().bytes)),
    ];
    let mut addresses: Vec<Address> = Vec::new();
    for _ in 0..2 {
        let create_key = fresh_address();
        let (multisig, plan) = multisig_create_plan(
            &program_id,
            &creator,
            &create_key,
            &None,
            &None,
            &lines,
            2,
            &treasury,
            None,
        )
        .unwrap();
        assert_eq!(plan.instructions.len(), 2);
        assert_eq!(plan.fee_payer, creator);
        assert_eq!(plan.signers, vec![creator, create_key]);
        assert!(check_signer_coverage(&plan.instructions, &plan.signers).is_ok());
        addresses.push(multisig);
    }
    assert_ne!(addresses[0], addresses[1]);
}

#[test]
fn missing_create_key_signature_is_rejected() {
    let program_id = fresh_address();
    let creator = fresh_address();
    let create_key = fresh_address();
    let treasury = fresh_address();
    let lines = vec![format!("{},7", hex_of(&fresh_address().bytes))];
    let (_multisig, plan) = multisig_create_plan(
        &program_id,
        &creator,
        &create_key,
        &None,
        &None,
        &lines,
        1,
        &treasury,
        None,
    )
    .unwrap();
    let incomplete = vec![creator];
    let r = check_signer_coverage(&plan.instructions, &incomplete);
    assert_eq!(
        r,
        Err(CliError::Submission {
            reason: SubmitReason::MissingSignature { address: create_key }
        })
    );
}

#[test]
fn multisig_plan_reports_member_errors() {
    let program_id = fresh_address();
    let creator = fresh_address();
    let create_key = fresh_address();
    let treasury = fresh_address();
    let lines = vec!["notanaddress,1".to_string()];
    let r = multisig_create_plan(
        &program_id,
        &creator,
        &create_key,
        &None,
        &None,
        &lines,
        1,
        &treasury,
        None,
    );
    assert_eq!(r.unwrap_err(), CliError::InvalidAddress { index: 0 });
}

#[test]
fn priority_fee_passes_through_plans() {
    let program_id = fresh_address();
    let initializer = fresh_address();
    let authority = fresh_address();
    let treasury = fresh_address();
    let (_cfg, plan) = program_config_init_plan(
        &program_id,
        &initializer,
        &authority,
        0,
        &treasury,
        Some(123456),
    )
    .unwrap();
    assert_eq!(
        squads_cli::instruction::decode_compute_unit_price(&plan.instructions[0].data),
        Some(123456)
    );
}

#[test]
fn signer_coverage_on_handmade_instructions() {
    let signer_a = fresh_address();
    let signer_b = fresh_address();
    let ix = squads_cli::Instruction {
        program_id: fresh_address(),
        accounts: vec![
            squads_cli::AccountMeta { address: signer_a, is_signer: true, is_writable: false },
            squads_cli::AccountMeta { address: signer_b, is_signer: true, is_writable: true },
            squads_cli::AccountMeta { address: fresh_address(), is_signer: false, is_writable: true },
        ],
        data: vec![],
    };
    let instructions = vec![ix];
    assert!(check_signer_coverage(&instructions, &vec![signer_a, signer_b]).is_ok());
    assert_eq!(
        check_signer_coverage(&instructions, &vec![signer_a]),
        Err(CliError::Submission {
            reason: SubmitReason::MissingSignature { address: signer_b }
        })
    );
    assert!(check_signer_coverage(&vec![], &vec![]).is_ok());
}
