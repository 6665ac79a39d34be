use vstd::prelude::*;

use crate::addr::Address;
use crate::error::{spec_cli_of_member_error, cli_of_member_error, CliError};
use crate::instruction::{
    compute_budget_program_id, default_priority_fee, member_views, metas_match,
    multisig_create_data, multisig_create_instruction, multisig_create_metas, opt_addr_view,
    priority_fee_instruction, program_config_init_data, program_config_init_instruction,
    program_config_init_metas, set_compute_unit_price_data, Instruction,
};
use crate::member::{entry_error, entry_key, entry_mask, entry_valid, line_bytes, parse_members};
use crate::pda::{
    multisig_address, program_config_address, spec_multisig_address, spec_program_config_address,
};
use crate::transaction::{address_covered, plan_well_formed, TransactionPlan};

verus! {

/// The priority fee a command uses: the caller's, or the default when the
/// caller supplies none.
pub open spec fn priority_fee_value(fee: Option<u64>) -> u64 {
    match fee {
        Some(f) => f,
        None => default_priority_fee(),
    }
}

/// Whether `ix` is the priority instruction for the (possibly defaulted)
/// fee: it targets the compute-budget program, names no accounts, and
/// encodes the per-unit price.
pub open spec fn is_priority_ix(ix: Instruction, fee: Option<u64>) -> bool {
    &&& ix.program_id@ == compute_budget_program_id()
    &&& ix.accounts@.len() == 0
    &&& ix.data@ == set_compute_unit_price_data(priority_fee_value(fee))
}

/// The byte sequences of a list of textual input lines.
pub open spec fn lines_of(lines: Seq<String>) -> Seq<Seq<u8>> {
    lines.map_values(|l: String| line_bytes(l))
}

/// The `(address bytes, mask)` pairs a list of valid member entries commits.
pub open spec fn line_pairs(ls: Seq<Seq<u8>>) -> Seq<(Seq<u8>, u8)> {
    ls.map_values(|l: Seq<u8>| (entry_key(l), entry_mask(l)))
}

/// Builds the program-config-init transaction: the priority instruction
/// followed by the init instruction on the derived config account, paid and
/// signed by the initializer. Returns the derived config address with the
/// plan. Fails only when the derivation admits no valid bump.
pub fn program_config_init_plan(
    program_id: &Address,
    initializer: &Address,
    authority: &Address,
    creation_fee: u64,
    treasury: &Address,
    priority_fee: Option<u64>,
) -> (r: Result<(Address, TransactionPlan), CliError>)
    ensures
        r is Err <==> spec_program_config_address(program_id@) is None,
        r matches Err(e) ==> e == CliError::Derivation,
        r matches Ok(p) ==> {
            &&& spec_program_config_address(program_id@) == Some(p.0@)
            &&& p.1.instructions@.len() == 2
            &&& is_priority_ix(p.1.instructions@[0], priority_fee)
            &&& p.1.instructions@[1].program_id@ == program_id@
            &&& metas_match(
                p.1.instructions@[1].accounts@,
                program_config_init_metas(p.0@, initializer@),
            )
            &&& p.1.instructions@[1].data@ == program_config_init_data(
                authority@,
                creation_fee,
                treasury@,
            )
            &&& p.1.fee_payer@ == initializer@
            &&& p.1.signers@.len() == 1
            &&& p.1.signers@[0]@ == initializer@
            &&& plan_well_formed(p.1)
        },
{
    let program_config = match program_config_address(program_id) {
        Ok(a) => a,
        Err(e) => {
            return Err(e);
        },
    };
    let priority_ix = priority_fee_instruction(priority_fee);
    let init_ix = program_config_init_instruction(
        program_id,
        &program_config,
        initializer,
        authority,
        creation_fee,
        treasury,
    );
    let mut instructions: Vec<Instruction> = Vec::new();
    instructions.push(priority_ix);
    instructions.push(init_ix);
    let mut signers: Vec<Address> = Vec::new();
    signers.push(*initializer);
    let plan = TransactionPlan { instructions, fee_payer: *initializer, signers };
    proof {
        assert forall|i: int, j: int|
            (0 <= i < plan.instructions@.len() && 0 <= j < plan.instructions@[i].accounts@.len()
                && (#[trigger] plan.instructions@[i].accounts@[j]).is_signer) implies
            address_covered(plan.signers@, plan.instructions@[i].accounts@[j].address@) by {
            assert(i == 1 && j == 1);
            assert(plan.signers@[0]@ == initializer@);
        }
    }
    Ok((program_config, plan))
}

/// Builds the multisig-create transaction: the priority instruction followed
/// by the create instruction on the multisig account derived from the
/// create-key, paid by the creator and signed by both the creator and the
/// create-key. The treasury must be the one the on-chain program
/// configuration names. Returns the derived multisig address with the plan.
/// Fails when a derivation admits no valid bump, or on the first invalid
/// member entry.
pub fn multisig_create_plan(
    program_id: &Address,
    creator: &Address,
    create_key: &Address,
    config_authority: &Option<Address>,
    rent_collector: &Option<Address>,
    member_lines: &Vec<String>,
    threshold: u16,
    treasury: &Address,
    priority_fee: Option<u64>,
) -> (r: Result<(Address, TransactionPlan), CliError>)
    ensures
        (spec_program_config_address(program_id@) is None || spec_multisig_address(
            create_key@,
            program_id@,
        ) is None) ==> r == Err::<(Address, TransactionPlan), CliError>(CliError::Derivation),
        (spec_program_config_address(program_id@) is Some && spec_multisig_address(
            create_key@,
            program_id@,
        ) is Some && !(forall|i: int|
            0 <= i < member_lines@.len() ==> entry_valid(
                #[trigger] line_bytes(member_lines@[i]),
            ))) ==> (r matches Err(e) && (exists|i: int|
            0 <= i < member_lines@.len() && !entry_valid(#[trigger] line_bytes(member_lines@[i]))
                && (forall|j: int|
                0 <= j < i ==> entry_valid(#[trigger] line_bytes(member_lines@[j]))) && e
                == spec_cli_of_member_error(entry_error(line_bytes(member_lines@[i]), i as usize)))),
        (spec_program_config_address(program_id@) is Some && spec_multisig_address(
            create_key@,
            program_id@,
        ) is Some && (forall|i: int|
            0 <= i < member_lines@.len() ==> entry_valid(
                #[trigger] line_bytes(member_lines@[i]),
            ))) ==> (r matches Ok(p) && {
            &&& spec_multisig_address(create_key@, program_id@) == Some(p.0@)
            &&& p.1.instructions@.len() == 2
            &&& is_priority_ix(p.1.instructions@[0], priority_fee)
            &&& p.1.instructions@[1].program_id@ == program_id@
            &&& (spec_program_config_address(program_id@) matches Some(cfg) && metas_match(
                p.1.instructions@[1].accounts@,
                multisig_create_metas(cfg, treasury@, p.0@, create_key@, creator@),
            ))
            &&& p.1.instructions@[1].data@ == multisig_create_data(
                opt_addr_view(*config_authority),
                threshold,
                line_pairs(lines_of(member_lines@)),
                0,
                opt_addr_view(*rent_collector),
                None,
            )
            &&& p.1.fee_payer@ == creator@
            &&& p.1.signers@.len() == 2
            &&& p.1.signers@[0]@ == creator@
            &&& p.1.signers@[1]@ == create_key@
            &&& plan_well_formed(p.1)
        }),
{
    let program_config = match program_config_address(program_id) {
        Ok(a) => a,
        Err(e) => {
            return Err(e);
        },
    };
    let multisig = match multisig_address(create_key, program_id) {
        Ok(a) => a,
        Err(e) => {
            return Err(e);
        },
    };
    let members = match parse_members(member_lines) {
        Ok(ms) => ms,
        Err(e) => {
            return Err(cli_of_member_error(e));
        },
    };
    proof {
        assert(member_views(members@) =~= line_pairs(lines_of(member_lines@)));
    }
    let priority_ix = priority_fee_instruction(priority_fee);
    let create_ix = multisig_create_instruction(
        program_id,
        &program_config,
        treasury,
        &multisig,
        create_key,
        creator,
        config_authority,
        threshold,
        &members,
        rent_collector,
    );
    let mut instructions: Vec<Instruction> = Vec::new();
    instructions.push(priority_ix);
    instructions.push(create_ix);
    let mut signers: Vec<Address> = Vec::new();
    signers.push(*creator);
    signers.push(*create_key);
    let plan = TransactionPlan { instructions, fee_payer: *creator, signers };
    proof {
        assert forall|i: int, j: int|
            (0 <= i < plan.instructions@.len() && 0 <= j < plan.instructions@[i].accounts@.len()
                && (#[trigger] plan.instructions@[i].accounts@[j]).is_signer) implies
            address_covered(plan.signers@, plan.instructions@[i].accounts@[j].address@) by {
            assert(i == 1 && (j == 3 || j == 4));
            if j == 3 {
                assert(plan.signers@[1]@ == create_key@);
            } else {
                assert(plan.signers@[0]@ == creator@);
            }
        }
    }
    Ok((multisig, plan))
}

} // verus!
