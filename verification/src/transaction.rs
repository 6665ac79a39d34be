use vstd::prelude::*;

use crate::addr::Address;
use crate::error::{CliError, SubmitReason};
use crate::instruction::Instruction;

verus! {

/// A transaction ready for signing and submission: its instructions in
/// order, the account that pays the fee, and the addresses that must sign.
#[derive(Clone, Debug, PartialEq, Eq)]
pub struct TransactionPlan {
    pub instructions: Vec<Instruction>,
    pub fee_payer: Address,
    pub signers: Vec<Address>,
}

/// Whether `a` is among the attached signer addresses.
pub open spec fn address_covered(signers: Seq<Address>, a: Seq<u8>) -> bool {
    exists|k: int| 0 <= k < signers.len() && (#[trigger] signers[k])@ == a
}

/// Whether some instruction flags an account with address `a` as a required
/// signer.
pub open spec fn signer_required(instrs: Seq<Instruction>, a: Seq<u8>) -> bool {
    exists|i: int, j: int|
        0 <= i < instrs.len() && 0 <= j < instrs[i].accounts@.len()
            && (#[trigger] instrs[i].accounts@[j]).is_signer && instrs[i].accounts@[j].address@
            == a
}

/// The transaction invariant: every account flagged as a required signer in
/// any instruction has a matching signer attached.
pub open spec fn signers_cover(instrs: Seq<Instruction>, signers: Seq<Address>) -> bool {
    forall|i: int, j: int|
        (0 <= i < instrs.len() && 0 <= j < instrs[i].accounts@.len()
            && (#[trigger] instrs[i].accounts@[j]).is_signer) ==> address_covered(
            signers,
            instrs[i].accounts@[j].address@,
        )
}

/// A plan is well formed when its signer set covers every account flagged
/// as a required signer.
pub open spec fn plan_well_formed(plan: TransactionPlan) -> bool {
    signers_cover(plan.instructions@, plan.signers@)
}

/// Whether `a` occurs in `signers`.
pub fn address_in(signers: &Vec<Address>, a: &Address) -> (r: bool)
    ensures
        r <==> address_covered(signers@, a@),
{
    let mut k: usize = 0;
    while k < signers.len()
        invariant
            0 <= k <= signers@.len(),
            forall|m: int| 0 <= m < k ==> (#[trigger] signers@[m])@ != a@,
        decreases signers@.len() - k,
    {
        if signers[k].eq_address(a) {
            return true;
        }
        k = k + 1;
    }
    false
}

/// Checks the signer set of a transaction before submission: succeeds
/// exactly when every account flagged as a required signer has a matching
/// signer attached, and otherwise reports the first uncovered account as a
/// signature-related submission failure.
pub fn check_signer_coverage(
    instructions: &Vec<Instruction>,
    signers: &Vec<Address>,
) -> (r: Result<(), CliError>)
    ensures
        r is Ok <==> signers_cover(instructions@, signers@),
        r matches Err(e) ==> (exists|a: Address|
            e == (CliError::Submission { reason: SubmitReason::MissingSignature { address: a } })
                && signer_required(instructions@, a@) && !address_covered(signers@, a@)),
{
    let mut i: usize = 0;
    while i < instructions.len()
        invariant
            0 <= i <= instructions@.len(),
            forall|x: int, y: int|
                (0 <= x < i && 0 <= y < instructions@[x].accounts@.len() && (
                #[trigger] instructions@[x].accounts@[y]).is_signer) ==> address_covered(
                    signers@,
                    instructions@[x].accounts@[y].address@,
                ),
        decreases instructions@.len() - i,
    {
        let accounts = &instructions[i].accounts;
        let mut j: usize = 0;
        while j < accounts.len()
            invariant
                0 <= i < instructions@.len(),
                0 <= j <= accounts@.len(),
                accounts@ == instructions@[i as int].accounts@,
                forall|x: int, y: int|
                    (0 <= x < i && 0 <= y < instructions@[x].accounts@.len() && (
                    #[trigger] instructions@[x].accounts@[y]).is_signer) ==> address_covered(
                        signers@,
                        instructions@[x].accounts@[y].address@,
                    ),
                forall|y: int|
                    (0 <= y < j && (#[trigger] accounts@[y]).is_signer) ==> address_covered(
                        signers@,
                        accounts@[y].address@,
                    ),
            decreases accounts@.len() - j,
        {
            let account = &accounts[j];
            if account.is_signer && !address_in(signers, &account.address) {
                proof {
                    assert(signer_required(instructions@, account.address@)) by {
                        assert((instructions@[i as int].accounts@[j as int]).is_signer);
                    }
                }
                return Err(
                    CliError::Submission {
                        reason: SubmitReason::MissingSignature { address: account.address },
                    },
                );
            }
            j = j + 1;
        }
        i = i + 1;
    }
    Ok(())
}

} // verus!
