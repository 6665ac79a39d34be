use vstd::prelude::*;

use crate::addr::Address;
use crate::error::CliError;

verus! {

/// The seed prefix every derivation of the wrapped program starts with:
/// the bytes of "multisig".
pub open spec fn seed_prefix() -> Seq<u8> {
    seq![109u8, 117, 108, 116, 105, 115, 105, 103]
}

/// The discriminator seed of the program-configuration account:
/// the bytes of "program_config".
pub open spec fn seed_program_config() -> Seq<u8> {
    seq![112u8, 114, 111, 103, 114, 97, 109, 95, 99, 111, 110, 102, 105, 103]
}

/// The discriminator seed of a multisig account: the bytes of "multisig".
pub open spec fn seed_multisig() -> Seq<u8> {
    seq![109u8, 117, 108, 116, 105, 115, 105, 103]
}

/// The seed list of the single program-configuration account.
pub open spec fn program_config_seeds() -> Seq<Seq<u8>> {
    seq![seed_prefix(), seed_program_config()]
}

/// The seed list of the multisig account derived from `create_key`.
pub open spec fn multisig_seeds(create_key: Seq<u8>) -> Seq<Seq<u8>> {
    seq![seed_prefix(), seed_multisig(), create_key]
}

/// The program-derived address and bump that the chain's standard derivation
/// scheme assigns to a seed list under an owning program id, or `None` when
/// no bump in the search range yields a valid address. The derivation hashes
/// the seeds, a bump byte and the program id, so its value is fixed by the
/// arguments alone.
pub uninterp spec fn pda_of(seeds: Seq<Seq<u8>>, program_id: Seq<u8>) -> Option<(Seq<u8>, u8)>;

/// Relies on solana_program's Pubkey::try_find_program_address: the search is
/// a pure function of the seeds and the owning program id, returns a 32-byte
/// address with its bump byte, and returns None only when no bump in the
/// search range yields a valid address.
#[verifier::external_body]
fn find_pda(seeds: &Vec<Vec<u8>>, program_id: &Address) -> (r: Option<(Address, u8)>)
    ensures
        r is Some <==> pda_of(seeds@.map_values(|s: Vec<u8>| s@), program_id@) is Some,
        r matches Some(p) ==> (pda_of(seeds@.map_values(|s: Vec<u8>| s@), program_id@)
            matches Some(qv) && p.0@ == qv.0 && p.1 == qv.1),
{
    let seed_slices: Vec<&[u8]> = seeds.iter().map(|s| s.as_slice()).collect();
    let pk = solana_program::pubkey::Pubkey::new_from_array(program_id.bytes);
    solana_program::pubkey::Pubkey::try_find_program_address(&seed_slices, &pk).map(
        |p: (solana_program::pubkey::Pubkey, u8)| (Address { bytes: p.0.to_bytes() }, p.1),
    )
}

/// The address of the program-configuration account owned by `program_id`,
/// or `None` when the derivation admits no valid bump.
pub open spec fn spec_program_config_address(program_id: Seq<u8>) -> Option<Seq<u8>> {
    match pda_of(program_config_seeds(), program_id) {
        Some(p) => Some(p.0),
        None => None,
    }
}

/// The address of the multisig account derived from `create_key` under
/// `program_id`, or `None` when the derivation admits no valid bump.
pub open spec fn spec_multisig_address(create_key: Seq<u8>, program_id: Seq<u8>) -> Option<
    Seq<u8>,
> {
    match pda_of(multisig_seeds(create_key), program_id) {
        Some(p) => Some(p.0),
        None => None,
    }
}

fn seed_prefix_vec() -> (r: Vec<u8>)
    ensures
        r@ == seed_prefix(),
{
    let r: Vec<u8> = vec![109, 117, 108, 116, 105, 115, 105, 103];
    proof {
        assert(r@ =~= seed_prefix());
    }
    r
}

fn seed_program_config_vec() -> (r: Vec<u8>)
    ensures
        r@ == seed_program_config(),
{
    let r: Vec<u8> = vec![112, 114, 111, 103, 114, 97, 109, 95, 99, 111, 110, 102, 105, 103];
    proof {
        assert(r@ =~= seed_program_config());
    }
    r
}

/// Derives the deterministic address of the program-configuration account
/// of `program_id`. Fails only when no valid bump exists in the search
/// range, which the caller must treat as fatal.
pub fn program_config_address(program_id: &Address) -> (r: Result<Address, CliError>)
    ensures
        r matches Ok(a) ==> spec_program_config_address(program_id@) == Some(a@),
        r is Err <==> spec_program_config_address(program_id@) is None,
        r matches Err(e) ==> e == CliError::Derivation,
{
    let mut seeds: Vec<Vec<u8>> = Vec::new();
    seeds.push(seed_prefix_vec());
    seeds.push(seed_program_config_vec());
    proof {
        assert(seeds@.map_values(|s: Vec<u8>| s@) =~= program_config_seeds());
    }
    match find_pda(&seeds, program_id) {
        Some(p) => Ok(p.0),
        None => Err(CliError::Derivation),
    }
}

/// Derives the deterministic address of the multisig account keyed on
/// `create_key` under `program_id`. Fails only when no valid bump exists in
/// the search range, which the caller must treat as fatal.
pub fn multisig_address(create_key: &Address, program_id: &Address) -> (r: Result<
    Address,
    CliError,
>)
    ensures
        r matches Ok(a) ==> spec_multisig_address(create_key@, program_id@) == Some(a@),
        r is Err <==> spec_multisig_address(create_key@, program_id@) is None,
        r matches Err(e) ==> e == CliError::Derivation,
{
    let mut seeds: Vec<Vec<u8>> = Vec::new();
    seeds.push(seed_prefix_vec());
    seeds.push(seed_prefix_vec());
    let mut key_bytes: Vec<u8> = Vec::new();
    let mut i: usize = 0;
    while i < 32
        invariant
            0 <= i <= 32,
            key_bytes@ =~= create_key@.subrange(0, i as int),
        decreases 32 - i,
    {
        key_bytes.push(create_key.bytes[i]);
        i = i + 1;
    }
    proof {
        assert(key_bytes@ =~= create_key@);
        assert(seed_multisig() =~= seed_prefix());
        assert(seeds@.push(key_bytes).map_values(|s: Vec<u8>| s@) =~= multisig_seeds(create_key@));
    }
    seeds.push(key_bytes);
    match find_pda(&seeds, program_id) {
        Some(p) => Ok(p.0),
        None => Err(CliError::Derivation),
    }
}

/// The program-configuration derivation is deterministic: any two addresses
/// derived from the same program id are the same address.
pub proof fn lemma_program_config_address_deterministic(
    program_id: Seq<u8>,
    a1: Seq<u8>,
    a2: Seq<u8>,
)
    requires
        spec_program_config_address(program_id) == Some(a1),
        spec_program_config_address(program_id) == Some(a2),
    ensures
        a1 == a2,
{
}

/// The multisig derivation is deterministic: any two addresses derived from
/// the same create-key and program id are the same address.
pub proof fn lemma_multisig_address_deterministic(
    create_key: Seq<u8>,
    program_id: Seq<u8>,
    a1: Seq<u8>,
    a2: Seq<u8>,
)
    requires
        spec_multisig_address(create_key, program_id) == Some(a1),
        spec_multisig_address(create_key, program_id) == Some(a2),
    ensures
        a1 == a2,
{
}

} // verus!
