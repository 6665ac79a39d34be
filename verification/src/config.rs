use vstd::prelude::*;

use vstd::bytes::spec_u64_from_le_bytes;

use crate::addr::Address;
use crate::error::CliError;

verus! {

/// The global configuration account of the wrapped program, as read from
/// the chain: who may change it, what creating a multisig costs, and which
/// account collects that fee.
#[derive(Clone, Copy, Debug, PartialEq, Eq)]
pub struct ProgramConfig {
    pub authority: Address,
    pub multisig_creation_fee: u64,
    pub treasury: Address,
}

/// The eight-byte discriminator that opens the program-configuration
/// account's data.
pub open spec fn program_config_discriminator() -> Seq<u8> {
    seq![196u8, 210, 90, 231, 144, 149, 140, 63]
}

/// Whether `data` is decodable account data of the program configuration:
/// long enough for the fields and opened by their discriminator. Trailing
/// bytes are reserved space and carry no meaning.
pub open spec fn program_config_data_valid(data: Seq<u8>) -> bool {
    data.len() >= 80 && data.subrange(0, 8) == program_config_discriminator()
}

/// Copies 32 bytes into an address value.
pub fn address_from_bytes(s: &[u8]) -> (r: Address)
    requires
        s@.len() == 32,
    ensures
        r@ == s@,
{
    let mut bytes: [u8; 32] = [0; 32];
    let mut i: usize = 0;
    while i < 32
        invariant
            0 <= i <= 32,
            s@.len() == 32,
            forall|j: int| 0 <= j < i ==> bytes@[j] == s@[j],
        decreases 32 - i,
    {
        bytes[i] = s[i];
        i = i + 1;
    }
    let r = Address { bytes };
    proof {
        assert(r@ =~= s@);
    }
    r
}

/// Decodes the program-configuration account's data: after the
/// discriminator come the authority, the creation fee in little-endian
/// order, and the treasury. Fails exactly when the data is too short or
/// the discriminator is wrong, the sign of a missing or foreign account.
pub fn decode_program_config(data: &Vec<u8>) -> (r: Result<ProgramConfig, CliError>)
    ensures
        r is Ok <==> program_config_data_valid(data@),
        r matches Ok(c) ==> {
            &&& c.authority@ == data@.subrange(8, 40)
            &&& c.multisig_creation_fee == spec_u64_from_le_bytes(data@.subrange(40, 48))
            &&& c.treasury@ == data@.subrange(48, 80)
        },
        r matches Err(e) ==> e == CliError::AccountFetch,
{
    if data.len() < 80 {
        return Err(CliError::AccountFetch);
    }
    let disc = vstd::slice::slice_subrange(data.as_slice(), 0, 8);
    let expected: [u8; 8] = [196, 210, 90, 231, 144, 149, 140, 63];
    let mut i: usize = 0;
    while i < 8
        invariant
            0 <= i <= 8,
            data@.len() >= 80,
            disc@ == data@.subrange(0, 8),
            expected@ =~= program_config_discriminator(),
            forall|j: int| 0 <= j < i ==> disc@[j] == program_config_discriminator()[j],
        decreases 8 - i,
    {
        if disc[i] != expected[i] {
            proof {
                assert(data@.subrange(0, 8)[i as int] != program_config_discriminator()[i as int]);
            }
            return Err(CliError::AccountFetch);
        }
        i = i + 1;
    }
    proof {
        assert(data@.subrange(0, 8) =~= program_config_discriminator());
    }
    let authority = address_from_bytes(vstd::slice::slice_subrange(data.as_slice(), 8, 40));
    let fee_bytes = vstd::slice::slice_subrange(data.as_slice(), 40, 48);
    let multisig_creation_fee = vstd::bytes::u64_from_le_bytes(fee_bytes);
    let treasury = address_from_bytes(vstd::slice::slice_subrange(data.as_slice(), 48, 80));
    Ok(ProgramConfig { authority, multisig_creation_fee, treasury })
}

} // verus!
