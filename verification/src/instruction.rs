use vstd::prelude::*;

use vstd::bytes::{
    spec_u16_to_le_bytes, spec_u32_to_le_bytes, spec_u64_to_le_bytes, u16_to_le_bytes,
    u32_to_le_bytes, u64_to_le_bytes,
};

use crate::addr::Address;
use crate::member::Member;

verus! {

/// How one account takes part in an instruction: whether it must sign the
/// transaction and whether the instruction may write to it.
#[derive(Clone, Copy, Debug, PartialEq, Eq)]
pub struct AccountMeta {
    pub address: Address,
    pub is_signer: bool,
    pub is_writable: bool,
}

/// One instruction, ready for assembly into a transaction: the program that
/// executes it, the accounts it touches, and its serialized payload.
#[derive(Clone, Debug, PartialEq, Eq)]
pub struct Instruction {
    pub program_id: Address,
    pub accounts: Vec<AccountMeta>,
    pub data: Vec<u8>,
}

/// The account list that a sequence of `(address, is_signer, is_writable)`
/// triples describes.
pub open spec fn metas_match(ms: Seq<AccountMeta>, expected: Seq<(Seq<u8>, bool, bool)>) -> bool {
    &&& ms.len() == expected.len()
    &&& forall|i: int| 0 <= i < ms.len() ==> {
        &&& (#[trigger] ms[i]).address@ == expected[i].0
        &&& ms[i].is_signer == expected[i].1
        &&& ms[i].is_writable == expected[i].2
    }
}

/// The native system program's address: thirty-two zero bytes.
pub open spec fn system_program_id() -> Seq<u8> {
    Seq::new(32, |i: int| 0u8)
}

/// The native compute-budget program's address.
pub open spec fn compute_budget_program_id() -> Seq<u8> {
    seq![
        3u8, 6, 70, 111, 229, 33, 23, 50, 255, 236, 173, 186, 114, 195, 155, 231, 188, 140, 229,
        187, 197, 247, 18, 107, 44, 67, 155, 58, 64, 0, 0, 0,
    ]
}

/// The default priority fee, in micro-fee-units per compute unit, used when
/// the caller supplies none.
pub open spec fn default_priority_fee() -> u64 {
    5000
}

/// The payload of the compute-budget instruction that sets the per-unit
/// price: the set-compute-unit-price variant tag followed by the price in
/// little-endian order.
pub open spec fn set_compute_unit_price_data(fee: u64) -> Seq<u8> {
    seq![3u8] + spec_u64_to_le_bytes(fee)
}

/// The eight-byte discriminator of the program-config-init instruction.
pub open spec fn program_config_init_discriminator() -> Seq<u8> {
    seq![184u8, 188, 198, 195, 205, 124, 117, 216]
}

/// The eight-byte discriminator of the multisig-create instruction.
pub open spec fn multisig_create_discriminator() -> Seq<u8> {
    seq![50u8, 221, 199, 93, 40, 245, 139, 233]
}

/// An optional fixed-size value in the payload encoding: a zero byte for
/// nothing, or a one byte followed by the value.
pub open spec fn option_bytes(o: Option<Seq<u8>>) -> Seq<u8> {
    match o {
        None => seq![0u8],
        Some(b) => seq![1u8] + b,
    }
}

/// The address bytes of an optional address argument.
pub open spec fn opt_addr_view(o: Option<Address>) -> Option<Seq<u8>> {
    match o {
        None => None,
        Some(a) => Some(a@),
    }
}

/// What the payload encoding reads of one member: its address bytes and
/// its mask.
pub open spec fn member_views(ms: Seq<Member>) -> Seq<(Seq<u8>, u8)> {
    ms.map_values(|m: Member| (m.key@, m.permissions.mask))
}

/// One member in the payload encoding: its address followed by its mask.
pub open spec fn member_bytes(m: (Seq<u8>, u8)) -> Seq<u8> {
    m.0 + seq![m.1]
}

/// The members in the payload encoding, in their given order.
pub open spec fn members_payload(ms: Seq<(Seq<u8>, u8)>) -> Seq<u8>
    decreases ms.len(),
{
    if ms.len() == 0 {
        Seq::empty()
    } else {
        members_payload(ms.drop_last()) + member_bytes(ms.last())
    }
}

/// A member list in the payload encoding: its length in little-endian order,
/// then the members.
pub open spec fn members_bytes(ms: Seq<(Seq<u8>, u8)>) -> Seq<u8> {
    spec_u32_to_le_bytes(ms.len() as u32) + members_payload(ms)
}

/// The full payload of the program-config-init instruction.
pub open spec fn program_config_init_data(
    authority: Seq<u8>,
    creation_fee: u64,
    treasury: Seq<u8>,
) -> Seq<u8> {
    program_config_init_discriminator() + authority + spec_u64_to_le_bytes(creation_fee)
        + treasury
}

/// The full payload of the multisig-create instruction.
pub open spec fn multisig_create_data(
    config_authority: Option<Seq<u8>>,
    threshold: u16,
    members: Seq<(Seq<u8>, u8)>,
    time_lock: u32,
    rent_collector: Option<Seq<u8>>,
    memo: Option<Seq<u8>>,
) -> Seq<u8> {
    multisig_create_discriminator() + option_bytes(config_authority) + spec_u16_to_le_bytes(
        threshold,
    ) + members_bytes(members) + spec_u32_to_le_bytes(time_lock) + option_bytes(rent_collector)
        + option_bytes(memo)
}

/// The account list of the program-config-init instruction: the derived
/// config account (written), the initializer (signer, pays), and the system
/// program.
pub open spec fn program_config_init_metas(program_config: Seq<u8>, initializer: Seq<u8>) -> Seq<
    (Seq<u8>, bool, bool),
> {
    seq![
        (program_config, false, true),
        (initializer, true, true),
        (system_program_id(), false, false),
    ]
}

/// The account list of the multisig-create instruction: the config account
/// (read), the treasury (written, collects the fee), the derived multisig
/// account (written), the create-key (signer), the creator (signer, pays),
/// and the system program.
pub open spec fn multisig_create_metas(
    program_config: Seq<u8>,
    treasury: Seq<u8>,
    multisig: Seq<u8>,
    create_key: Seq<u8>,
    creator: Seq<u8>,
) -> Seq<(Seq<u8>, bool, bool)> {
    seq![
        (program_config, false, false),
        (treasury, false, true),
        (multisig, false, true),
        (create_key, true, false),
        (creator, true, true),
        (system_program_id(), false, false),
    ]
}

/// The system program's address as a value.
pub fn system_program_address() -> (r: Address)
    ensures
        r@ == system_program_id(),
{
    let r = Address { bytes: [0; 32] };
    proof {
        assert(r@ =~= system_program_id());
    }
    r
}

/// The compute-budget program's address as a value.
pub fn compute_budget_program_address() -> (r: Address)
    ensures
        r@ == compute_budget_program_id(),
{
    let r = Address {
        bytes: [
            3, 6, 70, 111, 229, 33, 23, 50, 255, 236, 173, 186, 114, 195, 155, 231, 188, 140, 229,
            187, 197, 247, 18, 107, 44, 67, 155, 58, 64, 0, 0, 0,
        ],
    };
    proof {
        assert(r@ =~= compute_budget_program_id());
    }
    r
}

fn push_address(out: &mut Vec<u8>, a: &Address)
    ensures
        final(out)@ == old(out)@ + a@,
{
    let mut i: usize = 0;
    while i < 32
        invariant
            0 <= i <= 32,
            out@ =~= old(out)@ + a@.subrange(0, i as int),
        decreases 32 - i,
    {
        out.push(a.bytes[i]);
        proof {
            assert(old(out)@ + a@.subrange(0, i as int) + seq![a@[i as int]] =~= old(out)@
                + a@.subrange(0, i + 1));
        }
        i = i + 1;
    }
    proof {
        assert(a@.subrange(0, 32) =~= a@);
    }
}

fn push_option_address(out: &mut Vec<u8>, o: &Option<Address>)
    ensures
        final(out)@ == old(out)@ + option_bytes(opt_addr_view(*o)),
{
    match o {
        None => {
            out.push(0);
            proof {
                assert(out@ =~= old(out)@ + option_bytes(opt_addr_view(*o)));
            }
        },
        Some(a) => {
            out.push(1);
            push_address(out, a);
            proof {
                assert(out@ =~= old(out)@ + option_bytes(opt_addr_view(*o)));
            }
        },
    }
}

/// Builds the priority instruction: it targets the compute-budget program,
/// names no accounts, and encodes the requested price, or the default when
/// the caller supplies none.
pub fn priority_fee_instruction(fee: Option<u64>) -> (ix: Instruction)
    ensures
        ix.program_id@ == compute_budget_program_id(),
        ix.accounts@.len() == 0,
        fee matches Some(f) ==> ix.data@ == set_compute_unit_price_data(f),
        fee is None ==> ix.data@ == set_compute_unit_price_data(default_priority_fee()),
{
    let f = match fee {
        Some(f) => f,
        None => 5000,
    };
    let mut data: Vec<u8> = Vec::new();
    data.push(3);
    let mut le = u64_to_le_bytes(f);
    data.append(&mut le);
    proof {
        assert(data@ =~= set_compute_unit_price_data(f));
    }
    Instruction { program_id: compute_budget_program_address(), accounts: Vec::new(), data }
}

/// Decodes a compute-budget set-compute-unit-price payload back into the
/// price it encodes.
pub fn decode_compute_unit_price(data: &Vec<u8>) -> (r: Option<u64>)
    ensures
        r matches Some(f) ==> data@ == set_compute_unit_price_data(f),
        r is None ==> forall|f: u64| data@ != set_compute_unit_price_data(f),
{
    proof {
        vstd::bytes::lemma_auto_spec_u64_to_from_le_bytes();
    }
    if data.len() != 9 {
        proof {
            assert forall|f: u64| data@ != set_compute_unit_price_data(f) by {
                assert(set_compute_unit_price_data(f).len() == 9);
            }
        }
        return None;
    }
    if data[0] != 3 {
        proof {
            assert forall|f: u64| data@ != set_compute_unit_price_data(f) by {
                assert(set_compute_unit_price_data(f)[0] == 3);
            }
        }
        return None;
    }
    let tail = vstd::slice::slice_subrange(data.as_slice(), 1, 9);
    let f = vstd::bytes::u64_from_le_bytes(tail);
    proof {
        assert(data@ =~= set_compute_unit_price_data(f));
    }
    Some(f)
}

/// Builds the program-config-init instruction for the wrapped program:
/// the derived config account, initializer and system program as accounts,
/// and the authority, creation fee and treasury as payload.
pub fn program_config_init_instruction(
    program_id: &Address,
    program_config: &Address,
    initializer: &Address,
    authority: &Address,
    creation_fee: u64,
    treasury: &Address,
) -> (ix: Instruction)
    ensures
        ix.program_id@ == program_id@,
        metas_match(
            ix.accounts@,
            program_config_init_metas(program_config@, initializer@),
        ),
        ix.data@ == program_config_init_data(authority@, creation_fee, treasury@),
{
    let mut accounts: Vec<AccountMeta> = Vec::new();
    accounts.push(
        AccountMeta { address: *program_config, is_signer: false, is_writable: true },
    );
    accounts.push(AccountMeta { address: *initializer, is_signer: true, is_writable: true });
    accounts.push(
        AccountMeta { address: system_program_address(), is_signer: false, is_writable: false },
    );
    let mut data: Vec<u8> = Vec::new();
    data.push(184);
    data.push(188);
    data.push(198);
    data.push(195);
    data.push(205);
    data.push(124);
    data.push(117);
    data.push(216);
    proof {
        assert(data@ =~= program_config_init_discriminator());
    }
    push_address(&mut data, authority);
    let mut fee_le = u64_to_le_bytes(creation_fee);
    data.append(&mut fee_le);
    push_address(&mut data, treasury);
    proof {
        assert(data@ =~= program_config_init_data(authority@, creation_fee, treasury@));
    }
    Instruction { program_id: *program_id, accounts, data }
}

/// Builds the multisig-create instruction for the wrapped program. The
/// treasury account must be the one the on-chain program configuration
/// names; the memo is always absent and the time lock always zero.
pub fn multisig_create_instruction(
    program_id: &Address,
    program_config: &Address,
    treasury: &Address,
    multisig: &Address,
    create_key: &Address,
    creator: &Address,
    config_authority: &Option<Address>,
    threshold: u16,
    members: &Vec<Member>,
    rent_collector: &Option<Address>,
) -> (ix: Instruction)
    ensures
        ix.program_id@ == program_id@,
        metas_match(
            ix.accounts@,
            multisig_create_metas(program_config@, treasury@, multisig@, create_key@, creator@),
        ),
        ix.data@ == multisig_create_data(
            opt_addr_view(*config_authority),
            threshold,
            member_views(members@),
            0,
            opt_addr_view(*rent_collector),
            None,
        ),
{
    let mut accounts: Vec<AccountMeta> = Vec::new();
    accounts.push(
        AccountMeta { address: *program_config, is_signer: false, is_writable: false },
    );
    accounts.push(AccountMeta { address: *treasury, is_signer: false, is_writable: true });
    accounts.push(AccountMeta { address: *multisig, is_signer: false, is_writable: true });
    accounts.push(AccountMeta { address: *create_key, is_signer: true, is_writable: false });
    accounts.push(AccountMeta { address: *creator, is_signer: true, is_writable: true });
    accounts.push(
        AccountMeta { address: system_program_address(), is_signer: false, is_writable: false },
    );
    let mut data: Vec<u8> = Vec::new();
    data.push(50);
    data.push(221);
    data.push(199);
    data.push(93);
    data.push(40);
    data.push(245);
    data.push(139);
    data.push(233);
    proof {
        assert(data@ =~= multisig_create_discriminator());
    }
    push_option_address(&mut data, config_authority);
    let mut threshold_le = u16_to_le_bytes(threshold);
    data.append(&mut threshold_le);
    let mut count_le = u32_to_le_bytes(members.len() as u32);
    data.append(&mut count_le);
    let ghost prefix = data@;
    let ghost views = member_views(members@);
    let mut i: usize = 0;
    while i < members.len()
        invariant
            0 <= i <= members@.len(),
            views == member_views(members@),
            views.len() == members@.len(),
            data@ == prefix + members_payload(views.subrange(0, i as int)),
        decreases members@.len() - i,
    {
        proof {
            assert(views.subrange(0, i + 1).drop_last() =~= views.subrange(0, i as int));
            assert(views.subrange(0, i + 1).last() == views[i as int]);
            assert(views[i as int] == (members@[i as int].key@, members@[i as int].permissions.mask));
        }
        let m = &members[i];
        push_address(&mut data, &m.key);
        data.push(m.permissions.mask);
        proof {
            assert(data@ =~= prefix + members_payload(views.subrange(0, i + 1)));
        }
        i = i + 1;
    }
    proof {
        assert(views.subrange(0, views.len() as int) =~= views);
    }
    let mut time_lock_le = u32_to_le_bytes(0);
    data.append(&mut time_lock_le);
    push_option_address(&mut data, rent_collector);
    data.push(0);
    proof {
        assert(option_bytes(None) =~= seq![0u8]);
        assert(data@ =~= multisig_create_data(
            opt_addr_view(*config_authority),
            threshold,
            member_views(members@),
            0,
            opt_addr_view(*rent_collector),
            None,
        ));
    }
    Instruction { program_id: *program_id, accounts, data }
}

} // verus!
