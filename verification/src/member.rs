use vstd::prelude::*;

use crate::addr::{
    Address, address_text_bytes, address_to_text, is_address_text, is_hex_digit,
    lemma_address_text_round_trip, parse_address,
};

verus! {

/// An 8-bit permission bitmask; its bits are interpreted solely by the
/// wrapped on-chain program.
#[derive(Clone, Copy, Debug, PartialEq, Eq)]
pub struct Permissions {
    pub mask: u8,
}

/// One multisig member: an address together with its permission mask.
#[derive(Clone, Copy, Debug, PartialEq, Eq)]
pub struct Member {
    pub key: Address,
    pub permissions: Permissions,
}

/// Why a textual member entry was rejected; `index` is the position of the
/// offending entry in the input list.
#[derive(Clone, Copy, Debug, PartialEq, Eq)]
pub enum MemberParseError {
    /// The entry does not consist of exactly two comma-separated fields.
    MalformedEntry { index: usize },
    /// The first field is not the textual form of a 32-byte address.
    InvalidAddress { index: usize },
    /// The second field is not a decimal integer in 0..=255.
    InvalidPermissionMask { index: usize },
}

pub open spec fn is_comma(c: u8) -> bool {
    c == 44
}

pub open spec fn is_digit(c: u8) -> bool {
    48 <= c <= 57
}

/// An entry is well formed when it holds exactly one comma, so that it splits
/// into exactly two fields.
pub open spec fn well_formed_entry(s: Seq<u8>) -> bool {
    exists|i: int|
        0 <= i < s.len() && is_comma(s[i]) && (forall|j: int|
            0 <= j < s.len() && is_comma(s[j]) ==> j == i)
}

/// The position of the unique comma of a well-formed entry.
pub open spec fn comma_pos(s: Seq<u8>) -> int {
    choose|i: int|
        0 <= i < s.len() && is_comma(s[i]) && (forall|j: int|
            0 <= j < s.len() && is_comma(s[j]) ==> j == i)
}

pub open spec fn entry_key_text(s: Seq<u8>) -> Seq<u8> {
    s.subrange(0, comma_pos(s))
}

pub open spec fn entry_mask_text(s: Seq<u8>) -> Seq<u8> {
    s.subrange(comma_pos(s) + 1, s.len() as int)
}

/// The number denoted by a string of decimal digits, read left to right.
pub open spec fn digits_value(s: Seq<u8>) -> int
    decreases s.len(),
{
    if s.len() == 0 {
        0
    } else {
        digits_value(s.drop_last()) * 10 + (s.last() - 48)
    }
}

/// A permission-mask field is one or more decimal digits denoting a value
/// in 0..=255.
pub open spec fn is_mask_text(s: Seq<u8>) -> bool {
    &&& s.len() >= 1
    &&& forall|i: int| 0 <= i < s.len() ==> is_digit(#[trigger] s[i])
    &&& digits_value(s) <= 255
}

pub open spec fn mask_value(s: Seq<u8>) -> u8 {
    digits_value(s) as u8
}

/// A member entry is valid when it is well formed, its first field is a
/// textual address and its second field is a permission mask.
pub open spec fn entry_valid(s: Seq<u8>) -> bool {
    &&& well_formed_entry(s)
    &&& is_address_text(entry_key_text(s))
    &&& is_mask_text(entry_mask_text(s))
}

/// The address bytes committed by a valid entry.
pub open spec fn entry_key(s: Seq<u8>) -> Seq<u8> {
    address_text_bytes(entry_key_text(s))
}

/// The permission mask committed by a valid entry.
pub open spec fn entry_mask(s: Seq<u8>) -> u8 {
    mask_value(entry_mask_text(s))
}

/// The error reported for an invalid entry at position `index`: the checks
/// run in order (shape, address, mask) and the first failure decides.
pub open spec fn entry_error(s: Seq<u8>, index: usize) -> MemberParseError {
    if !well_formed_entry(s) {
        MemberParseError::MalformedEntry { index }
    } else if !is_address_text(entry_key_text(s)) {
        MemberParseError::InvalidAddress { index }
    } else {
        MemberParseError::InvalidPermissionMask { index }
    }
}

pub proof fn lemma_digits_value_nonneg(s: Seq<u8>)
    requires
        forall|i: int| 0 <= i < s.len() ==> is_digit(#[trigger] s[i]),
    ensures
        digits_value(s) >= 0,
    decreases s.len(),
{
    if s.len() > 0 {
        assert(forall|i: int|
            0 <= i < s.drop_last().len() ==> is_digit(#[trigger] s.drop_last()[i]));
        lemma_digits_value_nonneg(s.drop_last());
    }
}

/// Reading more digits never decreases the denoted value.
pub proof fn lemma_digits_value_prefix(s: Seq<u8>, k: int)
    requires
        forall|i: int| 0 <= i < s.len() ==> is_digit(#[trigger] s[i]),
        0 <= k <= s.len(),
    ensures
        digits_value(s.subrange(0, k)) <= digits_value(s),
    decreases s.len(),
{
    if k == s.len() {
        assert(s.subrange(0, k) =~= s);
    } else {
        let t = s.drop_last();
        assert(forall|i: int| 0 <= i < t.len() ==> is_digit(#[trigger] t[i]));
        assert(t.subrange(0, k) =~= s.subrange(0, k));
        lemma_digits_value_prefix(t, k);
        lemma_digits_value_nonneg(t);
        assert(digits_value(s) == digits_value(t) * 10 + (s.last() - 48));
        assert(digits_value(t) * 10 >= digits_value(t));
    }
}

/// Decodes a permission-mask field; `None` exactly when the field is not
/// a decimal integer in 0..=255.
pub fn parse_mask(s: &[u8]) -> (r: Option<u8>)
    ensures
        r is Some <==> is_mask_text(s@),
        r matches Some(v) ==> v == mask_value(s@),
{
    if s.len() == 0 {
        return None;
    }
    let mut acc: u16 = 0;
    let mut i: usize = 0;
    while i < s.len()
        invariant
            0 <= i <= s@.len(),
            acc <= 255,
            forall|j: int| 0 <= j < i ==> is_digit(#[trigger] s@[j]),
            acc == digits_value(s@.subrange(0, i as int)),
        decreases s@.len() - i,
    {
        let c = s[i];
        if !(48 <= c && c <= 57) {
            assert(!is_digit(s@[i as int]));
            return None;
        }
        let d: u16 = (c - 48) as u16;
        proof {
            assert(s@.subrange(0, i + 1).drop_last() =~= s@.subrange(0, i as int));
            assert(s@.subrange(0, i + 1).last() == s@[i as int]);
        }
        acc = acc * 10 + d;
        i = i + 1;
        if acc > 255 {
            proof {
                if forall|j: int| 0 <= j < s@.len() ==> is_digit(#[trigger] s@[j]) {
                    lemma_digits_value_prefix(s@, i as int);
                }
            }
            return None;
        }
    }
    proof {
        assert(s@.subrange(0, s@.len() as int) =~= s@);
    }
    Some(acc as u8)
}

/// Parses one `<address>,<mask>` entry, reported as entry `index` of its
/// input list.
pub fn parse_member_entry(s: &[u8], index: usize) -> (r: Result<Member, MemberParseError>)
    ensures
        entry_valid(s@) ==> (r matches Ok(m) && m.key@ == entry_key(s@)
            && m.permissions.mask == entry_mask(s@)),
        !entry_valid(s@) ==> r == Err::<Member, MemberParseError>(entry_error(s@, index)),
{
    let mut comma: Option<usize> = None;
    let mut i: usize = 0;
    while i < s.len()
        invariant
            0 <= i <= s@.len(),
            match comma {
                Some(p) => 0 <= p < i && is_comma(s@[p as int]) && (forall|j: int|
                    0 <= j < i && is_comma(#[trigger] s@[j]) ==> j == p),
                None => forall|j: int| 0 <= j < i ==> !is_comma(#[trigger] s@[j]),
            },
        decreases s@.len() - i,
    {
        if s[i] == 44 {
            match comma {
                None => {
                    comma = Some(i);
                },
                Some(p) => {
                    // a second comma: no position can be the unique one
                    assert(!well_formed_entry(s@)) by {
                        assert(is_comma(s@[p as int]) && is_comma(s@[i as int]) && p != i);
                    }
                    return Err(MemberParseError::MalformedEntry { index });
                },
            }
        }
        i = i + 1;
    }
    let p = match comma {
        Some(p) => p,
        None => {
            assert(!well_formed_entry(s@));
            return Err(MemberParseError::MalformedEntry { index });
        },
    };
    proof {
        assert(well_formed_entry(s@)) by {
            assert(0 <= p < s@.len() && is_comma(s@[p as int]) && (forall|j: int|
                0 <= j < s@.len() && is_comma(s@[j]) ==> j == p));
        }
        assert(comma_pos(s@) == p) by {
            let cp = comma_pos(s@);
            assert(0 <= cp < s@.len() && is_comma(s@[cp]));
        }
    }
    let key_text = vstd::slice::slice_subrange(s, 0, p);
    let mask_text = vstd::slice::slice_subrange(s, p + 1, s.len());
    let key = match parse_address(key_text) {
        Some(a) => a,
        None => {
            return Err(MemberParseError::InvalidAddress { index });
        },
    };
    let mask = match parse_mask(mask_text) {
        Some(v) => v,
        None => {
            return Err(MemberParseError::InvalidPermissionMask { index });
        },
    };
    Ok(Member { key, permissions: Permissions { mask } })
}

/// The canonical decimal text of a permission mask, without leading zeros.
pub open spec fn mask_to_text(v: u8) -> Seq<u8> {
    if v < 10 {
        seq![(v + 48) as u8]
    } else if v < 100 {
        seq![(v / 10 + 48) as u8, (v % 10 + 48) as u8]
    } else {
        seq![(v / 100 + 48) as u8, (v / 10 % 10 + 48) as u8, (v % 10 + 48) as u8]
    }
}

/// The canonical text of one member entry: the address in hexadecimal, a
/// comma, and the mask in decimal.
pub open spec fn member_to_text(key: Seq<u8>, mask: u8) -> Seq<u8> {
    address_to_text(key) + seq![44u8] + mask_to_text(mask)
}

/// The canonical mask text is a valid mask field and denotes the mask again.
pub proof fn lemma_mask_text_round_trip(v: u8)
    ensures
        is_mask_text(mask_to_text(v)),
        mask_value(mask_to_text(v)) == v,
{
    let t = mask_to_text(v);
    assert(digits_value(Seq::<u8>::empty()) == 0);
    if v < 10 {
        let d0 = (v + 48) as u8;
        assert(t =~= seq![d0]);
        assert(seq![d0].drop_last() =~= Seq::<u8>::empty());
        assert(digits_value(seq![d0]) == d0 - 48);
    } else if v < 100 {
        let d0 = (v / 10 + 48) as u8;
        let d1 = (v % 10 + 48) as u8;
        assert(t =~= seq![d0, d1]);
        assert(seq![d0].drop_last() =~= Seq::<u8>::empty());
        assert(digits_value(seq![d0]) == d0 - 48);
        assert(seq![d0, d1].drop_last() =~= seq![d0]);
        assert(digits_value(seq![d0, d1]) == digits_value(seq![d0]) * 10 + (d1 - 48));
        vstd::arithmetic::div_mod::lemma_fundamental_div_mod(v as int, 10);
    } else {
        let d0 = (v / 100 + 48) as u8;
        let d1 = (v / 10 % 10 + 48) as u8;
        let d2 = (v % 10 + 48) as u8;
        assert(t =~= seq![d0, d1, d2]);
        assert(seq![d0].drop_last() =~= Seq::<u8>::empty());
        assert(digits_value(seq![d0]) == d0 - 48);
        assert(seq![d0, d1].drop_last() =~= seq![d0]);
        assert(digits_value(seq![d0, d1]) == digits_value(seq![d0]) * 10 + (d1 - 48));
        assert(seq![d0, d1, d2].drop_last() =~= seq![d0, d1]);
        assert(digits_value(seq![d0, d1, d2]) == digits_value(seq![d0, d1]) * 10 + (d2 - 48));
        vstd::arithmetic::div_mod::lemma_fundamental_div_mod(v as int, 10);
        vstd::arithmetic::div_mod::lemma_fundamental_div_mod(v as int / 10, 10);
        vstd::arithmetic::div_mod::lemma_div_denominator(v as int, 10, 10);
        assert((v as int / 10) / 10 == v as int / 100);
        assert(v / 10 == v as int / 10 && v / 100 == v as int / 100);
    }
}

/// Encoding a member as text and parsing the text back yields the member
/// unchanged: the canonical entry is valid and commits the same address
/// bytes and mask.
pub proof fn lemma_member_entry_round_trip(key: Seq<u8>, mask: u8)
    requires
        key.len() == 32,
    ensures
        entry_valid(member_to_text(key, mask)),
        entry_key(member_to_text(key, mask)) == key,
        entry_mask(member_to_text(key, mask)) == mask,
{
    let t = member_to_text(key, mask);
    lemma_address_text_round_trip(key);
    lemma_mask_text_round_trip(mask);
    assert forall|j: int| 0 <= j < t.len() && is_comma(t[j]) implies j == 64 by {
        if j < 64 {
            assert(is_hex_digit(address_to_text(key)[j]));
        } else if j > 64 {
            assert(is_digit(mask_to_text(mask)[j - 65]));
        }
    }
    assert(well_formed_entry(t)) by {
        assert(0 <= 64 < t.len() && is_comma(t[64]));
    }
    assert(comma_pos(t) == 64) by {
        let cp = comma_pos(t);
        assert(0 <= cp < t.len() && is_comma(t[cp]));
    }
    assert(entry_key_text(t) =~= address_to_text(key));
    assert(entry_mask_text(t) =~= mask_to_text(mask));
}

/// A whole list of canonical entries parses back to the members it encodes.
pub proof fn lemma_member_list_round_trip(lines: Seq<Seq<u8>>, keys: Seq<Seq<u8>>, masks: Seq<u8>)
    requires
        lines.len() == keys.len() == masks.len(),
        forall|i: int| 0 <= i < keys.len() ==> (#[trigger] keys[i]).len() == 32,
        forall|i: int| 0 <= i < lines.len() ==> #[trigger] lines[i] == member_to_text(
            keys[i], masks[i]),
    ensures
        forall|i: int| 0 <= i < lines.len() ==> entry_valid(#[trigger] lines[i]),
        forall|i: int| 0 <= i < lines.len() ==> entry_key(#[trigger] lines[i]) == keys[i],
        forall|i: int| 0 <= i < lines.len() ==> entry_mask(#[trigger] lines[i]) == masks[i],
{
    assert forall|i: int| 0 <= i < lines.len() implies entry_valid(#[trigger] lines[i])
        && entry_key(lines[i]) == keys[i] && entry_mask(lines[i]) == masks[i] by {
        lemma_member_entry_round_trip(keys[i], masks[i]);
    }
}

/// Encodes a permission mask as canonical decimal text.
pub fn encode_mask(v: u8) -> (r: Vec<u8>)
    ensures
        r@ == mask_to_text(v),
{
    let mut out: Vec<u8> = Vec::new();
    if v >= 100 {
        out.push(v / 100 + 48);
    }
    if v >= 10 {
        out.push(v / 10 % 10 + 48);
    }
    out.push(v % 10 + 48);
    proof {
        if v < 10 {
            assert(v % 10 == v);
        }
        assert(out@ =~= mask_to_text(v));
    }
    out
}

/// Encodes one member as its canonical `<address>,<mask>` text.
pub fn encode_member(m: &Member) -> (r: Vec<u8>)
    ensures
        r@ == member_to_text(m.key@, m.permissions.mask),
{
    let mut out = crate::addr::encode_address(&m.key);
    out.push(44);
    let mut mask = encode_mask(m.permissions.mask);
    out.append(&mut mask);
    proof {
        assert(out@ =~= member_to_text(m.key@, m.permissions.mask));
    }
    out
}

/// The UTF-8 bytes of a textual input line.
pub open spec fn line_bytes(l: String) -> Seq<u8> {
    vstd::utf8::encode_utf8(l@)
}

/// Parses a list of `<address>,<mask>` member entries, preserving their
/// order. Fails on the first invalid entry, with the error naming the check
/// that failed and the entry's position.
pub fn parse_members(lines: &Vec<String>) -> (r: Result<Vec<Member>, MemberParseError>)
    ensures
        (forall|i: int| 0 <= i < lines@.len() ==> entry_valid(#[trigger] line_bytes(lines@[i])))
            <==> r is Ok,
        r matches Ok(ms) ==> {
            &&& ms@.len() == lines@.len()
            &&& forall|i: int| 0 <= i < lines@.len() ==> {
                &&& (#[trigger] ms@[i]).key@ == entry_key(line_bytes(lines@[i]))
                &&& ms@[i].permissions.mask == entry_mask(line_bytes(lines@[i]))
            }
        },
        r matches Err(e) ==> exists|i: int|
            0 <= i < lines@.len() && !entry_valid(#[trigger] line_bytes(lines@[i]))
                && (forall|j: int| 0 <= j < i ==> entry_valid(#[trigger] line_bytes(lines@[j])))
                && e == entry_error(line_bytes(lines@[i]), i as usize),
{
    let mut out: Vec<Member> = Vec::new();
    let mut i: usize = 0;
    while i < lines.len()
        invariant
            0 <= i <= lines@.len(),
            out@.len() == i,
            forall|j: int| 0 <= j < i ==> entry_valid(#[trigger] line_bytes(lines@[j])),
            forall|j: int| 0 <= j < i ==> {
                &&& (#[trigger] out@[j]).key@ == entry_key(line_bytes(lines@[j]))
                &&& out@[j].permissions.mask == entry_mask(line_bytes(lines@[j]))
            },
        decreases lines@.len() - i,
    {
        let line: &String = &lines[i];
        let bytes = line.as_str().as_bytes();
        assert(bytes@ == line_bytes(lines@[i as int]));
        match parse_member_entry(bytes, i) {
            Ok(m) => {
                out.push(m);
            },
            Err(e) => {
                return Err(e);
            },
        }
        i = i + 1;
    }
    Ok(out)
}

} // verus!
