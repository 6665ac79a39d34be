use vstd::prelude::*;

verus! {

/// A 32-byte public identifier on the target chain: either a wallet address
/// or a program-derived address.
#[derive(Clone, Copy, Debug, PartialEq, Eq)]
pub struct Address {
    pub bytes: [u8; 32],
}

impl View for Address {
    type V = Seq<u8>;

    open spec fn view(&self) -> Seq<u8> {
        self.bytes@
    }
}

impl Address {
    pub fn new(bytes: [u8; 32]) -> (r: Address)
        ensures
            r@ == bytes@,
    {
        Address { bytes }
    }

    pub fn eq_address(&self, other: &Address) -> (r: bool)
        ensures
            r <==> self@ == other@,
    {
        let mut i: usize = 0;
        while i < 32
            invariant
                0 <= i <= 32,
                forall|j: int| 0 <= j < i ==> self.bytes@[j] == other.bytes@[j],
            decreases 32 - i,
        {
            if self.bytes[i] != other.bytes[i] {
                assert(self@[i as int] != other@[i as int]);
                return false;
            }
            i = i + 1;
        }
        proof {
            assert(self@ =~= other@);
        }
        true
    }
}

/// Whether `c` is the code of an ASCII hexadecimal digit.
pub open spec fn is_hex_digit(c: u8) -> bool {
    (48 <= c <= 57) || (97 <= c <= 102) || (65 <= c <= 70)
}

/// The value in 0..16 denoted by the hexadecimal digit with code `c`.
pub open spec fn hex_digit_value(c: u8) -> u8 {
    if 48 <= c <= 57 {
        (c - 48) as u8
    } else if 97 <= c <= 102 {
        (c - 87) as u8
    } else if 65 <= c <= 70 {
        (c - 55) as u8
    } else {
        0
    }
}

/// The code of the lower-case hexadecimal digit for a value `v` in 0..16.
pub open spec fn hex_digit_lower(v: u8) -> u8 {
    if v < 10 {
        (v + 48) as u8
    } else {
        (v + 87) as u8
    }
}

/// A sequence of bytes is a textual address exactly when it consists of
/// 64 hexadecimal digit codes.
pub open spec fn is_address_text(s: Seq<u8>) -> bool {
    s.len() == 64 && (forall|i: int| 0 <= i < 64 ==> is_hex_digit(#[trigger] s[i]))
}

/// The 32 bytes denoted by a 64-digit textual address: byte `i` is read from
/// the digit pair at positions `2i` and `2i + 1`.
pub open spec fn address_text_bytes(s: Seq<u8>) -> Seq<u8> {
    Seq::new(32, |i: int| (hex_digit_value(s[2 * i]) * 16 + hex_digit_value(s[2 * i + 1])) as u8)
}

/// The canonical textual form of 32 address bytes: each byte written as two
/// lower-case hexadecimal digits.
pub open spec fn address_to_text(b: Seq<u8>) -> Seq<u8> {
    Seq::new(64, |i: int|
        if i % 2 == 0 {
            hex_digit_lower(b[i / 2] / 16)
        } else {
            hex_digit_lower(b[i / 2] % 16)
        })
}

/// Decodes the textual form of an address: 64 hexadecimal digits, upper or
/// lower case. Returns `None` exactly on input that is not such a text.
pub fn parse_address(s: &[u8]) -> (r: Option<Address>)
    ensures
        r is Some <==> is_address_text(s@),
        r matches Some(a) ==> a@ == address_text_bytes(s@),
{
    if s.len() != 64 {
        return None;
    }
    let mut bytes: [u8; 32] = [0; 32];
    let mut i: usize = 0;
    while i < 32
        invariant
            0 <= i <= 32,
            s@.len() == 64,
            forall|j: int| 0 <= j < 2 * i ==> is_hex_digit(#[trigger] s@[j]),
            forall|j: int| 0 <= j < i ==>
                #[trigger] bytes@[j] == hex_digit_value(s@[2 * j]) * 16 + hex_digit_value(
                s@[2 * j + 1]),
        decreases 32 - i,
    {
        let hi = match hex_value(s[2 * i]) {
            Some(v) => v,
            None => {
                assert(!is_hex_digit(s@[2 * (i as int)]));
                return None;
            },
        };
        let lo = match hex_value(s[2 * i + 1]) {
            Some(v) => v,
            None => {
                assert(!is_hex_digit(s@[2 * (i as int) + 1]));
                return None;
            },
        };
        bytes[i] = hi * 16 + lo;
        i = i + 1;
    }
    let a = Address { bytes };
    proof {
        assert(a@ =~= address_text_bytes(s@));
    }
    Some(a)
}

/// Decodes one hexadecimal digit; `None` exactly when `c` is not one.
pub fn hex_value(c: u8) -> (r: Option<u8>)
    ensures
        r is Some <==> is_hex_digit(c),
        r matches Some(v) ==> v == hex_digit_value(c) && v < 16,
{
    if 48 <= c && c <= 57 {
        Some(c - 48)
    } else if 97 <= c && c <= 102 {
        Some(c - 87)
    } else if 65 <= c && c <= 70 {
        Some(c - 55)
    } else {
        None
    }
}

/// Encodes 32 address bytes as 64 lower-case hexadecimal digits.
pub fn encode_address(a: &Address) -> (r: Vec<u8>)
    ensures
        r@ == address_to_text(a@),
        is_address_text(r@),
        address_text_bytes(r@) == a@,
{
    let mut out: Vec<u8> = Vec::new();
    let mut i: usize = 0;
    while i < 32
        invariant
            0 <= i <= 32,
            out@.len() == 2 * i,
            forall|j: int| 0 <= j < 2 * i ==> #[trigger] out@[j] == address_to_text(a@)[j],
        decreases 32 - i,
    {
        let b = a.bytes[i];
        out.push(hex_char_lower(b / 16));
        out.push(hex_char_lower(b % 16));
        proof {
            assert(a@[i as int] / 16 < 16 && a@[i as int] % 16 < 16);
            assert(address_to_text(a@)[2 * i as int] == hex_digit_lower(a@[i as int] / 16));
            assert(address_to_text(a@)[2 * i as int + 1] == hex_digit_lower(a@[i as int] % 16));
        }
        i = i + 1;
    }
    proof {
        assert(out@ =~= address_to_text(a@));
        lemma_address_text_round_trip(a@);
    }
    out
}

/// Encodes a value in 0..16 as a lower-case hexadecimal digit.
pub fn hex_char_lower(v: u8) -> (r: u8)
    requires
        v < 16,
    ensures
        r == hex_digit_lower(v),
        is_hex_digit(r),
        hex_digit_value(r) == v,
{
    if v < 10 {
        v + 48
    } else {
        v + 87
    }
}

/// The canonical textual form of any 32 address bytes is a valid textual
/// address and decodes back to the same bytes.
pub proof fn lemma_address_text_round_trip(b: Seq<u8>)
    requires
        b.len() == 32,
    ensures
        is_address_text(address_to_text(b)),
        address_text_bytes(address_to_text(b)) == b,
{
    let t = address_to_text(b);
    assert forall|i: int| 0 <= i < 64 implies is_hex_digit(#[trigger] t[i]) by {
        assert(b[i / 2] / 16 < 16 && b[i / 2] % 16 < 16);
    }
    assert forall|i: int| 0 <= i < 32 implies #[trigger] address_text_bytes(t)[i] == b[i] by {
        let x = b[i];
        assert(t[2 * i] == hex_digit_lower(x / 16));
        assert(t[2 * i + 1] == hex_digit_lower(x % 16));
        assert(x / 16 < 16 && x % 16 < 16);
        assert(hex_digit_value(hex_digit_lower(x / 16)) == x / 16);
        assert(hex_digit_value(hex_digit_lower(x % 16)) == x % 16);
        assert(x == 16 * (x / 16) + x % 16);
    }
    assert(address_text_bytes(t) =~= b);
}

} // verus!
