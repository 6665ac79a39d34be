use squads_cli::member::{encode_member, parse_mask, parse_member_entry, parse_members};
use squads_cli::{Address, Member, MemberParseError, Permissions};

fn address_with(fill: u8) -> Address {
    Address::new([fill; 32])
}

fn hex_of(bytes: &[u8; 32]) -> String {
    let mut s = String::new();
    for b in bytes.iter() {
        s.push_str(&format!("{:02x}", b));
    }
    s
}

fn member(fill: u8, mask: u8) -> Member {
    Member { key: address_with(fill), permissions: Permissions { mask } }
}

#[test]
fn round_trip_members() {
    let masks: [u8; 7] = [0, 1, 3, 7, 42, 128, 255];
    let mut lines: Vec<String> = Vec::new();
    let mut members: Vec<Member> = Vec::new();
    for (i, m) in masks.iter().enumerate() {
        let mem = member((i as u8).wrapping_mul(37).wrapping_add(1), *m);
        lines.push(String::from_utf8(encode_member(&mem)).unwrap());
        members.push(mem);
    }
    let parsed = parse_members(&lines).unwrap();
    assert_eq!(parsed, members);
}

#[test]
fn round_trip_every_mask() {
    for mask in 0..=255u8 {
        let mem = member(0xab, mask);
        let line = String::from_utf8(encode_member(&mem)).unwrap();
        let parsed = parse_members(&vec![line]).unwrap();
        assert_eq!(parsed, vec![mem]);
    }
}

#[test]
fn malformed_entry() {
    let r = parse_members(&vec!["bad".to_string()]);
    assert_eq!(r, Err(MemberParseError::MalformedEntry { index: 0 }));
}

#[test]
fn mask_out_of_range() {
    let line = format!("{},300", hex_of(&[0x11; 32]));
    let r = parse_members(&vec![line]);
    assert_eq!(r, Err(MemberParseError::InvalidPermissionMask { index: 0 }));
}

#[test]
fn invalid_address() {
    let r = parse_members(&vec!["notanaddress,1".to_string()]);
    assert_eq!(r, Err(MemberParseError::InvalidAddress { index: 0 }));
}

#[test]
fn too_many_fields() {
    let line = format!("{},1,2", hex_of(&[0x22; 32]));
    let r = parse_members(&vec![line]);
    assert_eq!(r, Err(MemberParseError::MalformedEntry { index: 0 }));
}

#[test]
fn empty_mask_field() {
    let line = format!("{},", hex_of(&[0x22; 32]));
    let r = parse_members(&vec![line]);
    assert_eq!(r, Err(MemberParseError::InvalidPermissionMask { index: 0 }));
}

#[test]
fn first_error_is_reported() {
    let good = format!("{},9", hex_of(&[0x33; 32]));
    let r = parse_members(&vec![good.clone(), "bad".to_string()]);
    assert_eq!(r, Err(MemberParseError::MalformedEntry { index: 1 }));
    let r2 = parse_members(&vec!["nope,1".to_string(), "bad".to_string()]);
    assert_eq!(r2, Err(MemberParseError::InvalidAddress { index: 0 }));
}

#[test]
fn order_is_preserved() {
    let a = member(0x44, 1);
    let b = member(0x55, 3);
    let lines = vec![
        String::from_utf8(encode_member(&a)).unwrap(),
        String::from_utf8(encode_member(&b)).unwrap(),
    ];
    let parsed = parse_members(&lines).unwrap();
    assert_eq!(parsed[0], a);
    assert_eq!(parsed[1], b);
}

#[test]
fn empty_list_parses() {
    let parsed = parse_members(&Vec::new()).unwrap();
    assert!(parsed.is_empty());
}

#[test]
fn upper_case_address_accepted() {
    let lower = format!("{},5", hex_of(&[0xcd; 32]));
    let upper = lower.to_uppercase();
    let a = parse_members(&vec![lower]).unwrap();
    let b = parse_members(&vec![upper]).unwrap();
    assert_eq!(a, b);
    assert_eq!(a[0].key, address_with(0xcd));
}

#[test]
fn mask_bounds() {
    assert_eq!(parse_mask(b"255"), Some(255));
    assert_eq!(parse_mask(b"256"), None);
    assert_eq!(parse_mask(b"0255"), Some(255));
    assert_eq!(parse_mask(b"0"), Some(0));
    assert_eq!(parse_mask(b""), None);
    assert_eq!(parse_mask(b"+1"), None);
    assert_eq!(parse_mask(b"1 "), None);
}

#[test]
fn entry_parses_fields() {
    let line = format!("{},200", hex_of(&[0x0f; 32]));
    let m = parse_member_entry(line.as_bytes(), 7).unwrap();
    assert_eq!(m.key, address_with(0x0f));
    assert_eq!(m.permissions.mask, 200);
}

#[test]
fn address_text_round_trip() {
    let a = Address::new([0x5a; 32]);
    let text = squads_cli::addr::encode_address(&a);
    assert_eq!(text.len(), 64);
    let back = squads_cli::addr::parse_address(&text).unwrap();
    assert_eq!(back, a);
}

#[test]
fn address_text_rejects_bad_input() {
    assert!(squads_cli::addr::parse_address(&[b'a'; 63]).is_none());
    assert!(squads_cli::addr::parse_address(&[b'a'; 65]).is_none());
    let mut with_bad_char = [b'a'; 64];
    with_bad_char[10] = b'g';
    assert!(squads_cli::addr::parse_address(&with_bad_char).is_none());
    assert!(squads_cli::addr::parse_address(&[b'A'; 64]).is_some());
}
