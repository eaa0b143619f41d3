use vanity_miner::candidate::{derive_address, generate};

fn scalar_from_low_byte(b: u8) -> [u8; 32] {
    let mut s = [0u8; 32];
    s[31] = b;
    s
}

#[test]
fn zero_scalar_is_rejected() {
    assert!(derive_address(&[0u8; 32]).is_none());
}

#[test]
fn scalar_one_derives_known_address() {
    let addr = derive_address(&scalar_from_low_byte(1)).unwrap();
    assert_eq!(addr, "0x7e5f4552091a69125d5dfcb7b8c2659029395bdf");
}

#[test]
fn scalar_at_curve_order_is_rejected() {
    // The group order itself, big-endian: one past the largest valid scalar.
    let order: [u8; 32] = [
        0xff, 0xff, 0xff, 0xff, 0xff, 0xff, 0xff, 0xff, 0xff, 0xff, 0xff, 0xff, 0xff, 0xff, 0xff,
        0xfe, 0xba, 0xae, 0xdc, 0xe6, 0xaf, 0x48, 0xa0, 0x3b, 0xbf, 0xd2, 0x5e, 0x8c, 0xd0, 0x36,
        0x41, 0x41,
    ];
    assert!(derive_address(&order).is_none());

    let mut below = order;
    below[31] = 0x40;
    assert!(derive_address(&below).is_some());
}

#[test]
fn generated_candidate_address_round_trips() {
    let c = generate().expect("a valid scalar is drawn");
    assert_eq!(c.address.len(), 42);
    assert!(c.address.starts_with("0x"));
    let rederived = derive_address(&c.scalar).expect("the recorded scalar is valid");
    assert_eq!(rederived, c.address);
}

#[test]
fn derivation_is_deterministic() {
    let s = scalar_from_low_byte(7);
    assert_eq!(derive_address(&s).unwrap(), derive_address(&s).unwrap());
}
