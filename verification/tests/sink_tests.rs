use vanity_miner::candidate::{derive_address, Candidate};
use vanity_miner::sink::{hex_decode, parse_record, record_line};

fn known_candidate() -> Candidate {
    let mut scalar = [0u8; 32];
    scalar[31] = 1;
    let address = derive_address(&scalar).unwrap();
    Candidate { scalar, address }
}

#[test]
fn record_line_holds_address_space_key_newline() {
    let c = known_candidate();
    let line = record_line(&c);
    assert_eq!(
        line,
        "0x7e5f4552091a69125d5dfcb7b8c2659029395bdf \
         0000000000000000000000000000000000000000000000000000000000000001\n",
    );
}

#[test]
fn record_round_trips_through_parse() {
    let c = known_candidate();
    let line = record_line(&c);
    let body = &line[..line.len() - 1];
    let (address, scalar) = parse_record(body).unwrap();
    assert_eq!(address, c.address);
    assert_eq!(scalar, c.scalar.to_vec());
}

#[test]
fn parse_record_rejects_malformed_lines() {
    assert!(parse_record("nospace").is_none());
    assert!(parse_record("addr xyz").is_none());
    assert!(parse_record("addr 0f0").is_none());
    assert!(parse_record("addr 0F").is_none());
}

#[test]
fn hex_decode_reads_lowercase_pairs() {
    assert_eq!(hex_decode("00ff").unwrap(), vec![0u8, 255u8]);
    assert_eq!(hex_decode("").unwrap(), Vec::<u8>::new());
    assert!(hex_decode("0").is_none());
    assert!(hex_decode("0g").is_none());
    assert!(hex_decode("FF").is_none());
}

#[test]
fn each_record_is_one_complete_line() {
    let c = known_candidate();
    let mut scalar2 = [0u8; 32];
    scalar2[31] = 2;
    let c2 = Candidate { scalar: scalar2, address: derive_address(&scalar2).unwrap() };
    let first = record_line(&c);
    let second = record_line(&c2);
    let store = format!("{}{}", first, second);
    assert_eq!(store.chars().filter(|ch| *ch == '\n').count(), 2);
    assert!(first.ends_with('\n'));
    assert!(second.ends_with('\n'));
    assert_eq!(store.lines().count(), 2);
}
