use vanity_miner::candidate::derive_address;
use vanity_miner::control::ControllerState;
use vanity_miner::pattern::parse_rule;
use vanity_miner::sink::parse_record;
use vanity_miner::worker::{notification_content, search_step};

#[test]
fn controller_notifies_exactly_once() {
    let mut state = ControllerState::new();
    assert!(state.should_continue());
    assert!(state.trigger());
    assert!(!state.should_continue());
    assert!(!state.trigger());
    assert!(!state.should_continue());
    assert_eq!(state, ControllerState::Stopping);
}

#[test]
fn step_with_a_match_all_rule_produces_a_record() {
    let rules = vec![parse_rule("...").unwrap()];
    let out = search_step(&rules).expect("a candidate is generated");
    assert_eq!(out.matched, Some(0));
    let line = out.record.expect("a match produces a record line");
    assert!(line.ends_with('\n'));
    let (address, scalar) = parse_record(&line[..line.len() - 1]).unwrap();
    assert_eq!(address, out.candidate.address);
    assert_eq!(scalar, out.candidate.scalar.to_vec());
    let rederived = derive_address(&out.candidate.scalar).unwrap();
    assert_eq!(rederived, out.candidate.address);
}

#[test]
fn step_with_no_rules_produces_no_record() {
    let rules = Vec::new();
    let out = search_step(&rules).expect("a candidate is generated");
    assert_eq!(out.matched, None);
    assert!(out.record.is_none());
}

#[test]
fn notification_names_the_recipient_and_address() {
    assert_eq!(
        notification_content("<@42>", "0xabc123"),
        "<@42> found 0xabc123",
    );
}
