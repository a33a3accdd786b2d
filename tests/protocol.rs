use anchor_lang::prelude::Pubkey;
use std::str::FromStr;
use solprism::{
    commit_reasoning, derive_agent_address, derive_commitment_address, nonce_bytes, program_id,
    register_agent, reveal_reasoning, Address, AxiomError, CommitReasoning, CommitmentState,
    Ledger, ProtocolError, RegisterAgent, RevealReasoning, AGENT_PROFILE_SPACE,
    INITIAL_ACCOUNTABILITY_SCORE, REASONING_COMMITMENT_SPACE,
};

fn key(b: u8) -> Address {
    Address { bytes: [b; 32] }
}

fn profile_of(authority: &Address) -> Address {
    derive_agent_address(authority, &program_id()).unwrap().0
}

fn commitment_of(authority: &Address, nonce: u64) -> Address {
    derive_commitment_address(&profile_of(authority), nonce, &program_id())
        .unwrap()
        .0
}

fn register(ledger: &mut Ledger, authority: &Address, name: &str) -> Result<(), ProtocolError> {
    let ctx = RegisterAgent { agent_profile: profile_of(authority), authority: *authority };
    register_agent(ledger, &ctx, name.to_string(), 1_000)
}

fn commit_ctx(authority: &Address, nonce: u64) -> CommitReasoning {
    CommitReasoning {
        commitment: commitment_of(authority, nonce),
        agent_profile: profile_of(authority),
        authority: *authority,
    }
}

fn commit(
    ledger: &mut Ledger,
    authority: &Address,
    action_type: &str,
    confidence: u8,
    nonce: u64,
) -> Result<solprism::ReasoningCommitted, ProtocolError> {
    commit_reasoning(ledger, &commit_ctx(authority, nonce), [7u8; 32], action_type.to_string(), confidence, nonce, 2_000)
}

fn reveal_ctx(authority: &Address, nonce: u64) -> RevealReasoning {
    RevealReasoning {
        commitment: commitment_of(authority, nonce),
        agent_profile: profile_of(authority),
        authority: *authority,
    }
}

fn counters(ledger: &Ledger, authority: &Address) -> (u64, u64) {
    let p = ledger.profile(&profile_of(authority)).unwrap();
    (p.total_commitments, p.total_verified)
}

#[test]
fn trader_commits_and_reveals() {
    let a = key(1);
    let hash = [0xabu8; 32];
    let mut ledger = Ledger::new(program_id());
    assert_eq!(register(&mut ledger, &a, "Trader-1"), Ok(()));
    let ctx = commit_ctx(&a, 1);
    let ev = commit_reasoning(&mut ledger, &ctx, hash, "trade".to_string(), 87, 1, 2_000).unwrap();
    assert_eq!(ev.agent, profile_of(&a));
    assert_eq!(ev.commitment, ctx.commitment);
    assert_eq!(ev.action_type, "trade");
    assert_eq!(ev.confidence, 87);
    assert_eq!(ev.timestamp, 2_000);
    assert_eq!(counters(&ledger, &a), (1, 0));
    let c = ledger.commitment(&ctx.commitment).unwrap();
    assert_eq!(c.state(), CommitmentState::Committed);
    assert_eq!(c.reasoning_uri, "");
    assert_eq!(c.commitment_hash, hash);

    let ev = reveal_reasoning(&mut ledger, &reveal_ctx(&a, 1), "ipfs://abc".to_string(), 3_000).unwrap();
    assert_eq!(ev.reasoning_uri, "ipfs://abc");
    assert_eq!(ev.timestamp, 3_000);
    assert_eq!(counters(&ledger, &a), (1, 1));
    let c = ledger.commitment(&ctx.commitment).unwrap();
    assert!(c.revealed);
    assert_eq!(c.state(), CommitmentState::Revealed);
    assert_eq!(c.reasoning_uri, "ipfs://abc");
}

#[test]
fn other_authority_cannot_reveal() {
    let a = key(1);
    let b = key(2);
    let mut ledger = Ledger::new(program_id());
    register(&mut ledger, &a, "alice").unwrap();
    register(&mut ledger, &b, "bob").unwrap();
    commit(&mut ledger, &a, "trade", 50, 9).unwrap();
    let ctx = RevealReasoning {
        commitment: commitment_of(&a, 9),
        agent_profile: profile_of(&b),
        authority: b,
    };
    assert_eq!(
        reveal_reasoning(&mut ledger, &ctx, "ipfs://x".to_string(), 5).err(),
        Some(ProtocolError::Unauthorized)
    );
    let c = ledger.commitment(&ctx.commitment).unwrap();
    assert!(!c.revealed);
    assert_eq!(c.reasoning_uri, "");
    assert_eq!(c.authority, a);
    assert_eq!(counters(&ledger, &a), (1, 0));
    assert_eq!(counters(&ledger, &b), (0, 0));
}

#[test]
fn register_succeeds_once_per_authority() {
    let a = key(3);
    let mut ledger = Ledger::new(program_id());
    assert_eq!(register(&mut ledger, &a, "first"), Ok(()));
    assert_eq!(register(&mut ledger, &a, "second"), Err(ProtocolError::AccountInUse));
    let p = ledger.profile(&profile_of(&a)).unwrap();
    assert_eq!(p.name, "first");
    assert_eq!(p.authority, a);
    assert_eq!(p.total_commitments, 0);
    assert_eq!(p.total_verified, 0);
    assert_eq!(p.accountability_score, INITIAL_ACCOUNTABILITY_SCORE);
    assert_eq!(p.accountability_score, 10000);
    assert_eq!(p.created_at, 1_000);
    assert_eq!(p.bump, derive_agent_address(&a, &program_id()).unwrap().1);
    assert_eq!(register(&mut ledger, &key(4), "other"), Ok(()));
}

#[test]
fn register_checks_name_length_in_bytes() {
    let mut ledger = Ledger::new(program_id());
    assert_eq!(register(&mut ledger, &key(5), ""), Err(ProtocolError::Program(AxiomError::NameEmpty)));
    let long = "n".repeat(65);
    assert_eq!(register(&mut ledger, &key(5), &long), Err(ProtocolError::Program(AxiomError::NameTooLong)));
    let wide = "\u{e9}".repeat(33);
    assert_eq!(wide.chars().count(), 33);
    assert_eq!(register(&mut ledger, &key(5), &wide), Err(ProtocolError::Program(AxiomError::NameTooLong)));
    assert!(ledger.profile(&profile_of(&key(5))).is_none());
    let edge = "n".repeat(64);
    assert_eq!(register(&mut ledger, &key(5), &edge), Ok(()));
}

#[test]
fn register_rejects_address_not_derived_from_authority() {
    let mut ledger = Ledger::new(program_id());
    let ctx = RegisterAgent { agent_profile: profile_of(&key(6)), authority: key(7) };
    assert_eq!(register_agent(&mut ledger, &ctx, "x".to_string(), 0), Err(ProtocolError::ConstraintSeeds));
    assert!(!ledger.contains(&ctx.agent_profile));
}

#[test]
fn commit_counts_and_checks_confidence() {
    let a = key(8);
    let mut ledger = Ledger::new(program_id());
    register(&mut ledger, &a, "agent").unwrap();
    assert!(commit(&mut ledger, &a, "audit", 0, 1).is_ok());
    assert_eq!(counters(&ledger, &a), (1, 0));
    assert!(commit(&mut ledger, &a, "audit", 100, 2).is_ok());
    assert_eq!(counters(&ledger, &a), (2, 0));
    assert_eq!(
        commit(&mut ledger, &a, "audit", 101, 3).err(),
        Some(ProtocolError::Program(AxiomError::InvalidConfidence))
    );
    assert_eq!(counters(&ledger, &a), (2, 0));
    assert!(!ledger.contains(&commitment_of(&a, 3)));
}

#[test]
fn commit_checks_action_type_length() {
    let a = key(9);
    let mut ledger = Ledger::new(program_id());
    register(&mut ledger, &a, "agent").unwrap();
    let long = "t".repeat(33);
    assert_eq!(
        commit(&mut ledger, &a, &long, 10, 1).err(),
        Some(ProtocolError::Program(AxiomError::ActionTypeTooLong))
    );
    assert!(commit(&mut ledger, &a, &"t".repeat(32), 10, 1).is_ok());
    assert!(commit(&mut ledger, &a, "", 10, 2).is_ok());
    assert_eq!(counters(&ledger, &a), (2, 0));
}

#[test]
fn same_nonce_twice_collides() {
    let a = key(10);
    let mut ledger = Ledger::new(program_id());
    register(&mut ledger, &a, "agent").unwrap();
    commit(&mut ledger, &a, "trade", 40, 77).unwrap();
    let again = commit_reasoning(&mut ledger, &commit_ctx(&a, 77), [1u8; 32], "rebalance".to_string(), 90, 77, 9_000);
    assert_eq!(again.err(), Some(ProtocolError::AccountInUse));
    let c = ledger.commitment(&commitment_of(&a, 77)).unwrap();
    assert_eq!(c.commitment_hash, [7u8; 32]);
    assert_eq!(c.action_type, "trade");
    assert_eq!(c.confidence, 40);
    assert_eq!(c.timestamp, 2_000);
    assert_eq!(c.nonce, 77);
    assert_eq!(counters(&ledger, &a), (1, 0));
}

#[test]
fn commit_needs_a_registered_profile() {
    let a = key(11);
    let mut ledger = Ledger::new(program_id());
    assert_eq!(commit(&mut ledger, &a, "trade", 1, 1).err(), Some(ProtocolError::AccountNotInitialized));
}

#[test]
fn commit_rejects_wrong_commitment_address() {
    let a = key(12);
    let mut ledger = Ledger::new(program_id());
    register(&mut ledger, &a, "agent").unwrap();
    let mut ctx = commit_ctx(&a, 1);
    ctx.commitment = commitment_of(&a, 2);
    let r = commit_reasoning(&mut ledger, &ctx, [0u8; 32], "trade".to_string(), 1, 1, 0);
    assert_eq!(r.err(), Some(ProtocolError::ConstraintSeeds));
}

#[test]
fn commit_rejects_profile_of_another_authority() {
    let a = key(13);
    let b = key(14);
    let mut ledger = Ledger::new(program_id());
    register(&mut ledger, &a, "agent").unwrap();
    let ctx = CommitReasoning {
        commitment: derive_commitment_address(&profile_of(&a), 1, &program_id()).unwrap().0,
        agent_profile: profile_of(&a),
        authority: b,
    };
    let r = commit_reasoning(&mut ledger, &ctx, [0u8; 32], "trade".to_string(), 1, 1, 0);
    assert_eq!(r.err(), Some(ProtocolError::ConstraintSeeds));
    assert_eq!(counters(&ledger, &a), (0, 0));
}

#[test]
fn reveal_happens_once() {
    let a = key(15);
    let mut ledger = Ledger::new(program_id());
    register(&mut ledger, &a, "agent").unwrap();
    commit(&mut ledger, &a, "trade", 60, 5).unwrap();
    assert!(reveal_reasoning(&mut ledger, &reveal_ctx(&a, 5), "ar://first".to_string(), 10).is_ok());
    assert_eq!(counters(&ledger, &a), (1, 1));
    let again = reveal_reasoning(&mut ledger, &reveal_ctx(&a, 5), "ar://second".to_string(), 11);
    assert_eq!(again.err(), Some(ProtocolError::Program(AxiomError::AlreadyRevealed)));
    assert_eq!(counters(&ledger, &a), (1, 1));
    let c = ledger.commitment(&commitment_of(&a, 5)).unwrap();
    assert_eq!(c.reasoning_uri, "ar://first");
}

#[test]
fn reveal_keeps_committed_fields() {
    let a = key(16);
    let mut ledger = Ledger::new(program_id());
    register(&mut ledger, &a, "agent").unwrap();
    commit(&mut ledger, &a, "rebalance", 33, 4).unwrap();
    let before = ledger.commitment(&commitment_of(&a, 4)).unwrap().clone();
    reveal_reasoning(&mut ledger, &reveal_ctx(&a, 4), "ipfs://trace".to_string(), 99).unwrap();
    let after = ledger.commitment(&commitment_of(&a, 4)).unwrap();
    assert_eq!(after.commitment_hash, before.commitment_hash);
    assert_eq!(after.action_type, before.action_type);
    assert_eq!(after.confidence, before.confidence);
    assert_eq!(after.timestamp, before.timestamp);
    assert_eq!(after.agent, before.agent);
    assert_eq!(after.authority, before.authority);
    assert_eq!(after.nonce, before.nonce);
    assert_eq!(after.bump, before.bump);
}

#[test]
fn reveal_checks_uri_length() {
    let a = key(17);
    let mut ledger = Ledger::new(program_id());
    register(&mut ledger, &a, "agent").unwrap();
    commit(&mut ledger, &a, "trade", 1, 1).unwrap();
    let r = reveal_reasoning(&mut ledger, &reveal_ctx(&a, 1), String::new(), 0);
    assert_eq!(r.err(), Some(ProtocolError::Program(AxiomError::UriEmpty)));
    let r = reveal_reasoning(&mut ledger, &reveal_ctx(&a, 1), "u".repeat(257), 0);
    assert_eq!(r.err(), Some(ProtocolError::Program(AxiomError::UriTooLong)));
    assert_eq!(counters(&ledger, &a), (1, 0));
    assert!(reveal_reasoning(&mut ledger, &reveal_ctx(&a, 1), "u".repeat(256), 0).is_ok());
    assert_eq!(counters(&ledger, &a), (1, 1));
}

#[test]
fn reveal_rejects_commitment_of_another_profile() {
    let a = key(18);
    let b = key(19);
    let mut ledger = Ledger::new(program_id());
    register(&mut ledger, &a, "a").unwrap();
    register(&mut ledger, &b, "b").unwrap();
    commit(&mut ledger, &a, "trade", 1, 1).unwrap();
    let ctx = RevealReasoning {
        commitment: commitment_of(&a, 1),
        agent_profile: profile_of(&b),
        authority: a,
    };
    let r = reveal_reasoning(&mut ledger, &ctx, "ipfs://x".to_string(), 0);
    assert_eq!(r.err(), Some(ProtocolError::Program(AxiomError::AgentMismatch)));
}

#[test]
fn reveal_of_missing_or_wrong_account() {
    let a = key(20);
    let mut ledger = Ledger::new(program_id());
    register(&mut ledger, &a, "a").unwrap();
    let r = reveal_reasoning(&mut ledger, &reveal_ctx(&a, 1), "ipfs://x".to_string(), 0);
    assert_eq!(r.err(), Some(ProtocolError::AccountNotInitialized));
    let ctx = RevealReasoning { commitment: profile_of(&a), agent_profile: profile_of(&a), authority: a };
    let r = reveal_reasoning(&mut ledger, &ctx, "ipfs://x".to_string(), 0);
    assert_eq!(r.err(), Some(ProtocolError::AccountKindMismatch));
}

#[test]
fn commit_on_a_commitment_address_is_kind_mismatch() {
    let a = key(21);
    let mut ledger = Ledger::new(program_id());
    register(&mut ledger, &a, "a").unwrap();
    commit(&mut ledger, &a, "trade", 1, 1).unwrap();
    let ctx = CommitReasoning { commitment: commitment_of(&a, 2), agent_profile: commitment_of(&a, 1), authority: a };
    let r = commit_reasoning(&mut ledger, &ctx, [0u8; 32], "trade".to_string(), 1, 2, 0);
    assert_eq!(r.err(), Some(ProtocolError::AccountKindMismatch));
}

#[test]
fn verified_never_exceeds_commitments() {
    let a = key(22);
    let mut ledger = Ledger::new(program_id());
    register(&mut ledger, &a, "a").unwrap();
    for n in 0..5u64 {
        commit(&mut ledger, &a, "trade", 50, n).unwrap();
        let (c, v) = counters(&ledger, &a);
        assert!(v <= c);
    }
    for n in 0..5u64 {
        reveal_reasoning(&mut ledger, &reveal_ctx(&a, n), "ipfs://t".to_string(), 0).unwrap();
        let _ = reveal_reasoning(&mut ledger, &reveal_ctx(&a, n), "ipfs://t".to_string(), 0);
        let (c, v) = counters(&ledger, &a);
        assert!(v <= c);
        assert_eq!(v, n + 1);
    }
    assert_eq!(counters(&ledger, &a), (5, 5));
}

#[test]
fn nonce_bytes_are_little_endian() {
    assert_eq!(nonce_bytes(0x0102030405060708), vec![8, 7, 6, 5, 4, 3, 2, 1]);
    assert_eq!(nonce_bytes(1), vec![1, 0, 0, 0, 0, 0, 0, 0]);
    assert_eq!(nonce_bytes(u64::MAX), vec![255u8; 8]);
}

#[test]
fn derived_addresses_are_deterministic_and_distinct() {
    let a = key(23);
    let p1 = derive_agent_address(&a, &program_id()).unwrap();
    let p2 = derive_agent_address(&a, &program_id()).unwrap();
    assert_eq!(p1, p2);
    assert_ne!(p1.0, a);
    assert_ne!(p1.0, program_id());
    assert_ne!(p1.0, profile_of(&key(24)));
    let c1 = derive_commitment_address(&p1.0, 1, &program_id()).unwrap().0;
    let c2 = derive_commitment_address(&p1.0, 2, &program_id()).unwrap().0;
    assert_ne!(c1, c2);
    assert_ne!(c1, p1.0);
}

#[test]
fn address_comparison_is_bytewise() {
    let mut b = key(1);
    assert!(key(1).same_as(&b));
    b.bytes[31] = 2;
    assert!(!key(1).same_as(&b));
}

#[test]
fn error_messages_and_sizes() {
    assert_eq!(AxiomError::NameTooLong.message(), "Agent name must be 64 characters or less");
    assert_eq!(AxiomError::Overflow.message(), "Arithmetic overflow");
    assert_eq!(AxiomError::AgentMismatch.message(), "Agent profile does not match commitment");
    assert_eq!(AGENT_PROFILE_SPACE, 135);
    assert_eq!(REASONING_COMMITMENT_SPACE, 419);
}

#[test]
fn program_id_matches_its_base58_form() {
    let key = <Pubkey as FromStr>::from_str("CZcvoryaQNrtZ3qb3gC1h9opcYpzEP1D9Mu1RVwFQeBu").unwrap();
    assert_eq!(key.to_bytes(), program_id().bytes);
}

#[test]
fn derived_address_matches_the_runtime_derivation() {
    let a = key(25);
    let program = Pubkey::new_from_array(program_id().bytes);
    let (expected, bump) = Pubkey::find_program_address(&[b"agent", &a.bytes], &program);
    assert_eq!(derive_agent_address(&a, &program_id()), Some((Address { bytes: expected.to_bytes() }, bump)));
    let agent = expected.to_bytes();
    let (expected, bump) = Pubkey::find_program_address(&[b"commitment", &agent, &42u64.to_le_bytes()], &program);
    assert_eq!(
        derive_commitment_address(&Address { bytes: agent }, 42, &program_id()),
        Some((Address { bytes: expected.to_bytes() }, bump))
    );
}
