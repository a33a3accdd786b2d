use crate::accounts::{byte_len, Account, AxiomError, ProtocolError, ReasoningCommitment, CommitReasoning, RegisterAgent, RevealReasoning};
use crate::address::{agent_seeds, program_address, Address};
use crate::ledger::{revealed_with, with_commitment_counted, with_reveal_counted};
use crate::protocol::{
    agent_bump, commit_accounts_error, commit_reasoning_error, new_profile, register_agent_error,
    reveal_reasoning_error,
};
use vstd::prelude::*;

verus! {

/// An authority registers once: with a name of 1 to 64 bytes, at the address
/// its seeds derive and which is still free, registration succeeds; on the
/// ledger that results, registering the same authority again fails because
/// the address is in use, whatever the name.
pub proof fn lemma_register_once(
    accounts: Map<Address, Account>,
    program: Address,
    ctx: RegisterAgent,
    name: String,
    now: i64,
    other_name: Seq<char>,
)
    requires
        program_address(agent_seeds(ctx.authority), program.bytes@) matches Some(d) && d.0 == ctx.agent_profile.bytes@,
        !accounts.contains_key(ctx.agent_profile),
        1 <= byte_len(name@) <= 64,
    ensures
        register_agent_error(accounts, program, ctx, name@) is None,
        register_agent_error(
            accounts.insert(
                ctx.agent_profile,
                Account::Profile(new_profile(ctx.authority, name, now, agent_bump(program, ctx.authority))),
            ),
            program,
            ctx,
            other_name,
        ) == Some(ProtocolError::AccountInUse),
{
}

/// Once the accounts of a commit are in order and the profile's count can
/// grow, a commit with an action type of at most 32 bytes succeeds when the
/// confidence is at most 100, and is refused as an invalid confidence when it
/// is above; a success counts exactly one more commitment.
pub proof fn lemma_commit_confidence(
    accounts: Map<Address, Account>,
    program: Address,
    ctx: CommitReasoning,
    action_type: Seq<char>,
    confidence: u8,
    nonce: u64,
)
    requires
        commit_accounts_error(accounts, program, ctx, nonce) is None,
        accounts[ctx.agent_profile]->Profile_0.total_commitments < u64::MAX,
        byte_len(action_type) <= 32,
    ensures
        confidence <= 100 ==> commit_reasoning_error(accounts, program, ctx, action_type, confidence, nonce) is None,
        confidence > 100 ==> commit_reasoning_error(accounts, program, ctx, action_type, confidence, nonce)
            == Some(ProtocolError::Program(AxiomError::InvalidConfidence)),
        with_commitment_counted(accounts[ctx.agent_profile]->Profile_0).total_commitments
            == accounts[ctx.agent_profile]->Profile_0.total_commitments + 1,
{
}

/// A nonce serves once per agent: after a commit succeeds, a second commit
/// with the same accounts and nonce is refused because the address is in
/// use, and the first commitment stays where it was.
pub proof fn lemma_nonce_used_once(
    accounts: Map<Address, Account>,
    program: Address,
    ctx: CommitReasoning,
    action_type: Seq<char>,
    confidence: u8,
    nonce: u64,
    created: ReasoningCommitment,
    other_action_type: Seq<char>,
    other_confidence: u8,
)
    requires
        commit_reasoning_error(accounts, program, ctx, action_type, confidence, nonce) is None,
    ensures
        ({
            let after = accounts.insert(ctx.commitment, Account::Commitment(created)).insert(
                ctx.agent_profile,
                Account::Profile(with_commitment_counted(accounts[ctx.agent_profile]->Profile_0)),
            );
            &&& commit_reasoning_error(after, program, ctx, other_action_type, other_confidence, nonce)
                == Some(ProtocolError::AccountInUse)
            &&& after[ctx.commitment] == Account::Commitment(created)
        }),
{
    assert(ctx.commitment != ctx.agent_profile);
}

/// A commitment is revealed once: after a reveal succeeds, the commitment is
/// revealed and its profile counts one more reveal; a second reveal with a
/// locator of 1 to 256 bytes is refused as already revealed.
pub proof fn lemma_reveal_once(
    accounts: Map<Address, Account>,
    program: Address,
    ctx: RevealReasoning,
    reasoning_uri: String,
    other_uri: Seq<char>,
)
    requires
        reveal_reasoning_error(accounts, program, ctx, reasoning_uri@) is None,
        1 <= byte_len(other_uri) <= 256,
    ensures
        ({
            let c = accounts[ctx.commitment]->Commitment_0;
            let p = accounts[ctx.agent_profile]->Profile_0;
            let after = accounts.insert(ctx.commitment, Account::Commitment(revealed_with(c, reasoning_uri))).insert(
                ctx.agent_profile,
                Account::Profile(with_reveal_counted(p)),
            );
            &&& after[ctx.commitment]->Commitment_0.revealed
            &&& after[ctx.agent_profile]->Profile_0.total_verified == p.total_verified + 1
            &&& reveal_reasoning_error(after, program, ctx, other_uri)
                == Some(ProtocolError::Program(AxiomError::AlreadyRevealed))
        }),
{
    assert(ctx.commitment != ctx.agent_profile);
}

/// A reveal changes nothing of a commitment but its flag and its locator:
/// the digest, action type, confidence, time, agent, authority and nonce stay.
pub proof fn lemma_reveal_keeps_commitment(c: ReasoningCommitment, reasoning_uri: String)
    ensures
        revealed_with(c, reasoning_uri).commitment_hash == c.commitment_hash,
        revealed_with(c, reasoning_uri).action_type == c.action_type,
        revealed_with(c, reasoning_uri).confidence == c.confidence,
        revealed_with(c, reasoning_uri).timestamp == c.timestamp,
        revealed_with(c, reasoning_uri).agent == c.agent,
        revealed_with(c, reasoning_uri).authority == c.authority,
        revealed_with(c, reasoning_uri).nonce == c.nonce,
        revealed_with(c, reasoning_uri).revealed,
        revealed_with(c, reasoning_uri).reasoning_uri == reasoning_uri,
{
}

/// Only the authority that created a commitment can reveal it: any other
/// signer is refused as unauthorized.
pub proof fn lemma_reveal_needs_authority(
    accounts: Map<Address, Account>,
    program: Address,
    ctx: RevealReasoning,
    reasoning_uri: Seq<char>,
)
    requires
        accounts.contains_key(ctx.commitment),
        accounts[ctx.commitment] matches Account::Commitment(c) && c.authority != ctx.authority,
    ensures
        reveal_reasoning_error(accounts, program, ctx, reasoning_uri) == Some(ProtocolError::Unauthorized),
{
}

} // verus!
