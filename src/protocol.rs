use crate::accounts::{
    byte_len, Account, AgentProfile, AxiomError, CommitReasoning, ProtocolError,
    ReasoningCommitment, ReasoningCommitted, ReasoningRevealed, RegisterAgent, RevealReasoning,
    INITIAL_ACCOUNTABILITY_SCORE, MAX_ACTION_TYPE_LEN, MAX_CONFIDENCE, MAX_NAME_LEN, MAX_URI_LEN,
};
use crate::address::{
    agent_seeds, commitment_seeds, derive_agent_address, derive_commitment_address,
    program_address, Address,
};
use crate::ledger::{
    lemma_unrevealed_leaves_room, revealed_with, with_commitment_counted, with_reveal_counted, Ledger,
};
use vstd::prelude::*;

verus! {

/// The bump of the profile address of `authority`.
pub open spec fn agent_bump(program: Address, authority: Address) -> u8 {
    program_address(agent_seeds(authority), program.bytes@)->Some_0.1
}

/// The bump of the address of the commitment under `agent` with `nonce`.
pub open spec fn commitment_bump(program: Address, agent: Address, nonce: u64) -> u8 {
    program_address(commitment_seeds(agent, nonce), program.bytes@)->Some_0.1
}

/// Why a registration is refused, the first reason that applies; `None`
/// where it succeeds.
pub open spec fn register_agent_error(
    accounts: Map<Address, Account>,
    program: Address,
    ctx: RegisterAgent,
    name: Seq<char>,
) -> Option<ProtocolError> {
    let derived = program_address(agent_seeds(ctx.authority), program.bytes@);
    if derived is None {
        Some(ProtocolError::AddressDerivationFailed)
    } else if derived->Some_0.0 != ctx.agent_profile.bytes@ {
        Some(ProtocolError::ConstraintSeeds)
    } else if accounts.contains_key(ctx.agent_profile) {
        Some(ProtocolError::AccountInUse)
    } else if byte_len(name) > MAX_NAME_LEN {
        Some(ProtocolError::Program(AxiomError::NameTooLong))
    } else if byte_len(name) == 0 {
        Some(ProtocolError::Program(AxiomError::NameEmpty))
    } else {
        None
    }
}

/// The profile that a registration creates.
pub open spec fn new_profile(authority: Address, name: String, now: i64, bump: u8) -> AgentProfile {
    AgentProfile {
        authority,
        name,
        total_commitments: 0,
        total_verified: 0,
        accountability_score: INITIAL_ACCOUNTABILITY_SCORE,
        created_at: now,
        bump,
    }
}

/// Why the accounts of a commit are refused, the first reason that applies.
pub open spec fn commit_accounts_error(
    accounts: Map<Address, Account>,
    program: Address,
    ctx: CommitReasoning,
    nonce: u64,
) -> Option<ProtocolError> {
    let agent_derived = program_address(agent_seeds(ctx.authority), program.bytes@);
    let derived = program_address(commitment_seeds(ctx.agent_profile, nonce), program.bytes@);
    if !accounts.contains_key(ctx.agent_profile) {
        Some(ProtocolError::AccountNotInitialized)
    } else if !(accounts[ctx.agent_profile] is Profile) {
        Some(ProtocolError::AccountKindMismatch)
    } else if agent_derived is None {
        Some(ProtocolError::AddressDerivationFailed)
    } else if agent_derived->Some_0.0 != ctx.agent_profile.bytes@ {
        Some(ProtocolError::ConstraintSeeds)
    } else if accounts[ctx.agent_profile]->Profile_0.authority != ctx.authority {
        Some(ProtocolError::Unauthorized)
    } else if derived is None {
        Some(ProtocolError::AddressDerivationFailed)
    } else if derived->Some_0.0 != ctx.commitment.bytes@ {
        Some(ProtocolError::ConstraintSeeds)
    } else if accounts.contains_key(ctx.commitment) {
        Some(ProtocolError::AccountInUse)
    } else {
        None
    }
}

/// Why a commit is refused, the first reason that applies; `None` where it
/// succeeds.
pub open spec fn commit_reasoning_error(
    accounts: Map<Address, Account>,
    program: Address,
    ctx: CommitReasoning,
    action_type: Seq<char>,
    confidence: u8,
    nonce: u64,
) -> Option<ProtocolError> {
    if commit_accounts_error(accounts, program, ctx, nonce) is Some {
        commit_accounts_error(accounts, program, ctx, nonce)
    } else if byte_len(action_type) > MAX_ACTION_TYPE_LEN {
        Some(ProtocolError::Program(AxiomError::ActionTypeTooLong))
    } else if confidence > MAX_CONFIDENCE {
        Some(ProtocolError::Program(AxiomError::InvalidConfidence))
    } else if accounts[ctx.agent_profile]->Profile_0.total_commitments == u64::MAX {
        Some(ProtocolError::Program(AxiomError::Overflow))
    } else {
        None
    }
}

/// `c` is the fresh, unrevealed commitment that a commit with these inputs creates.
pub open spec fn is_new_commitment(
    c: ReasoningCommitment,
    ctx: CommitReasoning,
    commitment_hash: [u8; 32],
    action_type: String,
    confidence: u8,
    nonce: u64,
    now: i64,
    bump: u8,
) -> bool {
    &&& c.agent == ctx.agent_profile
    &&& c.authority == ctx.authority
    &&& c.commitment_hash == commitment_hash
    &&& c.action_type == action_type
    &&& c.confidence == confidence
    &&& c.timestamp == now
    &&& !c.revealed
    &&& c.reasoning_uri@ == Seq::<char>::empty()
    &&& c.nonce == nonce
    &&& c.bump == bump
}

/// Why a reveal is refused, the first reason that applies; `None` where it
/// succeeds.
pub open spec fn reveal_reasoning_error(
    accounts: Map<Address, Account>,
    program: Address,
    ctx: RevealReasoning,
    reasoning_uri: Seq<char>,
) -> Option<ProtocolError> {
    let c = accounts[ctx.commitment]->Commitment_0;
    let p = accounts[ctx.agent_profile]->Profile_0;
    let derived = program_address(agent_seeds(ctx.authority), program.bytes@);
    if !accounts.contains_key(ctx.commitment) {
        Some(ProtocolError::AccountNotInitialized)
    } else if !(accounts[ctx.commitment] is Commitment) {
        Some(ProtocolError::AccountKindMismatch)
    } else if c.authority != ctx.authority {
        Some(ProtocolError::Unauthorized)
    } else if c.agent != ctx.agent_profile {
        Some(ProtocolError::Program(AxiomError::AgentMismatch))
    } else if !accounts.contains_key(ctx.agent_profile) {
        Some(ProtocolError::AccountNotInitialized)
    } else if !(accounts[ctx.agent_profile] is Profile) {
        Some(ProtocolError::AccountKindMismatch)
    } else if derived is None {
        Some(ProtocolError::AddressDerivationFailed)
    } else if derived->Some_0.0 != ctx.agent_profile.bytes@ {
        Some(ProtocolError::ConstraintSeeds)
    } else if p.authority != ctx.authority {
        Some(ProtocolError::Unauthorized)
    } else if byte_len(reasoning_uri) > MAX_URI_LEN {
        Some(ProtocolError::Program(AxiomError::UriTooLong))
    } else if byte_len(reasoning_uri) == 0 {
        Some(ProtocolError::Program(AxiomError::UriEmpty))
    } else if c.revealed {
        Some(ProtocolError::Program(AxiomError::AlreadyRevealed))
    } else if p.total_verified == u64::MAX {
        Some(ProtocolError::Program(AxiomError::Overflow))
    } else {
        None
    }
}

/// Registers the signer `ctx.authority` under the name `name` at time `now`.
///
/// Succeeds exactly where `register_agent_error` finds nothing, and then
/// creates the new profile at `ctx.agent_profile`; otherwise the ledger is
/// left as it was.
pub fn register_agent(ledger: &mut Ledger, ctx: &RegisterAgent, name: String, now: i64) -> (r: Result<(), ProtocolError>)
    requires
        old(ledger).wf(),
    ensures
        final(ledger).wf(),
        final(ledger).program() == old(ledger).program(),
        r == match register_agent_error(old(ledger).accounts(), old(ledger).program(), *ctx, name@) {
            Some(e) => Err(e),
            None => Ok(()),
        },
        r is Ok ==> final(ledger).accounts() == old(ledger).accounts().insert(
            ctx.agent_profile,
            Account::Profile(new_profile(ctx.authority, name, now, agent_bump(old(ledger).program(), ctx.authority))),
        ),
        r is Err ==> final(ledger).accounts() == old(ledger).accounts(),
{
    let program = ledger.program_id();
    let bump = match derive_agent_address(&ctx.authority, &program) {
        None => {
            return Err(ProtocolError::AddressDerivationFailed);
        },
        Some((a, b)) => {
            if !a.same_as(&ctx.agent_profile) {
                return Err(ProtocolError::ConstraintSeeds);
            }
            b
        },
    };
    if ledger.contains(&ctx.agent_profile) {
        return Err(ProtocolError::AccountInUse);
    }
    let len = name.as_str().len();
    if len > MAX_NAME_LEN {
        return Err(ProtocolError::Program(AxiomError::NameTooLong));
    }
    if len == 0 {
        return Err(ProtocolError::Program(AxiomError::NameEmpty));
    }
    let profile = AgentProfile {
        authority: ctx.authority,
        name,
        total_commitments: 0,
        total_verified: 0,
        accountability_score: INITIAL_ACCOUNTABILITY_SCORE,
        created_at: now,
        bump,
    };
    ledger.insert_profile(ctx.agent_profile, profile);
    Ok(())
}

/// Publishes, at time `now`, the digest `commitment_hash` of a reasoning
/// trace behind an action of kind `action_type` with confidence `confidence`,
/// at the address that `nonce` derives under the signer's profile.
///
/// Succeeds exactly where `commit_reasoning_error` finds nothing: it then
/// creates the unrevealed commitment, counts it in the profile, and returns
/// the announcement. Otherwise the ledger is left as it was.
pub fn commit_reasoning(
    ledger: &mut Ledger,
    ctx: &CommitReasoning,
    commitment_hash: [u8; 32],
    action_type: String,
    confidence: u8,
    nonce: u64,
    now: i64,
) -> (r: Result<ReasoningCommitted, ProtocolError>)
    requires
        old(ledger).wf(),
    ensures
        final(ledger).wf(),
        final(ledger).program() == old(ledger).program(),
        match commit_reasoning_error(old(ledger).accounts(), old(ledger).program(), *ctx, action_type@, confidence, nonce) {
            Some(e) => r == Err::<ReasoningCommitted, ProtocolError>(e),
            None => r is Ok,
        },
        r is Ok ==> ({
            let c = final(ledger).accounts()[ctx.commitment]->Commitment_0;
            let p = old(ledger).accounts()[ctx.agent_profile]->Profile_0;
            &&& is_new_commitment(
                c,
                *ctx,
                commitment_hash,
                action_type,
                confidence,
                nonce,
                now,
                commitment_bump(old(ledger).program(), ctx.agent_profile, nonce),
            )
            &&& final(ledger).accounts() == old(ledger).accounts().insert(ctx.commitment, Account::Commitment(c)).insert(
                ctx.agent_profile,
                Account::Profile(with_commitment_counted(p)),
            )
            &&& r->Ok_0 == (ReasoningCommitted {
                agent: ctx.agent_profile,
                commitment: ctx.commitment,
                action_type,
                confidence,
                timestamp: now,
            })
        }),
        r is Err ==> final(ledger).accounts() == old(ledger).accounts(),
{
    let program = ledger.program_id();
    let (authority, total_commitments) = match ledger.profile(&ctx.agent_profile) {
        Some(p) => (p.authority, p.total_commitments),
        None => {
            if ledger.contains(&ctx.agent_profile) {
                return Err(ProtocolError::AccountKindMismatch);
            }
            return Err(ProtocolError::AccountNotInitialized);
        },
    };
    match derive_agent_address(&ctx.authority, &program) {
        None => {
            return Err(ProtocolError::AddressDerivationFailed);
        },
        Some((a, _)) => {
            if !a.same_as(&ctx.agent_profile) {
                return Err(ProtocolError::ConstraintSeeds);
            }
        },
    }
    if !authority.same_as(&ctx.authority) {
        return Err(ProtocolError::Unauthorized);
    }
    let bump = match derive_commitment_address(&ctx.agent_profile, nonce, &program) {
        None => {
            return Err(ProtocolError::AddressDerivationFailed);
        },
        Some((a, b)) => {
            if !a.same_as(&ctx.commitment) {
                return Err(ProtocolError::ConstraintSeeds);
            }
            b
        },
    };
    if ledger.contains(&ctx.commitment) {
        return Err(ProtocolError::AccountInUse);
    }
    if action_type.as_str().len() > MAX_ACTION_TYPE_LEN {
        return Err(ProtocolError::Program(AxiomError::ActionTypeTooLong));
    }
    if confidence > MAX_CONFIDENCE {
        return Err(ProtocolError::Program(AxiomError::InvalidConfidence));
    }
    if total_commitments.checked_add(1).is_none() {
        return Err(ProtocolError::Program(AxiomError::Overflow));
    }
    let announced = action_type.clone();
    let commitment = ReasoningCommitment {
        agent: ctx.agent_profile,
        authority: ctx.authority,
        commitment_hash,
        action_type,
        confidence,
        timestamp: now,
        revealed: false,
        reasoning_uri: String::new(),
        nonce,
        bump,
    };
    ledger.record_commitment(ctx.commitment, commitment);
    Ok(ReasoningCommitted {
        agent: ctx.agent_profile,
        commitment: ctx.commitment,
        action_type: announced,
        confidence,
        timestamp: now,
    })
}

/// Reveals, at time `now`, that the trace behind the commitment at
/// `ctx.commitment` is kept at `reasoning_uri`.
///
/// Succeeds exactly where `reveal_reasoning_error` finds nothing: it then
/// marks the commitment revealed with the locator, counts the reveal in the
/// profile, and returns the announcement; every other field of the
/// commitment stays as it was. Otherwise the ledger is left as it was. A
/// reveal is never refused for overflow: the invariant of the ledger leaves
/// room for every pending reveal.
pub fn reveal_reasoning(ledger: &mut Ledger, ctx: &RevealReasoning, reasoning_uri: String, now: i64) -> (r: Result<ReasoningRevealed, ProtocolError>)
    requires
        old(ledger).wf(),
    ensures
        final(ledger).wf(),
        final(ledger).program() == old(ledger).program(),
        match reveal_reasoning_error(old(ledger).accounts(), old(ledger).program(), *ctx, reasoning_uri@) {
            Some(e) => r == Err::<ReasoningRevealed, ProtocolError>(e),
            None => r is Ok,
        },
        r is Ok ==> ({
            let c = old(ledger).accounts()[ctx.commitment]->Commitment_0;
            let p = old(ledger).accounts()[ctx.agent_profile]->Profile_0;
            &&& final(ledger).accounts() == old(ledger).accounts().insert(
                ctx.commitment,
                Account::Commitment(revealed_with(c, reasoning_uri)),
            ).insert(ctx.agent_profile, Account::Profile(with_reveal_counted(p)))
            &&& r->Ok_0 == (ReasoningRevealed {
                agent: ctx.agent_profile,
                commitment: ctx.commitment,
                reasoning_uri,
                timestamp: now,
            })
        }),
        r is Err ==> final(ledger).accounts() == old(ledger).accounts(),
        r != Err::<ReasoningRevealed, ProtocolError>(ProtocolError::Program(AxiomError::Overflow)),
{
    let program = ledger.program_id();
    let (stored_authority, agent, revealed) = match ledger.commitment(&ctx.commitment) {
        Some(c) => (c.authority, c.agent, c.revealed),
        None => {
            if ledger.contains(&ctx.commitment) {
                return Err(ProtocolError::AccountKindMismatch);
            }
            return Err(ProtocolError::AccountNotInitialized);
        },
    };
    if !stored_authority.same_as(&ctx.authority) {
        return Err(ProtocolError::Unauthorized);
    }
    if !agent.same_as(&ctx.agent_profile) {
        return Err(ProtocolError::Program(AxiomError::AgentMismatch));
    }
    let (profile_authority, total_verified) = match ledger.profile(&ctx.agent_profile) {
        Some(p) => (p.authority, p.total_verified),
        None => {
            if ledger.contains(&ctx.agent_profile) {
                return Err(ProtocolError::AccountKindMismatch);
            }
            return Err(ProtocolError::AccountNotInitialized);
        },
    };
    match derive_agent_address(&ctx.authority, &program) {
        None => {
            return Err(ProtocolError::AddressDerivationFailed);
        },
        Some((a, _)) => {
            if !a.same_as(&ctx.agent_profile) {
                return Err(ProtocolError::ConstraintSeeds);
            }
        },
    }
    if !profile_authority.same_as(&ctx.authority) {
        return Err(ProtocolError::Unauthorized);
    }
    let len = reasoning_uri.as_str().len();
    if len > MAX_URI_LEN {
        return Err(ProtocolError::Program(AxiomError::UriTooLong));
    }
    if len == 0 {
        return Err(ProtocolError::Program(AxiomError::UriEmpty));
    }
    if revealed {
        return Err(ProtocolError::Program(AxiomError::AlreadyRevealed));
    }
    proof {
        lemma_unrevealed_leaves_room(ledger, ctx.commitment);
    }
    if total_verified.checked_add(1).is_none() {
        return Err(ProtocolError::Program(AxiomError::Overflow));
    }
    let announced = reasoning_uri.clone();
    ledger.record_reveal(ctx.commitment, reasoning_uri);
    Ok(ReasoningRevealed {
        agent: ctx.agent_profile,
        commitment: ctx.commitment,
        reasoning_uri: announced,
        timestamp: now,
    })
}

} // verus!
