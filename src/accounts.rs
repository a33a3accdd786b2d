use crate::address::Address;
use vstd::prelude::*;

verus! {

/// The longest display name of an agent, in bytes.
pub const MAX_NAME_LEN: usize = 64;

/// The longest action category of a commitment, in bytes.
pub const MAX_ACTION_TYPE_LEN: usize = 32;

/// The longest locator of a revealed reasoning trace, in bytes.
pub const MAX_URI_LEN: usize = 256;

/// The highest confidence a commitment can state.
pub const MAX_CONFIDENCE: u8 = 100;

/// The accountability score of a new profile, in basis points (100%).
pub const INITIAL_ACCOUNTABILITY_SCORE: u16 = 10000;

/// Bytes of storage an agent profile takes: an 8-byte discriminator, the
/// authority, the length-prefixed name, both counters, the score, the
/// creation time and the bump.
pub const AGENT_PROFILE_SPACE: usize = 8 + 32 + 4 + 64 + 8 + 8 + 2 + 8 + 1;

/// Bytes of storage a commitment takes: an 8-byte discriminator, the agent,
/// the authority, the digest, the length-prefixed action type, the
/// confidence, the time, the flag, the length-prefixed locator, the nonce and
/// the bump.
pub const REASONING_COMMITMENT_SPACE: usize = 8 + 32 + 32 + 32 + 4 + 32 + 1 + 8 + 1 + 4 + 256 + 8 + 1;

/// The number of bytes in the UTF-8 encoding of `s`.
pub open spec fn byte_len(s: Seq<char>) -> usize {
    vstd::utf8::encode_utf8(s).len() as usize
}

/// The registered identity of one agent.
#[derive(Clone, Debug)]
pub struct AgentProfile {
    /// The key that controls this profile.
    pub authority: Address,
    /// Display name, 1 to 64 bytes.
    pub name: String,
    /// How many commitments the agent has published.
    pub total_commitments: u64,
    /// How many of those commitments have been revealed.
    pub total_verified: u64,
    /// Accountability score in basis points (0 to 10000).
    pub accountability_score: u16,
    /// When the agent registered.
    pub created_at: i64,
    /// The bump of the profile's derived address.
    pub bump: u8,
}

/// A published digest of a reasoning trace, revealed at most once.
#[derive(Clone, Debug)]
pub struct ReasoningCommitment {
    /// The address of the profile this commitment belongs to.
    pub agent: Address,
    /// The authority that created it.
    pub authority: Address,
    /// Digest of the full reasoning trace.
    pub commitment_hash: [u8; 32],
    /// Category of the action, at most 32 bytes.
    pub action_type: String,
    /// Confidence from 0 to 100.
    pub confidence: u8,
    /// When it was committed.
    pub timestamp: i64,
    /// Whether the trace's locator has been revealed.
    pub revealed: bool,
    /// Where the full trace is kept: empty until the reveal.
    pub reasoning_uri: String,
    /// The nonce its address was derived from.
    pub nonce: u64,
    /// The bump of its derived address.
    pub bump: u8,
}

impl ReasoningCommitment {
    /// The commitment's lifecycle state.
    pub fn state(&self) -> (r: CommitmentState)
        ensures
            r == (if self.revealed { CommitmentState::Revealed } else { CommitmentState::Committed }),
    {
        if self.revealed {
            CommitmentState::Revealed
        } else {
            CommitmentState::Committed
        }
    }
}

/// The two states of a commitment: `Committed` leads to `Revealed`, which is final.
#[derive(Clone, Copy, Debug, PartialEq, Eq, Structural)]
pub enum CommitmentState {
    Committed,
    Revealed,
}

/// What an address of the protocol holds.
#[derive(Clone, Debug)]
pub enum Account {
    Profile(AgentProfile),
    Commitment(ReasoningCommitment),
}

/// The accounts of a registration: the profile to create and its signer.
#[derive(Clone, Copy, Debug, PartialEq, Eq)]
pub struct RegisterAgent {
    pub agent_profile: Address,
    pub authority: Address,
}

/// The accounts of a commit: the commitment to create, the signer's profile,
/// and the signer.
#[derive(Clone, Copy, Debug, PartialEq, Eq)]
pub struct CommitReasoning {
    pub commitment: Address,
    pub agent_profile: Address,
    pub authority: Address,
}

/// The accounts of a reveal: the commitment, the signer's profile, and the signer.
#[derive(Clone, Copy, Debug, PartialEq, Eq)]
pub struct RevealReasoning {
    pub commitment: Address,
    pub agent_profile: Address,
    pub authority: Address,
}

/// Announced when a commitment is created.
#[derive(Clone, Debug)]
pub struct ReasoningCommitted {
    pub agent: Address,
    pub commitment: Address,
    pub action_type: String,
    pub confidence: u8,
    pub timestamp: i64,
}

/// Announced when a commitment is revealed.
#[derive(Clone, Debug)]
pub struct ReasoningRevealed {
    pub agent: Address,
    pub commitment: Address,
    pub reasoning_uri: String,
    pub timestamp: i64,
}

/// The protocol's own rejections of an input or a state.
#[derive(Clone, Copy, Debug, PartialEq, Eq, Structural)]
pub enum AxiomError {
    /// The name is longer than 64 bytes.
    NameTooLong,
    /// The name is empty.
    NameEmpty,
    /// The action type is longer than 32 bytes.
    ActionTypeTooLong,
    /// The confidence is above 100.
    InvalidConfidence,
    /// The locator is longer than 256 bytes.
    UriTooLong,
    /// The locator is empty.
    UriEmpty,
    /// The commitment was revealed before.
    AlreadyRevealed,
    /// The commitment belongs to another profile.
    AgentMismatch,
    /// A counter is at its largest value.
    Overflow,
}

impl AxiomError {
    /// The message that goes with the error.
    pub fn message(&self) -> &'static str {
        match self {
            AxiomError::NameTooLong => "Agent name must be 64 characters or less",
            AxiomError::NameEmpty => "Agent name cannot be empty",
            AxiomError::ActionTypeTooLong => "Action type must be 32 characters or less",
            AxiomError::InvalidConfidence => "Confidence must be between 0 and 100",
            AxiomError::UriTooLong => "Reasoning URI must be 256 characters or less",
            AxiomError::UriEmpty => "Reasoning URI cannot be empty",
            AxiomError::AlreadyRevealed => "Reasoning has already been revealed",
            AxiomError::AgentMismatch => "Agent profile does not match commitment",
            AxiomError::Overflow => "Arithmetic overflow",
        }
    }
}

/// Why an operation was refused: by the protocol's own rules, or by the
/// account checks that come before them.
#[derive(Clone, Copy, Debug, PartialEq, Eq, Structural)]
pub enum ProtocolError {
    /// A rule of the protocol refused the call.
    Program(AxiomError),
    /// The account to create already exists.
    AccountInUse,
    /// An account that the call reads does not exist.
    AccountNotInitialized,
    /// An account holds another kind of record than the call expects.
    AccountKindMismatch,
    /// An address is not the one its seeds derive.
    ConstraintSeeds,
    /// The signer is not the authority stored in the account.
    Unauthorized,
    /// The seeds derive no address.
    AddressDerivationFailed,
}

} // verus!
