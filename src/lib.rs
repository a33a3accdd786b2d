//! A commit-reveal protocol through which an agent publishes a digest of its
//! reasoning before it acts, and later reveals where the full trace is kept.
//!
//! Accounts live at addresses derived from fixed seeds, so a second profile
//! for one authority, or a second commitment under one nonce, collides with
//! the first.

pub mod accounts;
pub mod address;
pub mod laws;
pub mod ledger;
pub mod protocol;

pub use accounts::{
    Account, AgentProfile, AxiomError, CommitReasoning, CommitmentState, ProtocolError,
    ReasoningCommitment, ReasoningCommitted, ReasoningRevealed, RegisterAgent, RevealReasoning,
    AGENT_PROFILE_SPACE, INITIAL_ACCOUNTABILITY_SCORE, MAX_ACTION_TYPE_LEN, MAX_CONFIDENCE,
    MAX_NAME_LEN, MAX_URI_LEN, REASONING_COMMITMENT_SPACE,
};
pub use address::{derive_agent_address, derive_commitment_address, nonce_bytes, program_id, Address};
pub use ledger::Ledger;
pub use protocol::{commit_reasoning, register_agent, reveal_reasoning};
