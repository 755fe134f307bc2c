//! Block proposer and vote evaluator for one BFT consensus session.
//!
//! The crate holds the decisions of a proposer: who is primary in a round,
//! when a block may be proposed, which pending transactions fit into it,
//! whether an incoming proposal deserves a vote and when, which validators
//! are judged offline, and how observed misbehaviour is reported on chain.
//! Timers, network, transaction pool and runtime client stay with the caller,
//! who hands over plain values and carries out what the library decides.

pub mod crypto;
pub mod dynamic_inclusion;
pub mod error;
pub mod evaluation;
pub mod misbehavior;
pub mod offline_tracker;
pub mod pool;
pub mod proposal;
pub mod proposer;
pub mod rpc;
pub mod timing;
pub mod types;

pub use types::{
    same_bytes, AccountId, AuthorityId, BlockNumber, Instant, Nonce, Signature, Timestamp, H256,
};
pub use offline_tracker::{Observed, OfflineTracker};
pub use dynamic_inclusion::DynamicInclusion;
pub use timing::{ProposalTiming, Readiness};
pub use error::ErrorKind;
pub use evaluation::{evaluate_initial, Block, Call, CheckedBlock, Extrinsic, Header};
pub use pool::{greatest_pending_index, PendingTransaction};
pub use misbehavior::{
    BareExtrinsic, Misbehavior, MisbehaviorKind, MisbehaviorReport, UncheckedExtrinsic,
};
pub use proposal::{BlockAssembly, CreateProposal, InherentData, ProposeStep};
pub use proposer::{Evaluation, Proposer, Session};
pub use rpc::{
    default_rpc_config, maybe_start_server, BindFailure, IpAddress, RpcConfig, SocketAddress,
    StartError,
};
