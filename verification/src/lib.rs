//! Client-side construction and dispatch pipeline for transactions.
//!
//! String parameters are validated and defaulted into a canonical artifact,
//! routed to a local or network sink, and heterogeneous node responses are
//! normalized into a stable result shape.
mod addr;
mod block;
mod builder;
mod commands;
mod dispatch;
mod errors;
mod list;
mod params;
mod present;
mod time;

pub use addr::EntityKind;
pub use addr::InitiatorAddr;
pub use addr::parse_initiator_addr;
pub use block::Block;
pub use block::BlockTransaction;
pub use block::BlockV1;
pub use block::BlockV2;
pub use block::BlockWithSignatures;
pub use block::GetBlockResult;
pub use block::ProtocolVersion;
pub use block::TransactionHash;
pub use block::TransactionLane;
pub use list::ListTransactionsResult;
pub use builder::Artifact;
pub use builder::LoadedKey;
pub use builder::build_artifact;
pub use commands::BalanceQuery;
pub use commands::GetBalance;
pub use commands::ListTransactions;
pub use commands::MakeDeploy;
pub use commands::SendDeploy;
pub use dispatch::DispatchAction;
pub use dispatch::Endpoint;
pub use dispatch::local_write_message;
pub use dispatch::plan_local_write;
pub use dispatch::select_endpoint;
pub use errors::ArgField;
pub use errors::CmdError;
pub use params::TransactionStrParams;
pub use present::present;
pub use time::TimeDiff;
pub use time::Timestamp;
pub use time::max_timestamp_millis;
pub use time::parse_timestamp;
pub use time::parse_ttl;
