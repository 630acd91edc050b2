//! The operations that a user asks for, each as one step of the engine on
//! a store: what it returns and what it commits.

pub mod claim;
pub mod close;
pub mod create;
pub mod dep;
pub mod export;
pub mod get;
pub mod import;
pub mod init;
pub mod list;
pub mod pull;
pub mod purge;
pub mod ready;
pub mod release;
pub mod reopen;
pub mod update;
