//! Raffle settlement engine: era-sequenced settlement, weighted participant
//! selection with reward apportionment, a pending-reward ledger, and the
//! replay-protected channels through which attested oracle data arrives.

pub mod access_control;
pub mod account;
pub mod account_map;
pub mod dapp_staking;
pub mod error;
pub mod filter_latest_winners;
pub mod hashing;
pub mod message;
pub mod meta_transaction;
pub mod on_chain_raffle;
pub mod participant_manager;
pub mod psp22_reward;
pub mod raffle;
pub mod raffle_consumer;
pub mod random_generator;
pub mod rollup_anchor;
pub mod scale;
