//! Subway: a JSON-RPC gateway with middlewares for Substrate and Ethereum RPC.
//!
//! This crate holds the gateway's decision logic and its data model, each
//! function stated by a contract and proved.
pub mod cli;
pub mod client;
pub mod config;
pub mod extensions;
pub mod helpers;
