//! Ethereum-compatibility (Frontier) wiring of the ReDeFi relay node, as verified
//! decisions: which background tasks the node runs, which Ethereum RPC APIs it
//! serves and how their method tables are merged into the node's RPC extension,
//! which storage reader answers for each storage schema, and where the Frontier
//! database lives.
pub mod eth_service;
pub mod ethereum;
pub mod rpc_module;
pub mod service;
