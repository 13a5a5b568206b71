//! Storage layout, scoped execution context and calldata dispatch for native
//! contracts that live at fixed addresses of an EVM-compatible chain.
//!
//! The store is in `storage`, and `context` binds it to the address of the
//! call that is under way. `handlers` and `typed` read and write fields of
//! slots, `layout` plans where the fields of a contract go, and `contract`
//! makes the handlers of a planned contract. `interface` is the catalogue of
//! interfaces; `abi`, `dispatch`, `emit`, `error`, `errors` and `host` take a
//! call from its calldata to a handler and back. `thread_local_example` holds
//! two small contracts. What the programs around the core decide is in `bench`,
//! `state_dump`, `token_logs` and `i_reveal_secrets`.

pub mod abi;
pub mod bench;
pub mod constants;
pub mod context;
pub mod contract;
pub mod dispatch;
pub mod emit;
pub mod error;
pub mod errors;
pub mod events;
pub mod handlers;
pub mod hash;
pub mod host;
pub mod i_reveal_secrets;
pub mod interface;
pub mod layout;
pub mod primitives;
pub mod state_dump;
pub mod storage;
pub mod thread_local_example;
pub mod token_logs;
pub mod typed;
