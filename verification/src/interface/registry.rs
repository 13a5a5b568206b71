//! The interfaces of the registry contracts, and the interfaces that exist for
//! testing a dispatcher.

pub mod fee_manager;
pub mod testing;
pub mod tip20_factory;
pub mod tip20_rewards_registry;
pub mod tip4217_registry;
