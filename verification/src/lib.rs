//! Vale Protocol accounting: the verified state machines behind the demo token, the kVARA
//! liquid staking pool and the stable vault.
pub mod actor;
pub mod u256;
pub mod ledger;
pub mod vesting;
pub mod unbonds;
pub mod pool;
pub mod vault;
pub mod token;
pub mod token_laws;
pub mod pool_laws;
pub mod vault_laws;
