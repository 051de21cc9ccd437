//! A rate-limited cupcake dispenser: per-account counts and a cooldown
//! between grants, decided by a verified state machine.

pub mod account;
pub mod grant;
pub mod laws;
pub mod machine;
pub mod word;

pub use account::Account;
pub use grant::{decide_grant, AccountState, GrantDecision, COOLDOWN};
pub use machine::VendingMachine;
pub use word::Uint256;
