//! Verified core logic of the Prism protocol contracts.
//!
//! Each module holds the state transitions of one contract as functions from
//! plain values (the stored records, the message, the block time and the results
//! of the queries the contract makes) to new records, outgoing actions and
//! errors. Reading and writing chain storage, querying other contracts and
//! encoding messages are left to the caller.

pub mod math;
pub mod launch_pool;
pub mod limit_order;
pub mod gov;
pub mod basset_vault;
pub mod prism_fair_launch;
pub mod fair_launch;
pub mod collector;
pub mod delegator_rewards;
pub mod airdrop_registry;
pub mod astroport_lp_vault;
pub mod gov_staking;
