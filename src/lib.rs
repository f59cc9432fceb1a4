//! An in-memory ledger core: accounts with balances, nonces and storage,
//! block headers and blocks, an append-only chain seeded with a genesis
//! block, and a world state mapping addresses to accounts.
pub mod account;
pub mod assoc;
pub mod block;
pub mod chain;
pub mod state;
pub mod types;

pub use account::{Account, Storage};
pub use block::{Block, Header};
pub use chain::Chain;
pub use state::State;
pub use types::{H160, H256, U256};
