//! Named ledger endpoints for the tooling wrapped around the library.

use vstd::prelude::*;

verus! {

/// A ledger network the surrounding tooling can point at.
#[derive(Clone, Copy, Debug, PartialEq, Eq, Structural)]
pub enum Network {
    Localnet,
    Devnet,
    Testnet,
}

impl Network {
    /// The RPC endpoint this network name stands for.
    pub fn url(&self) -> (r: &'static str)
        ensures
            *self == Network::Localnet ==> r@ == "http://127.0.0.1:8899"@,
            *self == Network::Devnet ==> r@ == "https://api.devnet.solana.com"@,
            *self == Network::Testnet ==> r@ == "https://api.testnet.solana.com"@,
    {
        match self {
            Network::Localnet => "http://127.0.0.1:8899",
            Network::Devnet => "https://api.devnet.solana.com",
            Network::Testnet => "https://api.testnet.solana.com",
        }
    }
}

} // verus!
