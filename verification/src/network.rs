//! The networks that a node can run on.

use crate::ldk::AddressNetwork;
use vstd::prelude::*;
use vstd::string::*;

verus! {

/// A network of the chain.
#[derive(Clone, Copy, Debug, PartialEq, Eq, Structural)]
pub enum Network {
    /// The main network.
    Bitcoin,
    /// The test network.
    Testnet,
    /// The fourth test network.
    Testnet4,
    /// The signed test network.
    Signet,
    /// A local test network.
    Regtest,
}

impl Network {
    /// The name of the network.
    pub open spec fn name(self) -> Seq<char> {
        match self {
            Network::Bitcoin => "bitcoin"@,
            Network::Testnet => "testnet"@,
            Network::Testnet4 => "testnet4"@,
            Network::Signet => "signet"@,
            Network::Regtest => "regtest"@,
        }
    }

    /// Writes the name of the network.
    pub fn to_text(self) -> (r: String)
        ensures
            r@ == self.name(),
    {
        match self {
            Network::Bitcoin => "bitcoin".to_owned(),
            Network::Testnet => "testnet".to_owned(),
            Network::Testnet4 => "testnet4".to_owned(),
            Network::Signet => "signet".to_owned(),
            Network::Regtest => "regtest".to_owned(),
        }
    }

    /// The name under which the chain backend knows the network.
    pub open spec fn chain(self) -> Seq<char> {
        match self {
            Network::Bitcoin => "main"@,
            Network::Regtest => "regtest"@,
            Network::Signet => "signet"@,
            _ => "test"@,
        }
    }

    /// Writes the name under which the chain backend knows the network.
    pub fn chain_name(self) -> (r: String)
        ensures
            r@ == self.chain(),
    {
        match self {
            Network::Bitcoin => "main".to_owned(),
            Network::Regtest => "regtest".to_owned(),
            Network::Signet => "signet".to_owned(),
            _ => "test".to_owned(),
        }
    }

    /// The network that addresses are written for.
    pub open spec fn addresses(self) -> AddressNetwork {
        match self {
            Network::Bitcoin => AddressNetwork::Bitcoin,
            Network::Regtest => AddressNetwork::Regtest,
            Network::Signet => AddressNetwork::Signet,
            _ => AddressNetwork::Testnet,
        }
    }

    /// Finds the network that addresses are written for.
    pub fn address_network(self) -> (r: AddressNetwork)
        ensures
            r == self.addresses(),
    {
        match self {
            Network::Bitcoin => AddressNetwork::Bitcoin,
            Network::Regtest => AddressNetwork::Regtest,
            Network::Signet => AddressNetwork::Signet,
            _ => AddressNetwork::Testnet,
        }
    }
}

} // verus!
