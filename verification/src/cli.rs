//! The cluster that a command talks to.

use std::str::FromStr;
use vstd::prelude::*;

use crate::error::Error;

verus! {

/// One of the three public clusters.
#[derive(Debug, Clone, Copy, PartialEq, Eq, Structural)]
pub enum Network {
    Mainnet,
    Testnet,
    Devnet,
}

impl Network {
    /// The address of the cluster's RPC endpoint, as text.
    pub open spec fn cluster_url(self) -> Seq<char> {
        match self {
            Network::Mainnet => "https://api.mainnet-beta.solana.com"@,
            Network::Testnet => "https://api.testnet.solana.com"@,
            Network::Devnet => "https://api.devnet.solana.com"@,
        }
    }

    /// The cluster that a word names: each cluster answers to its lower-case name and to
    /// the same name with a capital first letter, and to nothing else.
    pub open spec fn named(word: Seq<char>) -> Option<Network> {
        if word == "mainnet"@ || word == "Mainnet"@ {
            Some(Network::Mainnet)
        } else if word == "testnet"@ || word == "Testnet"@ {
            Some(Network::Testnet)
        } else if word == "devnet"@ || word == "Devnet"@ {
            Some(Network::Devnet)
        } else {
            None
        }
    }

    pub fn get_cluster_url(&self) -> (url: &'static str)
        ensures
            url@ == self.cluster_url(),
    {
        match self {
            Network::Mainnet => "https://api.mainnet-beta.solana.com",
            Network::Testnet => "https://api.testnet.solana.com",
            Network::Devnet => "https://api.devnet.solana.com",
        }
    }

    /// Reads a cluster's name. A word that names no cluster comes back inside the error.
    pub fn from_str(s: &str) -> (r: Result<Network, Error>)
        ensures
            match r {
                Ok(network) => Network::named(s@) == Some(network),
                Err(Error::WrongNetwork(word)) => Network::named(s@).is_none() && word@ == s@,
                Err(_) => false,
            },
    {
        let word: String = s.to_owned();
        if word == "mainnet".to_owned() || word == "Mainnet".to_owned() {
            Ok(Network::Mainnet)
        } else if word == "testnet".to_owned() || word == "Testnet".to_owned() {
            Ok(Network::Testnet)
        } else if word == "devnet".to_owned() || word == "Devnet".to_owned() {
            Ok(Network::Devnet)
        } else {
            Err(Error::WrongNetwork(word))
        }
    }
}

impl FromStr for Network {
    type Err = Error;
    /// Reads a cluster's name, as the function of the same name on [`Network`] does.
    fn from_str(s: &str) -> (r: Result<Self, Self::Err>)
        ensures
            match r {
                Ok(network) => Network::named(s@) == Some(network),
                Err(Error::WrongNetwork(word)) => Network::named(s@).is_none() && word@ == s@,
                Err(_) => false,
            },
    {
        Network::from_str(s)
    }
}

} // verus!
