use vstd::prelude::*;

verus! {

/// The chains that can be indexed.
#[derive(Debug, PartialEq, Copy, Clone, Eq, Structural, Hash)]
pub enum Chain {
    Mainnet,
    Testnet,
    Testnet4,
    Signet,
    Regtest,
}

impl Chain {
    /// The height of the first block that can hold runes.
    pub open spec fn spec_first_rune_height(self) -> u32 {
        match self {
            Chain::Mainnet => 840_000,
            Chain::Testnet => 2_520_000,
            Chain::Testnet4 => 0,
            Chain::Signet => 0,
            Chain::Regtest => 0,
        }
    }

    pub fn first_rune_height(&self) -> (h: u32)
        ensures
            h == self.spec_first_rune_height(),
    {
        match self {
            Chain::Mainnet => 840_000,
            Chain::Testnet => 2_520_000,
            Chain::Testnet4 => 0,
            Chain::Signet => 0,
            Chain::Regtest => 0,
        }
    }

    /// The name by which a node reports the chain.
    pub open spec fn spec_node_name(self) -> Seq<char> {
        match self {
            Chain::Mainnet => "bitcoin"@,
            Chain::Testnet => "testnet"@,
            Chain::Testnet4 => "testnet4"@,
            Chain::Signet => "signet"@,
            Chain::Regtest => "regtest"@,
        }
    }

    /// The name of the chain as written in options and messages.
    pub open spec fn spec_name(self) -> Seq<char> {
        match self {
            Chain::Mainnet => "mainnet"@,
            Chain::Testnet => "testnet"@,
            Chain::Testnet4 => "testnet4"@,
            Chain::Signet => "signet"@,
            Chain::Regtest => "regtest"@,
        }
    }

    pub fn to_string(&self) -> (s: String)
        ensures
            s@ == self.spec_name(),
    {
        match self {
            Chain::Mainnet => "mainnet".to_owned(),
            Chain::Testnet => "testnet".to_owned(),
            Chain::Testnet4 => "testnet4".to_owned(),
            Chain::Signet => "signet".to_owned(),
            Chain::Regtest => "regtest".to_owned(),
        }
    }
}

/// The settings of the indexing engine.
#[derive(Debug, PartialEq, Copy, Clone, Eq, Structural)]
pub struct Settings {
    pub chain: Chain,
    /// Skip the icons of runes.
    pub no_index_inscriptions: bool,
    /// Keep spent outputs when blocks are purged.
    pub index_spent_outputs: bool,
    /// Keep the index from scripts to outputs.
    pub index_addresses: bool,
    /// Number of blocks gathered before they are committed.
    pub commit_interval: u64,
    /// Pause between two updates, in milliseconds.
    pub main_loop_interval: u64,
    /// Depth up to which a reorganisation can be undone.
    pub max_recoverable_reorg_depth: u64,
}

impl Settings {
    pub fn max_recoverable_reorg_depth(&self) -> (d: u64)
        ensures
            d == self.max_recoverable_reorg_depth,
    {
        self.max_recoverable_reorg_depth
    }
}

} // verus!
