use vstd::prelude::*;
use crate::util::str_eq;

verus! {

/// Platforms an identity can live on.
#[derive(Clone, Copy, Debug, PartialEq, Eq, Structural, Hash)]
pub enum Platform {
    Ethereum,
    Twitter,
    Github,
    NextID,
    SpaceId,
    Dotbit,
    Lens,
    UnstoppableDomains,
    Unknown,
}

/// The canonical lower-case name of a platform.
pub open spec fn platform_name(p: Platform) -> Seq<char> {
    match p {
        Platform::Ethereum => "ethereum"@,
        Platform::Twitter => "twitter"@,
        Platform::Github => "github"@,
        Platform::NextID => "nextid"@,
        Platform::SpaceId => "space_id"@,
        Platform::Dotbit => "dotbit"@,
        Platform::Lens => "lens"@,
        Platform::UnstoppableDomains => "unstoppabledomains"@,
        Platform::Unknown => "unknown"@,
    }
}

/// The platform whose canonical name is `s`, if any.
pub open spec fn platform_named(s: Seq<char>) -> Option<Platform> {
    if s == "ethereum"@ {
        Some(Platform::Ethereum)
    } else if s == "twitter"@ {
        Some(Platform::Twitter)
    } else if s == "github"@ {
        Some(Platform::Github)
    } else if s == "nextid"@ {
        Some(Platform::NextID)
    } else if s == "space_id"@ {
        Some(Platform::SpaceId)
    } else if s == "dotbit"@ {
        Some(Platform::Dotbit)
    } else if s == "lens"@ {
        Some(Platform::Lens)
    } else if s == "unstoppabledomains"@ {
        Some(Platform::UnstoppableDomains)
    } else if s == "unknown"@ {
        Some(Platform::Unknown)
    } else {
        None
    }
}

impl Platform {
    /// The canonical name of this platform.
    pub fn name(&self) -> (r: &'static str)
        ensures
            r@ == platform_name(*self),
    {
        match self {
            Platform::Ethereum => "ethereum",
            Platform::Twitter => "twitter",
            Platform::Github => "github",
            Platform::NextID => "nextid",
            Platform::SpaceId => "space_id",
            Platform::Dotbit => "dotbit",
            Platform::Lens => "lens",
            Platform::UnstoppableDomains => "unstoppabledomains",
            Platform::Unknown => "unknown",
        }
    }

    /// The platform whose canonical name is `s`, if any.
    pub fn from_name(s: &str) -> (r: Option<Platform>)
        ensures
            r == platform_named(s@),
    {
        if str_eq(s, "ethereum") {
            Some(Platform::Ethereum)
        } else if str_eq(s, "twitter") {
            Some(Platform::Twitter)
        } else if str_eq(s, "github") {
            Some(Platform::Github)
        } else if str_eq(s, "nextid") {
            Some(Platform::NextID)
        } else if str_eq(s, "space_id") {
            Some(Platform::SpaceId)
        } else if str_eq(s, "dotbit") {
            Some(Platform::Dotbit)
        } else if str_eq(s, "lens") {
            Some(Platform::Lens)
        } else if str_eq(s, "unstoppabledomains") {
            Some(Platform::UnstoppableDomains)
        } else if str_eq(s, "unknown") {
            Some(Platform::Unknown)
        } else {
            None
        }
    }
}

/// The upstream that asserted a fact.
#[derive(Clone, Copy, Debug, PartialEq, Eq, Structural, Hash)]
pub enum DataSource {
    NextID,
    SybilList,
    SpaceId,
    TheGraph,
    EnsReverse,
}

/// The service that fetched a fact.
#[derive(Clone, Copy, Debug, PartialEq, Eq, Structural, Hash)]
pub enum DataFetcher {
    RelationService,
}

/// Blockchains that contracts live on.
#[derive(Clone, Copy, Debug, PartialEq, Eq, Structural, Hash)]
pub enum Chain {
    Ethereum,
    Unknown,
}

/// Kinds of on-chain contracts.
#[derive(Clone, Copy, Debug, PartialEq, Eq, Structural, Hash)]
pub enum ContractCategory {
    ENS,
    ERC721,
    ERC1155,
    POAP,
    Unknown,
}

/// The address of the ENS base registrar on Ethereum.
pub const ENS_REGISTRAR: &'static str = "0x57f1887a8bf19b14fc0df6fd9b2acc9af147ea85";

impl ContractCategory {
    /// The well-known contract address of a category, where it has one.
    pub fn default_contract_address(&self) -> (r: Option<String>)
        ensures
            match self {
                ContractCategory::ENS => r is Some && r->0@ == ENS_REGISTRAR@,
                _ => r is None,
            },
    {
        match self {
            ContractCategory::ENS => Some(String::from_str(ENS_REGISTRAR)),
            _ => None,
        }
    }
}

/// Naming systems that resolve names to addresses.
#[derive(Clone, Copy, Debug, PartialEq, Eq, Structural, Hash)]
pub enum DomainNameSystem {
    /// ENS on Ethereum.
    ENS,
    DotBit,
    Lens,
    UnstoppableDomains,
    SpaceId,
    Unknown,
}

/// The canonical name of a naming system.
pub open spec fn system_name(d: DomainNameSystem) -> Seq<char> {
    match d {
        DomainNameSystem::ENS => "ENS"@,
        DomainNameSystem::DotBit => "dotbit"@,
        DomainNameSystem::Lens => "lens"@,
        DomainNameSystem::UnstoppableDomains => "unstoppabledomains"@,
        DomainNameSystem::SpaceId => "space_id"@,
        DomainNameSystem::Unknown => "unknown"@,
    }
}

/// The platform on which the names of a naming system live.
pub open spec fn system_platform(d: DomainNameSystem) -> Platform {
    match d {
        DomainNameSystem::DotBit => Platform::Dotbit,
        DomainNameSystem::UnstoppableDomains => Platform::UnstoppableDomains,
        DomainNameSystem::Lens => Platform::Lens,
        DomainNameSystem::SpaceId => Platform::SpaceId,
        _ => Platform::Unknown,
    }
}

impl DomainNameSystem {
    /// The canonical name of this naming system.
    pub fn name(&self) -> (r: &'static str)
        ensures
            r@ == system_name(*self),
    {
        match self {
            DomainNameSystem::ENS => "ENS",
            DomainNameSystem::DotBit => "dotbit",
            DomainNameSystem::Lens => "lens",
            DomainNameSystem::UnstoppableDomains => "unstoppabledomains",
            DomainNameSystem::SpaceId => "space_id",
            DomainNameSystem::Unknown => "unknown",
        }
    }
}

impl Default for DomainNameSystem {
    fn default() -> (r: Self)
        ensures
            r == DomainNameSystem::Unknown,
    {
        DomainNameSystem::Unknown
    }
}

impl From<DomainNameSystem> for Platform {
    fn from(domain: DomainNameSystem) -> (r: Self) {
        match domain {
            DomainNameSystem::DotBit => Platform::Dotbit,
            DomainNameSystem::UnstoppableDomains => Platform::UnstoppableDomains,
            DomainNameSystem::Lens => Platform::Lens,
            DomainNameSystem::SpaceId => Platform::SpaceId,
            _ => Platform::Unknown,
        }
    }
}

impl vstd::std_specs::convert::FromSpecImpl<DomainNameSystem> for Platform {
    open spec fn obeys_from_spec() -> bool {
        true
    }

    open spec fn from_spec(domain: DomainNameSystem) -> Platform {
        system_platform(domain)
    }
}

/// A unit of crawl work: an identity on a platform, or a token of a contract
/// (chain, category, contract address, token id or name).
#[derive(Clone, Debug)]
pub enum Target {
    Identity(Platform, String),
    NFT(Chain, ContractCategory, String, String),
}

/// A target as plain values.
pub enum TargetView {
    Identity(Platform, Seq<char>),
    NFT(Chain, ContractCategory, Seq<char>, Seq<char>),
}

impl View for Target {
    type V = TargetView;

    open spec fn view(&self) -> TargetView {
        match self {
            Target::Identity(p, s) => TargetView::Identity(*p, s@),
            Target::NFT(c, k, a, t) => TargetView::NFT(*c, *k, a@, t@),
        }
    }
}

impl Target {
    /// A copy of this target.
    pub fn copy(&self) -> (r: Target)
        ensures
            r@ == self@,
    {
        match self {
            Target::Identity(p, s) => Target::Identity(*p, s.clone()),
            Target::NFT(c, k, a, t) => Target::NFT(*c, *k, a.clone(), t.clone()),
        }
    }

    /// Whether two targets denote the same unit of work.
    pub fn same(&self, other: &Target) -> (r: bool)
        ensures
            r == (self@ == other@),
    {
        match (self, other) {
            (Target::Identity(p, s), Target::Identity(q, t)) => *p == *q && str_eq(s.as_str(), t.as_str()),
            (Target::NFT(c, k, a, x), Target::NFT(d, l, b, y)) => {
                *c == *d && *k == *l && str_eq(a.as_str(), b.as_str()) && str_eq(x.as_str(), y.as_str())
            },
            _ => false,
        }
    }

    /// The platform of an identity target.
    pub fn platform(&self) -> (r: Option<Platform>)
        ensures
            match self@ {
                TargetView::Identity(p, _) => r == Some(p),
                _ => r is None,
            },
    {
        match self {
            Target::Identity(p, _) => Some(*p),
            _ => None,
        }
    }

    /// The identity string of an identity target.
    pub fn identity(&self) -> (r: Option<String>)
        ensures
            match self@ {
                TargetView::Identity(_, s) => r is Some && r->0@ == s,
                _ => r is None,
            },
    {
        match self {
            Target::Identity(_, s) => Some(s.clone()),
            _ => None,
        }
    }

    /// Whether this is an identity target on one of `platforms`.
    pub fn in_platform_supported(&self, platforms: Vec<Platform>) -> (r: bool)
        ensures
            r == (self@ matches TargetView::Identity(p, _) && platforms@.contains(p)),
    {
        match self {
            Target::Identity(p, _) => contains_platform(&platforms, *p),
            _ => false,
        }
    }

    /// Whether this is a token target of one of `categories` on one of `chains`.
    pub fn in_nft_supported(&self, categories: Vec<ContractCategory>, chains: Vec<Chain>) -> (r: bool)
        ensures
            r == (self@ matches TargetView::NFT(c, k, _, _) && categories@.contains(k) && chains@.contains(c)),
    {
        match self {
            Target::NFT(c, k, _, _) => {
                let mut found_k = false;
                let mut i: usize = 0;
                while i < categories.len()
                    invariant
                        i <= categories@.len(),
                        found_k == (exists|j: int| 0 <= j < i && categories@[j] == *k),
                    decreases categories@.len() - i,
                {
                    if categories[i] == *k {
                        found_k = true;
                    }
                    i = i + 1;
                }
                let mut found_c = false;
                let mut i: usize = 0;
                while i < chains.len()
                    invariant
                        i <= chains@.len(),
                        found_c == (exists|j: int| 0 <= j < i && chains@[j] == *c),
                    decreases chains@.len() - i,
                {
                    if chains[i] == *c {
                        found_c = true;
                    }
                    i = i + 1;
                }
                found_k && found_c
            },
            _ => false,
        }
    }
}

/// Whether `p` is among `platforms`.
pub fn contains_platform(platforms: &Vec<Platform>, p: Platform) -> (r: bool)
    ensures
        r == platforms@.contains(p),
{
    let mut i: usize = 0;
    while i < platforms.len()
        invariant
            i <= platforms@.len(),
            forall|j: int| 0 <= j < i ==> platforms@[j] != p,
        decreases platforms@.len() - i,
    {
        if platforms[i] == p {
            return true;
        }
        i = i + 1;
    }
    false
}

} // verus!
