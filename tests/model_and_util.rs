use relation_server::config::ENV;
use relation_server::model::{Chain, ContractCategory, DomainNameSystem, Platform, Target};
use relation_server::util::{hashset_append, parse_timestamp, str_eq, timestamp};
use std::collections::HashSet;

#[test]
fn env_from_known_names() {
    assert_eq!(ENV::from("production".to_string()), ENV::Production);
    assert_eq!(ENV::from("testing".to_string()), ENV::Testing);
    assert_eq!(ENV::from("development".to_string()), ENV::Development);
}

#[test]
fn env_from_other_names_is_development() {
    assert_eq!(ENV::from("staging".to_string()), ENV::Development);
    assert_eq!(ENV::from("".to_string()), ENV::Development);
    assert_eq!(ENV::default(), ENV::Development);
}

#[test]
fn env_names() {
    assert_eq!(ENV::Development.name(), "development");
    assert_eq!(ENV::Testing.name(), "testing");
    assert_eq!(ENV::Staging.name(), "staging");
    assert_eq!(ENV::Production.name(), "production");
}

#[test]
fn platform_names_round_trip() {
    let all = [
        Platform::Ethereum,
        Platform::Twitter,
        Platform::Github,
        Platform::NextID,
        Platform::SpaceId,
        Platform::Dotbit,
        Platform::Lens,
        Platform::UnstoppableDomains,
        Platform::Unknown,
    ];
    for p in all {
        assert_eq!(Platform::from_name(p.name()), Some(p));
    }
    assert_eq!(Platform::from_name("twitter"), Some(Platform::Twitter));
    assert_eq!(Platform::from_name("Twitter"), None);
    assert_eq!(Platform::from_name(""), None);
}

#[test]
fn domain_name_systems() {
    assert_eq!(DomainNameSystem::ENS.name(), "ENS");
    assert_eq!(DomainNameSystem::SpaceId.name(), "space_id");
    assert_eq!(DomainNameSystem::default(), DomainNameSystem::Unknown);
    assert_eq!(Platform::from(DomainNameSystem::SpaceId), Platform::SpaceId);
    assert_eq!(Platform::from(DomainNameSystem::DotBit), Platform::Dotbit);
    assert_eq!(Platform::from(DomainNameSystem::ENS), Platform::Unknown);
}

#[test]
fn ens_has_a_default_contract() {
    assert_eq!(
        ContractCategory::ENS.default_contract_address(),
        Some("0x57f1887a8bf19b14fc0df6fd9b2acc9af147ea85".to_string())
    );
    assert_eq!(ContractCategory::ERC721.default_contract_address(), None);
}

#[test]
fn target_accessors() {
    let t = Target::Identity(Platform::Ethereum, "0xabc".to_string());
    assert_eq!(t.platform(), Some(Platform::Ethereum));
    assert_eq!(t.identity(), Some("0xabc".to_string()));
    assert!(t.in_platform_supported(vec![Platform::Twitter, Platform::Ethereum]));
    assert!(!t.in_platform_supported(vec![Platform::Twitter]));
    assert!(!t.in_nft_supported(vec![ContractCategory::ENS], vec![Chain::Ethereum]));
    let n = Target::NFT(Chain::Ethereum, ContractCategory::ENS, "0x57f1".to_string(), "abc.eth".to_string());
    assert_eq!(n.platform(), None);
    assert!(n.in_nft_supported(vec![ContractCategory::ENS], vec![Chain::Ethereum]));
    assert!(!n.in_nft_supported(vec![ContractCategory::POAP], vec![Chain::Ethereum]));
    assert!(t.same(&t.copy()));
    assert!(!t.same(&n));
}

#[test]
fn timestamp_is_current() {
    let t = timestamp();
    assert!(t > 1_600_000_000);
}

#[test]
fn parse_timestamp_cases() {
    assert_eq!(parse_timestamp("1650000000"), Some(1650000000));
    assert_eq!(parse_timestamp("-42"), Some(-42));
    assert_eq!(parse_timestamp("+7"), Some(7));
    assert_eq!(parse_timestamp("0"), Some(0));
    assert_eq!(parse_timestamp("9223372036854775807"), Some(i64::MAX));
    assert_eq!(parse_timestamp("-9223372036854775808"), Some(i64::MIN));
    assert_eq!(parse_timestamp("9223372036854775808"), None);
    assert_eq!(parse_timestamp("99999999999999999999999"), None);
    assert_eq!(parse_timestamp(""), None);
    assert_eq!(parse_timestamp("-"), None);
    assert_eq!(parse_timestamp("12a"), None);
    assert_eq!(parse_timestamp(" 12"), None);
}

#[test]
fn str_eq_compares_characters() {
    assert!(str_eq("abc", "abc"));
    assert!(!str_eq("abc", "abd"));
    assert!(!str_eq("abc", "ab"));
    assert!(str_eq("", ""));
}

#[test]
fn hashset_append_adds_all() {
    let mut s: HashSet<u64> = HashSet::new();
    s.insert(1);
    hashset_append(&mut s, vec![1, 2, 3, 2]);
    assert_eq!(s.len(), 3);
    assert!(s.contains(&1) && s.contains(&2) && s.contains(&3));
}
