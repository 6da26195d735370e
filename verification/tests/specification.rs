//! Tests of the canonical hardfork registry.

use evm_core::specification::{spec_to_generic, SpecId};

#[test]
fn specification_spec_to_generic() {
    assert_eq!(spec_to_generic(SpecId::FRONTIER), SpecId::FRONTIER);
    assert_eq!(spec_to_generic(SpecId::FRONTIER_THAWING), SpecId::FRONTIER);
    assert_eq!(spec_to_generic(SpecId::HOMESTEAD), SpecId::HOMESTEAD);
    assert_eq!(spec_to_generic(SpecId::DAO_FORK), SpecId::HOMESTEAD);
    assert_eq!(spec_to_generic(SpecId::TANGERINE), SpecId::TANGERINE);
    assert_eq!(spec_to_generic(SpecId::SPURIOUS_DRAGON), SpecId::SPURIOUS_DRAGON);
    assert_eq!(spec_to_generic(SpecId::BYZANTIUM), SpecId::BYZANTIUM);
    assert_eq!(spec_to_generic(SpecId::CONSTANTINOPLE), SpecId::PETERSBURG);
    assert_eq!(spec_to_generic(SpecId::PETERSBURG), SpecId::PETERSBURG);
    assert_eq!(spec_to_generic(SpecId::ISTANBUL), SpecId::ISTANBUL);
    assert_eq!(spec_to_generic(SpecId::MUIR_GLACIER), SpecId::ISTANBUL);
    assert_eq!(spec_to_generic(SpecId::BERLIN), SpecId::BERLIN);
    assert_eq!(spec_to_generic(SpecId::LONDON), SpecId::LONDON);
    assert_eq!(spec_to_generic(SpecId::ARROW_GLACIER), SpecId::LONDON);
    assert_eq!(spec_to_generic(SpecId::GRAY_GLACIER), SpecId::LONDON);
    assert_eq!(spec_to_generic(SpecId::MERGE), SpecId::MERGE);
    assert_eq!(spec_to_generic(SpecId::SHANGHAI), SpecId::SHANGHAI);
    assert_eq!(spec_to_generic(SpecId::CANCUN), SpecId::CANCUN);
    assert_eq!(spec_to_generic(SpecId::PRAGUE), SpecId::PRAGUE);
    assert_eq!(spec_to_generic(SpecId::LATEST), SpecId::LATEST);
}

#[test]
fn eth_enabled_matches_activation_order() {
    assert!(SpecId::enabled(SpecId::LATEST, SpecId::FRONTIER));
    assert!(SpecId::enabled(SpecId::BERLIN, SpecId::BERLIN));
    assert!(SpecId::enabled(SpecId::CANCUN, SpecId::SHANGHAI));
    assert!(!SpecId::enabled(SpecId::FRONTIER, SpecId::HOMESTEAD));
    assert!(!SpecId::enabled(SpecId::PRAGUE, SpecId::LATEST));
    assert!(SpecId::CANCUN.is_enabled_in(SpecId::BERLIN));
    assert!(!SpecId::BERLIN.is_enabled_in(SpecId::CANCUN));
}

#[test]
fn eth_try_from_u8_covers_exactly_the_ids() {
    assert_eq!(SpecId::try_from_u8(0), Some(SpecId::FRONTIER));
    assert_eq!(SpecId::try_from_u8(11), Some(SpecId::BERLIN));
    assert_eq!(SpecId::try_from_u8(18), Some(SpecId::PRAGUE));
    assert_eq!(SpecId::try_from_u8(255), Some(SpecId::LATEST));
    assert_eq!(SpecId::try_from_u8(19), None);
    assert_eq!(SpecId::try_from_u8(100), None);
}

#[test]
fn eth_name_round_trip() {
    for s in [
        SpecId::FRONTIER,
        SpecId::HOMESTEAD,
        SpecId::TANGERINE,
        SpecId::SPURIOUS_DRAGON,
        SpecId::BYZANTIUM,
        SpecId::CONSTANTINOPLE,
        SpecId::PETERSBURG,
        SpecId::ISTANBUL,
        SpecId::MUIR_GLACIER,
        SpecId::BERLIN,
        SpecId::LONDON,
        SpecId::MERGE,
        SpecId::SHANGHAI,
        SpecId::CANCUN,
        SpecId::PRAGUE,
        SpecId::LATEST,
    ] {
        assert_eq!(SpecId::from_name(s.name()), s);
    }
    assert_eq!(SpecId::from_name("Frontier Thawing"), SpecId::FRONTIER_THAWING);
    assert_eq!(SpecId::from_name("DAO Fork"), SpecId::DAO_FORK);
    assert_eq!(SpecId::from_name("Arrow Glacier"), SpecId::ARROW_GLACIER);
    assert_eq!(SpecId::from_name("Gray Glacier"), SpecId::GRAY_GLACIER);
    // Names that are not canonical collapse to LATEST (case-sensitive).
    assert_eq!(SpecId::from_name("frontier"), SpecId::LATEST);
    assert_eq!(SpecId::from_name("nonsense"), SpecId::LATEST);
}

#[test]
fn eth_default_is_latest() {
    assert_eq!(SpecId::default(), SpecId::LATEST);
}
