//! Tests of the L2 hardfork registry.

use evm_core::optimism::{
    spec_to_generic, BedrockSpec, CanyonSpec, EcotoneSpec, RegolithSpec, Spec, SpecId,
};
use evm_core::precompile::PrecompileSpecId;
use evm_core::specification::SpecId as EthSpecId;

#[test]
fn lib_spec_to_generic() {
    assert_eq!(spec_to_generic(SpecId::FRONTIER), SpecId::FRONTIER);
    assert_eq!(spec_to_generic(SpecId::FRONTIER_THAWING), SpecId::FRONTIER);
    assert_eq!(spec_to_generic(SpecId::HOMESTEAD), SpecId::HOMESTEAD);
    assert_eq!(spec_to_generic(SpecId::DAO_FORK), SpecId::HOMESTEAD);
    assert_eq!(spec_to_generic(SpecId::TANGERINE), SpecId::TANGERINE);
    assert_eq!(spec_to_generic(SpecId::SPURIOUS_DRAGON), SpecId::SPURIOUS_DRAGON);
    assert_eq!(spec_to_generic(SpecId::BYZANTIUM), SpecId::BYZANTIUM);
    assert_eq!(spec_to_generic(SpecId::CONSTANTINOPLE), SpecId::PETERSBURG);
    assert_eq!(spec_to_generic(SpecId::PETERSBURG), SpecId::PETERSBURG);
    assert_eq!(spec_to_generic(SpecId::ISTANBUL), SpecId::ISTANBUL);
    assert_eq!(spec_to_generic(SpecId::MUIR_GLACIER), SpecId::ISTANBUL);
    assert_eq!(spec_to_generic(SpecId::BERLIN), SpecId::BERLIN);
    assert_eq!(spec_to_generic(SpecId::LONDON), SpecId::LONDON);
    assert_eq!(spec_to_generic(SpecId::ARROW_GLACIER), SpecId::LONDON);
    assert_eq!(spec_to_generic(SpecId::GRAY_GLACIER), SpecId::LONDON);
    assert_eq!(spec_to_generic(SpecId::MERGE), SpecId::MERGE);
    assert_eq!(spec_to_generic(SpecId::BEDROCK), SpecId::BEDROCK);
    assert_eq!(spec_to_generic(SpecId::REGOLITH), SpecId::REGOLITH);
    assert_eq!(spec_to_generic(SpecId::SHANGHAI), SpecId::SHANGHAI);
    assert_eq!(spec_to_generic(SpecId::CANYON), SpecId::CANYON);
    assert_eq!(spec_to_generic(SpecId::ECOTONE), SpecId::ECOTONE);
    assert_eq!(spec_to_generic(SpecId::CANCUN), SpecId::CANCUN);
    assert_eq!(spec_to_generic(SpecId::PRAGUE), SpecId::PRAGUE);
    assert_eq!(spec_to_generic(SpecId::LATEST), SpecId::LATEST);
}

#[test]
fn test_bedrock_post_merge_hardforks() {
    assert!(BedrockSpec::enabled(SpecId::MERGE));
    assert!(!BedrockSpec::enabled(SpecId::SHANGHAI));
    assert!(!BedrockSpec::enabled(SpecId::CANCUN));
    assert!(!BedrockSpec::enabled(SpecId::LATEST));
    assert!(BedrockSpec::enabled(SpecId::BEDROCK));
    assert!(!BedrockSpec::enabled(SpecId::REGOLITH));
}

#[test]
fn test_regolith_post_merge_hardforks() {
    assert!(RegolithSpec::enabled(SpecId::MERGE));
    assert!(!RegolithSpec::enabled(SpecId::SHANGHAI));
    assert!(!RegolithSpec::enabled(SpecId::CANCUN));
    assert!(!RegolithSpec::enabled(SpecId::LATEST));
    assert!(RegolithSpec::enabled(SpecId::BEDROCK));
    assert!(RegolithSpec::enabled(SpecId::REGOLITH));
}

#[test]
fn test_bedrock_post_merge_hardforks_spec_id() {
    assert!(SpecId::enabled(SpecId::BEDROCK, SpecId::MERGE));
    assert!(!SpecId::enabled(SpecId::BEDROCK, SpecId::SHANGHAI));
    assert!(!SpecId::enabled(SpecId::BEDROCK, SpecId::CANCUN));
    assert!(!SpecId::enabled(SpecId::BEDROCK, SpecId::LATEST));
    assert!(SpecId::enabled(SpecId::BEDROCK, SpecId::BEDROCK));
    assert!(!SpecId::enabled(SpecId::BEDROCK, SpecId::REGOLITH));
}

#[test]
fn test_regolith_post_merge_hardforks_spec_id() {
    assert!(SpecId::enabled(SpecId::REGOLITH, SpecId::MERGE));
    assert!(!SpecId::enabled(SpecId::REGOLITH, SpecId::SHANGHAI));
    assert!(!SpecId::enabled(SpecId::REGOLITH, SpecId::CANCUN));
    assert!(!SpecId::enabled(SpecId::REGOLITH, SpecId::LATEST));
    assert!(SpecId::enabled(SpecId::REGOLITH, SpecId::BEDROCK));
    assert!(SpecId::enabled(SpecId::REGOLITH, SpecId::REGOLITH));
}

#[test]
fn test_canyon_post_merge_hardforks() {
    assert!(CanyonSpec::enabled(SpecId::MERGE));
    assert!(CanyonSpec::enabled(SpecId::SHANGHAI));
    assert!(!CanyonSpec::enabled(SpecId::CANCUN));
    assert!(!CanyonSpec::enabled(SpecId::LATEST));
    assert!(CanyonSpec::enabled(SpecId::BEDROCK));
    assert!(CanyonSpec::enabled(SpecId::REGOLITH));
    assert!(CanyonSpec::enabled(SpecId::CANYON));
}

#[test]
fn test_canyon_post_merge_hardforks_spec_id() {
    assert!(SpecId::enabled(SpecId::CANYON, SpecId::MERGE));
    assert!(SpecId::enabled(SpecId::CANYON, SpecId::SHANGHAI));
    assert!(!SpecId::enabled(SpecId::CANYON, SpecId::CANCUN));
    assert!(!SpecId::enabled(SpecId::CANYON, SpecId::LATEST));
    assert!(SpecId::enabled(SpecId::CANYON, SpecId::BEDROCK));
    assert!(SpecId::enabled(SpecId::CANYON, SpecId::REGOLITH));
    assert!(SpecId::enabled(SpecId::CANYON, SpecId::CANYON));
}

#[test]
fn test_ecotone_post_merge_hardforks() {
    assert!(EcotoneSpec::enabled(SpecId::MERGE));
    assert!(EcotoneSpec::enabled(SpecId::SHANGHAI));
    assert!(EcotoneSpec::enabled(SpecId::CANCUN));
    assert!(!EcotoneSpec::enabled(SpecId::LATEST));
    assert!(EcotoneSpec::enabled(SpecId::BEDROCK));
    assert!(EcotoneSpec::enabled(SpecId::REGOLITH));
    assert!(EcotoneSpec::enabled(SpecId::CANYON));
    assert!(EcotoneSpec::enabled(SpecId::ECOTONE));
}

#[test]
fn test_ecotone_post_merge_hardforks_spec_id() {
    assert!(SpecId::enabled(SpecId::ECOTONE, SpecId::MERGE));
    assert!(SpecId::enabled(SpecId::ECOTONE, SpecId::SHANGHAI));
    assert!(SpecId::enabled(SpecId::ECOTONE, SpecId::CANCUN));
    assert!(!SpecId::enabled(SpecId::ECOTONE, SpecId::LATEST));
    assert!(SpecId::enabled(SpecId::ECOTONE, SpecId::BEDROCK));
    assert!(SpecId::enabled(SpecId::ECOTONE, SpecId::REGOLITH));
    assert!(SpecId::enabled(SpecId::ECOTONE, SpecId::CANYON));
    assert!(SpecId::enabled(SpecId::ECOTONE, SpecId::ECOTONE));
}

#[test]
fn op_maps_back_to_canonical_hardforks() {
    assert_eq!(EthSpecId::from(SpecId::BEDROCK), EthSpecId::MERGE);
    assert_eq!(EthSpecId::from(SpecId::REGOLITH), EthSpecId::MERGE);
    assert_eq!(EthSpecId::from(SpecId::CANYON), EthSpecId::SHANGHAI);
    assert_eq!(EthSpecId::from(SpecId::ECOTONE), EthSpecId::CANCUN);
    assert_eq!(EthSpecId::from(SpecId::LONDON), EthSpecId::LONDON);
    assert_eq!(EthSpecId::from(SpecId::LATEST), EthSpecId::LATEST);
}

#[test]
fn op_precompile_set_follows_canonical_mapping() {
    assert_eq!(PrecompileSpecId::from(SpecId::BEDROCK), PrecompileSpecId::BERLIN);
    assert_eq!(PrecompileSpecId::from(SpecId::ECOTONE), PrecompileSpecId::CANCUN);
    assert_eq!(PrecompileSpecId::from(SpecId::FRONTIER), PrecompileSpecId::HOMESTEAD);
    assert_eq!(PrecompileSpecId::from(SpecId::PRAGUE), PrecompileSpecId::PRAGUE);
}

#[test]
fn op_name_round_trip() {
    for s in [SpecId::BEDROCK, SpecId::REGOLITH, SpecId::CANYON, SpecId::ECOTONE, SpecId::CANCUN] {
        assert_eq!(SpecId::from_name(s.name()), s);
    }
    assert_eq!(SpecId::from_name("Gray Glacier"), SpecId::GRAY_GLACIER);
    assert_eq!(SpecId::from_name("gray glacier"), SpecId::LATEST);
}

#[test]
fn op_try_from_u8_covers_exactly_the_ids() {
    assert_eq!(SpecId::try_from_u8(16), Some(SpecId::BEDROCK));
    assert_eq!(SpecId::try_from_u8(22), Some(SpecId::PRAGUE));
    assert_eq!(SpecId::try_from_u8(255), Some(SpecId::LATEST));
    assert_eq!(SpecId::try_from_u8(23), None);
}
