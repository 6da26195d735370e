//! Hardfork registry for the canonical chain: a totally ordered enumeration of
//! protocol versions, conversion with the canonical display name, and the
//! compile-time carriers used to select per-hardfork behavior.

use vstd::prelude::*;
use crate::text::str_eq;

verus! {

/// Specification identifiers, in activation order. `LATEST` is the reserved
/// maximum.
#[allow(non_camel_case_types)]
#[derive(Clone, Copy, Debug, PartialEq, Eq, Structural, Hash)]
pub enum SpecId {
    FRONTIER,
    FRONTIER_THAWING,
    HOMESTEAD,
    DAO_FORK,
    TANGERINE,
    SPURIOUS_DRAGON,
    BYZANTIUM,
    CONSTANTINOPLE,
    PETERSBURG,
    ISTANBUL,
    MUIR_GLACIER,
    BERLIN,
    LONDON,
    ARROW_GLACIER,
    GRAY_GLACIER,
    MERGE,
    SHANGHAI,
    CANCUN,
    PRAGUE,
    LATEST,
}

impl SpecId {
    /// Position of this hardfork in activation order; `LATEST` sits at the
    /// reserved maximum.
    pub open spec fn ord_spec(self) -> u8 {
        match self {
            SpecId::FRONTIER => 0,
            SpecId::FRONTIER_THAWING => 1,
            SpecId::HOMESTEAD => 2,
            SpecId::DAO_FORK => 3,
            SpecId::TANGERINE => 4,
            SpecId::SPURIOUS_DRAGON => 5,
            SpecId::BYZANTIUM => 6,
            SpecId::CONSTANTINOPLE => 7,
            SpecId::PETERSBURG => 8,
            SpecId::ISTANBUL => 9,
            SpecId::MUIR_GLACIER => 10,
            SpecId::BERLIN => 11,
            SpecId::LONDON => 12,
            SpecId::ARROW_GLACIER => 13,
            SpecId::GRAY_GLACIER => 14,
            SpecId::MERGE => 15,
            SpecId::SHANGHAI => 16,
            SpecId::CANCUN => 17,
            SpecId::PRAGUE => 18,
            SpecId::LATEST => 255,
        }
    }

    /// Activation position, as a machine integer.
    pub fn ord(self) -> (r: u8)
        ensures
            r == self.ord_spec(),
    {
        match self {
            SpecId::FRONTIER => 0,
            SpecId::FRONTIER_THAWING => 1,
            SpecId::HOMESTEAD => 2,
            SpecId::DAO_FORK => 3,
            SpecId::TANGERINE => 4,
            SpecId::SPURIOUS_DRAGON => 5,
            SpecId::BYZANTIUM => 6,
            SpecId::CONSTANTINOPLE => 7,
            SpecId::PETERSBURG => 8,
            SpecId::ISTANBUL => 9,
            SpecId::MUIR_GLACIER => 10,
            SpecId::BERLIN => 11,
            SpecId::LONDON => 12,
            SpecId::ARROW_GLACIER => 13,
            SpecId::GRAY_GLACIER => 14,
            SpecId::MERGE => 15,
            SpecId::SHANGHAI => 16,
            SpecId::CANCUN => 17,
            SpecId::PRAGUE => 18,
            SpecId::LATEST => 255,
        }
    }

    /// Returns the `SpecId` whose activation position is the given integer, if
    /// there is one.
    pub fn try_from_u8(spec_id: u8) -> (r: Option<Self>)
        ensures
            r is Some <==> (spec_id <= 18 || spec_id == 255),
            r matches Some(s) ==> s.ord_spec() == spec_id,
    {
        match spec_id {
            0 => Some(SpecId::FRONTIER),
            1 => Some(SpecId::FRONTIER_THAWING),
            2 => Some(SpecId::HOMESTEAD),
            3 => Some(SpecId::DAO_FORK),
            4 => Some(SpecId::TANGERINE),
            5 => Some(SpecId::SPURIOUS_DRAGON),
            6 => Some(SpecId::BYZANTIUM),
            7 => Some(SpecId::CONSTANTINOPLE),
            8 => Some(SpecId::PETERSBURG),
            9 => Some(SpecId::ISTANBUL),
            10 => Some(SpecId::MUIR_GLACIER),
            11 => Some(SpecId::BERLIN),
            12 => Some(SpecId::LONDON),
            13 => Some(SpecId::ARROW_GLACIER),
            14 => Some(SpecId::GRAY_GLACIER),
            15 => Some(SpecId::MERGE),
            16 => Some(SpecId::SHANGHAI),
            17 => Some(SpecId::CANCUN),
            18 => Some(SpecId::PRAGUE),
            255 => Some(SpecId::LATEST),
            _ => None,
        }
    }

    /// Returns `true` if the hardfork `other` is enabled in `self`.
    pub fn is_enabled_in(self, other: Self) -> (r: bool)
        ensures
            r == spec_enabled(self, other),
    {
        Self::enabled(self, other)
    }

    /// Returns `true` if the hardfork `other` is enabled in `our`.
    pub fn enabled(our: SpecId, other: SpecId) -> (r: bool)
        ensures
            r == spec_enabled(our, other),
    {
        our.ord() >= other.ord()
    }

    /// Canonical display name of this hardfork.
    pub open spec fn name_spec(self) -> Seq<char> {
        match self {
            SpecId::FRONTIER => "Frontier"@,
            SpecId::FRONTIER_THAWING => "Frontier Thawing"@,
            SpecId::HOMESTEAD => "Homestead"@,
            SpecId::DAO_FORK => "DAO Fork"@,
            SpecId::TANGERINE => "Tangerine"@,
            SpecId::SPURIOUS_DRAGON => "Spurious"@,
            SpecId::BYZANTIUM => "Byzantium"@,
            SpecId::CONSTANTINOPLE => "Constantinople"@,
            SpecId::PETERSBURG => "Petersburg"@,
            SpecId::ISTANBUL => "Istanbul"@,
            SpecId::MUIR_GLACIER => "MuirGlacier"@,
            SpecId::BERLIN => "Berlin"@,
            SpecId::LONDON => "London"@,
            SpecId::ARROW_GLACIER => "Arrow Glacier"@,
            SpecId::GRAY_GLACIER => "Gray Glacier"@,
            SpecId::MERGE => "Merge"@,
            SpecId::SHANGHAI => "Shanghai"@,
            SpecId::CANCUN => "Cancun"@,
            SpecId::PRAGUE => "Prague"@,
            SpecId::LATEST => "Latest"@,
        }
    }

    /// Canonical display name of this hardfork.
    pub fn name(self) -> (r: &'static str)
        ensures
            r@ == self.name_spec(),
    {
        match self {
            SpecId::FRONTIER => "Frontier",
            SpecId::FRONTIER_THAWING => "Frontier Thawing",
            SpecId::HOMESTEAD => "Homestead",
            SpecId::DAO_FORK => "DAO Fork",
            SpecId::TANGERINE => "Tangerine",
            SpecId::SPURIOUS_DRAGON => "Spurious",
            SpecId::BYZANTIUM => "Byzantium",
            SpecId::CONSTANTINOPLE => "Constantinople",
            SpecId::PETERSBURG => "Petersburg",
            SpecId::ISTANBUL => "Istanbul",
            SpecId::MUIR_GLACIER => "MuirGlacier",
            SpecId::BERLIN => "Berlin",
            SpecId::LONDON => "London",
            SpecId::ARROW_GLACIER => "Arrow Glacier",
            SpecId::GRAY_GLACIER => "Gray Glacier",
            SpecId::MERGE => "Merge",
            SpecId::SHANGHAI => "Shanghai",
            SpecId::CANCUN => "Cancun",
            SpecId::PRAGUE => "Prague",
            SpecId::LATEST => "Latest",
        }
    }

    /// Hardfork named by a display name; names that are not recognized
    /// collapse to `LATEST` (case-sensitive).
    pub open spec fn parse_spec(n: Seq<char>) -> SpecId {
        if n == "Frontier"@ {
            SpecId::FRONTIER
        } else if n == "Homestead"@ {
            SpecId::HOMESTEAD
        } else if n == "Tangerine"@ {
            SpecId::TANGERINE
        } else if n == "Spurious"@ {
            SpecId::SPURIOUS_DRAGON
        } else if n == "Byzantium"@ {
            SpecId::BYZANTIUM
        } else if n == "Constantinople"@ {
            SpecId::CONSTANTINOPLE
        } else if n == "Petersburg"@ {
            SpecId::PETERSBURG
        } else if n == "Istanbul"@ {
            SpecId::ISTANBUL
        } else if n == "MuirGlacier"@ {
            SpecId::MUIR_GLACIER
        } else if n == "Berlin"@ {
            SpecId::BERLIN
        } else if n == "London"@ {
            SpecId::LONDON
        } else if n == "Merge"@ {
            SpecId::MERGE
        } else if n == "Shanghai"@ {
            SpecId::SHANGHAI
        } else if n == "Cancun"@ {
            SpecId::CANCUN
        } else if n == "Prague"@ {
            SpecId::PRAGUE
        } else if n == "Frontier Thawing"@ {
            SpecId::FRONTIER_THAWING
        } else if n == "DAO Fork"@ {
            SpecId::DAO_FORK
        } else if n == "Arrow Glacier"@ {
            SpecId::ARROW_GLACIER
        } else if n == "Gray Glacier"@ {
            SpecId::GRAY_GLACIER
        } else {
            SpecId::LATEST
        }
    }

    /// Hardfork named by a display name; unknown names collapse to `LATEST`.
    pub fn from_name(name: &str) -> (r: SpecId)
        ensures
            r == Self::parse_spec(name@),
    {
        if str_eq(name, "Frontier") {
            SpecId::FRONTIER
        } else if str_eq(name, "Homestead") {
            SpecId::HOMESTEAD
        } else if str_eq(name, "Tangerine") {
            SpecId::TANGERINE
        } else if str_eq(name, "Spurious") {
            SpecId::SPURIOUS_DRAGON
        } else if str_eq(name, "Byzantium") {
            SpecId::BYZANTIUM
        } else if str_eq(name, "Constantinople") {
            SpecId::CONSTANTINOPLE
        } else if str_eq(name, "Petersburg") {
            SpecId::PETERSBURG
        } else if str_eq(name, "Istanbul") {
            SpecId::ISTANBUL
        } else if str_eq(name, "MuirGlacier") {
            SpecId::MUIR_GLACIER
        } else if str_eq(name, "Berlin") {
            SpecId::BERLIN
        } else if str_eq(name, "London") {
            SpecId::LONDON
        } else if str_eq(name, "Merge") {
            SpecId::MERGE
        } else if str_eq(name, "Shanghai") {
            SpecId::SHANGHAI
        } else if str_eq(name, "Cancun") {
            SpecId::CANCUN
        } else if str_eq(name, "Prague") {
            SpecId::PRAGUE
        } else if str_eq(name, "Frontier Thawing") {
            SpecId::FRONTIER_THAWING
        } else if str_eq(name, "DAO Fork") {
            SpecId::DAO_FORK
        } else if str_eq(name, "Arrow Glacier") {
            SpecId::ARROW_GLACIER
        } else if str_eq(name, "Gray Glacier") {
            SpecId::GRAY_GLACIER
        } else {
            SpecId::LATEST
        }
    }
}

impl Default for SpecId {
    /// The default hardfork is the reserved maximum.
    fn default() -> (r: Self)
        ensures
            r == SpecId::LATEST,
    {
        SpecId::LATEST
    }
}

/// `other` is enabled in `our`: `our` activates at or after `other`.
pub open spec fn spec_enabled(our: SpecId, other: SpecId) -> bool {
    our.ord_spec() >= other.ord_spec()
}

/// The enabled relation coincides with the activation order and is reflexive,
/// antisymmetric and transitive.
pub proof fn lemma_enabled_total_order(a: SpecId, b: SpecId, c: SpecId)
    ensures
        spec_enabled(a, b) == (a.ord_spec() >= b.ord_spec()),
        spec_enabled(a, a),
        spec_enabled(a, b) && spec_enabled(b, a) ==> a == b,
        spec_enabled(a, b) && spec_enabled(b, c) ==> spec_enabled(a, c),
{
}

/// Parsing the canonical display name of a hardfork yields that hardfork,
/// for every hardfork.
pub proof fn lemma_name_round_trip(s: SpecId)
    ensures
        SpecId::parse_spec(s.name_spec()) == s,
{
    broadcast use vstd::string::group_string_axioms;

    reveal_strlit("Frontier");
    reveal_strlit("Frontier Thawing");
    reveal_strlit("Homestead");
    reveal_strlit("DAO Fork");
    reveal_strlit("Tangerine");
    reveal_strlit("Spurious");
    reveal_strlit("Byzantium");
    reveal_strlit("Constantinople");
    reveal_strlit("Petersburg");
    reveal_strlit("Istanbul");
    reveal_strlit("MuirGlacier");
    reveal_strlit("Berlin");
    reveal_strlit("London");
    reveal_strlit("Arrow Glacier");
    reveal_strlit("Gray Glacier");
    reveal_strlit("Merge");
    reveal_strlit("Shanghai");
    reveal_strlit("Cancun");
    reveal_strlit("Prague");
    reveal_strlit("Latest");
    assert("Frontier"@ =~= seq!['F', 'r', 'o', 'n', 't', 'i', 'e', 'r']);
    assert("Homestead"@ =~= seq!['H', 'o', 'm', 'e', 's', 't', 'e', 'a', 'd']);
    assert("Tangerine"@ =~= seq!['T', 'a', 'n', 'g', 'e', 'r', 'i', 'n', 'e']);
    assert("Spurious"@ =~= seq!['S', 'p', 'u', 'r', 'i', 'o', 'u', 's']);
    assert("Byzantium"@ =~= seq!['B', 'y', 'z', 'a', 'n', 't', 'i', 'u', 'm']);
    assert("Constantinople"@ =~= seq![
        'C', 'o', 'n', 's', 't', 'a', 'n', 't', 'i', 'n', 'o', 'p', 'l', 'e',
    ]);
    assert("Petersburg"@ =~= seq!['P', 'e', 't', 'e', 'r', 's', 'b', 'u', 'r', 'g']);
    assert("Istanbul"@ =~= seq!['I', 's', 't', 'a', 'n', 'b', 'u', 'l']);
    assert("MuirGlacier"@ =~= seq!['M', 'u', 'i', 'r', 'G', 'l', 'a', 'c', 'i', 'e', 'r']);
    assert("Berlin"@ =~= seq!['B', 'e', 'r', 'l', 'i', 'n']);
    assert("London"@ =~= seq!['L', 'o', 'n', 'd', 'o', 'n']);
    assert("Merge"@ =~= seq!['M', 'e', 'r', 'g', 'e']);
    assert("Shanghai"@ =~= seq!['S', 'h', 'a', 'n', 'g', 'h', 'a', 'i']);
    assert("Cancun"@ =~= seq!['C', 'a', 'n', 'c', 'u', 'n']);
    assert("Prague"@ =~= seq!['P', 'r', 'a', 'g', 'u', 'e']);
    assert("Latest"@ =~= seq!['L', 'a', 't', 'e', 's', 't']);
    assert("Frontier Thawing"@ =~= seq![
        'F', 'r', 'o', 'n', 't', 'i', 'e', 'r', ' ', 'T', 'h', 'a', 'w', 'i', 'n', 'g',
    ]);
    assert("DAO Fork"@ =~= seq!['D', 'A', 'O', ' ', 'F', 'o', 'r', 'k']);
    assert("Arrow Glacier"@ =~= seq![
        'A', 'r', 'r', 'o', 'w', ' ', 'G', 'l', 'a', 'c', 'i', 'e', 'r',
    ]);
    assert("Gray Glacier"@ =~= seq!['G', 'r', 'a', 'y', ' ', 'G', 'l', 'a', 'c', 'i', 'e', 'r']);
    match s {
        SpecId::FRONTIER => assert(SpecId::parse_spec(s.name_spec()) == s),
        SpecId::HOMESTEAD => assert(SpecId::parse_spec(s.name_spec()) == s),
        SpecId::TANGERINE => assert(SpecId::parse_spec(s.name_spec()) == s),
        SpecId::SPURIOUS_DRAGON => assert(SpecId::parse_spec(s.name_spec()) == s),
        SpecId::BYZANTIUM => assert(SpecId::parse_spec(s.name_spec()) == s),
        SpecId::CONSTANTINOPLE => assert(SpecId::parse_spec(s.name_spec()) == s),
        SpecId::PETERSBURG => assert(SpecId::parse_spec(s.name_spec()) == s),
        SpecId::ISTANBUL => assert(SpecId::parse_spec(s.name_spec()) == s),
        SpecId::MUIR_GLACIER => assert(SpecId::parse_spec(s.name_spec()) == s),
        SpecId::BERLIN => assert(SpecId::parse_spec(s.name_spec()) == s),
        SpecId::LONDON => assert(SpecId::parse_spec(s.name_spec()) == s),
        SpecId::MERGE => assert(SpecId::parse_spec(s.name_spec()) == s),
        SpecId::SHANGHAI => assert(SpecId::parse_spec(s.name_spec()) == s),
        SpecId::CANCUN => assert(SpecId::parse_spec(s.name_spec()) == s),
        SpecId::PRAGUE => assert(SpecId::parse_spec(s.name_spec()) == s),
        SpecId::LATEST => assert(SpecId::parse_spec(s.name_spec()) == s),
        SpecId::FRONTIER_THAWING => assert(SpecId::parse_spec(s.name_spec()) == s),
        SpecId::DAO_FORK => assert(SpecId::parse_spec(s.name_spec()) == s),
        SpecId::ARROW_GLACIER => assert(SpecId::parse_spec(s.name_spec()) == s),
        SpecId::GRAY_GLACIER => assert(SpecId::parse_spec(s.name_spec()) == s),
    }
}

/// A compile-time carrier for one hardfork, so per-hardfork tables can be
/// selected without a runtime branch in hot paths.
pub trait Spec: Sized {
    /// The hardfork this carrier stands for.
    spec fn spec_id_spec() -> SpecId;

    /// The hardfork this carrier stands for.
    fn spec_id() -> (s: SpecId)
        ensures
            s == Self::spec_id_spec(),
    ;

    /// Returns `true` if the given hardfork is enabled in this carrier's.
    fn enabled(spec_id: SpecId) -> (r: bool)
        ensures
            r == spec_enabled(Self::spec_id_spec(), spec_id),
    {
        SpecId::enabled(Self::spec_id(), spec_id)
    }
}

/// Carrier for the Frontier hardfork.
#[derive(Clone, Copy, Debug, PartialEq, Eq, Hash)]
pub struct FrontierSpec;

/// Carrier for the Homestead hardfork.
#[derive(Clone, Copy, Debug, PartialEq, Eq, Hash)]
pub struct HomesteadSpec;

/// Carrier for the Tangerine Whistle hardfork.
#[derive(Clone, Copy, Debug, PartialEq, Eq, Hash)]
pub struct TangerineSpec;

/// Carrier for the Spurious Dragon hardfork.
#[derive(Clone, Copy, Debug, PartialEq, Eq, Hash)]
pub struct SpuriousDragonSpec;

/// Carrier for the Byzantium hardfork.
#[derive(Clone, Copy, Debug, PartialEq, Eq, Hash)]
pub struct ByzantiumSpec;

/// Carrier for the Petersburg hardfork.
#[derive(Clone, Copy, Debug, PartialEq, Eq, Hash)]
pub struct PetersburgSpec;

/// Carrier for the Istanbul hardfork.
#[derive(Clone, Copy, Debug, PartialEq, Eq, Hash)]
pub struct IstanbulSpec;

/// Carrier for the Berlin hardfork.
#[derive(Clone, Copy, Debug, PartialEq, Eq, Hash)]
pub struct BerlinSpec;

/// Carrier for the London hardfork.
#[derive(Clone, Copy, Debug, PartialEq, Eq, Hash)]
pub struct LondonSpec;

/// Carrier for the Merge hardfork.
#[derive(Clone, Copy, Debug, PartialEq, Eq, Hash)]
pub struct MergeSpec;

/// Carrier for the Shanghai hardfork.
#[derive(Clone, Copy, Debug, PartialEq, Eq, Hash)]
pub struct ShanghaiSpec;

/// Carrier for the Cancun hardfork.
#[derive(Clone, Copy, Debug, PartialEq, Eq, Hash)]
pub struct CancunSpec;

/// Carrier for the Prague hardfork.
#[derive(Clone, Copy, Debug, PartialEq, Eq, Hash)]
pub struct PragueSpec;

/// Carrier for the reserved maximum hardfork.
#[derive(Clone, Copy, Debug, PartialEq, Eq, Hash)]
pub struct LatestSpec;

impl Spec for FrontierSpec {
    open spec fn spec_id_spec() -> SpecId {
        SpecId::FRONTIER
    }

    fn spec_id() -> SpecId {
        SpecId::FRONTIER
    }
}

impl Spec for HomesteadSpec {
    open spec fn spec_id_spec() -> SpecId {
        SpecId::HOMESTEAD
    }

    fn spec_id() -> SpecId {
        SpecId::HOMESTEAD
    }
}

impl Spec for TangerineSpec {
    open spec fn spec_id_spec() -> SpecId {
        SpecId::TANGERINE
    }

    fn spec_id() -> SpecId {
        SpecId::TANGERINE
    }
}

impl Spec for SpuriousDragonSpec {
    open spec fn spec_id_spec() -> SpecId {
        SpecId::SPURIOUS_DRAGON
    }

    fn spec_id() -> SpecId {
        SpecId::SPURIOUS_DRAGON
    }
}

impl Spec for ByzantiumSpec {
    open spec fn spec_id_spec() -> SpecId {
        SpecId::BYZANTIUM
    }

    fn spec_id() -> SpecId {
        SpecId::BYZANTIUM
    }
}

impl Spec for PetersburgSpec {
    open spec fn spec_id_spec() -> SpecId {
        SpecId::PETERSBURG
    }

    fn spec_id() -> SpecId {
        SpecId::PETERSBURG
    }
}

impl Spec for IstanbulSpec {
    open spec fn spec_id_spec() -> SpecId {
        SpecId::ISTANBUL
    }

    fn spec_id() -> SpecId {
        SpecId::ISTANBUL
    }
}

impl Spec for BerlinSpec {
    open spec fn spec_id_spec() -> SpecId {
        SpecId::BERLIN
    }

    fn spec_id() -> SpecId {
        SpecId::BERLIN
    }
}

impl Spec for LondonSpec {
    open spec fn spec_id_spec() -> SpecId {
        SpecId::LONDON
    }

    fn spec_id() -> SpecId {
        SpecId::LONDON
    }
}

impl Spec for MergeSpec {
    open spec fn spec_id_spec() -> SpecId {
        SpecId::MERGE
    }

    fn spec_id() -> SpecId {
        SpecId::MERGE
    }
}

impl Spec for ShanghaiSpec {
    open spec fn spec_id_spec() -> SpecId {
        SpecId::SHANGHAI
    }

    fn spec_id() -> SpecId {
        SpecId::SHANGHAI
    }
}

impl Spec for CancunSpec {
    open spec fn spec_id_spec() -> SpecId {
        SpecId::CANCUN
    }

    fn spec_id() -> SpecId {
        SpecId::CANCUN
    }
}

impl Spec for PragueSpec {
    open spec fn spec_id_spec() -> SpecId {
        SpecId::PRAGUE
    }

    fn spec_id() -> SpecId {
        SpecId::PRAGUE
    }
}

impl Spec for LatestSpec {
    open spec fn spec_id_spec() -> SpecId {
        SpecId::LATEST
    }

    fn spec_id() -> SpecId {
        SpecId::LATEST
    }
}

/// The carrier hardfork that stands for a runtime `SpecId`: ids that
/// introduced no EVM-level change collapse to the carrier of an earlier one.
pub open spec fn base_spec(spec_id: SpecId) -> SpecId {
    match spec_id {
        SpecId::FRONTIER | SpecId::FRONTIER_THAWING => SpecId::FRONTIER,
        SpecId::HOMESTEAD | SpecId::DAO_FORK => SpecId::HOMESTEAD,
        SpecId::TANGERINE => SpecId::TANGERINE,
        SpecId::SPURIOUS_DRAGON => SpecId::SPURIOUS_DRAGON,
        SpecId::BYZANTIUM => SpecId::BYZANTIUM,
        SpecId::PETERSBURG | SpecId::CONSTANTINOPLE => SpecId::PETERSBURG,
        SpecId::ISTANBUL | SpecId::MUIR_GLACIER => SpecId::ISTANBUL,
        SpecId::BERLIN => SpecId::BERLIN,
        SpecId::LONDON | SpecId::ARROW_GLACIER | SpecId::GRAY_GLACIER => SpecId::LONDON,
        SpecId::MERGE => SpecId::MERGE,
        SpecId::SHANGHAI => SpecId::SHANGHAI,
        SpecId::CANCUN => SpecId::CANCUN,
        SpecId::PRAGUE => SpecId::PRAGUE,
        SpecId::LATEST => SpecId::LATEST,
    }
}

/// Monomorphic dispatch over the carriers: evaluates the matching carrier's
/// hardfork for a runtime `SpecId`.
pub fn spec_to_generic(spec_id: SpecId) -> (r: SpecId)
    ensures
        r == base_spec(spec_id),
{
    match spec_id {
        SpecId::FRONTIER | SpecId::FRONTIER_THAWING => FrontierSpec::spec_id(),
        SpecId::HOMESTEAD | SpecId::DAO_FORK => HomesteadSpec::spec_id(),
        SpecId::TANGERINE => TangerineSpec::spec_id(),
        SpecId::SPURIOUS_DRAGON => SpuriousDragonSpec::spec_id(),
        SpecId::BYZANTIUM => ByzantiumSpec::spec_id(),
        SpecId::PETERSBURG | SpecId::CONSTANTINOPLE => PetersburgSpec::spec_id(),
        SpecId::ISTANBUL | SpecId::MUIR_GLACIER => IstanbulSpec::spec_id(),
        SpecId::BERLIN => BerlinSpec::spec_id(),
        SpecId::LONDON | SpecId::ARROW_GLACIER | SpecId::GRAY_GLACIER => LondonSpec::spec_id(),
        SpecId::MERGE => MergeSpec::spec_id(),
        SpecId::SHANGHAI => ShanghaiSpec::spec_id(),
        SpecId::CANCUN => CancunSpec::spec_id(),
        SpecId::PRAGUE => PragueSpec::spec_id(),
        SpecId::LATEST => LatestSpec::spec_id(),
    }
}

} // verus!
