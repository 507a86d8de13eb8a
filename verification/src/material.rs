//! Material catalog: priceable materials looked up by code.

use vstd::prelude::*;
use crate::{Discipline, EntityId, new_entity_id};
use crate::strutil::str_eq;

verus! {

/// Units of measurement.
#[derive(Debug, Clone, Copy, PartialEq, Eq, Structural)]
pub enum Unit {
    // Length units
    Meter,
    Centimeter,
    Millimeter,
    // Area units
    SquareMeter,
    // Volume units
    CubicMeter,
    Liter,
    // Count units
    Piece,
    Each,
    // Weight units
    Kilogram,
    Gram,
    // Electrical units
    MeterCable,
    Watt,
    Ampere,
}

/// Material categories for organization.
#[derive(Debug, Clone)]
pub enum MaterialCategory {
    // Drywall materials
    DrywallPanel,
    DrywallStud,
    DrywallTrack,
    DrywallScrew,
    DrywallCompound,
    DrywallTape,
    // Suspended ceiling materials
    CeilingTile,
    CeilingGrid,
    CeilingHanger,
    CeilingWire,
    // Electrical materials
    ElectricalCable,
    ElectricalConduit,
    ElectricalOutlet,
    ElectricalSwitch,
    ElectricalPanel,
    ElectricalFixture,
    // Plumbing materials
    PlumbingPipe,
    PlumbingFitting,
    PlumbingFixture,
    PlumbingValve,
    // Fixings and fasteners
    Anchor,
    Screw,
    Nail,
    Bolt,
    // Generic
    Other(String),
}

impl MaterialCategory {
    /// True when the two categories are the same variant, whatever an
    /// `Other` carries (two `Other` categories always match).
    pub open spec fn spec_same_kind(self, other: MaterialCategory) -> bool {
        match (self, other) {
            (MaterialCategory::DrywallPanel, MaterialCategory::DrywallPanel) => true,
            (MaterialCategory::DrywallStud, MaterialCategory::DrywallStud) => true,
            (MaterialCategory::DrywallTrack, MaterialCategory::DrywallTrack) => true,
            (MaterialCategory::DrywallScrew, MaterialCategory::DrywallScrew) => true,
            (MaterialCategory::DrywallCompound, MaterialCategory::DrywallCompound) => true,
            (MaterialCategory::DrywallTape, MaterialCategory::DrywallTape) => true,
            (MaterialCategory::CeilingTile, MaterialCategory::CeilingTile) => true,
            (MaterialCategory::CeilingGrid, MaterialCategory::CeilingGrid) => true,
            (MaterialCategory::CeilingHanger, MaterialCategory::CeilingHanger) => true,
            (MaterialCategory::CeilingWire, MaterialCategory::CeilingWire) => true,
            (MaterialCategory::ElectricalCable, MaterialCategory::ElectricalCable) => true,
            (MaterialCategory::ElectricalConduit, MaterialCategory::ElectricalConduit) => true,
            (MaterialCategory::ElectricalOutlet, MaterialCategory::ElectricalOutlet) => true,
            (MaterialCategory::ElectricalSwitch, MaterialCategory::ElectricalSwitch) => true,
            (MaterialCategory::ElectricalPanel, MaterialCategory::ElectricalPanel) => true,
            (MaterialCategory::ElectricalFixture, MaterialCategory::ElectricalFixture) => true,
            (MaterialCategory::PlumbingPipe, MaterialCategory::PlumbingPipe) => true,
            (MaterialCategory::PlumbingFitting, MaterialCategory::PlumbingFitting) => true,
            (MaterialCategory::PlumbingFixture, MaterialCategory::PlumbingFixture) => true,
            (MaterialCategory::PlumbingValve, MaterialCategory::PlumbingValve) => true,
            (MaterialCategory::Anchor, MaterialCategory::Anchor) => true,
            (MaterialCategory::Screw, MaterialCategory::Screw) => true,
            (MaterialCategory::Nail, MaterialCategory::Nail) => true,
            (MaterialCategory::Bolt, MaterialCategory::Bolt) => true,
            (MaterialCategory::Other(_), MaterialCategory::Other(_)) => true,
            _ => false,
        }
    }

    /// Variant test matching `spec_same_kind`.
    pub fn same_kind(&self, other: &MaterialCategory) -> (r: bool)
        ensures
            r == self.spec_same_kind(*other),
    {
        match (self, other) {
            (MaterialCategory::DrywallPanel, MaterialCategory::DrywallPanel) => true,
            (MaterialCategory::DrywallStud, MaterialCategory::DrywallStud) => true,
            (MaterialCategory::DrywallTrack, MaterialCategory::DrywallTrack) => true,
            (MaterialCategory::DrywallScrew, MaterialCategory::DrywallScrew) => true,
            (MaterialCategory::DrywallCompound, MaterialCategory::DrywallCompound) => true,
            (MaterialCategory::DrywallTape, MaterialCategory::DrywallTape) => true,
            (MaterialCategory::CeilingTile, MaterialCategory::CeilingTile) => true,
            (MaterialCategory::CeilingGrid, MaterialCategory::CeilingGrid) => true,
            (MaterialCategory::CeilingHanger, MaterialCategory::CeilingHanger) => true,
            (MaterialCategory::CeilingWire, MaterialCategory::CeilingWire) => true,
            (MaterialCategory::ElectricalCable, MaterialCategory::ElectricalCable) => true,
            (MaterialCategory::ElectricalConduit, MaterialCategory::ElectricalConduit) => true,
            (MaterialCategory::ElectricalOutlet, MaterialCategory::ElectricalOutlet) => true,
            (MaterialCategory::ElectricalSwitch, MaterialCategory::ElectricalSwitch) => true,
            (MaterialCategory::ElectricalPanel, MaterialCategory::ElectricalPanel) => true,
            (MaterialCategory::ElectricalFixture, MaterialCategory::ElectricalFixture) => true,
            (MaterialCategory::PlumbingPipe, MaterialCategory::PlumbingPipe) => true,
            (MaterialCategory::PlumbingFitting, MaterialCategory::PlumbingFitting) => true,
            (MaterialCategory::PlumbingFixture, MaterialCategory::PlumbingFixture) => true,
            (MaterialCategory::PlumbingValve, MaterialCategory::PlumbingValve) => true,
            (MaterialCategory::Anchor, MaterialCategory::Anchor) => true,
            (MaterialCategory::Screw, MaterialCategory::Screw) => true,
            (MaterialCategory::Nail, MaterialCategory::Nail) => true,
            (MaterialCategory::Bolt, MaterialCategory::Bolt) => true,
            (MaterialCategory::Other(_), MaterialCategory::Other(_)) => true,
            _ => false,
        }
    }

    /// The category's name; an `Other` category is named by what it carries.
    pub open spec fn spec_name(self) -> Seq<char> {
        match self {
            MaterialCategory::DrywallPanel => "DrywallPanel"@,
            MaterialCategory::DrywallStud => "DrywallStud"@,
            MaterialCategory::DrywallTrack => "DrywallTrack"@,
            MaterialCategory::DrywallScrew => "DrywallScrew"@,
            MaterialCategory::DrywallCompound => "DrywallCompound"@,
            MaterialCategory::DrywallTape => "DrywallTape"@,
            MaterialCategory::CeilingTile => "CeilingTile"@,
            MaterialCategory::CeilingGrid => "CeilingGrid"@,
            MaterialCategory::CeilingHanger => "CeilingHanger"@,
            MaterialCategory::CeilingWire => "CeilingWire"@,
            MaterialCategory::ElectricalCable => "ElectricalCable"@,
            MaterialCategory::ElectricalConduit => "ElectricalConduit"@,
            MaterialCategory::ElectricalOutlet => "ElectricalOutlet"@,
            MaterialCategory::ElectricalSwitch => "ElectricalSwitch"@,
            MaterialCategory::ElectricalPanel => "ElectricalPanel"@,
            MaterialCategory::ElectricalFixture => "ElectricalFixture"@,
            MaterialCategory::PlumbingPipe => "PlumbingPipe"@,
            MaterialCategory::PlumbingFitting => "PlumbingFitting"@,
            MaterialCategory::PlumbingFixture => "PlumbingFixture"@,
            MaterialCategory::PlumbingValve => "PlumbingValve"@,
            MaterialCategory::Anchor => "Anchor"@,
            MaterialCategory::Screw => "Screw"@,
            MaterialCategory::Nail => "Nail"@,
            MaterialCategory::Bolt => "Bolt"@,
            MaterialCategory::Other(s) => s@,
        }
    }

    /// The category's name as a string.
    pub fn name(&self) -> (r: String)
        ensures
            r@ == self.spec_name(),
    {
        match self {
            MaterialCategory::DrywallPanel => "DrywallPanel".to_owned(),
            MaterialCategory::DrywallStud => "DrywallStud".to_owned(),
            MaterialCategory::DrywallTrack => "DrywallTrack".to_owned(),
            MaterialCategory::DrywallScrew => "DrywallScrew".to_owned(),
            MaterialCategory::DrywallCompound => "DrywallCompound".to_owned(),
            MaterialCategory::DrywallTape => "DrywallTape".to_owned(),
            MaterialCategory::CeilingTile => "CeilingTile".to_owned(),
            MaterialCategory::CeilingGrid => "CeilingGrid".to_owned(),
            MaterialCategory::CeilingHanger => "CeilingHanger".to_owned(),
            MaterialCategory::CeilingWire => "CeilingWire".to_owned(),
            MaterialCategory::ElectricalCable => "ElectricalCable".to_owned(),
            MaterialCategory::ElectricalConduit => "ElectricalConduit".to_owned(),
            MaterialCategory::ElectricalOutlet => "ElectricalOutlet".to_owned(),
            MaterialCategory::ElectricalSwitch => "ElectricalSwitch".to_owned(),
            MaterialCategory::ElectricalPanel => "ElectricalPanel".to_owned(),
            MaterialCategory::ElectricalFixture => "ElectricalFixture".to_owned(),
            MaterialCategory::PlumbingPipe => "PlumbingPipe".to_owned(),
            MaterialCategory::PlumbingFitting => "PlumbingFitting".to_owned(),
            MaterialCategory::PlumbingFixture => "PlumbingFixture".to_owned(),
            MaterialCategory::PlumbingValve => "PlumbingValve".to_owned(),
            MaterialCategory::Anchor => "Anchor".to_owned(),
            MaterialCategory::Screw => "Screw".to_owned(),
            MaterialCategory::Nail => "Nail".to_owned(),
            MaterialCategory::Bolt => "Bolt".to_owned(),
            MaterialCategory::Other(s) => s.clone(),
        }
    }
}

/// Largest unit cost, in thousandths, that the costing math is proved for:
/// about 1.1e9 per unit.
pub const MAX_UNIT_COST_MILLI: u64 = 0x100_0000_0000;

impl Unit {
    /// The unit's name, as the exporter prints it.
    pub open spec fn spec_name(self) -> Seq<char> {
        match self {
            Unit::Meter => "Meter"@,
            Unit::Centimeter => "Centimeter"@,
            Unit::Millimeter => "Millimeter"@,
            Unit::SquareMeter => "SquareMeter"@,
            Unit::CubicMeter => "CubicMeter"@,
            Unit::Liter => "Liter"@,
            Unit::Piece => "Piece"@,
            Unit::Each => "Each"@,
            Unit::Kilogram => "Kilogram"@,
            Unit::Gram => "Gram"@,
            Unit::MeterCable => "MeterCable"@,
            Unit::Watt => "Watt"@,
            Unit::Ampere => "Ampere"@,
        }
    }

    /// The unit's name as a string.
    pub fn name(&self) -> (r: String)
        ensures
            r@ == self.spec_name(),
    {
        match self {
            Unit::Meter => "Meter".to_owned(),
            Unit::Centimeter => "Centimeter".to_owned(),
            Unit::Millimeter => "Millimeter".to_owned(),
            Unit::SquareMeter => "SquareMeter".to_owned(),
            Unit::CubicMeter => "CubicMeter".to_owned(),
            Unit::Liter => "Liter".to_owned(),
            Unit::Piece => "Piece".to_owned(),
            Unit::Each => "Each".to_owned(),
            Unit::Kilogram => "Kilogram".to_owned(),
            Unit::Gram => "Gram".to_owned(),
            Unit::MeterCable => "MeterCable".to_owned(),
            Unit::Watt => "Watt".to_owned(),
            Unit::Ampere => "Ampere".to_owned(),
        }
    }
}

/// Material definition for BOM calculations.
///
/// `cost_per_unit_milli` is the cost of one unit in thousandths of the
/// currency (15.50 per unit is stored as 15_500).
#[derive(Debug, Clone)]
pub struct Material {
    pub id: EntityId,
    pub name: String,
    pub code: String,
    pub unit: Unit,
    pub cost_per_unit_milli: u64,
    /// kg/m3 or similar, in thousandths
    pub density_milli: Option<u64>,
    pub supplier: Option<String>,
    pub discipline: Discipline,
    pub category: MaterialCategory,
}

impl Material {
    pub fn new(
        name: String,
        code: String,
        unit: Unit,
        cost_per_unit_milli: u64,
        discipline: Discipline,
        category: MaterialCategory,
    ) -> (m: Material)
        ensures
            m.name == name,
            m.code == code,
            m.unit == unit,
            m.cost_per_unit_milli == cost_per_unit_milli,
            m.density_milli is None,
            m.supplier is None,
            m.discipline == discipline,
            m.category == category,
    {
        Material {
            id: new_entity_id(),
            name,
            code,
            unit,
            cost_per_unit_milli,
            density_milli: None,
            supplier: None,
            discipline,
            category,
        }
    }
}

/// Some material in `s` has the given code.
pub open spec fn spec_has_code(s: Seq<Material>, code: Seq<char>) -> bool {
    exists|i: int| 0 <= i < s.len() && s[i].code@ == code
}

/// Index of the first material in `s` with the given code, or -1.
pub open spec fn first_code_index(s: Seq<Material>, code: Seq<char>) -> int
    decreases s.len(),
{
    if s.len() == 0 {
        -1
    } else if s[0].code@ == code {
        0
    } else {
        let r = first_code_index(s.drop_first(), code);
        if r == -1 {
            -1
        } else {
            r + 1
        }
    }
}

/// What `first_code_index` returns: -1 exactly when the code is absent, and
/// otherwise the first matching position.
pub proof fn lemma_first_code_index(s: Seq<Material>, code: Seq<char>)
    ensures
        first_code_index(s, code) == -1 <==> !spec_has_code(s, code),
        first_code_index(s, code) != -1 ==> {
            let r = first_code_index(s, code);
            &&& 0 <= r < s.len()
            &&& s[r].code@ == code
            &&& forall|j: int| 0 <= j < r ==> s[j].code@ != code
        },
    decreases s.len(),
{
    if s.len() > 0 && s[0].code@ != code {
        lemma_first_code_index(s.drop_first(), code);
        assert(forall|j: int| 0 <= j < s.drop_first().len()
            ==> s.drop_first()[j] == s[j + 1]);
        if first_code_index(s.drop_first(), code) == -1 {
            assert forall|i: int| 0 <= i < s.len() implies s[i].code@ != code by {
                if i > 0 {
                    assert(s.drop_first()[i - 1] == s[i]);
                }
            }
        } else {
            let rd = first_code_index(s.drop_first(), code);
            let r = first_code_index(s, code);
            assert(r == rd + 1);
            assert(s[r] == s.drop_first()[rd]);
            assert(s[r].code@ == code);
            assert(spec_has_code(s, code));
            assert forall|j: int| 0 <= j < r implies s[j].code@ != code by {
                if j > 0 {
                    assert(s.drop_first()[j - 1] == s[j]);
                }
            }
        }
    }
}

/// A position that matches, with no match before it, is the first match.
pub proof fn lemma_first_code_index_is(s: Seq<Material>, code: Seq<char>, i: int)
    requires
        0 <= i < s.len(),
        s[i].code@ == code,
        forall|j: int| 0 <= j < i ==> s[j].code@ != code,
    ensures
        first_code_index(s, code) == i,
    decreases s.len(),
{
    if i > 0 {
        assert(forall|j: int| 0 <= j < s.drop_first().len()
            ==> s.drop_first()[j] == s[j + 1]);
        lemma_first_code_index_is(s.drop_first(), code, i - 1);
    }
}

/// The effect of `MaterialDatabase::add_material` on the catalog contents:
/// append when the code is new, replace the first occurrence otherwise.
pub open spec fn spec_add_material(s: Seq<Material>, m: Material) -> Seq<Material> {
    let i = first_code_index(s, m.code@);
    if i == -1 {
        s.push(m)
    } else {
        s.update(i, m)
    }
}

/// Adding a material makes its code present and neither adds nor removes any
/// other code.
pub proof fn lemma_add_material_codes(s: Seq<Material>, m: Material, c: Seq<char>)
    ensures
        spec_has_code(spec_add_material(s, m), c) == (spec_has_code(s, c) || m.code@
            == c),
{
    lemma_first_code_index(s, m.code@);
    let i = first_code_index(s, m.code@);
    let t = spec_add_material(s, m);
    if i == -1 {
        if spec_has_code(s, c) {
            let w = choose|w: int| 0 <= w < s.len() && s[w].code@ == c;
            assert(t[w].code@ == c);
        }
        if m.code@ == c {
            assert(t[s.len() as int].code@ == c);
        }
        if spec_has_code(t, c) {
            let w = choose|w: int| 0 <= w < t.len() && t[w].code@ == c;
            if w < s.len() {
                assert(s[w].code@ == c);
            }
        }
    } else {
        assert(s[i].code@ == m.code@);
        if spec_has_code(s, c) {
            let w = choose|w: int| 0 <= w < s.len() && s[w].code@ == c;
            if w == i {
                assert(t[i].code@ == m.code@);
            } else {
                assert(t[w].code@ == c);
            }
        }
        if m.code@ == c {
            assert(t[i].code@ == c);
        }
        if spec_has_code(t, c) {
            let w = choose|w: int| 0 <= w < t.len() && t[w].code@ == c;
            if w != i {
                assert(s[w].code@ == c);
            }
        }
    }
}

/// Code of the `k`-th entry of the default seed catalog.
pub open spec fn seed_code(k: int) -> Seq<char> {
    if k == 0 { "DW_PANEL_125"@ }
    else if k == 1 { "DW_STUD_75"@ }
    else if k == 2 { "DW_TRACK_75"@ }
    else if k == 3 { "DW_SCREW_25"@ }
    else if k == 4 { "CEIL_TILE_600"@ }
    else if k == 5 { "CEIL_GRID_MAIN"@ }
    else if k == 6 { "CEIL_GRID_CROSS"@ }
    else if k == 7 { "CEIL_HANGER"@ }
    else if k == 8 { "ANCHOR_8MM"@ }
    else if k == 9 { "ELEC_NYM_315"@ }
    else { "ELEC_OUTLET_STD"@ }
}

/// The fields of the `k`-th entry of the default seed catalog.
pub open spec fn seed_matches(m: Material, k: int) -> bool {
    &&& m.code@ == seed_code(k)
    &&& if k == 0 {
        m.name@ == "Drywall Panel 12.5mm"@ && m.unit == Unit::SquareMeter
            && m.cost_per_unit_milli == 15_500 && m.discipline == Discipline::Drywall
            && m.category is DrywallPanel
    } else if k == 1 {
        m.name@ == "Metal Stud 75mm"@ && m.unit == Unit::Meter
            && m.cost_per_unit_milli == 3_200 && m.discipline == Discipline::Drywall
            && m.category is DrywallStud
    } else if k == 2 {
        m.name@ == "Metal Track 75mm"@ && m.unit == Unit::Meter
            && m.cost_per_unit_milli == 2_800 && m.discipline == Discipline::Drywall
            && m.category is DrywallTrack
    } else if k == 3 {
        m.name@ == "Drywall Screw 25mm"@ && m.unit == Unit::Piece
            && m.cost_per_unit_milli == 50 && m.discipline == Discipline::Drywall
            && m.category is DrywallScrew
    } else if k == 4 {
        m.name@ == "Ceiling Tile 600x600"@ && m.unit == Unit::Piece
            && m.cost_per_unit_milli == 12_500 && m.discipline
            == Discipline::SuspendedCeiling && m.category is CeilingTile
    } else if k == 5 {
        m.name@ == "T-Grid Main Profile"@ && m.unit == Unit::Meter
            && m.cost_per_unit_milli == 8_500 && m.discipline
            == Discipline::SuspendedCeiling && m.category is CeilingGrid
    } else if k == 6 {
        m.name@ == "T-Grid Cross Profile"@ && m.unit == Unit::Meter
            && m.cost_per_unit_milli == 6_500 && m.discipline
            == Discipline::SuspendedCeiling && m.category is CeilingGrid
    } else if k == 7 {
        m.name@ == "Ceiling Hanger"@ && m.unit == Unit::Piece
            && m.cost_per_unit_milli == 1_200 && m.discipline
            == Discipline::SuspendedCeiling && m.category is CeilingHanger
    } else if k == 8 {
        m.name@ == "Wall Anchor 8mm"@ && m.unit == Unit::Piece
            && m.cost_per_unit_milli == 250 && m.discipline == Discipline::Architecture
            && m.category is Anchor
    } else if k == 9 {
        m.name@ == "NYM Cable 3x1.5mm"@ && m.unit == Unit::MeterCable
            && m.cost_per_unit_milli == 2_800 && m.discipline == Discipline::Electrical
            && m.category is ElectricalCable
    } else {
        m.name@ == "Standard Outlet"@ && m.unit == Unit::Piece
            && m.cost_per_unit_milli == 8_500 && m.discipline == Discipline::Electrical
            && m.category is ElectricalOutlet
    }
}

/// The eleven seed codes are pairwise distinct.
pub proof fn lemma_seed_codes_distinct()
    ensures
        forall|i: int, j: int| 0 <= i < 11 && 0 <= j < 11 && i != j ==> seed_code(i)
            != seed_code(j),
{
    reveal_strlit("DW_PANEL_125");
    reveal_strlit("DW_STUD_75");
    reveal_strlit("DW_TRACK_75");
    reveal_strlit("DW_SCREW_25");
    reveal_strlit("CEIL_TILE_600");
    reveal_strlit("CEIL_GRID_MAIN");
    reveal_strlit("CEIL_GRID_CROSS");
    reveal_strlit("CEIL_HANGER");
    reveal_strlit("ANCHOR_8MM");
    reveal_strlit("ELEC_NYM_315");
    reveal_strlit("ELEC_OUTLET_STD");
    assert(seed_code(0).len() == 12 && seed_code(0)[0] == 'D');
    assert(seed_code(1).len() == 10 && seed_code(1)[0] == 'D');
    assert(seed_code(2).len() == 11 && seed_code(2)[0] == 'D');
    assert(seed_code(3).len() == 11 && seed_code(3)[0] == 'D');
    assert(seed_code(4).len() == 13 && seed_code(4)[0] == 'C');
    assert(seed_code(5).len() == 14 && seed_code(5)[0] == 'C');
    assert(seed_code(6).len() == 15 && seed_code(6)[0] == 'C');
    assert(seed_code(7).len() == 11 && seed_code(7)[0] == 'C');
    assert(seed_code(8).len() == 10 && seed_code(8)[0] == 'A');
    assert(seed_code(9).len() == 12 && seed_code(9)[0] == 'E');
    assert(seed_code(10).len() == 15 && seed_code(10)[0] == 'E');
    assert(seed_code(2)[3] == 'T' && seed_code(3)[3] == 'S');
    assert(seed_code(0) != seed_code(1));
    assert(seed_code(0) != seed_code(2));
    assert(seed_code(0) != seed_code(3));
    assert(seed_code(0) != seed_code(4));
    assert(seed_code(0) != seed_code(5));
    assert(seed_code(0) != seed_code(6));
    assert(seed_code(0) != seed_code(7));
    assert(seed_code(0) != seed_code(8));
    assert(seed_code(0) != seed_code(9));
    assert(seed_code(0) != seed_code(10));
    assert(seed_code(1) != seed_code(2));
    assert(seed_code(1) != seed_code(3));
    assert(seed_code(1) != seed_code(4));
    assert(seed_code(1) != seed_code(5));
    assert(seed_code(1) != seed_code(6));
    assert(seed_code(1) != seed_code(7));
    assert(seed_code(1) != seed_code(8));
    assert(seed_code(1) != seed_code(9));
    assert(seed_code(1) != seed_code(10));
    assert(seed_code(2) != seed_code(3));
    assert(seed_code(2) != seed_code(4));
    assert(seed_code(2) != seed_code(5));
    assert(seed_code(2) != seed_code(6));
    assert(seed_code(2) != seed_code(7));
    assert(seed_code(2) != seed_code(8));
    assert(seed_code(2) != seed_code(9));
    assert(seed_code(2) != seed_code(10));
    assert(seed_code(3) != seed_code(4));
    assert(seed_code(3) != seed_code(5));
    assert(seed_code(3) != seed_code(6));
    assert(seed_code(3) != seed_code(7));
    assert(seed_code(3) != seed_code(8));
    assert(seed_code(3) != seed_code(9));
    assert(seed_code(3) != seed_code(10));
    assert(seed_code(4) != seed_code(5));
    assert(seed_code(4) != seed_code(6));
    assert(seed_code(4) != seed_code(7));
    assert(seed_code(4) != seed_code(8));
    assert(seed_code(4) != seed_code(9));
    assert(seed_code(4) != seed_code(10));
    assert(seed_code(5) != seed_code(6));
    assert(seed_code(5) != seed_code(7));
    assert(seed_code(5) != seed_code(8));
    assert(seed_code(5) != seed_code(9));
    assert(seed_code(5) != seed_code(10));
    assert(seed_code(6) != seed_code(7));
    assert(seed_code(6) != seed_code(8));
    assert(seed_code(6) != seed_code(9));
    assert(seed_code(6) != seed_code(10));
    assert(seed_code(7) != seed_code(8));
    assert(seed_code(7) != seed_code(9));
    assert(seed_code(7) != seed_code(10));
    assert(seed_code(8) != seed_code(9));
    assert(seed_code(8) != seed_code(10));
    assert(seed_code(9) != seed_code(10));
}

/// One seeding step: while none of the seed codes was in the catalog to
/// begin with and only seed entries have been added, the next seed code is
/// still absent, so adding it appends.
proof fn lemma_seed_step(s0: Seq<Material>, pre: Seq<Material>, m: Material, k: int)
    requires
        0 <= k < 11,
        m.code@ == seed_code(k),
        s0.len() <= pre.len(),
        pre.take(s0.len() as int) == s0,
        pre.len() - s0.len() == k,
        forall|i: int| s0.len() <= i < pre.len() ==> (#[trigger] pre[i]).code@
            == seed_code(i - s0.len()),
        forall|i: int| 0 <= i < 11 ==> !spec_has_code(s0, seed_code(i)),
    ensures
        spec_add_material(pre, m) == pre.push(m),
        !spec_has_code(pre, seed_code(k)),
{
    lemma_seed_codes_distinct();
    assert forall|j: int| 0 <= j < pre.len() implies pre[j].code@ != m.code@ by {
        if j < s0.len() {
            assert(pre.take(s0.len() as int)[j] == pre[j]);
            assert(!spec_has_code(s0, seed_code(k)));
        }
    }
    lemma_first_code_index(pre, m.code@);
}

/// Material database for BOM calculations.
#[derive(Debug, Clone)]
pub struct MaterialDatabase {
    pub materials: Vec<Material>,
}

impl MaterialDatabase {
    /// Every unit cost within the range the costing math is proved for.
    pub open spec fn wf(self) -> bool {
        forall|j: int| 0 <= j < self.materials@.len() ==> (
        #[trigger] self.materials@[j]).cost_per_unit_milli <= MAX_UNIT_COST_MILLI
    }

    pub fn new() -> (db: MaterialDatabase)
        ensures
            db.materials@ =~= Seq::<Material>::empty(),
    {
        MaterialDatabase { materials: Vec::new() }
    }

    /// Add a material.  Re-adding a code that is already present replaces the
    /// earlier entry (last write wins); a new code is appended.
    pub fn add_material(&mut self, material: Material)
        ensures
            final(self).materials@ == spec_add_material(old(self).materials@, material),
    {
        proof {
            lemma_first_code_index(self.materials@, material.code@);
        }
        let mut i: usize = 0;
        while i < self.materials.len()
            invariant
                i <= self.materials@.len(),
                self.materials@ == old(self).materials@,
                forall|j: int| 0 <= j < i ==> (#[trigger] self.materials@[j]).code@
                    != material.code@,
            decreases self.materials@.len() - i,
        {
            if str_eq(self.materials[i].code.as_str(), material.code.as_str()) {
                proof {
                    lemma_first_code_index_is(self.materials@, material.code@, i as int);
                }
                self.materials[i] = material;
                return;
            }
            i += 1;
        }
        self.materials.push(material);
    }

    /// Look up a material by code.  Returns the first (and, when the catalog
    /// was built through `add_material`, only) entry with that code; absence
    /// is a valid outcome, not an error.
    pub fn get_material_by_code(&self, code: &str) -> (r: Option<&Material>)
        ensures
            r is Some <==> spec_has_code(self.materials@, code@),
            r matches Some(m) ==> *m == self.materials@[first_code_index(
                self.materials@,
                code@,
            )],
    {
        proof {
            lemma_first_code_index(self.materials@, code@);
        }
        let mut i: usize = 0;
        while i < self.materials.len()
            invariant
                i <= self.materials@.len(),
                forall|j: int| 0 <= j < i ==> (#[trigger] self.materials@[j]).code@
                    != code@,
            decreases self.materials@.len() - i,
        {
            if str_eq(self.materials[i].code.as_str(), code) {
                proof {
                    lemma_first_code_index_is(self.materials@, code@, i as int);
                }
                return Some(&self.materials[i]);
            }
            i += 1;
        }
        None
    }

    /// Materials whose category is the same variant as the given one, in
    /// insertion order.
    pub fn get_materials_by_category(&self, category: &MaterialCategory) -> (r: Vec<
        &Material,
    >)
        ensures
            r@.map_values(|m: &Material| *m) == self.materials@.filter(
                |m: Material| m.category.spec_same_kind(*category),
            ),
    {
        let ghost pred = |m: Material| m.category.spec_same_kind(*category);
        let mut r: Vec<&Material> = Vec::new();
        let mut i: usize = 0;
        while i < self.materials.len()
            invariant
                i <= self.materials@.len(),
                r@.map_values(|m: &Material| *m) == self.materials@.take(i as int).filter(
                    pred,
                ),
                pred == (|m: Material| m.category.spec_same_kind(*category)),
            decreases self.materials@.len() - i,
        {
            let ghost prefix = self.materials@.take(i as int);
            proof {
                assert(self.materials@.take(i + 1).drop_last() =~= prefix);
                assert(self.materials@.take(i + 1).last() == self.materials@[i as int]);
                reveal_with_fuel(Seq::filter, 2);
            }
            if self.materials[i].category.same_kind(category) {
                r.push(&self.materials[i]);
            }
            proof {
                assert(r@.map_values(|m: &Material| *m) =~= self.materials@.take(i + 1)
                    .filter(pred));
            }
            i += 1;
        }
        proof {
            assert(self.materials@.take(self.materials@.len() as int) =~= self.materials@);
        }
        r
    }

    /// Materials of the given discipline, in insertion order.
    pub fn get_materials_by_discipline(&self, discipline: Discipline) -> (r: Vec<
        &Material,
    >)
        ensures
            r@.map_values(|m: &Material| *m) == self.materials@.filter(
                |m: Material| m.discipline == discipline,
            ),
    {
        let ghost pred = |m: Material| m.discipline == discipline;
        let mut r: Vec<&Material> = Vec::new();
        let mut i: usize = 0;
        while i < self.materials.len()
            invariant
                i <= self.materials@.len(),
                r@.map_values(|m: &Material| *m) == self.materials@.take(i as int).filter(
                    pred,
                ),
                pred == (|m: Material| m.discipline == discipline),
            decreases self.materials@.len() - i,
        {
            let ghost prefix = self.materials@.take(i as int);
            proof {
                assert(self.materials@.take(i + 1).drop_last() =~= prefix);
                assert(self.materials@.take(i + 1).last() == self.materials@[i as int]);
                reveal_with_fuel(Seq::filter, 2);
            }
            if self.materials[i].discipline == discipline {
                r.push(&self.materials[i]);
            }
            proof {
                assert(r@.map_values(|m: &Material| *m) =~= self.materials@.take(i + 1)
                    .filter(pred));
            }
            i += 1;
        }
        proof {
            assert(self.materials@.take(self.materials@.len() as int) =~= self.materials@);
        }
        r
    }

    /// Load default materials for drywall, suspended ceiling and electrical
    /// calculations: a canonical starter catalog of eleven entries.  On a
    /// catalog that holds none of the seed codes (in particular a fresh one)
    /// the seed entries are appended in order; a seed code already present is
    /// overwritten in place, as `add_material` does.
    #[verifier::rlimit(100)]
    pub fn load_defaults(&mut self)
        ensures
            final(self).materials@.len() <= old(self).materials@.len() + 11,
            forall|k: int| 0 <= k < 11 ==> spec_has_code(
                final(self).materials@,
                seed_code(k),
            ),
            (forall|k: int| 0 <= k < 11 ==> !spec_has_code(
                old(self).materials@,
                seed_code(k),
            )) ==> {
                &&& final(self).materials@.len() == old(self).materials@.len() + 11
                &&& final(self).materials@.take(old(self).materials@.len() as int)
                    == old(self).materials@
                &&& forall|k: int| old(self).materials@.len() <= k < old(
                    self,
                ).materials@.len() + 11 ==> seed_matches(
                    #[trigger] final(self).materials@[k],
                    k - old(self).materials@.len(),
                )
            },
    {
        let ghost s0 = self.materials@;
        let ghost h = forall|k: int| 0 <= k < 11 ==> !spec_has_code(s0, seed_code(k));

        let m0 = Material::new(
            "Drywall Panel 12.5mm".to_owned(),
            "DW_PANEL_125".to_owned(),
            Unit::SquareMeter,
            15_500,
            Discipline::Drywall,
            MaterialCategory::DrywallPanel,
        );
        let ghost g0 = m0;
        let ghost p0 = self.materials@;
        self.add_material(m0);
        proof {
            assert(seed_matches(g0, 0));
            if h {
                assert(p0.take(s0.len() as int) =~= s0);
                lemma_seed_step(s0, p0, g0, 0);
                assert(self.materials@ == p0.push(g0));
                assert(self.materials@.take(s0.len() as int) =~= s0);
                assert(forall|i: int| s0.len() <= i < self.materials@.len() ==> (
                    #[trigger] self.materials@[i]).code@ == seed_code(i - s0.len()));
            }
            assert forall|c: Seq<char>| spec_has_code(p0, c) implies spec_has_code(
                self.materials@,
                c,
            ) by {
                lemma_add_material_codes(p0, g0, c);
            }
            lemma_add_material_codes(p0, g0, g0.code@);
            lemma_first_code_index(p0, g0.code@);
            assert(self.materials@.len() <= p0.len() + 1);
        }

        let m1 = Material::new(
            "Metal Stud 75mm".to_owned(),
            "DW_STUD_75".to_owned(),
            Unit::Meter,
            3_200,
            Discipline::Drywall,
            MaterialCategory::DrywallStud,
        );
        let ghost g1 = m1;
        let ghost p1 = self.materials@;
        self.add_material(m1);
        proof {
            assert(seed_matches(g1, 1));
            if h {
                assert(p1.take(s0.len() as int) =~= s0);
                lemma_seed_step(s0, p1, g1, 1);
                assert(self.materials@ == p1.push(g1));
                assert(self.materials@.take(s0.len() as int) =~= s0);
                assert(forall|i: int| s0.len() <= i < self.materials@.len() ==> (
                    #[trigger] self.materials@[i]).code@ == seed_code(i - s0.len()));
            }
            assert forall|c: Seq<char>| spec_has_code(p1, c) implies spec_has_code(
                self.materials@,
                c,
            ) by {
                lemma_add_material_codes(p1, g1, c);
            }
            lemma_add_material_codes(p1, g1, g1.code@);
            lemma_first_code_index(p1, g1.code@);
            assert(self.materials@.len() <= p1.len() + 1);
        }

        let m2 = Material::new(
            "Metal Track 75mm".to_owned(),
            "DW_TRACK_75".to_owned(),
            Unit::Meter,
            2_800,
            Discipline::Drywall,
            MaterialCategory::DrywallTrack,
        );
        let ghost g2 = m2;
        let ghost p2 = self.materials@;
        self.add_material(m2);
        proof {
            assert(seed_matches(g2, 2));
            if h {
                assert(p2.take(s0.len() as int) =~= s0);
                lemma_seed_step(s0, p2, g2, 2);
                assert(self.materials@ == p2.push(g2));
                assert(self.materials@.take(s0.len() as int) =~= s0);
                assert(forall|i: int| s0.len() <= i < self.materials@.len() ==> (
                    #[trigger] self.materials@[i]).code@ == seed_code(i - s0.len()));
            }
            assert forall|c: Seq<char>| spec_has_code(p2, c) implies spec_has_code(
                self.materials@,
                c,
            ) by {
                lemma_add_material_codes(p2, g2, c);
            }
            lemma_add_material_codes(p2, g2, g2.code@);
            lemma_first_code_index(p2, g2.code@);
            assert(self.materials@.len() <= p2.len() + 1);
        }

        let m3 = Material::new(
            "Drywall Screw 25mm".to_owned(),
            "DW_SCREW_25".to_owned(),
            Unit::Piece,
            50,
            Discipline::Drywall,
            MaterialCategory::DrywallScrew,
        );
        let ghost g3 = m3;
        let ghost p3 = self.materials@;
        self.add_material(m3);
        proof {
            assert(seed_matches(g3, 3));
            if h {
                assert(p3.take(s0.len() as int) =~= s0);
                lemma_seed_step(s0, p3, g3, 3);
                assert(self.materials@ == p3.push(g3));
                assert(self.materials@.take(s0.len() as int) =~= s0);
                assert(forall|i: int| s0.len() <= i < self.materials@.len() ==> (
                    #[trigger] self.materials@[i]).code@ == seed_code(i - s0.len()));
            }
            assert forall|c: Seq<char>| spec_has_code(p3, c) implies spec_has_code(
                self.materials@,
                c,
            ) by {
                lemma_add_material_codes(p3, g3, c);
            }
            lemma_add_material_codes(p3, g3, g3.code@);
            lemma_first_code_index(p3, g3.code@);
            assert(self.materials@.len() <= p3.len() + 1);
        }

        let m4 = Material::new(
            "Ceiling Tile 600x600".to_owned(),
            "CEIL_TILE_600".to_owned(),
            Unit::Piece,
            12_500,
            Discipline::SuspendedCeiling,
            MaterialCategory::CeilingTile,
        );
        let ghost g4 = m4;
        let ghost p4 = self.materials@;
        self.add_material(m4);
        proof {
            assert(seed_matches(g4, 4));
            if h {
                assert(p4.take(s0.len() as int) =~= s0);
                lemma_seed_step(s0, p4, g4, 4);
                assert(self.materials@ == p4.push(g4));
                assert(self.materials@.take(s0.len() as int) =~= s0);
                assert(forall|i: int| s0.len() <= i < self.materials@.len() ==> (
                    #[trigger] self.materials@[i]).code@ == seed_code(i - s0.len()));
            }
            assert forall|c: Seq<char>| spec_has_code(p4, c) implies spec_has_code(
                self.materials@,
                c,
            ) by {
                lemma_add_material_codes(p4, g4, c);
            }
            lemma_add_material_codes(p4, g4, g4.code@);
            lemma_first_code_index(p4, g4.code@);
            assert(self.materials@.len() <= p4.len() + 1);
        }

        let m5 = Material::new(
            "T-Grid Main Profile".to_owned(),
            "CEIL_GRID_MAIN".to_owned(),
            Unit::Meter,
            8_500,
            Discipline::SuspendedCeiling,
            MaterialCategory::CeilingGrid,
        );
        let ghost g5 = m5;
        let ghost p5 = self.materials@;
        self.add_material(m5);
        proof {
            assert(seed_matches(g5, 5));
            if h {
                assert(p5.take(s0.len() as int) =~= s0);
                lemma_seed_step(s0, p5, g5, 5);
                assert(self.materials@ == p5.push(g5));
                assert(self.materials@.take(s0.len() as int) =~= s0);
                assert(forall|i: int| s0.len() <= i < self.materials@.len() ==> (
                    #[trigger] self.materials@[i]).code@ == seed_code(i - s0.len()));
            }
            assert forall|c: Seq<char>| spec_has_code(p5, c) implies spec_has_code(
                self.materials@,
                c,
            ) by {
                lemma_add_material_codes(p5, g5, c);
            }
            lemma_add_material_codes(p5, g5, g5.code@);
            lemma_first_code_index(p5, g5.code@);
            assert(self.materials@.len() <= p5.len() + 1);
        }

        let m6 = Material::new(
            "T-Grid Cross Profile".to_owned(),
            "CEIL_GRID_CROSS".to_owned(),
            Unit::Meter,
            6_500,
            Discipline::SuspendedCeiling,
            MaterialCategory::CeilingGrid,
        );
        let ghost g6 = m6;
        let ghost p6 = self.materials@;
        self.add_material(m6);
        proof {
            assert(seed_matches(g6, 6));
            if h {
                assert(p6.take(s0.len() as int) =~= s0);
                lemma_seed_step(s0, p6, g6, 6);
                assert(self.materials@ == p6.push(g6));
                assert(self.materials@.take(s0.len() as int) =~= s0);
                assert(forall|i: int| s0.len() <= i < self.materials@.len() ==> (
                    #[trigger] self.materials@[i]).code@ == seed_code(i - s0.len()));
            }
            assert forall|c: Seq<char>| spec_has_code(p6, c) implies spec_has_code(
                self.materials@,
                c,
            ) by {
                lemma_add_material_codes(p6, g6, c);
            }
            lemma_add_material_codes(p6, g6, g6.code@);
            lemma_first_code_index(p6, g6.code@);
            assert(self.materials@.len() <= p6.len() + 1);
        }

        let m7 = Material::new(
            "Ceiling Hanger".to_owned(),
            "CEIL_HANGER".to_owned(),
            Unit::Piece,
            1_200,
            Discipline::SuspendedCeiling,
            MaterialCategory::CeilingHanger,
        );
        let ghost g7 = m7;
        let ghost p7 = self.materials@;
        self.add_material(m7);
        proof {
            assert(seed_matches(g7, 7));
            if h {
                assert(p7.take(s0.len() as int) =~= s0);
                lemma_seed_step(s0, p7, g7, 7);
                assert(self.materials@ == p7.push(g7));
                assert(self.materials@.take(s0.len() as int) =~= s0);
                assert(forall|i: int| s0.len() <= i < self.materials@.len() ==> (
                    #[trigger] self.materials@[i]).code@ == seed_code(i - s0.len()));
            }
            assert forall|c: Seq<char>| spec_has_code(p7, c) implies spec_has_code(
                self.materials@,
                c,
            ) by {
                lemma_add_material_codes(p7, g7, c);
            }
            lemma_add_material_codes(p7, g7, g7.code@);
            lemma_first_code_index(p7, g7.code@);
            assert(self.materials@.len() <= p7.len() + 1);
        }

        let m8 = Material::new(
            "Wall Anchor 8mm".to_owned(),
            "ANCHOR_8MM".to_owned(),
            Unit::Piece,
            250,
            Discipline::Architecture,
            MaterialCategory::Anchor,
        );
        let ghost g8 = m8;
        let ghost p8 = self.materials@;
        self.add_material(m8);
        proof {
            assert(seed_matches(g8, 8));
            if h {
                assert(p8.take(s0.len() as int) =~= s0);
                lemma_seed_step(s0, p8, g8, 8);
                assert(self.materials@ == p8.push(g8));
                assert(self.materials@.take(s0.len() as int) =~= s0);
                assert(forall|i: int| s0.len() <= i < self.materials@.len() ==> (
                    #[trigger] self.materials@[i]).code@ == seed_code(i - s0.len()));
            }
            assert forall|c: Seq<char>| spec_has_code(p8, c) implies spec_has_code(
                self.materials@,
                c,
            ) by {
                lemma_add_material_codes(p8, g8, c);
            }
            lemma_add_material_codes(p8, g8, g8.code@);
            lemma_first_code_index(p8, g8.code@);
            assert(self.materials@.len() <= p8.len() + 1);
        }

        let m9 = Material::new(
            "NYM Cable 3x1.5mm".to_owned(),
            "ELEC_NYM_315".to_owned(),
            Unit::MeterCable,
            2_800,
            Discipline::Electrical,
            MaterialCategory::ElectricalCable,
        );
        let ghost g9 = m9;
        let ghost p9 = self.materials@;
        self.add_material(m9);
        proof {
            assert(seed_matches(g9, 9));
            if h {
                assert(p9.take(s0.len() as int) =~= s0);
                lemma_seed_step(s0, p9, g9, 9);
                assert(self.materials@ == p9.push(g9));
                assert(self.materials@.take(s0.len() as int) =~= s0);
                assert(forall|i: int| s0.len() <= i < self.materials@.len() ==> (
                    #[trigger] self.materials@[i]).code@ == seed_code(i - s0.len()));
            }
            assert forall|c: Seq<char>| spec_has_code(p9, c) implies spec_has_code(
                self.materials@,
                c,
            ) by {
                lemma_add_material_codes(p9, g9, c);
            }
            lemma_add_material_codes(p9, g9, g9.code@);
            lemma_first_code_index(p9, g9.code@);
            assert(self.materials@.len() <= p9.len() + 1);
        }

        let m10 = Material::new(
            "Standard Outlet".to_owned(),
            "ELEC_OUTLET_STD".to_owned(),
            Unit::Piece,
            8_500,
            Discipline::Electrical,
            MaterialCategory::ElectricalOutlet,
        );
        let ghost g10 = m10;
        let ghost p10 = self.materials@;
        self.add_material(m10);
        proof {
            assert(seed_matches(g10, 10));
            if h {
                assert(p10.take(s0.len() as int) =~= s0);
                lemma_seed_step(s0, p10, g10, 10);
                assert(self.materials@ == p10.push(g10));
                assert(self.materials@.take(s0.len() as int) =~= s0);
                assert(forall|i: int| s0.len() <= i < self.materials@.len() ==> (
                    #[trigger] self.materials@[i]).code@ == seed_code(i - s0.len()));
            }
            assert forall|c: Seq<char>| spec_has_code(p10, c) implies spec_has_code(
                self.materials@,
                c,
            ) by {
                lemma_add_material_codes(p10, g10, c);
            }
            lemma_add_material_codes(p10, g10, g10.code@);
            lemma_first_code_index(p10, g10.code@);
            assert(self.materials@.len() <= p10.len() + 1);
        }

    }
}

impl Default for MaterialDatabase {
    /// A catalog holding exactly the default seed materials.
    fn default() -> (db: MaterialDatabase)
        ensures
            db.materials@.len() == 11,
            forall|k: int| 0 <= k < 11 ==> seed_matches(#[trigger] db.materials@[k], k),
            db.wf(),
    {
        let mut db = MaterialDatabase::new();
        proof {
            assert(forall|k: int| 0 <= k < 11 ==> !spec_has_code(
                db.materials@,
                seed_code(k),
            ));
        }
        db.load_defaults();
        db
    }
}

} // verus!
