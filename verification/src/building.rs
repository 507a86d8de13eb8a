//! The design tree: a project holds buildings, buildings hold floors, and
//! floors hold walls, openings and components.
//!
//! Lengths are integer millimetres; a quantity of one metre is therefore the
//! fixed-point value 1000.  The `wf` predicates bound coordinates and list
//! lengths so that every quantity formula provably fits its machine integer.

use vstd::prelude::*;
use crate::{Discipline, EntityId, new_entity_id, now_rfc3339};
use crate::arith::{isqrt, sqrt_floor, lemma_sqrt_floor_bounds};
use crate::components::Component;
use crate::geometry::Point2D;

verus! {

/// Largest coordinate magnitude, in millimetres (one kilometre).
pub const MAX_COORD_MM: i64 = 1_000_000;

/// Largest wall height, in millimetres (one hundred metres).
pub const MAX_WALL_HEIGHT_MM: u64 = 100_000;

/// Largest wall length a well-formed wall can have (the diagonal of the
/// coordinate range): `sqrt(8e12)` rounded down.
pub const MAX_WALL_LEN_MM: u64 = 2_828_427;

pub const MAX_WALLS_PER_FLOOR: usize = 1000;

pub const MAX_COMPONENTS_PER_FLOOR: usize = 1000;

pub const MAX_FLOORS_PER_BUILDING: usize = 100;

pub const MAX_BUILDINGS_PER_PROJECT: usize = 100;

/// Wall represents a structural or partition wall.
#[derive(Debug, Clone)]
pub struct Wall {
    pub id: EntityId,
    pub name: String,
    pub start_point: Point2D,
    pub end_point: Point2D,
    /// in millimetres
    pub thickness_mm: u64,
    /// in millimetres
    pub height_mm: u64,
    pub material: String,
    pub disciplines: Vec<Discipline>,
}

impl Wall {
    /// Coordinates and height within the ranges every formula is proved for.
    pub open spec fn wf(self) -> bool {
        &&& -MAX_COORD_MM <= self.start_point.x <= MAX_COORD_MM
        &&& -MAX_COORD_MM <= self.start_point.y <= MAX_COORD_MM
        &&& -MAX_COORD_MM <= self.end_point.x <= MAX_COORD_MM
        &&& -MAX_COORD_MM <= self.end_point.y <= MAX_COORD_MM
        &&& self.height_mm <= MAX_WALL_HEIGHT_MM
    }

    /// Squared distance between the wall's endpoints, in square millimetres.
    pub open spec fn spec_len2(self) -> int {
        let dx = self.end_point.x - self.start_point.x;
        let dy = self.end_point.y - self.start_point.y;
        dx * dx + dy * dy
    }

    /// Wall length in millimetres: the floor of the Euclidean distance.
    pub open spec fn spec_length_mm(self) -> int {
        sqrt_floor(self.spec_len2() as nat) as int
    }

    /// Wall face area in thousandths of a square metre.
    pub open spec fn spec_area_milli(self) -> int {
        self.spec_length_mm() * self.height_mm / 1000
    }

    /// Whether the wall participates in the given discipline.
    pub open spec fn spec_has_discipline(self, d: Discipline) -> bool {
        self.disciplines@.contains(d)
    }

    /// A well-formed wall is no longer than the diagonal of the coordinate
    /// range and its face area fits comfortably in the quantity type.
    pub proof fn lemma_len_bounds(self)
        requires
            self.wf(),
        ensures
            0 <= self.spec_length_mm() <= MAX_WALL_LEN_MM,
            0 <= self.spec_area_milli() <= 282_842_700,
    {
        let dx = self.end_point.x - self.start_point.x;
        let dy = self.end_point.y - self.start_point.y;
        assert(0 <= dx * dx <= 4_000_000_000_000int && 0 <= dy * dy
            <= 4_000_000_000_000int) by (nonlinear_arith)
            requires -2_000_000 <= dx <= 2_000_000 && -2_000_000 <= dy <= 2_000_000;
        let n = self.spec_len2() as nat;
        lemma_sqrt_floor_bounds(n);
        let r = sqrt_floor(n);
        if r > MAX_WALL_LEN_MM {
            assert(r * r > 8_000_000_000_000nat) by (nonlinear_arith)
                requires r >= 2_828_428;
        }
        assert(0 <= self.spec_length_mm() * self.height_mm <= 282_842_700_000int)
            by (nonlinear_arith)
            requires
                0 <= self.spec_length_mm() <= 2_828_427,
                0 <= self.height_mm <= 100_000;
        vstd::arithmetic::div_mod::lemma_div_is_ordered(
            self.spec_length_mm() * self.height_mm,
            282_842_700_000int,
            1000int,
        );
        vstd::arithmetic::div_mod::lemma_div_is_ordered(
            0,
            self.spec_length_mm() * self.height_mm,
            1000int,
        );
    }

    pub fn new(
        name: String,
        start: Point2D,
        end: Point2D,
        thickness_mm: u64,
        height_mm: u64,
    ) -> (w: Wall)
        ensures
            w.name == name,
            w.start_point == start,
            w.end_point == end,
            w.thickness_mm == thickness_mm,
            w.height_mm == height_mm,
            w.material@ == "Generic"@,
            w.disciplines@ == seq![Discipline::Architecture],
    {
        let mut disciplines: Vec<Discipline> = Vec::new();
        disciplines.push(Discipline::Architecture);
        proof {
            assert(disciplines@ =~= seq![Discipline::Architecture]);
        }
        Wall {
            id: new_entity_id(),
            name,
            start_point: start,
            end_point: end,
            thickness_mm,
            height_mm,
            material: "Generic".to_owned(),
            disciplines,
        }
    }

    /// Length between the endpoints, rounded down to whole millimetres.
    pub fn length(&self) -> (r: u64)
        requires
            self.wf(),
        ensures
            r as int == self.spec_length_mm(),
            r <= MAX_WALL_LEN_MM,
    {
        let dx: i64 = self.end_point.x - self.start_point.x;
        let dy: i64 = self.end_point.y - self.start_point.y;
        proof {
            assert(0 <= dx * dx <= 4_000_000_000_000int && 0 <= dy * dy
                <= 4_000_000_000_000int) by (nonlinear_arith)
                requires -2_000_000 <= dx <= 2_000_000 && -2_000_000 <= dy <= 2_000_000;
        }
        let len2: u64 = (dx * dx + dy * dy) as u64;
        let r = isqrt(len2);
        proof {
            assert(r <= MAX_WALL_LEN_MM) by (nonlinear_arith)
                requires (r as int) * (r as int) <= len2 as int <= 8_000_000_000_000int;
        }
        r
    }

    /// Face area in thousandths of a square metre.
    pub fn area(&self) -> (r: u64)
        requires
            self.wf(),
        ensures
            r as int == self.spec_area_milli(),
            r <= 282_842_700,
    {
        let len = self.length();
        proof {
            assert((len as int) * (self.height_mm as int) <= 282_842_700_000int)
                by (nonlinear_arith)
                requires
                    0 <= len as int <= 2_828_427,
                    0 <= self.height_mm <= 100_000;
        }
        (len * self.height_mm) / 1000
    }

    /// Whether the wall participates in the given discipline.
    pub fn has_discipline(&self, d: Discipline) -> (r: bool)
        ensures
            r == self.spec_has_discipline(d),
    {
        let mut i: usize = 0;
        while i < self.disciplines.len()
            invariant
                i <= self.disciplines@.len(),
                forall|j: int| 0 <= j < i ==> self.disciplines@[j] != d,
            decreases self.disciplines@.len() - i,
        {
            if self.disciplines[i] == d {
                return true;
            }
            i += 1;
        }
        false
    }
}

/// Opening represents doors, windows, etc.
#[derive(Debug, Clone)]
pub struct Opening {
    pub id: EntityId,
    pub name: String,
    pub opening_type: OpeningType,
    pub position: Point2D,
    /// in millimetres
    pub width_mm: u64,
    /// in millimetres
    pub height_mm: u64,
    /// Associated wall
    pub wall_id: Option<EntityId>,
}

#[derive(Debug, Clone, Copy, PartialEq, Eq, Structural)]
pub enum OpeningType {
    Door,
    Window,
    Opening,
}

impl Opening {
    pub fn new(
        name: String,
        opening_type: OpeningType,
        position: Point2D,
        width_mm: u64,
        height_mm: u64,
    ) -> (o: Opening)
        ensures
            o.name == name,
            o.opening_type == opening_type,
            o.position == position,
            o.width_mm == width_mm,
            o.height_mm == height_mm,
            o.wall_id is None,
    {
        Opening {
            id: new_entity_id(),
            name,
            opening_type,
            position,
            width_mm,
            height_mm,
            wall_id: None,
        }
    }

    /// Opening area in thousandths of a square metre.
    pub fn area(&self) -> (r: u64)
        requires
            self.width_mm <= 1_000_000,
            self.height_mm <= 1_000_000,
        ensures
            r as int == (self.width_mm * self.height_mm) as int / 1000,
    {
        proof {
            assert((self.width_mm as int) * (self.height_mm as int)
                <= 1_000_000_000_000int) by (nonlinear_arith)
                requires
                    0 <= self.width_mm <= 1_000_000,
                    0 <= self.height_mm <= 1_000_000;
        }
        (self.width_mm * self.height_mm) / 1000
    }
}

/// Floor/Level represents a single level of a building.
#[derive(Debug, Clone)]
pub struct Floor {
    pub id: EntityId,
    pub name: String,
    /// elevation in millimetres
    pub level_mm: i64,
    /// height in millimetres
    pub ceiling_height_mm: u64,
    pub walls: Vec<Wall>,
    pub openings: Vec<Opening>,
    pub components: Vec<Component>,
}

impl Floor {
    /// Bounded list lengths and well-formed walls.
    pub open spec fn wf(self) -> bool {
        &&& self.walls@.len() <= MAX_WALLS_PER_FLOOR
        &&& self.components@.len() <= MAX_COMPONENTS_PER_FLOOR
        &&& forall|j: int| 0 <= j < self.walls@.len() ==> (#[trigger] self.walls@[j]).wf()
    }

    pub fn new(name: String, level_mm: i64, ceiling_height_mm: u64) -> (f: Floor)
        ensures
            f.name == name,
            f.level_mm == level_mm,
            f.ceiling_height_mm == ceiling_height_mm,
            f.walls@ =~= Seq::<Wall>::empty(),
            f.openings@ =~= Seq::<Opening>::empty(),
            f.components@ =~= Seq::<Component>::empty(),
            f.wf(),
    {
        Floor {
            id: new_entity_id(),
            name,
            level_mm,
            ceiling_height_mm,
            walls: Vec::new(),
            openings: Vec::new(),
            components: Vec::new(),
        }
    }

    pub fn add_wall(&mut self, wall: Wall)
        ensures
            final(self).walls@ == old(self).walls@.push(wall),
            final(self).openings == old(self).openings,
            final(self).components == old(self).components,
            final(self).id == old(self).id,
            final(self).name == old(self).name,
            final(self).level_mm == old(self).level_mm,
            final(self).ceiling_height_mm == old(self).ceiling_height_mm,
    {
        self.walls.push(wall);
    }

    pub fn add_opening(&mut self, opening: Opening)
        ensures
            final(self).openings@ == old(self).openings@.push(opening),
            final(self).walls == old(self).walls,
            final(self).components == old(self).components,
            final(self).id == old(self).id,
            final(self).name == old(self).name,
            final(self).level_mm == old(self).level_mm,
            final(self).ceiling_height_mm == old(self).ceiling_height_mm,
    {
        self.openings.push(opening);
    }

    pub fn add_component(&mut self, component: Component)
        ensures
            final(self).components@ == old(self).components@.push(component),
            final(self).walls == old(self).walls,
            final(self).openings == old(self).openings,
            final(self).id == old(self).id,
            final(self).name == old(self).name,
            final(self).level_mm == old(self).level_mm,
            final(self).ceiling_height_mm == old(self).ceiling_height_mm,
    {
        self.components.push(component);
    }

    /// Get walls filtered by discipline, in their original order.
    pub fn walls_by_discipline(&self, discipline: Discipline) -> (r: Vec<&Wall>)
        ensures
            r@.map_values(|w: &Wall| *w) == self.walls@.filter(
                |w: Wall| w.spec_has_discipline(discipline),
            ),
    {
        let ghost pred = |w: Wall| w.spec_has_discipline(discipline);
        let mut r: Vec<&Wall> = Vec::new();
        let mut i: usize = 0;
        while i < self.walls.len()
            invariant
                i <= self.walls@.len(),
                r@.map_values(|w: &Wall| *w) == self.walls@.take(i as int).filter(pred),
                pred == (|w: Wall| w.spec_has_discipline(discipline)),
            decreases self.walls@.len() - i,
        {
            let ghost prefix = self.walls@.take(i as int);
            let w = &self.walls[i];
            proof {
                assert(self.walls@.take(i + 1).drop_last() =~= prefix);
                assert(self.walls@.take(i + 1).last() == self.walls@[i as int]);
                reveal_with_fuel(Seq::filter, 2);
            }
            if w.has_discipline(discipline) {
                r.push(w);
                proof {
                    assert(r@.map_values(|w: &Wall| *w) =~= self.walls@.take(i + 1).filter(
                        pred,
                    ));
                }
            } else {
                proof {
                    assert(r@.map_values(|w: &Wall| *w) =~= self.walls@.take(i + 1).filter(
                        pred,
                    ));
                }
            }
            i += 1;
        }
        proof {
            assert(self.walls@.take(self.walls@.len() as int) =~= self.walls@);
        }
        r
    }
}

/// Building contains multiple floors/levels.
#[derive(Debug, Clone)]
pub struct Building {
    pub id: EntityId,
    pub name: String,
    pub address: String,
    pub floors: Vec<Floor>,
}

impl Building {
    pub open spec fn wf(self) -> bool {
        &&& self.floors@.len() <= MAX_FLOORS_PER_BUILDING
        &&& forall|j: int| 0 <= j < self.floors@.len() ==> (#[trigger] self.floors@[j]).wf()
    }

    pub fn new(name: String, address: String) -> (b: Building)
        ensures
            b.name == name,
            b.address == address,
            b.floors@ =~= Seq::<Floor>::empty(),
            b.wf(),
    {
        Building {
            id: new_entity_id(),
            name,
            address,
            floors: Vec::new(),
        }
    }

    pub fn add_floor(&mut self, floor: Floor)
        ensures
            final(self).floors@ == old(self).floors@.push(floor),
            final(self).id == old(self).id,
            final(self).name == old(self).name,
            final(self).address == old(self).address,
    {
        self.floors.push(floor);
    }
}

/// Project represents the root container for all design data.
#[derive(Debug, Clone)]
pub struct Project {
    pub id: EntityId,
    pub name: String,
    pub description: String,
    pub buildings: Vec<Building>,
    /// ISO 8601 timestamp
    pub created_at: String,
    pub modified_at: String,
    pub version: String,
}

impl Project {
    pub open spec fn wf(self) -> bool {
        &&& self.buildings@.len() <= MAX_BUILDINGS_PER_PROJECT
        &&& forall|j: int| 0 <= j < self.buildings@.len() ==> (
            #[trigger] self.buildings@[j]).wf()
    }

    pub fn new(name: String, description: String) -> (p: Project)
        ensures
            p.name == name,
            p.description == description,
            p.buildings@ =~= Seq::<Building>::empty(),
            p.version@ == "0.1.0"@,
            p.wf(),
    {
        let now = now_rfc3339();
        let now2 = now.clone();
        Project {
            id: new_entity_id(),
            name,
            description,
            buildings: Vec::new(),
            created_at: now,
            modified_at: now2,
            version: "0.1.0".to_owned(),
        }
    }

    pub fn add_building(&mut self, building: Building)
        ensures
            final(self).buildings@ == old(self).buildings@.push(building),
            final(self).id == old(self).id,
            final(self).name == old(self).name,
            final(self).description == old(self).description,
            final(self).created_at == old(self).created_at,
            final(self).version == old(self).version,
    {
        self.buildings.push(building);
        self.update_modified();
    }

    fn update_modified(&mut self)
        ensures
            final(self).buildings == old(self).buildings,
            final(self).id == old(self).id,
            final(self).name == old(self).name,
            final(self).description == old(self).description,
            final(self).created_at == old(self).created_at,
            final(self).version == old(self).version,
    {
        self.modified_at = now_rfc3339();
    }
}

} // verus!
