//! Drywall BOM calculator.
//!
//! Trade heuristics, all in fixed point (quantities in thousandths):
//! one square metre per panel component; studs at 400 mm centers times the
//! wall height; top and bottom tracks; 25 screws per square metre; track
//! fixings at 600 mm centers, top and bottom.

use vstd::prelude::*;
use crate::Discipline;
use crate::arith::{ceil_div, lemma_sum_prefix_bound, lemma_sum_by_take_succ, sum_by};
use crate::bom::{
    BomCalculator, BomError, BomItem, ItemSpec, items_match_plan, item_wf, plan_in_catalog,
};
use crate::building::{Floor, Project, Wall};
use crate::components::{Component, ComponentType, DrywallComponent};
use crate::material::MaterialDatabase;

verus! {

/// One square metre (a thousand thousandths) per drywall panel component.
pub open spec fn panel_term(c: Component) -> int {
    if c.discipline == Discipline::Drywall && (c.component_type matches
    ComponentType::Drywall(DrywallComponent::Panel)) {
        1000
    } else {
        0
    }
}

/// Face area of a wall tagged for drywall, else zero.
pub open spec fn area_term(w: Wall) -> int {
    if w.spec_has_discipline(Discipline::Drywall) {
        w.spec_area_milli()
    } else {
        0
    }
}

/// Stud length for a drywall wall: studs at 400 mm centers, each of the
/// wall's height.
pub open spec fn stud_term(w: Wall) -> int {
    if w.spec_has_discipline(Discipline::Drywall) {
        ceil_div(w.spec_length_mm(), 400) * w.height_mm
    } else {
        0
    }
}

/// Track length for a drywall wall: top and bottom.
pub open spec fn track_term(w: Wall) -> int {
    if w.spec_has_discipline(Discipline::Drywall) {
        2 * w.spec_length_mm()
    } else {
        0
    }
}

/// Track fixings for a drywall wall: every 600 mm, top and bottom, as whole
/// pieces in thousandths.
pub open spec fn fixing_term(w: Wall) -> int {
    if w.spec_has_discipline(Discipline::Drywall) {
        ceil_div(w.spec_length_mm(), 600) * 2 * 1000
    } else {
        0
    }
}

pub open spec fn panel_term_fn() -> spec_fn(Component) -> int {
    |c: Component| panel_term(c)
}

pub open spec fn area_term_fn() -> spec_fn(Wall) -> int {
    |w: Wall| area_term(w)
}

pub open spec fn stud_term_fn() -> spec_fn(Wall) -> int {
    |w: Wall| stud_term(w)
}

pub open spec fn track_term_fn() -> spec_fn(Wall) -> int {
    |w: Wall| track_term(w)
}

pub open spec fn fixing_term_fn() -> spec_fn(Wall) -> int {
    |w: Wall| fixing_term(w)
}

/// Drywall area of one floor: panel components plus drywall wall faces.
pub open spec fn floor_drywall_area(f: Floor) -> int {
    sum_by(f.components@, panel_term_fn()) + sum_by(f.walls@, area_term_fn())
}

pub open spec fn floor_stud_length(f: Floor) -> int {
    sum_by(f.walls@, stud_term_fn())
}

pub open spec fn floor_track_length(f: Floor) -> int {
    sum_by(f.walls@, track_term_fn())
}

pub open spec fn floor_fixing_count(f: Floor) -> int {
    sum_by(f.walls@, fixing_term_fn())
}

pub open spec fn floor_drywall_area_fn() -> spec_fn(Floor) -> int {
    |f: Floor| floor_drywall_area(f)
}

pub open spec fn floor_stud_length_fn() -> spec_fn(Floor) -> int {
    |f: Floor| floor_stud_length(f)
}

pub open spec fn floor_track_length_fn() -> spec_fn(Floor) -> int {
    |f: Floor| floor_track_length(f)
}

pub open spec fn floor_fixing_count_fn() -> spec_fn(Floor) -> int {
    |f: Floor| floor_fixing_count(f)
}

pub open spec fn building_drywall_area_fn() -> spec_fn(crate::building::Building) -> int {
    |b: crate::building::Building| sum_by(b.floors@, floor_drywall_area_fn())
}

pub open spec fn building_stud_length_fn() -> spec_fn(crate::building::Building) -> int {
    |b: crate::building::Building| sum_by(b.floors@, floor_stud_length_fn())
}

pub open spec fn building_track_length_fn() -> spec_fn(crate::building::Building) -> int {
    |b: crate::building::Building| sum_by(b.floors@, floor_track_length_fn())
}

pub open spec fn building_fixing_count_fn() -> spec_fn(crate::building::Building) -> int {
    |b: crate::building::Building| sum_by(b.floors@, floor_fixing_count_fn())
}

/// Drywall area of the whole project, in thousandths of a square metre.
pub open spec fn project_drywall_area(p: Project) -> int {
    sum_by(p.buildings@, building_drywall_area_fn())
}

/// Stud length of the whole project, in thousandths of a metre.
pub open spec fn project_stud_length(p: Project) -> int {
    sum_by(p.buildings@, building_stud_length_fn())
}

/// Track length of the whole project, in thousandths of a metre.
pub open spec fn project_track_length(p: Project) -> int {
    sum_by(p.buildings@, building_track_length_fn())
}

/// Track fixing count of the whole project, in thousandths of a piece.
pub open spec fn project_fixing_count(p: Project) -> int {
    sum_by(p.buildings@, building_fixing_count_fn())
}

/// The lines the drywall calculator intends to emit: nothing at zero area,
/// else panel, stud, track, screw and anchor quantities with their notes.
pub open spec fn drywall_plan(p: Project) -> Seq<ItemSpec> {
    let area = project_drywall_area(p);
    if area <= 0 {
        Seq::<ItemSpec>::empty()
    } else {
        seq![
            ItemSpec {
                code: "DW_PANEL_125"@,
                quantity_milli: area,
                note: "Calculated from wall areas and drywall components"@,
            },
            ItemSpec {
                code: "DW_STUD_75"@,
                quantity_milli: project_stud_length(p),
                note: "400mm spacing, standard height"@,
            },
            ItemSpec {
                code: "DW_TRACK_75"@,
                quantity_milli: project_track_length(p),
                note: "Top and bottom perimeter tracks"@,
            },
            ItemSpec {
                code: "DW_SCREW_25"@,
                quantity_milli: area * 25,
                note: "25 screws per m2 of drywall"@,
            },
            ItemSpec {
                code: "ANCHOR_8MM"@,
                quantity_milli: project_fixing_count(p),
                note: "Track fixings to structure, 600mm spacing"@,
            },
        ]
    }
}

/// Ranges of the per-wall terms for a well-formed wall.
pub proof fn lemma_wall_terms_bounds(w: Wall)
    requires
        w.wf(),
    ensures
        0 <= area_term(w) <= 282_842_700,
        0 <= stud_term(w) <= 707_200_000,
        0 <= track_term(w) <= 5_656_854,
        0 <= fixing_term(w) <= 9_430_000,
{
    w.lemma_len_bounds();
    let len = w.spec_length_mm();
    vstd::arithmetic::div_mod::lemma_div_is_ordered(0, len + 399, 400);
    vstd::arithmetic::div_mod::lemma_div_is_ordered(len + 399, 2_828_826, 400);
    assert(0 <= ceil_div(len, 400) <= 7072);
    assert(0 <= ceil_div(len, 400) * w.height_mm <= 707_200_000) by (nonlinear_arith)
        requires
            0 <= ceil_div(len, 400) <= 7072,
            0 <= w.height_mm <= 100_000;
    vstd::arithmetic::div_mod::lemma_div_is_ordered(0, len + 599, 600);
    vstd::arithmetic::div_mod::lemma_div_is_ordered(len + 599, 2_829_026, 600);
    assert(0 <= ceil_div(len, 600) <= 4715);
}

/// Ranges of the per-floor sums for a well-formed floor.
pub proof fn lemma_floor_sums_bounds(f: Floor)
    requires
        f.wf(),
    ensures
        0 <= floor_drywall_area(f) <= 282_843_700_000,
        0 <= floor_stud_length(f) <= 707_200_000_000,
        0 <= floor_track_length(f) <= 5_656_854_000,
        0 <= floor_fixing_count(f) <= 9_430_000_000,
{
    assert forall|j: int| 0 <= j < f.walls@.len() implies 0 <= #[trigger] area_term_fn()(
        f.walls@[j],
    ) <= 282_842_700 by {
        lemma_wall_terms_bounds(f.walls@[j]);
    }
    assert forall|j: int| 0 <= j < f.walls@.len() implies 0 <= #[trigger] stud_term_fn()(
        f.walls@[j],
    ) <= 707_200_000 by {
        lemma_wall_terms_bounds(f.walls@[j]);
    }
    assert forall|j: int| 0 <= j < f.walls@.len() implies 0 <= #[trigger] track_term_fn()(
        f.walls@[j],
    ) <= 5_656_854 by {
        lemma_wall_terms_bounds(f.walls@[j]);
    }
    assert forall|j: int| 0 <= j < f.walls@.len() implies 0 <= #[trigger] fixing_term_fn()(
        f.walls@[j],
    ) <= 9_430_000 by {
        lemma_wall_terms_bounds(f.walls@[j]);
    }
    assert(forall|j: int| 0 <= j < f.components@.len() ==> 0 <= #[trigger] panel_term_fn()(
        f.components@[j],
    ) <= 1000);
    lemma_sum_prefix_bound(f.components@, panel_term_fn(), f.components@.len() as int, 1000);
    lemma_sum_prefix_bound(
        f.walls@,
        area_term_fn(),
        f.walls@.len() as int,
        282_842_700,
    );
    lemma_sum_prefix_bound(f.walls@, stud_term_fn(), f.walls@.len() as int, 707_200_000);
    lemma_sum_prefix_bound(f.walls@, track_term_fn(), f.walls@.len() as int, 5_656_854);
    lemma_sum_prefix_bound(f.walls@, fixing_term_fn(), f.walls@.len() as int, 9_430_000);
    assert(f.components@.take(f.components@.len() as int) =~= f.components@);
    assert(f.walls@.take(f.walls@.len() as int) =~= f.walls@);
}

/// Ranges of the project-level sums for a well-formed project.
pub proof fn lemma_project_sums_bounds(p: Project)
    requires
        p.wf(),
    ensures
        0 <= project_drywall_area(p) <= 2_828_437_000_000_000,
        0 <= project_stud_length(p) <= 7_072_000_000_000_000,
        0 <= project_track_length(p) <= 56_568_540_000_000,
        0 <= project_fixing_count(p) <= 94_300_000_000_000,
{
    assert forall|i: int| 0 <= i < p.buildings@.len() implies 0
        <= #[trigger] building_drywall_area_fn()(p.buildings@[i]) <= 28_284_370_000_000 by {
        let b = p.buildings@[i];
        assert forall|j: int| 0 <= j < b.floors@.len() implies 0
            <= #[trigger] floor_drywall_area_fn()(b.floors@[j]) <= 282_843_700_000 by {
            lemma_floor_sums_bounds(b.floors@[j]);
        }
        assert forall|j: int| 0 <= j < b.floors@.len() implies 0
            <= #[trigger] floor_stud_length_fn()(b.floors@[j]) <= 707_200_000_000 by {
            lemma_floor_sums_bounds(b.floors@[j]);
        }
        assert forall|j: int| 0 <= j < b.floors@.len() implies 0
            <= #[trigger] floor_track_length_fn()(b.floors@[j]) <= 5_656_854_000 by {
            lemma_floor_sums_bounds(b.floors@[j]);
        }
        assert forall|j: int| 0 <= j < b.floors@.len() implies 0
            <= #[trigger] floor_fixing_count_fn()(b.floors@[j]) <= 9_430_000_000 by {
            lemma_floor_sums_bounds(b.floors@[j]);
        }
        lemma_sum_prefix_bound(
            b.floors@,
            floor_drywall_area_fn(),
            b.floors@.len() as int,
            282_843_700_000,
        );
        lemma_sum_prefix_bound(
            b.floors@,
            floor_stud_length_fn(),
            b.floors@.len() as int,
            707_200_000_000,
        );
        lemma_sum_prefix_bound(
            b.floors@,
            floor_track_length_fn(),
            b.floors@.len() as int,
            5_656_854_000,
        );
        lemma_sum_prefix_bound(
            b.floors@,
            floor_fixing_count_fn(),
            b.floors@.len() as int,
            9_430_000_000,
        );
        assert(b.floors@.take(b.floors@.len() as int) =~= b.floors@);
    }
    assert forall|i: int| 0 <= i < p.buildings@.len() implies 0
        <= #[trigger] building_stud_length_fn()(p.buildings@[i]) <= 70_720_000_000_000 by {
        let b = p.buildings@[i];
        assert forall|j: int| 0 <= j < b.floors@.len() implies 0
            <= #[trigger] floor_drywall_area_fn()(b.floors@[j]) <= 282_843_700_000 by {
            lemma_floor_sums_bounds(b.floors@[j]);
        }
        assert forall|j: int| 0 <= j < b.floors@.len() implies 0
            <= #[trigger] floor_stud_length_fn()(b.floors@[j]) <= 707_200_000_000 by {
            lemma_floor_sums_bounds(b.floors@[j]);
        }
        assert forall|j: int| 0 <= j < b.floors@.len() implies 0
            <= #[trigger] floor_track_length_fn()(b.floors@[j]) <= 5_656_854_000 by {
            lemma_floor_sums_bounds(b.floors@[j]);
        }
        assert forall|j: int| 0 <= j < b.floors@.len() implies 0
            <= #[trigger] floor_fixing_count_fn()(b.floors@[j]) <= 9_430_000_000 by {
            lemma_floor_sums_bounds(b.floors@[j]);
        }
        lemma_sum_prefix_bound(
            b.floors@,
            floor_drywall_area_fn(),
            b.floors@.len() as int,
            282_843_700_000,
        );
        lemma_sum_prefix_bound(
            b.floors@,
            floor_stud_length_fn(),
            b.floors@.len() as int,
            707_200_000_000,
        );
        lemma_sum_prefix_bound(
            b.floors@,
            floor_track_length_fn(),
            b.floors@.len() as int,
            5_656_854_000,
        );
        lemma_sum_prefix_bound(
            b.floors@,
            floor_fixing_count_fn(),
            b.floors@.len() as int,
            9_430_000_000,
        );
        assert(b.floors@.take(b.floors@.len() as int) =~= b.floors@);
    }
    assert forall|i: int| 0 <= i < p.buildings@.len() implies 0
        <= #[trigger] building_track_length_fn()(p.buildings@[i]) <= 565_685_400_000 by {
        let b = p.buildings@[i];
        assert forall|j: int| 0 <= j < b.floors@.len() implies 0
            <= #[trigger] floor_drywall_area_fn()(b.floors@[j]) <= 282_843_700_000 by {
            lemma_floor_sums_bounds(b.floors@[j]);
        }
        assert forall|j: int| 0 <= j < b.floors@.len() implies 0
            <= #[trigger] floor_stud_length_fn()(b.floors@[j]) <= 707_200_000_000 by {
            lemma_floor_sums_bounds(b.floors@[j]);
        }
        assert forall|j: int| 0 <= j < b.floors@.len() implies 0
            <= #[trigger] floor_track_length_fn()(b.floors@[j]) <= 5_656_854_000 by {
            lemma_floor_sums_bounds(b.floors@[j]);
        }
        assert forall|j: int| 0 <= j < b.floors@.len() implies 0
            <= #[trigger] floor_fixing_count_fn()(b.floors@[j]) <= 9_430_000_000 by {
            lemma_floor_sums_bounds(b.floors@[j]);
        }
        lemma_sum_prefix_bound(
            b.floors@,
            floor_drywall_area_fn(),
            b.floors@.len() as int,
            282_843_700_000,
        );
        lemma_sum_prefix_bound(
            b.floors@,
            floor_stud_length_fn(),
            b.floors@.len() as int,
            707_200_000_000,
        );
        lemma_sum_prefix_bound(
            b.floors@,
            floor_track_length_fn(),
            b.floors@.len() as int,
            5_656_854_000,
        );
        lemma_sum_prefix_bound(
            b.floors@,
            floor_fixing_count_fn(),
            b.floors@.len() as int,
            9_430_000_000,
        );
        assert(b.floors@.take(b.floors@.len() as int) =~= b.floors@);
    }
    assert forall|i: int| 0 <= i < p.buildings@.len() implies 0
        <= #[trigger] building_fixing_count_fn()(p.buildings@[i]) <= 943_000_000_000 by {
        let b = p.buildings@[i];
        assert forall|j: int| 0 <= j < b.floors@.len() implies 0
            <= #[trigger] floor_drywall_area_fn()(b.floors@[j]) <= 282_843_700_000 by {
            lemma_floor_sums_bounds(b.floors@[j]);
        }
        assert forall|j: int| 0 <= j < b.floors@.len() implies 0
            <= #[trigger] floor_stud_length_fn()(b.floors@[j]) <= 707_200_000_000 by {
            lemma_floor_sums_bounds(b.floors@[j]);
        }
        assert forall|j: int| 0 <= j < b.floors@.len() implies 0
            <= #[trigger] floor_track_length_fn()(b.floors@[j]) <= 5_656_854_000 by {
            lemma_floor_sums_bounds(b.floors@[j]);
        }
        assert forall|j: int| 0 <= j < b.floors@.len() implies 0
            <= #[trigger] floor_fixing_count_fn()(b.floors@[j]) <= 9_430_000_000 by {
            lemma_floor_sums_bounds(b.floors@[j]);
        }
        lemma_sum_prefix_bound(
            b.floors@,
            floor_drywall_area_fn(),
            b.floors@.len() as int,
            282_843_700_000,
        );
        lemma_sum_prefix_bound(
            b.floors@,
            floor_stud_length_fn(),
            b.floors@.len() as int,
            707_200_000_000,
        );
        lemma_sum_prefix_bound(
            b.floors@,
            floor_track_length_fn(),
            b.floors@.len() as int,
            5_656_854_000,
        );
        lemma_sum_prefix_bound(
            b.floors@,
            floor_fixing_count_fn(),
            b.floors@.len() as int,
            9_430_000_000,
        );
        assert(b.floors@.take(b.floors@.len() as int) =~= b.floors@);
    }
    lemma_sum_prefix_bound(
        p.buildings@,
        building_drywall_area_fn(),
        p.buildings@.len() as int,
        28_284_370_000_000,
    );
    lemma_sum_prefix_bound(
        p.buildings@,
        building_stud_length_fn(),
        p.buildings@.len() as int,
        70_720_000_000_000,
    );
    lemma_sum_prefix_bound(
        p.buildings@,
        building_track_length_fn(),
        p.buildings@.len() as int,
        565_685_400_000,
    );
    lemma_sum_prefix_bound(
        p.buildings@,
        building_fixing_count_fn(),
        p.buildings@.len() as int,
        943_000_000_000,
    );
    assert(p.buildings@.take(p.buildings@.len() as int) =~= p.buildings@);
}

/// Drywall area of one floor, by one pass over components and one over
/// walls.
fn floor_area_exec(f: &Floor) -> (r: u64)
    requires
        f.wf(),
    ensures
        r as int == floor_drywall_area(*f),
{
    let mut total: u64 = 0;
    let mut i: usize = 0;
    while i < f.components.len()
        invariant
            i <= f.components@.len(),
            f.components@.len() <= 1000,
            total as int == sum_by(f.components@.take(i as int), panel_term_fn()),
            total as int <= 1000 * (i as int),
        decreases f.components@.len() - i,
    {
        let c = &f.components[i];
        let mut v: u64 = 0;
        if c.discipline == Discipline::Drywall {
            if matches!(c.component_type, ComponentType::Drywall(DrywallComponent::Panel)) {
                v = 1000;
            }
        }
        proof {
            lemma_sum_by_take_succ(f.components@, panel_term_fn(), i as int);
            assert(panel_term_fn()(f.components@[i as int]) == v as int);
        }
        total = total + v;
        i += 1;
    }
    proof {
        assert(f.components@.take(f.components@.len() as int) =~= f.components@);
    }
    let ghost ctot = total as int;
    let mut i: usize = 0;
    while i < f.walls.len()
        invariant
            i <= f.walls@.len(),
            f.wf(),
            ctot <= 1_000_000,
            total as int == ctot + sum_by(f.walls@.take(i as int), area_term_fn()),
            total as int <= ctot + 282_842_700 * (i as int),
        decreases f.walls@.len() - i,
    {
        let w = &f.walls[i];
        let mut v: u64 = 0;
        if w.has_discipline(Discipline::Drywall) {
            v = w.area();
        }
        proof {
            lemma_sum_by_take_succ(f.walls@, area_term_fn(), i as int);
            assert(area_term_fn()(f.walls@[i as int]) == v as int);
        }
        total = total + v;
        i += 1;
    }
    proof {
        assert(f.walls@.take(f.walls@.len() as int) =~= f.walls@);
    }
    total
}

/// Stud length of one floor.
fn floor_stud_exec(f: &Floor) -> (r: u64)
    requires
        f.wf(),
    ensures
        r as int == floor_stud_length(*f),
{
    let mut total: u64 = 0;
    let mut i: usize = 0;
    while i < f.walls.len()
        invariant
            i <= f.walls@.len(),
            f.wf(),
            total as int == sum_by(f.walls@.take(i as int), stud_term_fn()),
            total as int <= 707_200_000 * (i as int),
        decreases f.walls@.len() - i,
    {
        let w = &f.walls[i];
        let mut v: u64 = 0;
        if w.has_discipline(Discipline::Drywall) {
            let len = w.length();
            let stud_count = (len + 399) / 400;
            proof {
                assert(stud_count as int * (w.height_mm as int) <= 707_200_000)
                    by (nonlinear_arith)
                    requires
                        0 <= stud_count as int <= 7072,
                        0 <= w.height_mm <= 100_000;
            }
            v = stud_count * w.height_mm;
        }
        proof {
            lemma_sum_by_take_succ(f.walls@, stud_term_fn(), i as int);
            lemma_wall_terms_bounds(f.walls@[i as int]);
            assert(stud_term_fn()(f.walls@[i as int]) == v as int);
        }
        total = total + v;
        i += 1;
    }
    proof {
        assert(f.walls@.take(f.walls@.len() as int) =~= f.walls@);
    }
    total
}

/// Track length of one floor.
fn floor_track_exec(f: &Floor) -> (r: u64)
    requires
        f.wf(),
    ensures
        r as int == floor_track_length(*f),
{
    let mut total: u64 = 0;
    let mut i: usize = 0;
    while i < f.walls.len()
        invariant
            i <= f.walls@.len(),
            f.wf(),
            total as int == sum_by(f.walls@.take(i as int), track_term_fn()),
            total as int <= 5_656_854 * (i as int),
        decreases f.walls@.len() - i,
    {
        let w = &f.walls[i];
        let mut v: u64 = 0;
        if w.has_discipline(Discipline::Drywall) {
            v = 2 * w.length();
        }
        proof {
            lemma_sum_by_take_succ(f.walls@, track_term_fn(), i as int);
            assert(track_term_fn()(f.walls@[i as int]) == v as int);
        }
        total = total + v;
        i += 1;
    }
    proof {
        assert(f.walls@.take(f.walls@.len() as int) =~= f.walls@);
    }
    total
}

/// Track fixing count of one floor, in thousandths of a piece.
fn floor_fixing_exec(f: &Floor) -> (r: u64)
    requires
        f.wf(),
    ensures
        r as int == floor_fixing_count(*f),
{
    let mut total: u64 = 0;
    let mut i: usize = 0;
    while i < f.walls.len()
        invariant
            i <= f.walls@.len(),
            f.wf(),
            total as int == sum_by(f.walls@.take(i as int), fixing_term_fn()),
            total as int <= 9_430_000 * (i as int),
        decreases f.walls@.len() - i,
    {
        let w = &f.walls[i];
        let mut v: u64 = 0;
        if w.has_discipline(Discipline::Drywall) {
            let len = w.length();
            let fixings = (len + 599) / 600;
            v = fixings * 2 * 1000;
        }
        proof {
            lemma_sum_by_take_succ(f.walls@, fixing_term_fn(), i as int);
            lemma_wall_terms_bounds(f.walls@[i as int]);
            assert(fixing_term_fn()(f.walls@[i as int]) == v as int);
        }
        total = total + v;
        i += 1;
    }
    proof {
        assert(f.walls@.take(f.walls@.len() as int) =~= f.walls@);
    }
    total
}

/// A design with no drywall elements (no wall tagged for drywall, no
/// component of the drywall discipline) yields zero for every drywall
/// quantity, so the drywall calculator plans no items at all and contributes
/// nothing to the report.
pub proof fn lemma_no_drywall_elements(p: Project)
    requires
        forall|bi: int, fi: int, wi: int| 0 <= bi < p.buildings@.len() && 0 <= fi
            < p.buildings@[bi].floors@.len() && 0 <= wi
            < p.buildings@[bi].floors@[fi].walls@.len() ==> !(
        #[trigger] p.buildings@[bi].floors@[fi].walls@[wi]).spec_has_discipline(
            Discipline::Drywall,
        ),
        forall|bi: int, fi: int, ci: int| 0 <= bi < p.buildings@.len() && 0 <= fi
            < p.buildings@[bi].floors@.len() && 0 <= ci
            < p.buildings@[bi].floors@[fi].components@.len() ==> (
        #[trigger] p.buildings@[bi].floors@[fi].components@[ci]).discipline
            != Discipline::Drywall,
    ensures
        project_drywall_area(p) == 0,
        project_stud_length(p) == 0,
        project_track_length(p) == 0,
        project_fixing_count(p) == 0,
        drywall_plan(p) =~= Seq::<ItemSpec>::empty(),
{
    assert forall|bi: int| 0 <= bi < p.buildings@.len() implies
        #[trigger] building_drywall_area_fn()(p.buildings@[bi]) == 0 by {
        let b = p.buildings@[bi];
        assert forall|fi: int| 0 <= fi < b.floors@.len() implies
            #[trigger] floor_drywall_area_fn()(b.floors@[fi]) == 0 by {
            let f = b.floors@[fi];
            assert(forall|ci: int| 0 <= ci < f.components@.len()
                ==> #[trigger] panel_term_fn()(f.components@[ci]) == 0);
            assert(forall|wi: int| 0 <= wi < f.walls@.len()
                ==> #[trigger] area_term_fn()(f.walls@[wi]) == 0);
            assert(forall|wi: int| 0 <= wi < f.walls@.len()
                ==> #[trigger] stud_term_fn()(f.walls@[wi]) == 0);
            assert(forall|wi: int| 0 <= wi < f.walls@.len()
                ==> #[trigger] track_term_fn()(f.walls@[wi]) == 0);
            assert(forall|wi: int| 0 <= wi < f.walls@.len()
                ==> #[trigger] fixing_term_fn()(f.walls@[wi]) == 0);
            lemma_sum_prefix_bound(
                f.components@,
                panel_term_fn(),
                f.components@.len() as int,
                0,
            );
            lemma_sum_prefix_bound(f.walls@, area_term_fn(), f.walls@.len() as int, 0);
            lemma_sum_prefix_bound(f.walls@, stud_term_fn(), f.walls@.len() as int, 0);
            lemma_sum_prefix_bound(f.walls@, track_term_fn(), f.walls@.len() as int, 0);
            lemma_sum_prefix_bound(f.walls@, fixing_term_fn(), f.walls@.len() as int, 0);
            assert(f.components@.take(f.components@.len() as int) =~= f.components@);
            assert(f.walls@.take(f.walls@.len() as int) =~= f.walls@);
        }
        assert forall|fi: int| 0 <= fi < b.floors@.len() implies
            #[trigger] floor_stud_length_fn()(b.floors@[fi]) == 0 by {
            let f = b.floors@[fi];
            assert(forall|ci: int| 0 <= ci < f.components@.len()
                ==> #[trigger] panel_term_fn()(f.components@[ci]) == 0);
            assert(forall|wi: int| 0 <= wi < f.walls@.len()
                ==> #[trigger] area_term_fn()(f.walls@[wi]) == 0);
            assert(forall|wi: int| 0 <= wi < f.walls@.len()
                ==> #[trigger] stud_term_fn()(f.walls@[wi]) == 0);
            assert(forall|wi: int| 0 <= wi < f.walls@.len()
                ==> #[trigger] track_term_fn()(f.walls@[wi]) == 0);
            assert(forall|wi: int| 0 <= wi < f.walls@.len()
                ==> #[trigger] fixing_term_fn()(f.walls@[wi]) == 0);
            lemma_sum_prefix_bound(
                f.components@,
                panel_term_fn(),
                f.components@.len() as int,
                0,
            );
            lemma_sum_prefix_bound(f.walls@, area_term_fn(), f.walls@.len() as int, 0);
            lemma_sum_prefix_bound(f.walls@, stud_term_fn(), f.walls@.len() as int, 0);
            lemma_sum_prefix_bound(f.walls@, track_term_fn(), f.walls@.len() as int, 0);
            lemma_sum_prefix_bound(f.walls@, fixing_term_fn(), f.walls@.len() as int, 0);
            assert(f.components@.take(f.components@.len() as int) =~= f.components@);
            assert(f.walls@.take(f.walls@.len() as int) =~= f.walls@);
        }
        assert forall|fi: int| 0 <= fi < b.floors@.len() implies
            #[trigger] floor_track_length_fn()(b.floors@[fi]) == 0 by {
            let f = b.floors@[fi];
            assert(forall|ci: int| 0 <= ci < f.components@.len()
                ==> #[trigger] panel_term_fn()(f.components@[ci]) == 0);
            assert(forall|wi: int| 0 <= wi < f.walls@.len()
                ==> #[trigger] area_term_fn()(f.walls@[wi]) == 0);
            assert(forall|wi: int| 0 <= wi < f.walls@.len()
                ==> #[trigger] stud_term_fn()(f.walls@[wi]) == 0);
            assert(forall|wi: int| 0 <= wi < f.walls@.len()
                ==> #[trigger] track_term_fn()(f.walls@[wi]) == 0);
            assert(forall|wi: int| 0 <= wi < f.walls@.len()
                ==> #[trigger] fixing_term_fn()(f.walls@[wi]) == 0);
            lemma_sum_prefix_bound(
                f.components@,
                panel_term_fn(),
                f.components@.len() as int,
                0,
            );
            lemma_sum_prefix_bound(f.walls@, area_term_fn(), f.walls@.len() as int, 0);
            lemma_sum_prefix_bound(f.walls@, stud_term_fn(), f.walls@.len() as int, 0);
            lemma_sum_prefix_bound(f.walls@, track_term_fn(), f.walls@.len() as int, 0);
            lemma_sum_prefix_bound(f.walls@, fixing_term_fn(), f.walls@.len() as int, 0);
            assert(f.components@.take(f.components@.len() as int) =~= f.components@);
            assert(f.walls@.take(f.walls@.len() as int) =~= f.walls@);
        }
        assert forall|fi: int| 0 <= fi < b.floors@.len() implies
            #[trigger] floor_fixing_count_fn()(b.floors@[fi]) == 0 by {
            let f = b.floors@[fi];
            assert(forall|ci: int| 0 <= ci < f.components@.len()
                ==> #[trigger] panel_term_fn()(f.components@[ci]) == 0);
            assert(forall|wi: int| 0 <= wi < f.walls@.len()
                ==> #[trigger] area_term_fn()(f.walls@[wi]) == 0);
            assert(forall|wi: int| 0 <= wi < f.walls@.len()
                ==> #[trigger] stud_term_fn()(f.walls@[wi]) == 0);
            assert(forall|wi: int| 0 <= wi < f.walls@.len()
                ==> #[trigger] track_term_fn()(f.walls@[wi]) == 0);
            assert(forall|wi: int| 0 <= wi < f.walls@.len()
                ==> #[trigger] fixing_term_fn()(f.walls@[wi]) == 0);
            lemma_sum_prefix_bound(
                f.components@,
                panel_term_fn(),
                f.components@.len() as int,
                0,
            );
            lemma_sum_prefix_bound(f.walls@, area_term_fn(), f.walls@.len() as int, 0);
            lemma_sum_prefix_bound(f.walls@, stud_term_fn(), f.walls@.len() as int, 0);
            lemma_sum_prefix_bound(f.walls@, track_term_fn(), f.walls@.len() as int, 0);
            lemma_sum_prefix_bound(f.walls@, fixing_term_fn(), f.walls@.len() as int, 0);
            assert(f.components@.take(f.components@.len() as int) =~= f.components@);
            assert(f.walls@.take(f.walls@.len() as int) =~= f.walls@);
        }
        lemma_sum_prefix_bound(
            b.floors@,
            floor_drywall_area_fn(),
            b.floors@.len() as int,
            0,
        );
        lemma_sum_prefix_bound(
            b.floors@,
            floor_stud_length_fn(),
            b.floors@.len() as int,
            0,
        );
        lemma_sum_prefix_bound(
            b.floors@,
            floor_track_length_fn(),
            b.floors@.len() as int,
            0,
        );
        lemma_sum_prefix_bound(
            b.floors@,
            floor_fixing_count_fn(),
            b.floors@.len() as int,
            0,
        );
        assert(b.floors@.take(b.floors@.len() as int) =~= b.floors@);
    }
    assert forall|bi: int| 0 <= bi < p.buildings@.len() implies
        #[trigger] building_stud_length_fn()(p.buildings@[bi]) == 0 by {
        let b = p.buildings@[bi];
        assert forall|fi: int| 0 <= fi < b.floors@.len() implies
            #[trigger] floor_drywall_area_fn()(b.floors@[fi]) == 0 by {
            let f = b.floors@[fi];
            assert(forall|ci: int| 0 <= ci < f.components@.len()
                ==> #[trigger] panel_term_fn()(f.components@[ci]) == 0);
            assert(forall|wi: int| 0 <= wi < f.walls@.len()
                ==> #[trigger] area_term_fn()(f.walls@[wi]) == 0);
            assert(forall|wi: int| 0 <= wi < f.walls@.len()
                ==> #[trigger] stud_term_fn()(f.walls@[wi]) == 0);
            assert(forall|wi: int| 0 <= wi < f.walls@.len()
                ==> #[trigger] track_term_fn()(f.walls@[wi]) == 0);
            assert(forall|wi: int| 0 <= wi < f.walls@.len()
                ==> #[trigger] fixing_term_fn()(f.walls@[wi]) == 0);
            lemma_sum_prefix_bound(
                f.components@,
                panel_term_fn(),
                f.components@.len() as int,
                0,
            );
            lemma_sum_prefix_bound(f.walls@, area_term_fn(), f.walls@.len() as int, 0);
            lemma_sum_prefix_bound(f.walls@, stud_term_fn(), f.walls@.len() as int, 0);
            lemma_sum_prefix_bound(f.walls@, track_term_fn(), f.walls@.len() as int, 0);
            lemma_sum_prefix_bound(f.walls@, fixing_term_fn(), f.walls@.len() as int, 0);
            assert(f.components@.take(f.components@.len() as int) =~= f.components@);
            assert(f.walls@.take(f.walls@.len() as int) =~= f.walls@);
        }
        assert forall|fi: int| 0 <= fi < b.floors@.len() implies
            #[trigger] floor_stud_length_fn()(b.floors@[fi]) == 0 by {
            let f = b.floors@[fi];
            assert(forall|ci: int| 0 <= ci < f.components@.len()
                ==> #[trigger] panel_term_fn()(f.components@[ci]) == 0);
            assert(forall|wi: int| 0 <= wi < f.walls@.len()
                ==> #[trigger] area_term_fn()(f.walls@[wi]) == 0);
            assert(forall|wi: int| 0 <= wi < f.walls@.len()
                ==> #[trigger] stud_term_fn()(f.walls@[wi]) == 0);
            assert(forall|wi: int| 0 <= wi < f.walls@.len()
                ==> #[trigger] track_term_fn()(f.walls@[wi]) == 0);
            assert(forall|wi: int| 0 <= wi < f.walls@.len()
                ==> #[trigger] fixing_term_fn()(f.walls@[wi]) == 0);
            lemma_sum_prefix_bound(
                f.components@,
                panel_term_fn(),
                f.components@.len() as int,
                0,
            );
            lemma_sum_prefix_bound(f.walls@, area_term_fn(), f.walls@.len() as int, 0);
            lemma_sum_prefix_bound(f.walls@, stud_term_fn(), f.walls@.len() as int, 0);
            lemma_sum_prefix_bound(f.walls@, track_term_fn(), f.walls@.len() as int, 0);
            lemma_sum_prefix_bound(f.walls@, fixing_term_fn(), f.walls@.len() as int, 0);
            assert(f.components@.take(f.components@.len() as int) =~= f.components@);
            assert(f.walls@.take(f.walls@.len() as int) =~= f.walls@);
        }
        assert forall|fi: int| 0 <= fi < b.floors@.len() implies
            #[trigger] floor_track_length_fn()(b.floors@[fi]) == 0 by {
            let f = b.floors@[fi];
            assert(forall|ci: int| 0 <= ci < f.components@.len()
                ==> #[trigger] panel_term_fn()(f.components@[ci]) == 0);
            assert(forall|wi: int| 0 <= wi < f.walls@.len()
                ==> #[trigger] area_term_fn()(f.walls@[wi]) == 0);
            assert(forall|wi: int| 0 <= wi < f.walls@.len()
                ==> #[trigger] stud_term_fn()(f.walls@[wi]) == 0);
            assert(forall|wi: int| 0 <= wi < f.walls@.len()
                ==> #[trigger] track_term_fn()(f.walls@[wi]) == 0);
            assert(forall|wi: int| 0 <= wi < f.walls@.len()
                ==> #[trigger] fixing_term_fn()(f.walls@[wi]) == 0);
            lemma_sum_prefix_bound(
                f.components@,
                panel_term_fn(),
                f.components@.len() as int,
                0,
            );
            lemma_sum_prefix_bound(f.walls@, area_term_fn(), f.walls@.len() as int, 0);
            lemma_sum_prefix_bound(f.walls@, stud_term_fn(), f.walls@.len() as int, 0);
            lemma_sum_prefix_bound(f.walls@, track_term_fn(), f.walls@.len() as int, 0);
            lemma_sum_prefix_bound(f.walls@, fixing_term_fn(), f.walls@.len() as int, 0);
            assert(f.components@.take(f.components@.len() as int) =~= f.components@);
            assert(f.walls@.take(f.walls@.len() as int) =~= f.walls@);
        }
        assert forall|fi: int| 0 <= fi < b.floors@.len() implies
            #[trigger] floor_fixing_count_fn()(b.floors@[fi]) == 0 by {
            let f = b.floors@[fi];
            assert(forall|ci: int| 0 <= ci < f.components@.len()
                ==> #[trigger] panel_term_fn()(f.components@[ci]) == 0);
            assert(forall|wi: int| 0 <= wi < f.walls@.len()
                ==> #[trigger] area_term_fn()(f.walls@[wi]) == 0);
            assert(forall|wi: int| 0 <= wi < f.walls@.len()
                ==> #[trigger] stud_term_fn()(f.walls@[wi]) == 0);
            assert(forall|wi: int| 0 <= wi < f.walls@.len()
                ==> #[trigger] track_term_fn()(f.walls@[wi]) == 0);
            assert(forall|wi: int| 0 <= wi < f.walls@.len()
                ==> #[trigger] fixing_term_fn()(f.walls@[wi]) == 0);
            lemma_sum_prefix_bound(
                f.components@,
                panel_term_fn(),
                f.components@.len() as int,
                0,
            );
            lemma_sum_prefix_bound(f.walls@, area_term_fn(), f.walls@.len() as int, 0);
            lemma_sum_prefix_bound(f.walls@, stud_term_fn(), f.walls@.len() as int, 0);
            lemma_sum_prefix_bound(f.walls@, track_term_fn(), f.walls@.len() as int, 0);
            lemma_sum_prefix_bound(f.walls@, fixing_term_fn(), f.walls@.len() as int, 0);
            assert(f.components@.take(f.components@.len() as int) =~= f.components@);
            assert(f.walls@.take(f.walls@.len() as int) =~= f.walls@);
        }
        lemma_sum_prefix_bound(
            b.floors@,
            floor_drywall_area_fn(),
            b.floors@.len() as int,
            0,
        );
        lemma_sum_prefix_bound(
            b.floors@,
            floor_stud_length_fn(),
            b.floors@.len() as int,
            0,
        );
        lemma_sum_prefix_bound(
            b.floors@,
            floor_track_length_fn(),
            b.floors@.len() as int,
            0,
        );
        lemma_sum_prefix_bound(
            b.floors@,
            floor_fixing_count_fn(),
            b.floors@.len() as int,
            0,
        );
        assert(b.floors@.take(b.floors@.len() as int) =~= b.floors@);
    }
    assert forall|bi: int| 0 <= bi < p.buildings@.len() implies
        #[trigger] building_track_length_fn()(p.buildings@[bi]) == 0 by {
        let b = p.buildings@[bi];
        assert forall|fi: int| 0 <= fi < b.floors@.len() implies
            #[trigger] floor_drywall_area_fn()(b.floors@[fi]) == 0 by {
            let f = b.floors@[fi];
            assert(forall|ci: int| 0 <= ci < f.components@.len()
                ==> #[trigger] panel_term_fn()(f.components@[ci]) == 0);
            assert(forall|wi: int| 0 <= wi < f.walls@.len()
                ==> #[trigger] area_term_fn()(f.walls@[wi]) == 0);
            assert(forall|wi: int| 0 <= wi < f.walls@.len()
                ==> #[trigger] stud_term_fn()(f.walls@[wi]) == 0);
            assert(forall|wi: int| 0 <= wi < f.walls@.len()
                ==> #[trigger] track_term_fn()(f.walls@[wi]) == 0);
            assert(forall|wi: int| 0 <= wi < f.walls@.len()
                ==> #[trigger] fixing_term_fn()(f.walls@[wi]) == 0);
            lemma_sum_prefix_bound(
                f.components@,
                panel_term_fn(),
                f.components@.len() as int,
                0,
            );
            lemma_sum_prefix_bound(f.walls@, area_term_fn(), f.walls@.len() as int, 0);
            lemma_sum_prefix_bound(f.walls@, stud_term_fn(), f.walls@.len() as int, 0);
            lemma_sum_prefix_bound(f.walls@, track_term_fn(), f.walls@.len() as int, 0);
            lemma_sum_prefix_bound(f.walls@, fixing_term_fn(), f.walls@.len() as int, 0);
            assert(f.components@.take(f.components@.len() as int) =~= f.components@);
            assert(f.walls@.take(f.walls@.len() as int) =~= f.walls@);
        }
        assert forall|fi: int| 0 <= fi < b.floors@.len() implies
            #[trigger] floor_stud_length_fn()(b.floors@[fi]) == 0 by {
            let f = b.floors@[fi];
            assert(forall|ci: int| 0 <= ci < f.components@.len()
                ==> #[trigger] panel_term_fn()(f.components@[ci]) == 0);
            assert(forall|wi: int| 0 <= wi < f.walls@.len()
                ==> #[trigger] area_term_fn()(f.walls@[wi]) == 0);
            assert(forall|wi: int| 0 <= wi < f.walls@.len()
                ==> #[trigger] stud_term_fn()(f.walls@[wi]) == 0);
            assert(forall|wi: int| 0 <= wi < f.walls@.len()
                ==> #[trigger] track_term_fn()(f.walls@[wi]) == 0);
            assert(forall|wi: int| 0 <= wi < f.walls@.len()
                ==> #[trigger] fixing_term_fn()(f.walls@[wi]) == 0);
            lemma_sum_prefix_bound(
                f.components@,
                panel_term_fn(),
                f.components@.len() as int,
                0,
            );
            lemma_sum_prefix_bound(f.walls@, area_term_fn(), f.walls@.len() as int, 0);
            lemma_sum_prefix_bound(f.walls@, stud_term_fn(), f.walls@.len() as int, 0);
            lemma_sum_prefix_bound(f.walls@, track_term_fn(), f.walls@.len() as int, 0);
            lemma_sum_prefix_bound(f.walls@, fixing_term_fn(), f.walls@.len() as int, 0);
            assert(f.components@.take(f.components@.len() as int) =~= f.components@);
            assert(f.walls@.take(f.walls@.len() as int) =~= f.walls@);
        }
        assert forall|fi: int| 0 <= fi < b.floors@.len() implies
            #[trigger] floor_track_length_fn()(b.floors@[fi]) == 0 by {
            let f = b.floors@[fi];
            assert(forall|ci: int| 0 <= ci < f.components@.len()
                ==> #[trigger] panel_term_fn()(f.components@[ci]) == 0);
            assert(forall|wi: int| 0 <= wi < f.walls@.len()
                ==> #[trigger] area_term_fn()(f.walls@[wi]) == 0);
            assert(forall|wi: int| 0 <= wi < f.walls@.len()
                ==> #[trigger] stud_term_fn()(f.walls@[wi]) == 0);
            assert(forall|wi: int| 0 <= wi < f.walls@.len()
                ==> #[trigger] track_term_fn()(f.walls@[wi]) == 0);
            assert(forall|wi: int| 0 <= wi < f.walls@.len()
                ==> #[trigger] fixing_term_fn()(f.walls@[wi]) == 0);
            lemma_sum_prefix_bound(
                f.components@,
                panel_term_fn(),
                f.components@.len() as int,
                0,
            );
            lemma_sum_prefix_bound(f.walls@, area_term_fn(), f.walls@.len() as int, 0);
            lemma_sum_prefix_bound(f.walls@, stud_term_fn(), f.walls@.len() as int, 0);
            lemma_sum_prefix_bound(f.walls@, track_term_fn(), f.walls@.len() as int, 0);
            lemma_sum_prefix_bound(f.walls@, fixing_term_fn(), f.walls@.len() as int, 0);
            assert(f.components@.take(f.components@.len() as int) =~= f.components@);
            assert(f.walls@.take(f.walls@.len() as int) =~= f.walls@);
        }
        assert forall|fi: int| 0 <= fi < b.floors@.len() implies
            #[trigger] floor_fixing_count_fn()(b.floors@[fi]) == 0 by {
            let f = b.floors@[fi];
            assert(forall|ci: int| 0 <= ci < f.components@.len()
                ==> #[trigger] panel_term_fn()(f.components@[ci]) == 0);
            assert(forall|wi: int| 0 <= wi < f.walls@.len()
                ==> #[trigger] area_term_fn()(f.walls@[wi]) == 0);
            assert(forall|wi: int| 0 <= wi < f.walls@.len()
                ==> #[trigger] stud_term_fn()(f.walls@[wi]) == 0);
            assert(forall|wi: int| 0 <= wi < f.walls@.len()
                ==> #[trigger] track_term_fn()(f.walls@[wi]) == 0);
            assert(forall|wi: int| 0 <= wi < f.walls@.len()
                ==> #[trigger] fixing_term_fn()(f.walls@[wi]) == 0);
            lemma_sum_prefix_bound(
                f.components@,
                panel_term_fn(),
                f.components@.len() as int,
                0,
            );
            lemma_sum_prefix_bound(f.walls@, area_term_fn(), f.walls@.len() as int, 0);
            lemma_sum_prefix_bound(f.walls@, stud_term_fn(), f.walls@.len() as int, 0);
            lemma_sum_prefix_bound(f.walls@, track_term_fn(), f.walls@.len() as int, 0);
            lemma_sum_prefix_bound(f.walls@, fixing_term_fn(), f.walls@.len() as int, 0);
            assert(f.components@.take(f.components@.len() as int) =~= f.components@);
            assert(f.walls@.take(f.walls@.len() as int) =~= f.walls@);
        }
        lemma_sum_prefix_bound(
            b.floors@,
            floor_drywall_area_fn(),
            b.floors@.len() as int,
            0,
        );
        lemma_sum_prefix_bound(
            b.floors@,
            floor_stud_length_fn(),
            b.floors@.len() as int,
            0,
        );
        lemma_sum_prefix_bound(
            b.floors@,
            floor_track_length_fn(),
            b.floors@.len() as int,
            0,
        );
        lemma_sum_prefix_bound(
            b.floors@,
            floor_fixing_count_fn(),
            b.floors@.len() as int,
            0,
        );
        assert(b.floors@.take(b.floors@.len() as int) =~= b.floors@);
    }
    assert forall|bi: int| 0 <= bi < p.buildings@.len() implies
        #[trigger] building_fixing_count_fn()(p.buildings@[bi]) == 0 by {
        let b = p.buildings@[bi];
        assert forall|fi: int| 0 <= fi < b.floors@.len() implies
            #[trigger] floor_drywall_area_fn()(b.floors@[fi]) == 0 by {
            let f = b.floors@[fi];
            assert(forall|ci: int| 0 <= ci < f.components@.len()
                ==> #[trigger] panel_term_fn()(f.components@[ci]) == 0);
            assert(forall|wi: int| 0 <= wi < f.walls@.len()
                ==> #[trigger] area_term_fn()(f.walls@[wi]) == 0);
            assert(forall|wi: int| 0 <= wi < f.walls@.len()
                ==> #[trigger] stud_term_fn()(f.walls@[wi]) == 0);
            assert(forall|wi: int| 0 <= wi < f.walls@.len()
                ==> #[trigger] track_term_fn()(f.walls@[wi]) == 0);
            assert(forall|wi: int| 0 <= wi < f.walls@.len()
                ==> #[trigger] fixing_term_fn()(f.walls@[wi]) == 0);
            lemma_sum_prefix_bound(
                f.components@,
                panel_term_fn(),
                f.components@.len() as int,
                0,
            );
            lemma_sum_prefix_bound(f.walls@, area_term_fn(), f.walls@.len() as int, 0);
            lemma_sum_prefix_bound(f.walls@, stud_term_fn(), f.walls@.len() as int, 0);
            lemma_sum_prefix_bound(f.walls@, track_term_fn(), f.walls@.len() as int, 0);
            lemma_sum_prefix_bound(f.walls@, fixing_term_fn(), f.walls@.len() as int, 0);
            assert(f.components@.take(f.components@.len() as int) =~= f.components@);
            assert(f.walls@.take(f.walls@.len() as int) =~= f.walls@);
        }
        assert forall|fi: int| 0 <= fi < b.floors@.len() implies
            #[trigger] floor_stud_length_fn()(b.floors@[fi]) == 0 by {
            let f = b.floors@[fi];
            assert(forall|ci: int| 0 <= ci < f.components@.len()
                ==> #[trigger] panel_term_fn()(f.components@[ci]) == 0);
            assert(forall|wi: int| 0 <= wi < f.walls@.len()
                ==> #[trigger] area_term_fn()(f.walls@[wi]) == 0);
            assert(forall|wi: int| 0 <= wi < f.walls@.len()
                ==> #[trigger] stud_term_fn()(f.walls@[wi]) == 0);
            assert(forall|wi: int| 0 <= wi < f.walls@.len()
                ==> #[trigger] track_term_fn()(f.walls@[wi]) == 0);
            assert(forall|wi: int| 0 <= wi < f.walls@.len()
                ==> #[trigger] fixing_term_fn()(f.walls@[wi]) == 0);
            lemma_sum_prefix_bound(
                f.components@,
                panel_term_fn(),
                f.components@.len() as int,
                0,
            );
            lemma_sum_prefix_bound(f.walls@, area_term_fn(), f.walls@.len() as int, 0);
            lemma_sum_prefix_bound(f.walls@, stud_term_fn(), f.walls@.len() as int, 0);
            lemma_sum_prefix_bound(f.walls@, track_term_fn(), f.walls@.len() as int, 0);
            lemma_sum_prefix_bound(f.walls@, fixing_term_fn(), f.walls@.len() as int, 0);
            assert(f.components@.take(f.components@.len() as int) =~= f.components@);
            assert(f.walls@.take(f.walls@.len() as int) =~= f.walls@);
        }
        assert forall|fi: int| 0 <= fi < b.floors@.len() implies
            #[trigger] floor_track_length_fn()(b.floors@[fi]) == 0 by {
            let f = b.floors@[fi];
            assert(forall|ci: int| 0 <= ci < f.components@.len()
                ==> #[trigger] panel_term_fn()(f.components@[ci]) == 0);
            assert(forall|wi: int| 0 <= wi < f.walls@.len()
                ==> #[trigger] area_term_fn()(f.walls@[wi]) == 0);
            assert(forall|wi: int| 0 <= wi < f.walls@.len()
                ==> #[trigger] stud_term_fn()(f.walls@[wi]) == 0);
            assert(forall|wi: int| 0 <= wi < f.walls@.len()
                ==> #[trigger] track_term_fn()(f.walls@[wi]) == 0);
            assert(forall|wi: int| 0 <= wi < f.walls@.len()
                ==> #[trigger] fixing_term_fn()(f.walls@[wi]) == 0);
            lemma_sum_prefix_bound(
                f.components@,
                panel_term_fn(),
                f.components@.len() as int,
                0,
            );
            lemma_sum_prefix_bound(f.walls@, area_term_fn(), f.walls@.len() as int, 0);
            lemma_sum_prefix_bound(f.walls@, stud_term_fn(), f.walls@.len() as int, 0);
            lemma_sum_prefix_bound(f.walls@, track_term_fn(), f.walls@.len() as int, 0);
            lemma_sum_prefix_bound(f.walls@, fixing_term_fn(), f.walls@.len() as int, 0);
            assert(f.components@.take(f.components@.len() as int) =~= f.components@);
            assert(f.walls@.take(f.walls@.len() as int) =~= f.walls@);
        }
        assert forall|fi: int| 0 <= fi < b.floors@.len() implies
            #[trigger] floor_fixing_count_fn()(b.floors@[fi]) == 0 by {
            let f = b.floors@[fi];
            assert(forall|ci: int| 0 <= ci < f.components@.len()
                ==> #[trigger] panel_term_fn()(f.components@[ci]) == 0);
            assert(forall|wi: int| 0 <= wi < f.walls@.len()
                ==> #[trigger] area_term_fn()(f.walls@[wi]) == 0);
            assert(forall|wi: int| 0 <= wi < f.walls@.len()
                ==> #[trigger] stud_term_fn()(f.walls@[wi]) == 0);
            assert(forall|wi: int| 0 <= wi < f.walls@.len()
                ==> #[trigger] track_term_fn()(f.walls@[wi]) == 0);
            assert(forall|wi: int| 0 <= wi < f.walls@.len()
                ==> #[trigger] fixing_term_fn()(f.walls@[wi]) == 0);
            lemma_sum_prefix_bound(
                f.components@,
                panel_term_fn(),
                f.components@.len() as int,
                0,
            );
            lemma_sum_prefix_bound(f.walls@, area_term_fn(), f.walls@.len() as int, 0);
            lemma_sum_prefix_bound(f.walls@, stud_term_fn(), f.walls@.len() as int, 0);
            lemma_sum_prefix_bound(f.walls@, track_term_fn(), f.walls@.len() as int, 0);
            lemma_sum_prefix_bound(f.walls@, fixing_term_fn(), f.walls@.len() as int, 0);
            assert(f.components@.take(f.components@.len() as int) =~= f.components@);
            assert(f.walls@.take(f.walls@.len() as int) =~= f.walls@);
        }
        lemma_sum_prefix_bound(
            b.floors@,
            floor_drywall_area_fn(),
            b.floors@.len() as int,
            0,
        );
        lemma_sum_prefix_bound(
            b.floors@,
            floor_stud_length_fn(),
            b.floors@.len() as int,
            0,
        );
        lemma_sum_prefix_bound(
            b.floors@,
            floor_track_length_fn(),
            b.floors@.len() as int,
            0,
        );
        lemma_sum_prefix_bound(
            b.floors@,
            floor_fixing_count_fn(),
            b.floors@.len() as int,
            0,
        );
        assert(b.floors@.take(b.floors@.len() as int) =~= b.floors@);
    }
    lemma_sum_prefix_bound(
        p.buildings@,
        building_drywall_area_fn(),
        p.buildings@.len() as int,
        0,
    );
    lemma_sum_prefix_bound(
        p.buildings@,
        building_stud_length_fn(),
        p.buildings@.len() as int,
        0,
    );
    lemma_sum_prefix_bound(
        p.buildings@,
        building_track_length_fn(),
        p.buildings@.len() as int,
        0,
    );
    lemma_sum_prefix_bound(
        p.buildings@,
        building_fixing_count_fn(),
        p.buildings@.len() as int,
        0,
    );
    assert(p.buildings@.take(p.buildings@.len() as int) =~= p.buildings@);
}

/// Drywall BOM calculator.
#[derive(Default)]
pub struct DrywallCalculator;

impl DrywallCalculator {
    pub fn new() -> (c: DrywallCalculator)
    {
        DrywallCalculator
    }

    /// Calculate drywall area for the whole project.
    fn calculate_drywall_area(&self, project: &Project) -> (r: u64)
        requires
            project.wf(),
        ensures
            r as int == project_drywall_area(*project),
            r <= 2_828_437_000_000_000,
    {
        let mut total: u64 = 0;
        let mut bi: usize = 0;
        while bi < project.buildings.len()
            invariant
                bi <= project.buildings@.len(),
                project.wf(),
                total as int == sum_by(
                    project.buildings@.take(bi as int),
                    building_drywall_area_fn(),
                ),
                total as int <= 28_284_370_000_000 * (bi as int),
            decreases project.buildings@.len() - bi,
        {
            let b = &project.buildings[bi];
            let mut bt: u64 = 0;
            let mut fi: usize = 0;
            while fi < b.floors.len()
                invariant
                    fi <= b.floors@.len(),
                    b.wf(),
                    bt as int == sum_by(b.floors@.take(fi as int), floor_drywall_area_fn()),
                    bt as int <= 282_843_700_000 * (fi as int),
                decreases b.floors@.len() - fi,
            {
                let fv = floor_area_exec(&b.floors[fi]);
                proof {
                    lemma_sum_by_take_succ(b.floors@, floor_drywall_area_fn(), fi as int);
                    lemma_floor_sums_bounds(b.floors@[fi as int]);
                }
                bt = bt + fv;
                fi += 1;
            }
            proof {
                assert(b.floors@.take(b.floors@.len() as int) =~= b.floors@);
                lemma_sum_by_take_succ(project.buildings@, building_drywall_area_fn(), bi as int);
            }
            total = total + bt;
            bi += 1;
        }
        proof {
            assert(project.buildings@.take(project.buildings@.len() as int)
                =~= project.buildings@);
            lemma_project_sums_bounds(*project);
        }
        total
    }

    /// Calculate stud length needed, at 400 mm centers.
    fn calculate_stud_length(&self, project: &Project) -> (r: u64)
        requires
            project.wf(),
        ensures
            r as int == project_stud_length(*project),
            r <= 7_072_000_000_000_000,
    {
        let mut total: u64 = 0;
        let mut bi: usize = 0;
        while bi < project.buildings.len()
            invariant
                bi <= project.buildings@.len(),
                project.wf(),
                total as int == sum_by(
                    project.buildings@.take(bi as int),
                    building_stud_length_fn(),
                ),
                total as int <= 70_720_000_000_000 * (bi as int),
            decreases project.buildings@.len() - bi,
        {
            let b = &project.buildings[bi];
            let mut bt: u64 = 0;
            let mut fi: usize = 0;
            while fi < b.floors.len()
                invariant
                    fi <= b.floors@.len(),
                    b.wf(),
                    bt as int == sum_by(b.floors@.take(fi as int), floor_stud_length_fn()),
                    bt as int <= 707_200_000_000 * (fi as int),
                decreases b.floors@.len() - fi,
            {
                let fv = floor_stud_exec(&b.floors[fi]);
                proof {
                    lemma_sum_by_take_succ(b.floors@, floor_stud_length_fn(), fi as int);
                    lemma_floor_sums_bounds(b.floors@[fi as int]);
                }
                bt = bt + fv;
                fi += 1;
            }
            proof {
                assert(b.floors@.take(b.floors@.len() as int) =~= b.floors@);
                lemma_sum_by_take_succ(project.buildings@, building_stud_length_fn(), bi as int);
            }
            total = total + bt;
            bi += 1;
        }
        proof {
            assert(project.buildings@.take(project.buildings@.len() as int)
                =~= project.buildings@);
            lemma_project_sums_bounds(*project);
        }
        total
    }

    /// Calculate track length (top and bottom perimeter tracks).
    fn calculate_track_length(&self, project: &Project) -> (r: u64)
        requires
            project.wf(),
        ensures
            r as int == project_track_length(*project),
            r <= 56_568_540_000_000,
    {
        let mut total: u64 = 0;
        let mut bi: usize = 0;
        while bi < project.buildings.len()
            invariant
                bi <= project.buildings@.len(),
                project.wf(),
                total as int == sum_by(
                    project.buildings@.take(bi as int),
                    building_track_length_fn(),
                ),
                total as int <= 565_685_400_000 * (bi as int),
            decreases project.buildings@.len() - bi,
        {
            let b = &project.buildings[bi];
            let mut bt: u64 = 0;
            let mut fi: usize = 0;
            while fi < b.floors.len()
                invariant
                    fi <= b.floors@.len(),
                    b.wf(),
                    bt as int == sum_by(b.floors@.take(fi as int), floor_track_length_fn()),
                    bt as int <= 5_656_854_000 * (fi as int),
                decreases b.floors@.len() - fi,
            {
                let fv = floor_track_exec(&b.floors[fi]);
                proof {
                    lemma_sum_by_take_succ(b.floors@, floor_track_length_fn(), fi as int);
                    lemma_floor_sums_bounds(b.floors@[fi as int]);
                }
                bt = bt + fv;
                fi += 1;
            }
            proof {
                assert(b.floors@.take(b.floors@.len() as int) =~= b.floors@);
                lemma_sum_by_take_succ(project.buildings@, building_track_length_fn(), bi as int);
            }
            total = total + bt;
            bi += 1;
        }
        proof {
            assert(project.buildings@.take(project.buildings@.len() as int)
                =~= project.buildings@);
            lemma_project_sums_bounds(*project);
        }
        total
    }

    /// Calculate fixings (tasselli) for the tracks.
    fn calculate_fixings(&self, project: &Project) -> (r: u64)
        requires
            project.wf(),
        ensures
            r as int == project_fixing_count(*project),
            r <= 94_300_000_000_000,
    {
        let mut total: u64 = 0;
        let mut bi: usize = 0;
        while bi < project.buildings.len()
            invariant
                bi <= project.buildings@.len(),
                project.wf(),
                total as int == sum_by(
                    project.buildings@.take(bi as int),
                    building_fixing_count_fn(),
                ),
                total as int <= 943_000_000_000 * (bi as int),
            decreases project.buildings@.len() - bi,
        {
            let b = &project.buildings[bi];
            let mut bt: u64 = 0;
            let mut fi: usize = 0;
            while fi < b.floors.len()
                invariant
                    fi <= b.floors@.len(),
                    b.wf(),
                    bt as int == sum_by(b.floors@.take(fi as int), floor_fixing_count_fn()),
                    bt as int <= 9_430_000_000 * (fi as int),
                decreases b.floors@.len() - fi,
            {
                let fv = floor_fixing_exec(&b.floors[fi]);
                proof {
                    lemma_sum_by_take_succ(b.floors@, floor_fixing_count_fn(), fi as int);
                    lemma_floor_sums_bounds(b.floors@[fi as int]);
                }
                bt = bt + fv;
                fi += 1;
            }
            proof {
                assert(b.floors@.take(b.floors@.len() as int) =~= b.floors@);
                lemma_sum_by_take_succ(project.buildings@, building_fixing_count_fn(), bi as int);
            }
            total = total + bt;
            bi += 1;
        }
        proof {
            assert(project.buildings@.take(project.buildings@.len() as int)
                =~= project.buildings@);
            lemma_project_sums_bounds(*project);
        }
        total
    }

    /// Number of screws needed: 25 per square metre of drywall.
    fn calculate_screws(&self, drywall_area: u64) -> (r: u64)
        requires
            drywall_area <= 2_828_437_000_000_000,
        ensures
            r == 25 * drywall_area,
    {
        drywall_area * 25
    }

    /// Derive the drywall line items for the design against the catalog:
    /// exactly the planned lines whose material codes the catalog holds, in
    /// plan order.  A missing code drops that line only.
    #[verifier::rlimit(100)]
    pub fn calculate_items(&self, project: &Project, material_db: &MaterialDatabase)
        -> (r: Result<Vec<BomItem>, BomError>)
        requires
            project.wf(),
            material_db.wf(),
        ensures
            r matches Ok(items) && items_match_plan(
                *material_db,
                items@,
                plan_in_catalog(*material_db, drywall_plan(*project)),
            ),
            r matches Ok(items) ==> items@.len() <= 16 && forall|j: int|
                0 <= j < items@.len() ==> item_wf(#[trigger] items@[j]),
    {
        let mut items: Vec<BomItem> = Vec::new();
        let drywall_area = self.calculate_drywall_area(project);
        let stud_length = self.calculate_stud_length(project);
        let track_length = self.calculate_track_length(project);
        let screw_count = self.calculate_screws(drywall_area);
        let fixing_count = self.calculate_fixings(project);

        // Only calculate if there's actual drywall work
        if drywall_area > 0 {
            let ghost plan = drywall_plan(*project);
            proof {
                assert(plan.take(0) =~= Seq::<ItemSpec>::empty());
                reveal_with_fuel(Seq::filter, 2);
                assert(items_match_plan(
                    *material_db,
                    items@,
                    plan_in_catalog(*material_db, plan.take(0)),
                ));
            }
            proof {
                assert(plan.take(1).drop_last() =~= plan.take(0));
                assert(plan.take(1).last() == plan[0]);
                reveal_with_fuel(Seq::filter, 2);
            }
            if let Some(m) = material_db.get_material_by_code("DW_PANEL_125") {
                proof {
                    crate::material::lemma_first_code_index(
                        material_db.materials@,
                        "DW_PANEL_125"@,
                    );
                }
                items.push(BomItem::new(
                    m,
                    drywall_area,
                    Some("Calculated from wall areas and drywall components".to_owned()),
                ));
            }
            proof {
                assert(items_match_plan(
                    *material_db,
                    items@,
                    plan_in_catalog(*material_db, plan.take(1)),
                ));
            }
            proof {
                assert(plan.take(2).drop_last() =~= plan.take(1));
                assert(plan.take(2).last() == plan[1]);
                reveal_with_fuel(Seq::filter, 2);
            }
            if let Some(m) = material_db.get_material_by_code("DW_STUD_75") {
                proof {
                    crate::material::lemma_first_code_index(
                        material_db.materials@,
                        "DW_STUD_75"@,
                    );
                }
                items.push(BomItem::new(
                    m,
                    stud_length,
                    Some("400mm spacing, standard height".to_owned()),
                ));
            }
            proof {
                assert(items_match_plan(
                    *material_db,
                    items@,
                    plan_in_catalog(*material_db, plan.take(2)),
                ));
            }
            proof {
                assert(plan.take(3).drop_last() =~= plan.take(2));
                assert(plan.take(3).last() == plan[2]);
                reveal_with_fuel(Seq::filter, 2);
            }
            if let Some(m) = material_db.get_material_by_code("DW_TRACK_75") {
                proof {
                    crate::material::lemma_first_code_index(
                        material_db.materials@,
                        "DW_TRACK_75"@,
                    );
                }
                items.push(BomItem::new(
                    m,
                    track_length,
                    Some("Top and bottom perimeter tracks".to_owned()),
                ));
            }
            proof {
                assert(items_match_plan(
                    *material_db,
                    items@,
                    plan_in_catalog(*material_db, plan.take(3)),
                ));
            }
            proof {
                assert(plan.take(4).drop_last() =~= plan.take(3));
                assert(plan.take(4).last() == plan[3]);
                reveal_with_fuel(Seq::filter, 2);
            }
            if let Some(m) = material_db.get_material_by_code("DW_SCREW_25") {
                proof {
                    crate::material::lemma_first_code_index(
                        material_db.materials@,
                        "DW_SCREW_25"@,
                    );
                }
                items.push(BomItem::new(
                    m,
                    screw_count,
                    Some("25 screws per m2 of drywall".to_owned()),
                ));
            }
            proof {
                assert(items_match_plan(
                    *material_db,
                    items@,
                    plan_in_catalog(*material_db, plan.take(4)),
                ));
            }
            proof {
                assert(plan.take(5).drop_last() =~= plan.take(4));
                assert(plan.take(5).last() == plan[4]);
                reveal_with_fuel(Seq::filter, 2);
            }
            if let Some(m) = material_db.get_material_by_code("ANCHOR_8MM") {
                proof {
                    crate::material::lemma_first_code_index(
                        material_db.materials@,
                        "ANCHOR_8MM"@,
                    );
                }
                items.push(BomItem::new(
                    m,
                    fixing_count,
                    Some("Track fixings to structure, 600mm spacing".to_owned()),
                ));
            }
            proof {
                assert(items_match_plan(
                    *material_db,
                    items@,
                    plan_in_catalog(*material_db, plan.take(5)),
                ));
            }
            proof {
                assert(plan.take(5) =~= plan);
            }
        } else {
            proof {
                reveal_with_fuel(Seq::filter, 2);
                assert(drywall_plan(*project) =~= Seq::<ItemSpec>::empty());
                assert(plan_in_catalog(*material_db, drywall_plan(*project)).len() == 0);
            }
        }
        proof {
            let plan = drywall_plan(*project);
            let kept = plan_in_catalog(*material_db, plan);
            lemma_project_sums_bounds(*project);
            assert forall|j: int| 0 <= j < items@.len() implies item_wf(
                #[trigger] items@[j],
            ) by {
                let l = kept[j];
                crate::bom::lemma_plan_in_catalog_from_plan(*material_db, plan, j);
                let w = choose|w: int| 0 <= w < plan.len() && plan[w] == l;
                crate::material::lemma_first_code_index(material_db.materials@, l.code);
            }
        }
        Ok(items)
    }
}
impl BomCalculator for DrywallCalculator {
    fn calculate(&self, project: &Project, material_db: &MaterialDatabase) -> (r:
        Result<Vec<BomItem>, BomError>)
    {
        self.calculate_items(project, material_db)
    }

    fn discipline(&self) -> Discipline {
        Discipline::Drywall
    }
}

} // verus!
