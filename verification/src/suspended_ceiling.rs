//! Suspended ceiling BOM calculator.
//!
//! The ceiling area charges 0.36 square metres per tile component plus, for
//! each floor holding at least one ceiling component, the axis-aligned
//! bounding-box area of the floor's walls.  Tiles carry a 5% waste factor;
//! the T-grid estimate assumes a roughly square room with main profiles at
//! 1200 mm and cross profiles at 600 mm spacing; hangers sit on a
//! 1200 x 1200 mm grid with 10% extra for the perimeter.

use vstd::prelude::*;
use crate::Discipline;
use crate::arith::{
    ceil_div, isqrt, lemma_sqrt_floor_bounds, lemma_sum_prefix_bound,
    lemma_sum_by_take_succ, sqrt_floor, sum_by,
};
use crate::bom::{
    BomCalculator, BomError, BomItem, ItemSpec, items_match_plan, item_wf, plan_in_catalog,
};
use crate::building::{Floor, Project, Wall};
use crate::components::{Component, ComponentType, SuspendedCeilingComponent};
use crate::material::MaterialDatabase;

verus! {

/// 0.36 square metres (360 thousandths) per ceiling tile component.
pub open spec fn tile_term(c: Component) -> int {
    if c.discipline == Discipline::SuspendedCeiling && (c.component_type matches
    ComponentType::SuspendedCeiling(SuspendedCeilingComponent::Tile)) {
        360
    } else {
        0
    }
}

/// One for any component of the suspended ceiling discipline.
pub open spec fn presence_term(c: Component) -> int {
    if c.discipline == Discipline::SuspendedCeiling {
        1
    } else {
        0
    }
}

pub open spec fn tile_term_fn() -> spec_fn(Component) -> int {
    |c: Component| tile_term(c)
}

pub open spec fn presence_term_fn() -> spec_fn(Component) -> int {
    |c: Component| presence_term(c)
}

pub open spec fn min2(a: int, b: int) -> int {
    if a <= b {
        a
    } else {
        b
    }
}

pub open spec fn max2(a: int, b: int) -> int {
    if a >= b {
        a
    } else {
        b
    }
}

/// Least x coordinate of any wall endpoint, folded over `init`.
pub open spec fn minx_acc(ws: Seq<Wall>, init: int) -> int
    decreases ws.len(),
{
    if ws.len() == 0 {
        init
    } else {
        min2(
            minx_acc(ws.drop_last(), init),
            min2(ws.last().start_point.x as int, ws.last().end_point.x as int),
        )
    }
}

pub open spec fn maxx_acc(ws: Seq<Wall>, init: int) -> int
    decreases ws.len(),
{
    if ws.len() == 0 {
        init
    } else {
        max2(
            maxx_acc(ws.drop_last(), init),
            max2(ws.last().start_point.x as int, ws.last().end_point.x as int),
        )
    }
}

pub open spec fn miny_acc(ws: Seq<Wall>, init: int) -> int
    decreases ws.len(),
{
    if ws.len() == 0 {
        init
    } else {
        min2(
            miny_acc(ws.drop_last(), init),
            min2(ws.last().start_point.y as int, ws.last().end_point.y as int),
        )
    }
}

pub open spec fn maxy_acc(ws: Seq<Wall>, init: int) -> int
    decreases ws.len(),
{
    if ws.len() == 0 {
        init
    } else {
        max2(
            maxy_acc(ws.drop_last(), init),
            max2(ws.last().start_point.y as int, ws.last().end_point.y as int),
        )
    }
}

/// Axis-aligned bounding-box area of the floor's walls, in thousandths of a
/// square metre; zero without walls.
pub open spec fn floor_bbox_area(f: Floor) -> int {
    if f.walls@.len() == 0 {
        0
    } else {
        let minx = minx_acc(f.walls@, i64::MAX as int);
        let maxx = maxx_acc(f.walls@, i64::MIN as int);
        let miny = miny_acc(f.walls@, i64::MAX as int);
        let maxy = maxy_acc(f.walls@, i64::MIN as int);
        (maxx - minx) * (maxy - miny) / 1000
    }
}

/// For a non-empty, well-formed wall list the extremes are genuine
/// coordinates within range, and min stays at or below max.
pub proof fn lemma_bbox_acc_bounds(ws: Seq<Wall>)
    requires
        ws.len() > 0,
        forall|j: int| 0 <= j < ws.len() ==> (#[trigger] ws[j]).wf(),
    ensures
        -1_000_000 <= minx_acc(ws, i64::MAX as int) <= 1_000_000,
        -1_000_000 <= maxx_acc(ws, i64::MIN as int) <= 1_000_000,
        -1_000_000 <= miny_acc(ws, i64::MAX as int) <= 1_000_000,
        -1_000_000 <= maxy_acc(ws, i64::MIN as int) <= 1_000_000,
        minx_acc(ws, i64::MAX as int) <= maxx_acc(ws, i64::MIN as int),
        miny_acc(ws, i64::MAX as int) <= maxy_acc(ws, i64::MIN as int),
    decreases ws.len(),
{
    assert(ws.last() == ws[ws.len() - 1]);
    assert(ws.last().wf());
    if ws.len() == 1 {
        assert(ws.drop_last().len() == 0);
        assert(minx_acc(ws.drop_last(), i64::MAX as int) == i64::MAX as int);
        assert(maxx_acc(ws.drop_last(), i64::MIN as int) == i64::MIN as int);
        assert(miny_acc(ws.drop_last(), i64::MAX as int) == i64::MAX as int);
        assert(maxy_acc(ws.drop_last(), i64::MIN as int) == i64::MIN as int);
        assert(minx_acc(ws, i64::MAX as int) == min2(
            i64::MAX as int,
            min2(ws.last().start_point.x as int, ws.last().end_point.x as int),
        ));
        assert(maxx_acc(ws, i64::MIN as int) == max2(
            i64::MIN as int,
            max2(ws.last().start_point.x as int, ws.last().end_point.x as int),
        ));
    } else {
        assert(forall|j: int| 0 <= j < ws.drop_last().len() ==> ws.drop_last()[j]
            == ws[j]);
        lemma_bbox_acc_bounds(ws.drop_last());
    }
}

/// Ceiling area charged for one floor: tile components plus the wall
/// bounding box when the floor has any ceiling component.
pub open spec fn floor_ceiling_area(f: Floor) -> int {
    sum_by(f.components@, tile_term_fn()) + if sum_by(f.components@, presence_term_fn())
        > 0 {
        floor_bbox_area(f)
    } else {
        0
    }
}

pub open spec fn floor_ceiling_area_fn() -> spec_fn(Floor) -> int {
    |f: Floor| floor_ceiling_area(f)
}

pub open spec fn building_ceiling_area_fn() -> spec_fn(crate::building::Building) -> int {
    |b: crate::building::Building| sum_by(b.floors@, floor_ceiling_area_fn())
}

/// Ceiling area of the whole project, in thousandths of a square metre.
pub open spec fn project_ceiling_area(p: Project) -> int {
    sum_by(p.buildings@, building_ceiling_area_fn())
}

/// Tiles needed for an area: one per 0.36 square metres, plus 5% waste.
pub open spec fn tile_count_from_area(a: int) -> int {
    a * 1000 / 360 * 1050 / 1000
}

/// Main T-grid profile length: profiles at 1200 mm spacing across a roughly
/// square room of width `sqrt(area * 0.75)`.
pub open spec fn main_grid_from_area(a: int) -> int {
    if a <= 0 {
        0
    } else {
        let w = sqrt_floor((750 * a) as nat) as int;
        ceil_div(w, 1200) * w
    }
}

/// Cross T-grid profile length: profiles at 600 mm spacing along a room of
/// length `sqrt(area * 1.33)`.
pub open spec fn cross_grid_from_area(a: int) -> int {
    if a <= 0 {
        0
    } else {
        let l = sqrt_floor((1330 * a) as nat) as int;
        ceil_div(l, 600) * (a * 1000 / l)
    }
}

/// Hangers on a 1200 x 1200 mm grid, plus 10% for the perimeter.
pub open spec fn hanger_count_from_area(a: int) -> int {
    if a <= 0 {
        0
    } else {
        a * 1000 / 1440 * 1100 / 1000
    }
}

/// The lines the suspended ceiling calculator intends to emit: nothing at
/// zero area, else tiles, main and cross grid, hangers and their anchors.
pub open spec fn ceiling_plan(p: Project) -> Seq<ItemSpec> {
    let area = project_ceiling_area(p);
    if area <= 0 {
        Seq::<ItemSpec>::empty()
    } else {
        seq![
            ItemSpec {
                code: "CEIL_TILE_600"@,
                quantity_milli: tile_count_from_area(area),
                note: "600x600mm tiles with 5% waste factor"@,
            },
            ItemSpec {
                code: "CEIL_GRID_MAIN"@,
                quantity_milli: main_grid_from_area(area),
                note: "Main T-grid profiles, 1200mm spacing"@,
            },
            ItemSpec {
                code: "CEIL_GRID_CROSS"@,
                quantity_milli: cross_grid_from_area(area),
                note: "Cross T-grid profiles, 600mm spacing"@,
            },
            ItemSpec {
                code: "CEIL_HANGER"@,
                quantity_milli: hanger_count_from_area(area),
                note: "Ceiling hangers, 1200x1200mm grid"@,
            },
            ItemSpec {
                code: "ANCHOR_8MM"@,
                quantity_milli: hanger_count_from_area(area),
                note: "Hanger fixings to structure"@,
            },
        ]
    }
}

/// Range of the bounding-box area of a well-formed floor.
pub proof fn lemma_floor_bbox_bound(f: Floor)
    requires
        f.wf(),
    ensures
        0 <= floor_bbox_area(f) <= 4_000_000_000,
{
    if f.walls@.len() > 0 {
        lemma_bbox_acc_bounds(f.walls@);
        let minx = minx_acc(f.walls@, i64::MAX as int);
        let maxx = maxx_acc(f.walls@, i64::MIN as int);
        let miny = miny_acc(f.walls@, i64::MAX as int);
        let maxy = maxy_acc(f.walls@, i64::MIN as int);
        assert(0 <= (maxx - minx) * (maxy - miny) <= 4_000_000_000_000int)
            by (nonlinear_arith)
            requires
                0 <= maxx - minx <= 2_000_000,
                0 <= maxy - miny <= 2_000_000;
        vstd::arithmetic::div_mod::lemma_div_is_ordered(
            0,
            (maxx - minx) * (maxy - miny),
            1000,
        );
        vstd::arithmetic::div_mod::lemma_div_is_ordered(
            (maxx - minx) * (maxy - miny),
            4_000_000_000_000int,
            1000,
        );
    }
}

/// Ranges of the ceiling area sums for a well-formed project.
pub proof fn lemma_ceiling_area_bounds(p: Project)
    requires
        p.wf(),
    ensures
        0 <= project_ceiling_area(p) <= 40_003_600_000_000,
{
    assert forall|i: int| 0 <= i < p.buildings@.len() implies 0
        <= #[trigger] building_ceiling_area_fn()(p.buildings@[i]) <= 400_036_000_000 by {
        let b = p.buildings@[i];
        assert forall|j: int| 0 <= j < b.floors@.len() implies 0
            <= #[trigger] floor_ceiling_area_fn()(b.floors@[j]) <= 4_000_360_000 by {
            let f = b.floors@[j];
            assert(forall|n: int| 0 <= n < f.components@.len() ==> 0
                <= #[trigger] tile_term_fn()(f.components@[n]) <= 360);
            lemma_sum_prefix_bound(
                f.components@,
                tile_term_fn(),
                f.components@.len() as int,
                360,
            );
            assert(f.components@.take(f.components@.len() as int) =~= f.components@);
            lemma_floor_bbox_bound(f);
        }
        lemma_sum_prefix_bound(
            b.floors@,
            floor_ceiling_area_fn(),
            b.floors@.len() as int,
            4_000_360_000,
        );
        assert(b.floors@.take(b.floors@.len() as int) =~= b.floors@);
    }
    lemma_sum_prefix_bound(
        p.buildings@,
        building_ceiling_area_fn(),
        p.buildings@.len() as int,
        400_036_000_000,
    );
    assert(p.buildings@.take(p.buildings@.len() as int) =~= p.buildings@);
}

/// A floor with no ceiling components and no walls charges zero area; a
/// design where every floor is such yields zero total area, so the ceiling
/// calculator plans no items at all, whatever other disciplines do.
pub proof fn lemma_no_ceiling_elements(p: Project)
    requires
        forall|bi: int, fi: int, ci: int| 0 <= bi < p.buildings@.len() && 0 <= fi
            < p.buildings@[bi].floors@.len() && 0 <= ci
            < p.buildings@[bi].floors@[fi].components@.len() ==> (
        #[trigger] p.buildings@[bi].floors@[fi].components@[ci]).discipline
            != Discipline::SuspendedCeiling,
    ensures
        project_ceiling_area(p) == 0,
        ceiling_plan(p) =~= Seq::<ItemSpec>::empty(),
{
    assert forall|bi: int| 0 <= bi < p.buildings@.len() implies
        #[trigger] building_ceiling_area_fn()(p.buildings@[bi]) == 0 by {
        let b = p.buildings@[bi];
        assert forall|fi: int| 0 <= fi < b.floors@.len() implies
            #[trigger] floor_ceiling_area_fn()(b.floors@[fi]) == 0 by {
            let f = b.floors@[fi];
            assert(forall|ci: int| 0 <= ci < f.components@.len()
                ==> #[trigger] tile_term_fn()(f.components@[ci]) == 0);
            assert(forall|ci: int| 0 <= ci < f.components@.len()
                ==> #[trigger] presence_term_fn()(f.components@[ci]) == 0);
            lemma_sum_prefix_bound(
                f.components@,
                tile_term_fn(),
                f.components@.len() as int,
                0,
            );
            lemma_sum_prefix_bound(
                f.components@,
                presence_term_fn(),
                f.components@.len() as int,
                0,
            );
            assert(f.components@.take(f.components@.len() as int) =~= f.components@);
        }
        lemma_sum_prefix_bound(
            b.floors@,
            floor_ceiling_area_fn(),
            b.floors@.len() as int,
            0,
        );
        assert(b.floors@.take(b.floors@.len() as int) =~= b.floors@);
    }
    lemma_sum_prefix_bound(
        p.buildings@,
        building_ceiling_area_fn(),
        p.buildings@.len() as int,
        0,
    );
    assert(p.buildings@.take(p.buildings@.len() as int) =~= p.buildings@);
}

/// Ranges of the derived ceiling quantities for an area within range.
pub proof fn lemma_ceiling_quantities_bounds(a: int)
    requires
        0 <= a <= 40_003_600_000_000,
    ensures
        0 <= tile_count_from_area(a) <= 116_677_167_000_000,
        0 <= main_grid_from_area(a) <= 25_200_000_000_000,
        0 <= cross_grid_from_area(a) <= 71_000_000_000_000,
        0 <= hanger_count_from_area(a) <= 30_558_528_000_000,
{
    vstd::arithmetic::div_mod::lemma_div_is_ordered(0, a * 1000, 360);
    vstd::arithmetic::div_mod::lemma_div_is_ordered(
        a * 1000,
        40_003_600_000_000_000,
        360,
    );
    vstd::arithmetic::div_mod::lemma_div_is_ordered(0, a * 1000 / 360 * 1050, 1000);
    vstd::arithmetic::div_mod::lemma_div_is_ordered(
        a * 1000 / 360 * 1050,
        116_677_167_000_000_000,
        1000,
    );
    assert(a * 1000 / 360 * 1050 <= 116_677_167_000_000_000) by (nonlinear_arith)
        requires 0 <= a * 1000 / 360 <= 111_121_111_111_111int;
    vstd::arithmetic::div_mod::lemma_div_is_ordered(0, a * 1000, 1440);
    vstd::arithmetic::div_mod::lemma_div_is_ordered(
        a * 1000,
        40_003_600_000_000_000,
        1440,
    );
    vstd::arithmetic::div_mod::lemma_div_is_ordered(0, a * 1000 / 1440 * 1100, 1000);
    assert(a * 1000 / 1440 * 1100 <= 30_558_528_000_000_000) by (nonlinear_arith)
        requires 0 <= a * 1000 / 1440 <= 27_780_277_777_777int;
    vstd::arithmetic::div_mod::lemma_div_is_ordered(
        a * 1000 / 1440 * 1100,
        30_558_528_000_000_000,
        1000,
    );
    if a > 0 {
        lemma_sqrt_floor_bounds((750 * a) as nat);
        let w = sqrt_floor((750 * a) as nat) as int;
        assert(w <= 173_215_000) by (nonlinear_arith)
            requires
                w >= 0,
                w * w <= 750 * a,
                a <= 40_003_600_000_000;
        vstd::arithmetic::div_mod::lemma_div_is_ordered(0, w + 1199, 1200);
        vstd::arithmetic::div_mod::lemma_div_is_ordered(w + 1199, 173_216_199, 1200);
        assert(0 <= ceil_div(w, 1200) <= 144_347);
        assert(0 <= ceil_div(w, 1200) * w <= 25_200_000_000_000) by (nonlinear_arith)
            requires
                0 <= ceil_div(w, 1200) <= 144_347,
                0 <= w <= 173_215_000;
        lemma_sqrt_floor_bounds((1330 * a) as nat);
        let l = sqrt_floor((1330 * a) as nat) as int;
        assert(l <= 230_663_000) by (nonlinear_arith)
            requires
                l >= 0,
                l * l <= 1330 * a,
                a <= 40_003_600_000_000;
        assert(l >= 36) by (nonlinear_arith)
            requires
                1330 * a < (l + 1) * (l + 1),
                a >= 1,
                l >= 0;
        assert(1000 * a <= 184_000_000 * l) by (nonlinear_arith)
            requires
                1330 * a < (l + 1) * (l + 1),
                36 <= l <= 230_663_000;
        vstd::arithmetic::div_mod::lemma_div_is_ordered(a * 1000, 184_000_000 * l, l);
        vstd::arithmetic::div_mod::lemma_div_multiples_vanish(184_000_000, l);
        vstd::arithmetic::div_mod::lemma_div_is_ordered(0, a * 1000, l);
        assert(0 <= a * 1000 / l <= 184_000_000);
        vstd::arithmetic::div_mod::lemma_div_is_ordered(0, l + 599, 600);
        vstd::arithmetic::div_mod::lemma_div_is_ordered(l + 599, 230_663_599, 600);
        assert(0 <= ceil_div(l, 600) <= 384_440);
        assert(0 <= ceil_div(l, 600) * (a * 1000 / l) <= 71_000_000_000_000)
            by (nonlinear_arith)
            requires
                0 <= ceil_div(l, 600) <= 384_440,
                0 <= a * 1000 / l <= 184_000_000;
    }
}

/// Ceiling area charged for one floor: a components pass, then a wall
/// bounding-box pass when the floor has ceiling components.
fn floor_ceiling_area_exec(f: &Floor) -> (r: u64)
    requires
        f.wf(),
    ensures
        r as int == floor_ceiling_area(*f),
{
    let mut tiles: u64 = 0;
    let mut present: u64 = 0;
    let mut i: usize = 0;
    while i < f.components.len()
        invariant
            i <= f.components@.len(),
            f.components@.len() <= 1000,
            tiles as int == sum_by(f.components@.take(i as int), tile_term_fn()),
            present as int == sum_by(f.components@.take(i as int), presence_term_fn()),
            tiles as int <= 360 * (i as int),
            present as int <= i as int,
        decreases f.components@.len() - i,
    {
        let c = &f.components[i];
        let mut tv: u64 = 0;
        let mut pv: u64 = 0;
        if c.discipline == Discipline::SuspendedCeiling {
            pv = 1;
            if matches!(
                c.component_type,
                ComponentType::SuspendedCeiling(SuspendedCeilingComponent::Tile)
            ) {
                tv = 360;
            }
        }
        proof {
            lemma_sum_by_take_succ(f.components@, tile_term_fn(), i as int);
            lemma_sum_by_take_succ(f.components@, presence_term_fn(), i as int);
            assert(tile_term_fn()(f.components@[i as int]) == tv as int);
            assert(presence_term_fn()(f.components@[i as int]) == pv as int);
        }
        tiles = tiles + tv;
        present = present + pv;
        i += 1;
    }
    proof {
        assert(f.components@.take(f.components@.len() as int) =~= f.components@);
    }
    let mut total: u64 = tiles;
    if present > 0 && f.walls.len() > 0 {
        let mut min_x: i64 = i64::MAX;
        let mut max_x: i64 = i64::MIN;
        let mut min_y: i64 = i64::MAX;
        let mut max_y: i64 = i64::MIN;
        let mut j: usize = 0;
        while j < f.walls.len()
            invariant
                j <= f.walls@.len(),
                f.wf(),
                min_x as int == minx_acc(f.walls@.take(j as int), i64::MAX as int),
                max_x as int == maxx_acc(f.walls@.take(j as int), i64::MIN as int),
                min_y as int == miny_acc(f.walls@.take(j as int), i64::MAX as int),
                max_y as int == maxy_acc(f.walls@.take(j as int), i64::MIN as int),
            decreases f.walls@.len() - j,
        {
            let w = &f.walls[j];
            proof {
                assert(f.walls@.take(j + 1).drop_last() =~= f.walls@.take(j as int));
                assert(f.walls@.take(j + 1).last() == f.walls@[j as int]);
            }
            let wlo_x: i64 = if w.start_point.x <= w.end_point.x {
                w.start_point.x
            } else {
                w.end_point.x
            };
            let whi_x: i64 = if w.start_point.x >= w.end_point.x {
                w.start_point.x
            } else {
                w.end_point.x
            };
            let wlo_y: i64 = if w.start_point.y <= w.end_point.y {
                w.start_point.y
            } else {
                w.end_point.y
            };
            let whi_y: i64 = if w.start_point.y >= w.end_point.y {
                w.start_point.y
            } else {
                w.end_point.y
            };
            if wlo_x < min_x {
                min_x = wlo_x;
            }
            if whi_x > max_x {
                max_x = whi_x;
            }
            if wlo_y < min_y {
                min_y = wlo_y;
            }
            if whi_y > max_y {
                max_y = whi_y;
            }
            j += 1;
        }
        proof {
            assert(f.walls@.take(f.walls@.len() as int) =~= f.walls@);
            lemma_bbox_acc_bounds(f.walls@);
            lemma_floor_bbox_bound(*f);
        }
        let dx: u64 = (max_x - min_x) as u64;
        let dy: u64 = (max_y - min_y) as u64;
        proof {
            assert((dx as int) * (dy as int) <= 4_000_000_000_000int)
                by (nonlinear_arith)
                requires
                    0 <= dx as int <= 2_000_000,
                    0 <= dy as int <= 2_000_000;
        }
        let bbox: u64 = (dx * dy) / 1000;
        total = total + bbox;
    }
    total
}

/// Suspended ceiling BOM calculator.
#[derive(Default)]
pub struct SuspendedCeilingCalculator;

impl SuspendedCeilingCalculator {
    pub fn new() -> (c: SuspendedCeilingCalculator)
    {
        SuspendedCeilingCalculator
    }

    /// Ceiling area of the whole project, in thousandths of a square metre.
    fn calculate_ceiling_area(&self, project: &Project) -> (r: u64)
        requires
            project.wf(),
        ensures
            r as int == project_ceiling_area(*project),
            r <= 40_003_600_000_000,
    {
        let mut total: u64 = 0;
        let mut bi: usize = 0;
        while bi < project.buildings.len()
            invariant
                bi <= project.buildings@.len(),
                project.wf(),
                total as int == sum_by(
                    project.buildings@.take(bi as int),
                    building_ceiling_area_fn(),
                ),
                total as int <= 400_036_000_000 * (bi as int),
            decreases project.buildings@.len() - bi,
        {
            let b = &project.buildings[bi];
            let mut bt: u64 = 0;
            let mut fi: usize = 0;
            while fi < b.floors.len()
                invariant
                    fi <= b.floors@.len(),
                    b.wf(),
                    bt as int == sum_by(
                        b.floors@.take(fi as int),
                        floor_ceiling_area_fn(),
                    ),
                    bt as int <= 4_000_360_000 * (fi as int),
                decreases b.floors@.len() - fi,
            {
                let fv = floor_ceiling_area_exec(&b.floors[fi]);
                proof {
                    lemma_sum_by_take_succ(b.floors@, floor_ceiling_area_fn(), fi as int);
                    let f = b.floors@[fi as int];
                    assert(forall|n: int| 0 <= n < f.components@.len() ==> 0
                        <= #[trigger] tile_term_fn()(f.components@[n]) <= 360);
                    lemma_sum_prefix_bound(
                        f.components@,
                        tile_term_fn(),
                        f.components@.len() as int,
                        360,
                    );
                    assert(f.components@.take(f.components@.len() as int)
                        =~= f.components@);
                    lemma_floor_bbox_bound(f);
                }
                bt = bt + fv;
                fi += 1;
            }
            proof {
                assert(b.floors@.take(b.floors@.len() as int) =~= b.floors@);
                lemma_sum_by_take_succ(
                    project.buildings@,
                    building_ceiling_area_fn(),
                    bi as int,
                );
            }
            total = total + bt;
            bi += 1;
        }
        proof {
            assert(project.buildings@.take(project.buildings@.len() as int)
                =~= project.buildings@);
            lemma_ceiling_area_bounds(*project);
        }
        total
    }

    /// Number of ceiling tiles needed, with the 5% waste factor.
    fn calculate_tile_count(&self, ceiling_area: u64) -> (r: u64)
        requires
            ceiling_area <= 40_003_600_000_000,
        ensures
            r as int == tile_count_from_area(ceiling_area as int),
    {
        proof {
            vstd::arithmetic::div_mod::lemma_div_is_ordered(
                0,
                ceiling_area as int * 1000,
                360,
            );
            vstd::arithmetic::div_mod::lemma_div_is_ordered(
                ceiling_area as int * 1000,
                40_003_600_000_000_000,
                360,
            );
        }
        let tiles_needed = (ceiling_area * 1000) / 360;
        (tiles_needed * 1050) / 1000
    }

    /// Main T-grid profile length estimate.
    fn calculate_main_grid_length(&self, _project: &Project, ceiling_area: u64) -> (r:
        u64)
        requires
            ceiling_area <= 40_003_600_000_000,
        ensures
            r as int == main_grid_from_area(ceiling_area as int),
    {
        if ceiling_area == 0 {
            return 0;
        }
        let typical_room_width = isqrt(750 * ceiling_area);
        proof {
            let w = typical_room_width as int;
            assert(w <= 173_215_000) by (nonlinear_arith)
                requires
                    w >= 0,
                    w * w <= 750 * (ceiling_area as int),
                    ceiling_area <= 40_003_600_000_000;
            vstd::arithmetic::div_mod::lemma_div_is_ordered(0, w + 1199, 1200);
            vstd::arithmetic::div_mod::lemma_div_is_ordered(w + 1199, 173_216_199, 1200);
            assert((w + 1199) / 1200 * w <= 25_200_000_000_000) by (nonlinear_arith)
                requires
                    0 <= (w + 1199) / 1200 <= 144_347,
                    0 <= w <= 173_215_000;
        }
        let main_profile_count = (typical_room_width + 1199) / 1200;
        main_profile_count * typical_room_width
    }

    /// Cross T-grid profile length estimate.
    fn calculate_cross_grid_length(&self, _project: &Project, ceiling_area: u64) -> (r:
        u64)
        requires
            ceiling_area <= 40_003_600_000_000,
        ensures
            r as int == cross_grid_from_area(ceiling_area as int),
    {
        if ceiling_area == 0 {
            return 0;
        }
        let typical_room_length = isqrt(1330 * ceiling_area);
        proof {
            let a = ceiling_area as int;
            let l = typical_room_length as int;
            lemma_sqrt_floor_bounds((1330 * a) as nat);
            assert(l <= 230_663_000) by (nonlinear_arith)
                requires
                    l >= 0,
                    l * l <= 1330 * a,
                    a <= 40_003_600_000_000;
            assert(l >= 36) by (nonlinear_arith)
                requires
                    1330 * a < (l + 1) * (l + 1),
                    a >= 1,
                    l >= 0;
            assert(1000 * a <= 184_000_000 * l) by (nonlinear_arith)
                requires
                    1330 * a < (l + 1) * (l + 1),
                    36 <= l <= 230_663_000;
            vstd::arithmetic::div_mod::lemma_div_is_ordered(
                a * 1000,
                184_000_000 * l,
                l,
            );
            vstd::arithmetic::div_mod::lemma_div_multiples_vanish(184_000_000, l);
            vstd::arithmetic::div_mod::lemma_div_is_ordered(0, a * 1000, l);
            vstd::arithmetic::div_mod::lemma_div_is_ordered(0, l + 599, 600);
            vstd::arithmetic::div_mod::lemma_div_is_ordered(l + 599, 230_663_599, 600);
            assert((l + 599) / 600 * (a * 1000 / l) <= 71_000_000_000_000)
                by (nonlinear_arith)
                requires
                    0 <= (l + 599) / 600 <= 384_440,
                    0 <= a * 1000 / l <= 184_000_000;
        }
        let cross_profile_count = (typical_room_length + 599) / 600;
        cross_profile_count * ((ceiling_area * 1000) / typical_room_length)
    }

    /// Hanger count on the 1200 x 1200 mm grid, with 10% perimeter extra.
    fn calculate_hanger_count(&self, ceiling_area: u64) -> (r: u64)
        requires
            ceiling_area <= 40_003_600_000_000,
        ensures
            r as int == hanger_count_from_area(ceiling_area as int),
    {
        if ceiling_area == 0 {
            return 0;
        }
        proof {
            vstd::arithmetic::div_mod::lemma_div_is_ordered(
                0,
                ceiling_area as int * 1000,
                1440,
            );
            vstd::arithmetic::div_mod::lemma_div_is_ordered(
                ceiling_area as int * 1000,
                40_003_600_000_000_000,
                1440,
            );
        }
        let hangers = (ceiling_area * 1000) / 1440;
        (hangers * 1100) / 1000
    }

    /// One anchor fixing per hanger.
    fn calculate_hanger_fixings(&self, hanger_count: u64) -> (r: u64)
        ensures
            r == hanger_count,
    {
        hanger_count
    }

    /// Derive the suspended ceiling line items for the design against the
    /// catalog: exactly the planned lines whose material codes the catalog
    /// holds, in plan order.  A missing code drops that line only.
    #[verifier::rlimit(100)]
    pub fn calculate_items(&self, project: &Project, material_db: &MaterialDatabase)
        -> (r: Result<Vec<BomItem>, BomError>)
        requires
            project.wf(),
            material_db.wf(),
        ensures
            r matches Ok(items) && items_match_plan(
                *material_db,
                items@,
                plan_in_catalog(*material_db, ceiling_plan(*project)),
            ),
            r matches Ok(items) ==> items@.len() <= 16 && forall|j: int|
                0 <= j < items@.len() ==> item_wf(#[trigger] items@[j]),
    {
        let mut items: Vec<BomItem> = Vec::new();
        let ceiling_area = self.calculate_ceiling_area(project);

        // Only calculate if there's actual ceiling work
        if ceiling_area > 0 {
            let tile_count = self.calculate_tile_count(ceiling_area);
            let main_grid_length = self.calculate_main_grid_length(project, ceiling_area);
            let cross_grid_length = self.calculate_cross_grid_length(
                project,
                ceiling_area,
            );
            let hanger_count = self.calculate_hanger_count(ceiling_area);
            let fixing_count = self.calculate_hanger_fixings(hanger_count);
            let ghost plan = ceiling_plan(*project);
            proof {
                assert(plan.take(0) =~= Seq::<ItemSpec>::empty());
                reveal_with_fuel(Seq::filter, 2);
                assert(items_match_plan(
                    *material_db,
                    items@,
                    plan_in_catalog(*material_db, plan.take(0)),
                ));
            }
            proof {
                assert(plan.take(1).drop_last() =~= plan.take(0));
                assert(plan.take(1).last() == plan[0]);
                reveal_with_fuel(Seq::filter, 2);
            }
            if let Some(m) = material_db.get_material_by_code("CEIL_TILE_600") {
                proof {
                    crate::material::lemma_first_code_index(
                        material_db.materials@,
                        "CEIL_TILE_600"@,
                    );
                }
                items.push(BomItem::new(
                    m,
                    tile_count,
                    Some("600x600mm tiles with 5% waste factor".to_owned()),
                ));
            }
            proof {
                assert(items_match_plan(
                    *material_db,
                    items@,
                    plan_in_catalog(*material_db, plan.take(1)),
                ));
            }
            proof {
                assert(plan.take(2).drop_last() =~= plan.take(1));
                assert(plan.take(2).last() == plan[1]);
                reveal_with_fuel(Seq::filter, 2);
            }
            if let Some(m) = material_db.get_material_by_code("CEIL_GRID_MAIN") {
                proof {
                    crate::material::lemma_first_code_index(
                        material_db.materials@,
                        "CEIL_GRID_MAIN"@,
                    );
                }
                items.push(BomItem::new(
                    m,
                    main_grid_length,
                    Some("Main T-grid profiles, 1200mm spacing".to_owned()),
                ));
            }
            proof {
                assert(items_match_plan(
                    *material_db,
                    items@,
                    plan_in_catalog(*material_db, plan.take(2)),
                ));
            }
            proof {
                assert(plan.take(3).drop_last() =~= plan.take(2));
                assert(plan.take(3).last() == plan[2]);
                reveal_with_fuel(Seq::filter, 2);
            }
            if let Some(m) = material_db.get_material_by_code("CEIL_GRID_CROSS") {
                proof {
                    crate::material::lemma_first_code_index(
                        material_db.materials@,
                        "CEIL_GRID_CROSS"@,
                    );
                }
                items.push(BomItem::new(
                    m,
                    cross_grid_length,
                    Some("Cross T-grid profiles, 600mm spacing".to_owned()),
                ));
            }
            proof {
                assert(items_match_plan(
                    *material_db,
                    items@,
                    plan_in_catalog(*material_db, plan.take(3)),
                ));
            }
            proof {
                assert(plan.take(4).drop_last() =~= plan.take(3));
                assert(plan.take(4).last() == plan[3]);
                reveal_with_fuel(Seq::filter, 2);
            }
            if let Some(m) = material_db.get_material_by_code("CEIL_HANGER") {
                proof {
                    crate::material::lemma_first_code_index(
                        material_db.materials@,
                        "CEIL_HANGER"@,
                    );
                }
                items.push(BomItem::new(
                    m,
                    hanger_count,
                    Some("Ceiling hangers, 1200x1200mm grid".to_owned()),
                ));
            }
            proof {
                assert(items_match_plan(
                    *material_db,
                    items@,
                    plan_in_catalog(*material_db, plan.take(4)),
                ));
            }
            proof {
                assert(plan.take(5).drop_last() =~= plan.take(4));
                assert(plan.take(5).last() == plan[4]);
                reveal_with_fuel(Seq::filter, 2);
            }
            if let Some(m) = material_db.get_material_by_code("ANCHOR_8MM") {
                proof {
                    crate::material::lemma_first_code_index(
                        material_db.materials@,
                        "ANCHOR_8MM"@,
                    );
                }
                items.push(BomItem::new(
                    m,
                    fixing_count,
                    Some("Hanger fixings to structure".to_owned()),
                ));
            }
            proof {
                assert(items_match_plan(
                    *material_db,
                    items@,
                    plan_in_catalog(*material_db, plan.take(5)),
                ));
            }
            proof {
                assert(plan.take(5) =~= plan);
            }
        } else {
            proof {
                reveal_with_fuel(Seq::filter, 2);
                assert(ceiling_plan(*project) =~= Seq::<ItemSpec>::empty());
                assert(plan_in_catalog(*material_db, ceiling_plan(*project)).len() == 0);
            }
        }
        proof {
            let plan = ceiling_plan(*project);
            let kept = plan_in_catalog(*material_db, plan);
            lemma_ceiling_area_bounds(*project);
            lemma_ceiling_quantities_bounds(project_ceiling_area(*project));
            assert forall|j: int| 0 <= j < items@.len() implies item_wf(
                #[trigger] items@[j],
            ) by {
                let l = kept[j];
                crate::bom::lemma_plan_in_catalog_from_plan(*material_db, plan, j);
                let w = choose|w: int| 0 <= w < plan.len() && plan[w] == l;
                crate::material::lemma_first_code_index(material_db.materials@, l.code);
            }
        }
        Ok(items)
    }
}
impl BomCalculator for SuspendedCeilingCalculator {
    fn calculate(&self, project: &Project, material_db: &MaterialDatabase) -> (r:
        Result<Vec<BomItem>, BomError>)
    {
        self.calculate_items(project, material_db)
    }

    fn discipline(&self) -> Discipline {
        Discipline::SuspendedCeiling
    }
}

} // verus!
