//! Electrical BOM calculator.
//!
//! Components are counted by kind; the cable estimate charges an average run
//! per component (outlet 10 m, switch 8 m, light 12 m, panel 0 m, junction
//! 5 m, conduit 1 m) plus a fixed 20% waste and routing allowance.  Only
//! cable and outlets are priced; the other kinds are counted but deliberately
//! not yet priced.

use vstd::prelude::*;
use crate::Discipline;
use crate::arith::{lemma_sum_prefix_bound, lemma_sum_by_take_succ, sum_by};
use crate::bom::{
    BomCalculator, BomError, BomItem, ItemSpec, items_match_plan, item_wf, plan_in_catalog,
};
use crate::building::{Floor, Project};
use crate::components::{Component, ComponentType, ElectricalComponent};
use crate::material::MaterialDatabase;

verus! {

/// Average cable run charged for one component, in thousandths of a metre.
pub open spec fn run_term(c: Component) -> int {
    if c.discipline == Discipline::Electrical {
        match c.component_type {
            ComponentType::Electrical(ElectricalComponent::Outlet) => 10_000,
            ComponentType::Electrical(ElectricalComponent::Switch) => 8_000,
            ComponentType::Electrical(ElectricalComponent::Light) => 12_000,
            ComponentType::Electrical(ElectricalComponent::Panel) => 0,
            ComponentType::Electrical(ElectricalComponent::Junction) => 5_000,
            ComponentType::Electrical(ElectricalComponent::Conduit) => 1_000,
            _ => 0,
        }
    } else {
        0
    }
}

/// One for an electrical component of the given kind, else zero.
pub open spec fn kind_term(c: Component, kind: ElectricalComponent) -> int {
    if c.discipline == Discipline::Electrical && (c.component_type matches
    ComponentType::Electrical(k) && k == kind) {
        1
    } else {
        0
    }
}

pub open spec fn run_term_fn() -> spec_fn(Component) -> int {
    |c: Component| run_term(c)
}

pub open spec fn kind_term_fn(kind: ElectricalComponent) -> spec_fn(Component) -> int {
    |c: Component| kind_term(c, kind)
}

pub open spec fn floor_runs(f: Floor) -> int {
    sum_by(f.components@, run_term_fn())
}

pub open spec fn floor_kind_count(f: Floor, kind: ElectricalComponent) -> int {
    sum_by(f.components@, kind_term_fn(kind))
}

pub open spec fn floor_runs_fn() -> spec_fn(Floor) -> int {
    |f: Floor| floor_runs(f)
}

pub open spec fn floor_kind_count_fn(kind: ElectricalComponent) -> spec_fn(Floor) -> int {
    |f: Floor| floor_kind_count(f, kind)
}

pub open spec fn building_runs_fn() -> spec_fn(crate::building::Building) -> int {
    |b: crate::building::Building| sum_by(b.floors@, floor_runs_fn())
}

pub open spec fn building_kind_count_fn(kind: ElectricalComponent) -> spec_fn(
    crate::building::Building,
) -> int {
    |b: crate::building::Building| sum_by(b.floors@, floor_kind_count_fn(kind))
}

/// Sum of the average runs over the whole project, in thousandths of a metre.
pub open spec fn project_runs(p: Project) -> int {
    sum_by(p.buildings@, building_runs_fn())
}

/// Number of electrical components of the given kind in the whole project.
pub open spec fn project_kind_count(p: Project, kind: ElectricalComponent) -> int {
    sum_by(p.buildings@, building_kind_count_fn(kind))
}

/// Estimated cable length: the summed runs plus 20% for waste and routing,
/// in thousandths of a metre.
pub open spec fn project_cable_length(p: Project) -> int {
    project_runs(p) * 1200 / 1000
}

/// Number of electrical components of any kind in the whole project.
pub open spec fn project_electrical_total(p: Project) -> int {
    project_kind_count(p, ElectricalComponent::Outlet) + project_kind_count(
        p,
        ElectricalComponent::Switch,
    ) + project_kind_count(p, ElectricalComponent::Light) + project_kind_count(
        p,
        ElectricalComponent::Panel,
    ) + project_kind_count(p, ElectricalComponent::Junction) + project_kind_count(
        p,
        ElectricalComponent::Conduit,
    )
}

/// The lines the electrical calculator intends to emit: nothing when no
/// electrical components exist; else a cable line when the estimate is
/// positive, and an outlet line when outlets were counted.  Switches, lights,
/// panels, junctions and conduits are counted but not priced.
pub open spec fn electrical_plan(p: Project) -> Seq<ItemSpec> {
    if project_electrical_total(p) <= 0 {
        Seq::<ItemSpec>::empty()
    } else {
        let cable = if project_cable_length(p) > 0 {
            seq![
                ItemSpec {
                    code: "ELEC_NYM_315"@,
                    quantity_milli: project_cable_length(p),
                    note: "Estimated cable runs with 20% waste factor"@,
                },
            ]
        } else {
            Seq::<ItemSpec>::empty()
        };
        let outlets = if project_kind_count(p, ElectricalComponent::Outlet) > 0 {
            seq![
                ItemSpec {
                    code: "ELEC_OUTLET_STD"@,
                    quantity_milli: project_kind_count(p, ElectricalComponent::Outlet)
                        * 1000,
                    note: "Standard electrical outlets"@,
                },
            ]
        } else {
            Seq::<ItemSpec>::empty()
        };
        cable + outlets
    }
}

/// Ranges of the project-level electrical sums for a well-formed project.
pub proof fn lemma_electrical_bounds(p: Project)
    requires
        p.wf(),
    ensures
        0 <= project_runs(p) <= 120_000_000_000,
        0 <= project_cable_length(p) <= 144_000_000_000,
        forall|kind: ElectricalComponent| 0 <= #[trigger] project_kind_count(p, kind)
            <= 10_000_000,
{
    assert forall|i: int| 0 <= i < p.buildings@.len() implies 0
        <= #[trigger] building_runs_fn()(p.buildings@[i]) <= 1_200_000_000 by {
        let b = p.buildings@[i];
        assert forall|j: int| 0 <= j < b.floors@.len() implies 0 <= #[trigger] floor_runs_fn()(b.floors@[j]) <= 12_000_000 by {
            let f = b.floors@[j];
            assert(forall|n: int| 0 <= n < f.components@.len() ==> 0
                <= #[trigger] run_term_fn()(f.components@[n]) <= 12_000);
            lemma_sum_prefix_bound(
                f.components@,
                run_term_fn(),
                f.components@.len() as int,
                12_000,
            );
            assert(f.components@.take(f.components@.len() as int) =~= f.components@);
        }
        lemma_sum_prefix_bound(b.floors@, floor_runs_fn(), b.floors@.len() as int, 12_000_000);
        assert(b.floors@.take(b.floors@.len() as int) =~= b.floors@);
    }
    lemma_sum_prefix_bound(
        p.buildings@,
        building_runs_fn(),
        p.buildings@.len() as int,
        1_200_000_000,
    );
    assert(p.buildings@.take(p.buildings@.len() as int) =~= p.buildings@);
    vstd::arithmetic::div_mod::lemma_div_is_ordered(0, project_runs(p) * 1200, 1000);
    vstd::arithmetic::div_mod::lemma_div_is_ordered(
        project_runs(p) * 1200,
        144_000_000_000_000,
        1000,
    );
    assert forall|kind: ElectricalComponent| 0 <= #[trigger] project_kind_count(p, kind)
        <= 10_000_000 by {
        assert forall|i: int| 0 <= i < p.buildings@.len() implies 0
            <= #[trigger] building_kind_count_fn(kind)(p.buildings@[i]) <= 100_000 by {
            let b = p.buildings@[i];
            assert forall|j: int| 0 <= j < b.floors@.len() implies 0 <= #[trigger] floor_kind_count_fn(kind)(b.floors@[j]) <= 1000 by {
                let f = b.floors@[j];
                assert(forall|n: int| 0 <= n < f.components@.len() ==> 0
                    <= #[trigger] kind_term_fn(kind)(f.components@[n]) <= 1);
                lemma_sum_prefix_bound(
                    f.components@,
                    kind_term_fn(kind),
                    f.components@.len() as int,
                    1,
                );
                assert(f.components@.take(f.components@.len() as int)
                    =~= f.components@);
            }
            lemma_sum_prefix_bound(
                b.floors@,
                floor_kind_count_fn(kind),
                b.floors@.len() as int,
                1000,
            );
            assert(b.floors@.take(b.floors@.len() as int) =~= b.floors@);
        }
        lemma_sum_prefix_bound(
            p.buildings@,
            building_kind_count_fn(kind),
            p.buildings@.len() as int,
            100_000,
        );
        assert(p.buildings@.take(p.buildings@.len() as int) =~= p.buildings@);
    }
}

/// A design with no components of the electrical discipline yields zero
/// counts and zero cable estimate, so the electrical calculator plans no
/// items at all and contributes nothing to the report.
pub proof fn lemma_no_electrical_elements(p: Project)
    requires
        forall|bi: int, fi: int, ci: int| 0 <= bi < p.buildings@.len() && 0 <= fi
            < p.buildings@[bi].floors@.len() && 0 <= ci
            < p.buildings@[bi].floors@[fi].components@.len() ==> (
        #[trigger] p.buildings@[bi].floors@[fi].components@[ci]).discipline
            != Discipline::Electrical,
    ensures
        project_runs(p) == 0,
        project_cable_length(p) == 0,
        forall|kind: ElectricalComponent| #[trigger] project_kind_count(p, kind) == 0,
        project_electrical_total(p) == 0,
        electrical_plan(p) =~= Seq::<ItemSpec>::empty(),
{
    assert forall|bi: int| 0 <= bi < p.buildings@.len() implies
        #[trigger] building_runs_fn()(p.buildings@[bi]) == 0 by {
        let b = p.buildings@[bi];
        assert forall|fi: int| 0 <= fi < b.floors@.len() implies
            #[trigger] floor_runs_fn()(b.floors@[fi]) == 0 by {
            let f = b.floors@[fi];
            assert(forall|ci: int| 0 <= ci < f.components@.len()
                ==> #[trigger] run_term_fn()(f.components@[ci]) == 0);
            lemma_sum_prefix_bound(
                f.components@,
                run_term_fn(),
                f.components@.len() as int,
                0,
            );
            assert(f.components@.take(f.components@.len() as int) =~= f.components@);
        }
        lemma_sum_prefix_bound(b.floors@, floor_runs_fn(), b.floors@.len() as int, 0);
        assert(b.floors@.take(b.floors@.len() as int) =~= b.floors@);
    }
    lemma_sum_prefix_bound(
        p.buildings@,
        building_runs_fn(),
        p.buildings@.len() as int,
        0,
    );
    assert(p.buildings@.take(p.buildings@.len() as int) =~= p.buildings@);
    assert forall|kind: ElectricalComponent| #[trigger] project_kind_count(p, kind)
        == 0 by {
        assert forall|bi: int| 0 <= bi < p.buildings@.len() implies
            #[trigger] building_kind_count_fn(kind)(p.buildings@[bi]) == 0 by {
            let b = p.buildings@[bi];
            assert forall|fi: int| 0 <= fi < b.floors@.len() implies
                #[trigger] floor_kind_count_fn(kind)(b.floors@[fi]) == 0 by {
                let f = b.floors@[fi];
                assert(forall|ci: int| 0 <= ci < f.components@.len()
                    ==> #[trigger] kind_term_fn(kind)(f.components@[ci]) == 0);
                lemma_sum_prefix_bound(
                    f.components@,
                    kind_term_fn(kind),
                    f.components@.len() as int,
                    0,
                );
                assert(f.components@.take(f.components@.len() as int)
                    =~= f.components@);
            }
            lemma_sum_prefix_bound(
                b.floors@,
                floor_kind_count_fn(kind),
                b.floors@.len() as int,
                0,
            );
            assert(b.floors@.take(b.floors@.len() as int) =~= b.floors@);
        }
        lemma_sum_prefix_bound(
            p.buildings@,
            building_kind_count_fn(kind),
            p.buildings@.len() as int,
            0,
        );
        assert(p.buildings@.take(p.buildings@.len() as int) =~= p.buildings@);
    }
}

/// Electrical component counts by kind, one field per kind.
#[derive(Debug, Clone, Copy, PartialEq, Eq, Structural)]
pub struct ElectricalCounts {
    pub outlets: u64,
    pub switches: u64,
    pub lights: u64,
    pub panels: u64,
    pub junctions: u64,
    pub conduits: u64,
}

/// Electrical BOM calculator.
#[derive(Default)]
pub struct ElectricalCalculator;

impl ElectricalCalculator {
    pub fn new() -> (c: ElectricalCalculator)
    {
        ElectricalCalculator
    }

    /// Count electrical components by kind over the whole project.
    fn count_electrical_components(&self, project: &Project) -> (r: ElectricalCounts)
        requires
            project.wf(),
        ensures
            r.outlets as int == project_kind_count(*project, ElectricalComponent::Outlet),
            r.switches as int == project_kind_count(
                *project,
                ElectricalComponent::Switch,
            ),
            r.lights as int == project_kind_count(*project, ElectricalComponent::Light),
            r.panels as int == project_kind_count(*project, ElectricalComponent::Panel),
            r.junctions as int == project_kind_count(
                *project,
                ElectricalComponent::Junction,
            ),
            r.conduits as int == project_kind_count(
                *project,
                ElectricalComponent::Conduit,
            ),
    {
        let outlets = self.count_kind(project, ElectricalComponent::Outlet);
        let switches = self.count_kind(project, ElectricalComponent::Switch);
        let lights = self.count_kind(project, ElectricalComponent::Light);
        let panels = self.count_kind(project, ElectricalComponent::Panel);
        let junctions = self.count_kind(project, ElectricalComponent::Junction);
        let conduits = self.count_kind(project, ElectricalComponent::Conduit);
        ElectricalCounts { outlets, switches, lights, panels, junctions, conduits }
    }

    /// Count the electrical components of one kind.
    fn count_kind(&self, project: &Project, kind: ElectricalComponent) -> (r: u64)
        requires
            project.wf(),
        ensures
            r as int == project_kind_count(*project, kind),
            r <= 10_000_000,
    {
        let mut total: u64 = 0;
        let mut bi: usize = 0;
        while bi < project.buildings.len()
            invariant
                bi <= project.buildings@.len(),
                project.wf(),
                total as int == sum_by(
                    project.buildings@.take(bi as int),
                    building_kind_count_fn(kind),
                ),
                total as int <= 100_000 * (bi as int),
            decreases project.buildings@.len() - bi,
        {
            let b = &project.buildings[bi];
            let mut bt: u64 = 0;
            let mut fi: usize = 0;
            while fi < b.floors.len()
                invariant
                    fi <= b.floors@.len(),
                    b.wf(),
                    bt as int == sum_by(
                        b.floors@.take(fi as int),
                        floor_kind_count_fn(kind),
                    ),
                    bt as int <= 1000 * (fi as int),
                decreases b.floors@.len() - fi,
            {
                let f = &b.floors[fi];
                let mut ft: u64 = 0;
                let mut ci: usize = 0;
                while ci < f.components.len()
                    invariant
                        ci <= f.components@.len(),
                        f.wf(),
                        ft as int == sum_by(
                            f.components@.take(ci as int),
                            kind_term_fn(kind),
                        ),
                        ft as int <= ci as int,
                    decreases f.components@.len() - ci,
                {
                    let c = &f.components[ci];
                    let mut v: u64 = 0;
                    if c.discipline == Discipline::Electrical {
                        match &c.component_type {
                            ComponentType::Electrical(k) => {
                                if *k == kind {
                                    v = 1;
                                }
                            },
                            _ => {},
                        }
                    }
                    proof {
                        lemma_sum_by_take_succ(f.components@, kind_term_fn(kind), ci as int);
                        assert(kind_term_fn(kind)(f.components@[ci as int]) == v as int);
                    }
                    ft = ft + v;
                    ci += 1;
                }
                proof {
                    assert(f.components@.take(f.components@.len() as int)
                        =~= f.components@);
                    lemma_sum_by_take_succ(b.floors@, floor_kind_count_fn(kind), fi as int);
                }
                bt = bt + ft;
                fi += 1;
            }
            proof {
                assert(b.floors@.take(b.floors@.len() as int) =~= b.floors@);
                lemma_sum_by_take_succ(
                    project.buildings@,
                    building_kind_count_fn(kind),
                    bi as int,
                );
            }
            total = total + bt;
            bi += 1;
        }
        proof {
            assert(project.buildings@.take(project.buildings@.len() as int)
                =~= project.buildings@);
            lemma_electrical_bounds(*project);
        }
        total
    }

    /// Estimated cable length for the project, in thousandths of a metre:
    /// the summed average runs plus the 20% allowance.
    fn calculate_cable_length(&self, project: &Project) -> (r: u64)
        requires
            project.wf(),
        ensures
            r as int == project_cable_length(*project),
            r <= 144_000_000_000,
    {
        let mut total: u64 = 0;
        let mut bi: usize = 0;
        while bi < project.buildings.len()
            invariant
                bi <= project.buildings@.len(),
                project.wf(),
                total as int == sum_by(
                    project.buildings@.take(bi as int),
                    building_runs_fn(),
                ),
                total as int <= 1_200_000_000 * (bi as int),
            decreases project.buildings@.len() - bi,
        {
            let b = &project.buildings[bi];
            let mut bt: u64 = 0;
            let mut fi: usize = 0;
            while fi < b.floors.len()
                invariant
                    fi <= b.floors@.len(),
                    b.wf(),
                    bt as int == sum_by(b.floors@.take(fi as int), floor_runs_fn()),
                    bt as int <= 12_000_000 * (fi as int),
                decreases b.floors@.len() - fi,
            {
                let f = &b.floors[fi];
                let mut ft: u64 = 0;
                let mut ci: usize = 0;
                while ci < f.components.len()
                    invariant
                        ci <= f.components@.len(),
                        f.wf(),
                        ft as int == sum_by(f.components@.take(ci as int), run_term_fn()),
                        ft as int <= 12_000 * (ci as int),
                    decreases f.components@.len() - ci,
                {
                    let c = &f.components[ci];
                    let mut v: u64 = 0;
                    if c.discipline == Discipline::Electrical {
                        match &c.component_type {
                            ComponentType::Electrical(k) => {
                                v = match k {
                                    ElectricalComponent::Outlet => 10_000,
                                    ElectricalComponent::Switch => 8_000,
                                    ElectricalComponent::Light => 12_000,
                                    ElectricalComponent::Panel => 0,
                                    ElectricalComponent::Junction => 5_000,
                                    ElectricalComponent::Conduit => 1_000,
                                };
                            },
                            _ => {},
                        }
                    }
                    proof {
                        lemma_sum_by_take_succ(f.components@, run_term_fn(), ci as int);
                        assert(run_term_fn()(f.components@[ci as int]) == v as int);
                    }
                    ft = ft + v;
                    ci += 1;
                }
                proof {
                    assert(f.components@.take(f.components@.len() as int)
                        =~= f.components@);
                    lemma_sum_by_take_succ(b.floors@, floor_runs_fn(), fi as int);
                }
                bt = bt + ft;
                fi += 1;
            }
            proof {
                assert(b.floors@.take(b.floors@.len() as int) =~= b.floors@);
                lemma_sum_by_take_succ(project.buildings@, building_runs_fn(), bi as int);
            }
            total = total + bt;
            bi += 1;
        }
        proof {
            assert(project.buildings@.take(project.buildings@.len() as int)
                =~= project.buildings@);
            lemma_electrical_bounds(*project);
        }
        // Add 20% for waste and routing inefficiencies
        (total * 1200) / 1000
    }

    /// Derive the electrical line items for the design against the catalog:
    /// exactly the planned lines whose material codes the catalog holds.
    #[verifier::rlimit(100)]
    pub fn calculate_items(&self, project: &Project, material_db: &MaterialDatabase)
        -> (r: Result<Vec<BomItem>, BomError>)
        requires
            project.wf(),
            material_db.wf(),
        ensures
            r matches Ok(items) && items_match_plan(
                *material_db,
                items@,
                plan_in_catalog(*material_db, electrical_plan(*project)),
            ),
            r matches Ok(items) ==> items@.len() <= 16 && forall|j: int|
                0 <= j < items@.len() ==> item_wf(#[trigger] items@[j]),
    {
        let mut items: Vec<BomItem> = Vec::new();
        let counts = self.count_electrical_components(project);
        let cable_length = self.calculate_cable_length(project);
        proof {
            lemma_electrical_bounds(*project);
        }
        let total = counts.outlets + counts.switches + counts.lights + counts.panels
            + counts.junctions + counts.conduits;
        let ghost plan = electrical_plan(*project);

        if total > 0 {
            let ghost cable_part = if project_cable_length(*project) > 0 {
                seq![plan[0]]
            } else {
                Seq::<ItemSpec>::empty()
            };
            if cable_length > 0 {
                proof {
                    reveal_with_fuel(Seq::filter, 2);
                    assert(seq![plan[0]].drop_last() =~= Seq::<ItemSpec>::empty());
                }
                if let Some(m) = material_db.get_material_by_code("ELEC_NYM_315") {
                    proof {
                        crate::material::lemma_first_code_index(
                            material_db.materials@,
                            "ELEC_NYM_315"@,
                        );
                    }
                    items.push(BomItem::new(
                        m,
                        cable_length,
                        Some("Estimated cable runs with 20% waste factor".to_owned()),
                    ));
                }
            }
            proof {
                reveal_with_fuel(Seq::filter, 2);
                assert(items_match_plan(
                    *material_db,
                    items@,
                    plan_in_catalog(*material_db, cable_part),
                ));
            }
            let ghost n0 = items@.len() as int;
            if counts.outlets > 0 {
                proof {
                    let ol = ItemSpec {
                        code: "ELEC_OUTLET_STD"@,
                        quantity_milli: project_kind_count(
                            *project,
                            ElectricalComponent::Outlet,
                        ) * 1000,
                        note: "Standard electrical outlets"@,
                    };
                    reveal_with_fuel(Seq::filter, 2);
                    assert(seq![ol].drop_last() =~= Seq::<ItemSpec>::empty());
                }
                if let Some(m) = material_db.get_material_by_code("ELEC_OUTLET_STD") {
                    proof {
                        crate::material::lemma_first_code_index(
                            material_db.materials@,
                            "ELEC_OUTLET_STD"@,
                        );
                        lemma_electrical_bounds(*project);
                    }
                    items.push(BomItem::new(
                        m,
                        counts.outlets * 1000,
                        Some("Standard electrical outlets".to_owned()),
                    ));
                }
            }
            proof {
                reveal_with_fuel(Seq::filter, 2);
                let outlet_part = if project_kind_count(
                    *project,
                    ElectricalComponent::Outlet,
                ) > 0 {
                    seq![plan[cable_part.len() as int]]
                } else {
                    Seq::<ItemSpec>::empty()
                };
                assert(plan =~= cable_part + outlet_part);
                assert(plan_in_catalog(*material_db, plan) =~= plan_in_catalog(
                    *material_db,
                    cable_part,
                ) + plan_in_catalog(*material_db, outlet_part));
                assert(items_match_plan(
                    *material_db,
                    items@,
                    plan_in_catalog(*material_db, plan),
                ));
            }
        } else {
            proof {
                reveal_with_fuel(Seq::filter, 2);
                assert(plan =~= Seq::<ItemSpec>::empty());
                assert(plan_in_catalog(*material_db, plan).len() == 0);
            }
        }
        proof {
            let plan = electrical_plan(*project);
            let kept = plan_in_catalog(*material_db, plan);
            lemma_electrical_bounds(*project);
            assert forall|j: int| 0 <= j < items@.len() implies item_wf(
                #[trigger] items@[j],
            ) by {
                let l = kept[j];
                crate::bom::lemma_plan_in_catalog_from_plan(*material_db, plan, j);
                let w = choose|w: int| 0 <= w < plan.len() && plan[w] == l;
                crate::material::lemma_first_code_index(material_db.materials@, l.code);
            }
        }
        Ok(items)
    }
}

impl BomCalculator for ElectricalCalculator {
    fn calculate(&self, project: &Project, material_db: &MaterialDatabase) -> (r:
        Result<Vec<BomItem>, BomError>)
    {
        self.calculate_items(project, material_db)
    }

    fn discipline(&self) -> Discipline {
        Discipline::Electrical
    }
}

} // verus!
