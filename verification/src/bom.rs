//! BOM items, calculation results, errors, consolidation and the engine.

use vstd::prelude::*;
use crate::{Discipline, EntityId};
use crate::arith::sum_by;
use crate::building::Project;
use crate::material::{
    Material, MaterialCategory, MaterialDatabase, Unit, MAX_UNIT_COST_MILLI,
    first_code_index, spec_has_code,
};

verus! {

/// BOM calculation errors.  Payloads carry the offending code or a message.
#[derive(Debug, Clone)]
pub enum BomError {
    MaterialNotFound { code: String },
    CalculationError { message: String },
    CsvError(String),
    Utf8Error(String),
}

/// Individual BOM item.
///
/// `quantity_milli` is the quantity in thousandths of the unit,
/// `unit_cost_milli` the cost per unit in thousandths of the currency, and
/// `total_cost_micro` the line total in millionths of the currency, so that
/// `total_cost_micro == quantity_milli * unit_cost_milli` holds exactly.
#[derive(Debug, Clone)]
pub struct BomItem {
    pub material_code: String,
    pub material_name: String,
    pub quantity_milli: u128,
    pub unit: Unit,
    pub unit_cost_milli: u64,
    pub total_cost_micro: u128,
    pub discipline: Discipline,
    pub category: String,
    pub notes: Option<String>,
}

/// What a freshly created (not yet consolidated) item satisfies.
pub open spec fn item_wf(i: BomItem) -> bool {
    &&& i.quantity_milli <= u64::MAX
    &&& i.unit_cost_milli <= MAX_UNIT_COST_MILLI
    &&& i.total_cost_micro == i.quantity_milli * i.unit_cost_milli
}

impl BomItem {
    /// Materialize a line for `quantity_milli` thousandths of a unit of the
    /// given material.  The line total is exactly quantity times unit cost.
    pub fn new(material: &Material, quantity_milli: u64, notes: Option<String>) -> (
        item: BomItem)
        requires
            material.cost_per_unit_milli <= MAX_UNIT_COST_MILLI,
        ensures
            item.material_code == material.code,
            item.material_name == material.name,
            item.quantity_milli == quantity_milli,
            item.unit == material.unit,
            item.unit_cost_milli == material.cost_per_unit_milli,
            item.total_cost_micro == (quantity_milli as int) * (
            material.cost_per_unit_milli as int),
            item.discipline == material.discipline,
            item.category@ == material.category.spec_name(),
            item.notes == notes,
            item_wf(item),
    {
        proof {
            assert((quantity_milli as int) * (material.cost_per_unit_milli as int)
                < 0x100000000000000000000000000000000int) by (nonlinear_arith)
                requires
                    0 <= quantity_milli as int <= 0xffff_ffff_ffff_ffffint,
                    0 <= material.cost_per_unit_milli as int
                        <= 0xffff_ffff_ffff_ffffint;
        }
        let total_cost_micro: u128 = (quantity_milli as u128) * (
        material.cost_per_unit_milli as u128);
        BomItem {
            material_code: material.code.clone(),
            material_name: material.name.clone(),
            quantity_milli: quantity_milli as u128,
            unit: material.unit,
            unit_cost_milli: material.cost_per_unit_milli,
            total_cost_micro,
            discipline: material.discipline,
            category: material.category.name(),
            notes,
        }
    }
}

/// BOM calculation result.
#[derive(Debug, Clone)]
pub struct BomCalculation {
    pub project_id: EntityId,
    pub items: Vec<BomItem>,
    pub total_cost_micro: u128,
    pub calculation_date: String,
}

/// A line a calculator intends to emit: material code, quantity in
/// thousandths, and the note attached to it.  Ghost-level only.
pub struct ItemSpec {
    pub code: Seq<char>,
    pub quantity_milli: int,
    pub note: Seq<char>,
}

/// The lines of `plan` whose material codes the catalog holds; the others
/// are dropped silently (the documented best-effort policy).
pub open spec fn plan_in_catalog(db: MaterialDatabase, plan: Seq<ItemSpec>) -> Seq<
    ItemSpec,
> {
    plan.filter(|l: ItemSpec| spec_has_code(db.materials@, l.code))
}

/// Every line kept by `plan_in_catalog` is a line of the plan.
pub proof fn lemma_plan_in_catalog_from_plan(
    db: MaterialDatabase,
    plan: Seq<ItemSpec>,
    j: int,
)
    requires
        0 <= j < plan_in_catalog(db, plan).len(),
    ensures
        exists|w: int| 0 <= w < plan.len() && plan[w] == plan_in_catalog(db, plan)[j],
    decreases plan.len(),
{
    reveal(Seq::filter);
    if plan.len() > 0 {
        let kept = plan_in_catalog(db, plan);
        let keptd = plan_in_catalog(db, plan.drop_last());
        if spec_has_code(db.materials@, plan.last().code) {
            if j == kept.len() - 1 {
                assert(plan[plan.len() - 1] == kept[j]);
            } else {
                lemma_plan_in_catalog_from_plan(db, plan.drop_last(), j);
                let w = choose|w: int| 0 <= w < plan.drop_last().len()
                    && plan.drop_last()[w] == keptd[j];
                assert(plan[w] == kept[j]);
            }
        } else {
            lemma_plan_in_catalog_from_plan(db, plan.drop_last(), j);
            let w = choose|w: int| 0 <= w < plan.drop_last().len() && plan.drop_last()[w]
                == keptd[j];
            assert(plan[w] == kept[j]);
        }
    }
}

/// The produced item realizes the planned line against the catalog entry for
/// its code: every field is pinned by the catalog and the plan.
pub open spec fn item_matches(db: MaterialDatabase, i: BomItem, l: ItemSpec) -> bool {
    let m = db.materials@[first_code_index(db.materials@, l.code)];
    &&& spec_has_code(db.materials@, l.code)
    &&& i.material_code@ == l.code
    &&& i.material_name == m.name
    &&& i.quantity_milli == l.quantity_milli
    &&& i.unit == m.unit
    &&& i.unit_cost_milli == m.cost_per_unit_milli
    &&& i.total_cost_micro == l.quantity_milli * m.cost_per_unit_milli
    &&& i.discipline == m.discipline
    &&& i.category@ == m.category.spec_name()
    &&& i.notes matches Some(n) && n@ == l.note
}

/// The produced items realize the plan line by line, in order.
pub open spec fn items_match_plan(
    db: MaterialDatabase,
    items: Seq<BomItem>,
    plan: Seq<ItemSpec>,
) -> bool {
    &&& items.len() == plan.len()
    &&& forall|j: int| 0 <= j < items.len() ==> item_matches(db, #[trigger] items[j], plan[j])
}

/// Trait for discipline-specific BOM calculators.
///
/// A calculator reads the design snapshot and the catalog and returns raw
/// line items; it must not panic on degenerate input, must emit well-formed
/// items, and no more than 16 of them, so that consolidation stays within
/// machine bounds whatever calculators are registered.
pub trait BomCalculator {
    fn calculate(&self, project: &Project, material_db: &MaterialDatabase) -> (r:
        Result<Vec<BomItem>, BomError>)
        requires
            project.wf(),
            material_db.wf(),
        ensures
            r matches Ok(items) ==> items@.len() <= 16 && forall|j: int|
                0 <= j < items@.len() ==> item_wf(#[trigger] items@[j]),
    ;

    fn discipline(&self) -> Discipline;
}

/// Ghost-level image of a BOM item: every field by value or view.
pub struct BomItemModel {
    pub code: Seq<char>,
    pub name: Seq<char>,
    pub quantity_milli: int,
    pub unit: Unit,
    pub unit_cost_milli: int,
    pub total_cost_micro: int,
    pub discipline: Discipline,
    pub category: Seq<char>,
    pub notes: Option<Seq<char>>,
}

/// The model of a produced item.
pub open spec fn item_model(i: BomItem) -> BomItemModel {
    BomItemModel {
        code: i.material_code@,
        name: i.material_name@,
        quantity_milli: i.quantity_milli as int,
        unit: i.unit,
        unit_cost_milli: i.unit_cost_milli as int,
        total_cost_micro: i.total_cost_micro as int,
        discipline: i.discipline,
        category: i.category@,
        notes: match i.notes {
            Some(n) => Some(n@),
            None => None,
        },
    }
}

pub open spec fn item_model_fn() -> spec_fn(BomItem) -> BomItemModel {
    |i: BomItem| item_model(i)
}

/// The model a planned line materializes to against the catalog.
pub open spec fn realized_line(db: MaterialDatabase, l: ItemSpec) -> BomItemModel {
    let m = db.materials@[first_code_index(db.materials@, l.code)];
    BomItemModel {
        code: l.code,
        name: m.name@,
        quantity_milli: l.quantity_milli,
        unit: m.unit,
        unit_cost_milli: m.cost_per_unit_milli as int,
        total_cost_micro: l.quantity_milli * m.cost_per_unit_milli,
        discipline: m.discipline,
        category: m.category.spec_name(),
        notes: Some(l.note),
    }
}

pub open spec fn realized_fn(db: MaterialDatabase) -> spec_fn(ItemSpec) -> BomItemModel {
    |l: ItemSpec| realized_line(db, l)
}

/// Items that realize a plan have exactly the plan's realized models.
pub proof fn lemma_items_match_to_models(
    db: MaterialDatabase,
    items: Seq<BomItem>,
    plan: Seq<ItemSpec>,
)
    requires
        items_match_plan(db, items, plan),
    ensures
        items.map_values(item_model_fn()) == plan.map_values(realized_fn(db)),
{
    assert(items.map_values(item_model_fn()) =~= plan.map_values(realized_fn(db)))
        by {
        assert forall|j: int| 0 <= j < items.len() implies item_model_fn()(items[j])
            == realized_fn(db)(plan[j]) by {
            assert(item_matches(db, items[j], plan[j]));
        }
    }
}

/// Index of the first model in `s` with the given code, or -1.
pub open spec fn first_model_index(s: Seq<BomItemModel>, code: Seq<char>) -> int
    decreases s.len(),
{
    if s.len() == 0 {
        -1
    } else if s[0].code == code {
        0
    } else {
        let r = first_model_index(s.drop_first(), code);
        if r == -1 {
            -1
        } else {
            r + 1
        }
    }
}

/// What `first_model_index` returns.
pub proof fn lemma_first_model_index(s: Seq<BomItemModel>, code: Seq<char>)
    ensures
        first_model_index(s, code) == -1 <==> (forall|j: int| 0 <= j < s.len() ==> (
        #[trigger] s[j]).code != code),
        first_model_index(s, code) != -1 ==> {
            let r = first_model_index(s, code);
            &&& 0 <= r < s.len()
            &&& s[r].code == code
            &&& forall|j: int| 0 <= j < r ==> s[j].code != code
        },
    decreases s.len(),
{
    if s.len() > 0 && s[0].code != code {
        lemma_first_model_index(s.drop_first(), code);
        assert(forall|j: int| 0 <= j < s.drop_first().len() ==> s.drop_first()[j] == s[
            j + 1
        ]);
        if first_model_index(s.drop_first(), code) != -1 {
            let rd = first_model_index(s.drop_first(), code);
            assert(s[rd + 1] == s.drop_first()[rd]);
            assert forall|j: int| 0 <= j < rd + 1 implies s[j].code != code by {
                if j > 0 {
                    assert(s.drop_first()[j - 1] == s[j]);
                }
            }
        } else {
            assert forall|j: int| 0 <= j < s.len() implies s[j].code != code by {
                if j > 0 {
                    assert(s.drop_first()[j - 1] == s[j]);
                }
            }
        }
    }
}

/// A position that matches, with no match before it, is the first match.
pub proof fn lemma_first_model_index_is(s: Seq<BomItemModel>, code: Seq<char>, i: int)
    requires
        0 <= i < s.len(),
        s[i].code == code,
        forall|j: int| 0 <= j < i ==> (#[trigger] s[j]).code != code,
    ensures
        first_model_index(s, code) == i,
    decreases s.len(),
{
    if i > 0 {
        assert(forall|j: int| 0 <= j < s.drop_first().len() ==> s.drop_first()[j] == s[
            j + 1
        ]);
        lemma_first_model_index_is(s.drop_first(), code, i - 1);
    }
}

/// Merge one raw line into the consolidated list: append a new code, or add
/// its quantity and line total onto the first item with that code.
pub open spec fn merge_model(acc: Seq<BomItemModel>, m: BomItemModel) -> Seq<
    BomItemModel,
> {
    let i = first_model_index(acc, m.code);
    if i == -1 {
        acc.push(m)
    } else {
        acc.update(
            i,
            BomItemModel {
                quantity_milli: acc[i].quantity_milli + m.quantity_milli,
                total_cost_micro: acc[i].total_cost_micro + m.total_cost_micro,
                ..acc[i]
            },
        )
    }
}

/// Consolidation: group raw lines by material code, in first-seen order,
/// summing quantity and line total; all other fields come from the first
/// occurrence.
pub open spec fn consolidate_models(s: Seq<BomItemModel>) -> Seq<BomItemModel>
    decreases s.len(),
{
    if s.len() == 0 {
        Seq::<BomItemModel>::empty()
    } else {
        merge_model(consolidate_models(s.drop_last()), s.last())
    }
}

pub open spec fn qty_term_fn(code: Seq<char>) -> spec_fn(BomItemModel) -> int {
    |m: BomItemModel| if m.code == code {
        m.quantity_milli
    } else {
        0
    }
}

pub open spec fn cost_term_fn(code: Seq<char>) -> spec_fn(BomItemModel) -> int {
    |m: BomItemModel| if m.code == code {
        m.total_cost_micro
    } else {
        0
    }
}

pub open spec fn total_term_fn() -> spec_fn(BomItemModel) -> int {
    |m: BomItemModel| m.total_cost_micro
}

/// Total quantity carried by lines of one code.
pub open spec fn qty_of_code(s: Seq<BomItemModel>, code: Seq<char>) -> int {
    sum_by(s, qty_term_fn(code))
}

/// Total line cost carried by lines of one code.
pub open spec fn cost_of_code(s: Seq<BomItemModel>, code: Seq<char>) -> int {
    sum_by(s, cost_term_fn(code))
}

/// Grand total of the line costs.
pub open spec fn total_of_models(s: Seq<BomItemModel>) -> int {
    sum_by(s, total_term_fn())
}

/// No two lines share a material code.
pub open spec fn models_unique_codes(s: Seq<BomItemModel>) -> bool {
    forall|i: int, j: int| 0 <= i < j < s.len() ==> (#[trigger] s[i]).code != (
    #[trigger] s[j]).code
}

/// Some line carries the given code.
pub open spec fn code_present(s: Seq<BomItemModel>, code: Seq<char>) -> bool {
    exists|i: int| 0 <= i < s.len() && (#[trigger] s[i]).code == code
}

/// All quantities and line totals are non-negative.
pub open spec fn models_nonneg(s: Seq<BomItemModel>) -> bool {
    forall|j: int| 0 <= j < s.len() ==> (#[trigger] s[j]).quantity_milli >= 0 && s[
        j
    ].total_cost_micro >= 0
}

/// What one merge step does to per-code totals, presence, uniqueness and
/// signs.
pub proof fn lemma_merge_model(acc: Seq<BomItemModel>, m: BomItemModel, c: Seq<char>)
    ensures
        qty_of_code(merge_model(acc, m), c) == qty_of_code(acc, c) + qty_term_fn(c)(m),
        cost_of_code(merge_model(acc, m), c) == cost_of_code(acc, c) + cost_term_fn(c)(
            m,
        ),
        total_of_models(merge_model(acc, m)) == total_of_models(acc)
            + m.total_cost_micro,
        acc.len() <= merge_model(acc, m).len() <= acc.len() + 1,
        models_unique_codes(acc) ==> models_unique_codes(merge_model(acc, m)),
        code_present(merge_model(acc, m), c) == (code_present(acc, c) || m.code == c),
        models_nonneg(acc) && m.quantity_milli >= 0 && m.total_cost_micro >= 0
            ==> models_nonneg(merge_model(acc, m)),
{
    lemma_first_model_index(acc, m.code);
    let i = first_model_index(acc, m.code);
    let t = merge_model(acc, m);
    if i == -1 {
        assert(t == acc.push(m));
        assert(t.drop_last() =~= acc);
        assert(t.last() == m);
        if code_present(t, c) {
            let w = choose|w: int| 0 <= w < t.len() && t[w].code == c;
            if w < acc.len() {
                assert(acc[w].code == c);
            }
        }
        if code_present(acc, c) {
            let w = choose|w: int| 0 <= w < acc.len() && acc[w].code == c;
            assert(t[w].code == c);
        }
        if m.code == c {
            assert(t[acc.len() as int].code == c);
        }
    } else {
        let merged = BomItemModel {
            quantity_milli: acc[i].quantity_milli + m.quantity_milli,
            total_cost_micro: acc[i].total_cost_micro + m.total_cost_micro,
            ..acc[i]
        };
        assert(t == acc.update(i, merged));
        assert(merged.code == acc[i].code);
        assert(acc[i].code == m.code);
        crate::arith::lemma_sum_by_update(acc, qty_term_fn(c), i, merged);
        crate::arith::lemma_sum_by_update(acc, cost_term_fn(c), i, merged);
        crate::arith::lemma_sum_by_update(acc, total_term_fn(), i, merged);
        assert(forall|j: int| 0 <= j < t.len() ==> (#[trigger] t[j]).code == acc[
            j
        ].code);
        if code_present(t, c) {
            let w = choose|w: int| 0 <= w < t.len() && t[w].code == c;
            assert(acc[w].code == c);
        }
        if code_present(acc, c) {
            let w = choose|w: int| 0 <= w < acc.len() && acc[w].code == c;
            assert(t[w].code == c);
        }
    }
}

/// Consolidation correctness: the consolidated list has no duplicate codes,
/// keeps exactly the codes of the raw list, and preserves the quantity and
/// line total carried by every code, and so the grand total; it never grows.
/// In particular, when two calculators emit an item for the same code with
/// quantities q1 and q2 (costs c1, c2), the report holds exactly one line
/// for that code, with quantity q1 + q2 and total cost c1 + c2.
pub proof fn lemma_consolidation_correct(s: Seq<BomItemModel>, code: Seq<char>)
    ensures
        models_unique_codes(consolidate_models(s)),
        qty_of_code(consolidate_models(s), code) == qty_of_code(s, code),
        cost_of_code(consolidate_models(s), code) == cost_of_code(s, code),
        total_of_models(consolidate_models(s)) == total_of_models(s),
        code_present(consolidate_models(s), code) == code_present(s, code),
        consolidate_models(s).len() <= s.len(),
        models_nonneg(s) ==> models_nonneg(consolidate_models(s)),
    decreases s.len(),
{
    if s.len() == 0 {
        assert(!code_present(s, code));
        assert(!code_present(consolidate_models(s), code));
    } else {
        let d = s.drop_last();
        lemma_consolidation_correct(d, code);
        lemma_merge_model(consolidate_models(d), s.last(), code);
        assert(forall|j: int| 0 <= j < d.len() ==> d[j] == s[j]);
        if code_present(s, code) {
            let w = choose|w: int| 0 <= w < s.len() && s[w].code == code;
            if w < d.len() {
                assert(d[w].code == code);
            }
        }
        if code_present(d, code) {
            let w = choose|w: int| 0 <= w < d.len() && d[w].code == code;
            assert(s[w].code == code);
        }
        if models_nonneg(s) {
            assert(models_nonneg(d));
            assert(s.last() == s[s.len() - 1]);
        }
    }
}

/// In a list without duplicate codes, the per-code totals of a line's code
/// are that line's own quantity and total.
pub proof fn lemma_unique_code_pick(s: Seq<BomItemModel>, j: int)
    requires
        models_unique_codes(s),
        0 <= j < s.len(),
    ensures
        qty_of_code(s, s[j].code) == s[j].quantity_milli,
        cost_of_code(s, s[j].code) == s[j].total_cost_micro,
    decreases s.len(),
{
    let d = s.drop_last();
    assert(forall|i: int| 0 <= i < d.len() ==> d[i] == s[i]);
    if j == s.len() - 1 {
        assert(s.last() == s[j]);
        lemma_absent_code_zero(d, s[j].code);
    } else {
        lemma_unique_code_pick(d, j);
        assert(s.last() == s[s.len() - 1]);
        assert(s.last().code != s[j].code);
    }
}

/// A code carried by no line contributes zero to both per-code totals.
pub proof fn lemma_absent_code_zero(s: Seq<BomItemModel>, code: Seq<char>)
    requires
        forall|i: int| 0 <= i < s.len() ==> (#[trigger] s[i]).code != code,
    ensures
        qty_of_code(s, code) == 0,
        cost_of_code(s, code) == 0,
    decreases s.len(),
{
    if s.len() > 0 {
        assert(forall|i: int| 0 <= i < s.drop_last().len() ==> s.drop_last()[i] == s[
            i
        ]);
        lemma_absent_code_zero(s.drop_last(), code);
        assert(s.last() == s[s.len() - 1]);
    }
}

/// A calculator registered with the engine: the closed set of built-in
/// disciplines as a tagged variant, registered in a caller-chosen order.
pub enum RegisteredCalculator {
    Drywall(crate::drywall::DrywallCalculator),
    SuspendedCeiling(crate::suspended_ceiling::SuspendedCeilingCalculator),
    Electrical(crate::electrical::ElectricalCalculator),
}

impl RegisteredCalculator {
    /// The lines this calculator plans to emit for the design.
    pub open spec fn plan(self, p: Project) -> Seq<ItemSpec> {
        match self {
            RegisteredCalculator::Drywall(_) => crate::drywall::drywall_plan(p),
            RegisteredCalculator::SuspendedCeiling(_) => crate::suspended_ceiling::ceiling_plan(
                p,
            ),
            RegisteredCalculator::Electrical(_) => crate::electrical::electrical_plan(p),
        }
    }

    /// Run the calculator against the design and catalog.
    pub fn run(&self, project: &Project, material_db: &MaterialDatabase) -> (r: Result<
        Vec<BomItem>,
        BomError,
    >)
        requires
            project.wf(),
            material_db.wf(),
        ensures
            r matches Ok(items) && items_match_plan(
                *material_db,
                items@,
                plan_in_catalog(*material_db, self.plan(*project)),
            ),
            r matches Ok(items) ==> items@.len() <= 16 && forall|j: int|
                0 <= j < items@.len() ==> item_wf(#[trigger] items@[j]),
    {
        match self {
            RegisteredCalculator::Drywall(c) => c.calculate_items(project, material_db),
            RegisteredCalculator::SuspendedCeiling(c) => c.calculate_items(
                project,
                material_db,
            ),
            RegisteredCalculator::Electrical(c) => c.calculate_items(project, material_db),
        }
    }

    /// The discipline this calculator covers.
    pub fn discipline(&self) -> (d: Discipline)
        ensures
            d == match *self {
                RegisteredCalculator::Drywall(_) => Discipline::Drywall,
                RegisteredCalculator::SuspendedCeiling(_) => Discipline::SuspendedCeiling,
                RegisteredCalculator::Electrical(_) => Discipline::Electrical,
            },
    {
        match self {
            RegisteredCalculator::Drywall(_) => Discipline::Drywall,
            RegisteredCalculator::SuspendedCeiling(_) => Discipline::SuspendedCeiling,
            RegisteredCalculator::Electrical(_) => Discipline::Electrical,
        }
    }
}

/// The raw line models the registered calculators produce, in registration
/// order, before consolidation.
pub open spec fn engine_models(
    db: MaterialDatabase,
    cals: Seq<RegisteredCalculator>,
    p: Project,
) -> Seq<BomItemModel>
    decreases cals.len(),
{
    if cals.len() == 0 {
        Seq::<BomItemModel>::empty()
    } else {
        engine_models(db, cals.drop_last(), p) + plan_in_catalog(
            db,
            cals.last().plan(p),
        ).map_values(realized_fn(db))
    }
}

/// Consolidate raw items: group by material code in first-seen order,
/// summing quantity and line total; all other fields come from the first
/// occurrence of the code.
pub fn consolidate_items(items: Vec<BomItem>) -> (r: Vec<BomItem>)
    requires
        items@.len() <= 16384,
        forall|j: int| 0 <= j < items@.len() ==> item_wf(#[trigger] items@[j]),
    ensures
        r@.map_values(item_model_fn()) == consolidate_models(items@.map_values(
            item_model_fn(),
        )),
{
    let ghost orig = items@;
    let ghost orig_models = orig.map_values(item_model_fn());
    let mut items = items;
    let mut out: Vec<BomItem> = Vec::new();
    proof {
        assert(orig.subrange(0, orig.len() as int) =~= orig);
        assert(orig_models.take(0) =~= Seq::<BomItemModel>::empty());
    }
    while items.len() > 0
        invariant
            items@.len() <= orig.len() <= 16384,
            items@ == orig.subrange(
                orig.len() - items@.len(),
                orig.len() as int,
            ),
            forall|j: int| 0 <= j < orig.len() ==> item_wf(#[trigger] orig[j]),
            orig_models == orig.map_values(item_model_fn()),
            out@.map_values(item_model_fn()) == consolidate_models(orig_models.take(
                orig.len() - items@.len(),
            )),
            forall|j: int| 0 <= j < out@.len() ==> (#[trigger] out@[j]).quantity_milli
                <= (orig.len() - items@.len()) * 0x1_0000_0000_0000_0000,
            forall|j: int| 0 <= j < out@.len() ==> (#[trigger] out@[j]).total_cost_micro
                <= (orig.len() - items@.len())
                * 0x100_0000_0000_0000_0000_0000_0000,
        decreases items@.len(),
    {
        let ghost k = orig.len() - items@.len();
        let ghost out_models = out@.map_values(item_model_fn());
        let it = items.remove(0);
        proof {
            assert(it == orig[k]);
            assert(items@ =~= orig.subrange(k + 1, orig.len() as int));
            assert(orig_models.take(k + 1).drop_last() =~= orig_models.take(k));
            assert(orig_models.take(k + 1).last() == orig_models[k]);
            assert(orig_models[k] == item_model(orig[k]));
        }
        let mut oi: usize = 0;
        let mut found: Option<usize> = None;
        while oi < out.len()
            invariant
                oi <= out@.len(),
                out_models == out@.map_values(item_model_fn()),
                match found {
                    Some(fi) => fi < oi && out@[fi as int].material_code@
                        == it.material_code@ && forall|j: int| 0 <= j < fi ==> (
                    #[trigger] out@[j]).material_code@ != it.material_code@,
                    None => forall|j: int| 0 <= j < oi ==> (
                    #[trigger] out@[j]).material_code@ != it.material_code@,
                },
            decreases out@.len() - oi,
        {
            if found.is_none() {
                if crate::strutil::str_eq(
                    out[oi].material_code.as_str(),
                    it.material_code.as_str(),
                ) {
                    found = Some(oi);
                }
            }
            oi += 1;
        }
        match found {
            Some(fi) => {
                proof {
                    assert(out_models[fi as int].code == item_model(it).code);
                    assert forall|j: int| 0 <= j < fi implies (
                    #[trigger] out_models[j]).code != item_model(it).code by {
                        assert(out_models[j] == item_model(out@[j]));
                    }
                    lemma_first_model_index_is(
                        out_models,
                        item_model(it).code,
                        fi as int,
                    );
                }
                proof {
                    assert(item_wf(orig[k]));
                    assert(it.quantity_milli <= 0x1_0000_0000_0000_0000int);
                    assert(it.total_cost_micro
                        <= 0x100_0000_0000_0000_0000_0000_0000int) by (nonlinear_arith)
                        requires
                            it.total_cost_micro == it.quantity_milli
                                * it.unit_cost_milli,
                            0 <= it.quantity_milli <= 0x1_0000_0000_0000_0000int,
                            0 <= it.unit_cost_milli <= 0x100_0000_0000int;
                }
                let e = &mut out[fi];
                e.quantity_milli = e.quantity_milli + it.quantity_milli;
                e.total_cost_micro = e.total_cost_micro + it.total_cost_micro;
                proof {
                    assert(out@.map_values(item_model_fn()) =~= merge_model(
                        out_models,
                        item_model(it),
                    ));
                    assert forall|j: int| 0 <= j < out@.len() implies (
                    #[trigger] out@[j]).quantity_milli <= (k + 1)
                        * 0x1_0000_0000_0000_0000 && out@[j].total_cost_micro <= (k + 1)
                        * 0x100_0000_0000_0000_0000_0000_0000 by {
                        if j != fi {
                            assert(out@[j].quantity_milli <= k
                                * 0x1_0000_0000_0000_0000);
                        }
                    }
                }
            },
            None => {
                proof {
                    assert forall|j: int| 0 <= j < out_models.len() implies (
                    #[trigger] out_models[j]).code != item_model(it).code by {
                        assert(out_models[j] == item_model(out@[j]));
                    }
                    lemma_first_model_index(out_models, item_model(it).code);
                }
                proof {
                    assert(item_wf(orig[k]));
                    assert(it.total_cost_micro
                        <= 0x100_0000_0000_0000_0000_0000_0000int) by (nonlinear_arith)
                        requires
                            it.total_cost_micro == it.quantity_milli
                                * it.unit_cost_milli,
                            0 <= it.quantity_milli <= 0x1_0000_0000_0000_0000int,
                            0 <= it.unit_cost_milli <= 0x100_0000_0000int;
                }
                out.push(it);
                proof {
                    assert(out@.map_values(item_model_fn()) =~= merge_model(
                        out_models,
                        item_model(it),
                    ));
                    assert forall|j: int| 0 <= j < out@.len() implies (
                    #[trigger] out@[j]).quantity_milli <= (k + 1)
                        * 0x1_0000_0000_0000_0000 && out@[j].total_cost_micro <= (k + 1)
                        * 0x100_0000_0000_0000_0000_0000_0000 by {
                        if j < out@.len() - 1 {
                            assert(out@[j].quantity_milli <= k
                                * 0x1_0000_0000_0000_0000);
                        }
                    }
                }
            },
        }
    }
    proof {
        assert(orig_models.take(orig.len() as int) =~= orig_models);
    }
    out
}

/// Main BOM calculation engine: an owned material catalog and an ordered
/// list of registered calculators.
pub struct BomEngine {
    material_db: MaterialDatabase,
    calculators: Vec<RegisteredCalculator>,
}

impl BomEngine {
    /// The engine's catalog.
    pub closed spec fn spec_db(self) -> MaterialDatabase {
        self.material_db
    }

    /// The engine's calculators, in registration order.
    pub closed spec fn spec_calculators(self) -> Seq<RegisteredCalculator> {
        self.calculators@
    }

    /// Bounded cost entries and a bounded calculator list.
    pub open spec fn wf(self) -> bool {
        &&& self.spec_db().wf()
        &&& self.spec_calculators().len() <= 1024
    }

    /// An engine over the default catalog with the three built-in
    /// calculators registered, drywall first, then suspended ceiling, then
    /// electrical.
    pub fn new() -> (e: BomEngine)
        ensures
            e.wf(),
            e.spec_calculators() =~= seq![
                RegisteredCalculator::Drywall(crate::drywall::DrywallCalculator),
                RegisteredCalculator::SuspendedCeiling(
                    crate::suspended_ceiling::SuspendedCeilingCalculator,
                ),
                RegisteredCalculator::Electrical(crate::electrical::ElectricalCalculator),
            ],
            e.spec_db().materials@.len() == 11,
            forall|k: int| 0 <= k < 11 ==> crate::material::seed_matches(
                #[trigger] e.spec_db().materials@[k],
                k,
            ),
    {
        let material_db = MaterialDatabase::default();
        let mut calculators: Vec<RegisteredCalculator> = Vec::new();
        calculators.push(RegisteredCalculator::Drywall(
            crate::drywall::DrywallCalculator::new(),
        ));
        calculators.push(RegisteredCalculator::SuspendedCeiling(
            crate::suspended_ceiling::SuspendedCeilingCalculator::new(),
        ));
        calculators.push(RegisteredCalculator::Electrical(
            crate::electrical::ElectricalCalculator::new(),
        ));
        BomEngine { material_db, calculators }
    }

    /// Register one more calculator; registration order is preserved and
    /// determines the tie-break order of raw items before consolidation.
    pub fn register_calculator(&mut self, calculator: RegisteredCalculator)
        requires
            old(self).spec_calculators().len() < 1024,
        ensures
            final(self).spec_calculators() == old(self).spec_calculators().push(
                calculator,
            ),
            final(self).spec_db() == old(self).spec_db(),
    {
        self.calculators.push(calculator);
    }

    /// Extend or adjust the engine's catalog: re-adding a code replaces the
    /// earlier entry (last write wins).  The unit cost must stay within the
    /// range the costing math is proved for.
    pub fn add_material(&mut self, material: Material)
        requires
            material.cost_per_unit_milli <= MAX_UNIT_COST_MILLI,
            old(self).wf(),
        ensures
            final(self).wf(),
            final(self).spec_db().materials@ == crate::material::spec_add_material(
                old(self).spec_db().materials@,
                material,
            ),
            final(self).spec_calculators() == old(self).spec_calculators(),
    {
        proof {
            crate::material::lemma_first_code_index(
                self.material_db.materials@,
                material.code@,
            );
        }
        let ghost m = material;
        self.material_db.add_material(material);
        proof {
            let pre = old(self).material_db.materials@;
            let post = self.material_db.materials@;
            let i = crate::material::first_code_index(pre, m.code@);
            assert forall|j: int| 0 <= j < post.len() implies (
            #[trigger] post[j]).cost_per_unit_milli <= MAX_UNIT_COST_MILLI by {
                if i == -1 {
                    if j < pre.len() {
                        assert(post[j] == pre[j]);
                    } else {
                        assert(post[j] == m);
                    }
                } else {
                    if j == i {
                        assert(post[j] == m);
                    } else {
                        assert(post[j] == pre[j]);
                    }
                }
            }
        }
    }

    /// Look up a material in the engine's catalog by code.
    pub fn get_material_by_code(&self, code: &str) -> (r: Option<&Material>)
        ensures
            r is Some <==> crate::material::spec_has_code(
                self.spec_db().materials@,
                code@,
            ),
            r matches Some(m) ==> *m == self.spec_db().materials@[first_code_index(
                self.spec_db().materials@,
                code@,
            )],
    {
        self.material_db.get_material_by_code(code)
    }

    /// Calculate the bill of materials for a design snapshot: run every
    /// registered calculator in order, consolidate duplicate codes, and sum
    /// the costs.  The item list and totals are a function of the design and
    /// catalog alone; only `calculation_date` carries the clock.
    #[verifier::rlimit(100)]
    pub fn calculate_bom(&self, project: &Project) -> (r: Result<
        BomCalculation,
        BomError,
    >)
        requires
            self.wf(),
            project.wf(),
        ensures
            r matches Ok(c) && {
                let models = engine_models(
                    self.spec_db(),
                    self.spec_calculators(),
                    *project,
                );
                &&& c.project_id == project.id
                &&& c.items@.map_values(item_model_fn()) == consolidate_models(models)
                &&& c.total_cost_micro as int == total_of_models(models)
            },
    {
        let ghost db = self.spec_db();
        let ghost cals = self.spec_calculators();
        let mut all_items: Vec<BomItem> = Vec::new();
        proof {
            assert(cals.take(0) =~= Seq::<RegisteredCalculator>::empty());
            assert(all_items@.map_values(item_model_fn()) =~= engine_models(
                db,
                cals.take(0),
                *project,
            ));
        }
        let mut ci: usize = 0;
        while ci < self.calculators.len()
            invariant
                ci <= cals.len(),
                cals == self.spec_calculators(),
                db == self.spec_db(),
                self.wf(),
                project.wf(),
                all_items@.map_values(item_model_fn()) == engine_models(
                    db,
                    cals.take(ci as int),
                    *project,
                ),
                all_items@.len() <= 16 * (ci as int),
                forall|j: int| 0 <= j < all_items@.len() ==> item_wf(
                    #[trigger] all_items@[j],
                ),
            decreases cals.len() - ci,
        {
            let ghost prev = all_items@;
            let result = self.calculators[ci].run(project, &self.material_db);
            match result {
                Ok(mut items) => {
                    proof {
                        lemma_items_match_to_models(
                            db,
                            items@,
                            plan_in_catalog(db, cals[ci as int].plan(*project)),
                        );
                    }
                    all_items.append(&mut items);
                },
                Err(e) => {
                    return Err(e);
                },
            }
            proof {
                assert(cals.take(ci + 1).drop_last() =~= cals.take(ci as int));
                assert(cals.take(ci + 1).last() == cals[ci as int]);
                assert(all_items@.map_values(item_model_fn()) =~= engine_models(
                    db,
                    cals.take(ci + 1),
                    *project,
                ));
            }
            ci += 1;
        }
        proof {
            assert(cals.take(cals.len() as int) =~= cals);
        }
        let ghost raw = all_items@;
        let ghost raw_models = raw.map_values(item_model_fn());
        proof {
            assert(16 * (cals.len() as int) <= 16384);
        }
        let items = consolidate_items(all_items);
        let ghost con_models = items@.map_values(item_model_fn());
        proof {
            lemma_consolidation_correct(raw_models, Seq::<char>::empty());
            assert forall|j: int| 0 <= j < raw_models.len() implies (
            #[trigger] raw_models[j]).quantity_milli >= 0 && raw_models[
                j
            ].total_cost_micro >= 0 && raw_models[j].total_cost_micro
                <= 0x100000000000000000000000000int by {
                assert(raw_models[j] == item_model(raw[j]));
                assert(item_wf(raw[j]));
                assert(raw[j].quantity_milli * raw[j].unit_cost_milli
                    <= 0x100000000000000000000000000int) by (nonlinear_arith)
                    requires
                        0 <= raw[j].quantity_milli <= 0x1_0000_0000_0000_0000int,
                        0 <= raw[j].unit_cost_milli <= 0x100_0000_0000int;
            }
            crate::arith::lemma_sum_by_bound(
                raw_models,
                total_term_fn(),
                0x100000000000000000000000000int,
            );
            assert(total_of_models(raw_models)
                <= 0x4000_0000_0000_0000_0000_0000_0000_0000int);
            assert(models_nonneg(raw_models));
        }
        let mut total: u128 = 0;
        let mut i: usize = 0;
        while i < items.len()
            invariant
                i <= items@.len(),
                con_models == items@.map_values(item_model_fn()),
                total as int == sum_by(con_models.take(i as int), total_term_fn()),
                models_nonneg(con_models),
                total_of_models(con_models) <= 0x4000_0000_0000_0000_0000_0000_0000_0000,
            decreases items@.len() - i,
        {
            proof {
                crate::arith::lemma_sum_by_take_succ(con_models, total_term_fn(), i as int);
                crate::arith::lemma_sum_by_take_le(con_models, total_term_fn(), i + 1);
                assert(con_models[i as int] == item_model(items@[i as int]));
            }
            total = total + items[i].total_cost_micro;
            i += 1;
        }
        proof {
            assert(con_models.take(items@.len() as int) =~= con_models);
        }
        Ok(BomCalculation {
            project_id: project.id,
            items,
            total_cost_micro: total,
            calculation_date: crate::now_rfc3339(),
        })
    }
}

impl Default for BomEngine {
    /// The same engine `new` builds.
    fn default() -> (e: BomEngine)
        ensures
            e.wf(),
            e.spec_calculators().len() == 3,
    {
        BomEngine::new()
    }
}

/// Idempotence: the item models and the total of a calculation are a
/// function of the design snapshot and the catalog alone, so two
/// calculations over an unchanged design and unchanged engine agree on
/// every item field and on the total; only the timestamp may differ.
pub proof fn lemma_calculate_deterministic(
    e: BomEngine,
    p: Project,
    c1: BomCalculation,
    c2: BomCalculation,
)
    requires
        c1.items@.map_values(item_model_fn()) == consolidate_models(engine_models(
            e.spec_db(),
            e.spec_calculators(),
            p,
        )),
        c1.total_cost_micro as int == total_of_models(engine_models(
            e.spec_db(),
            e.spec_calculators(),
            p,
        )),
        c2.items@.map_values(item_model_fn()) == consolidate_models(engine_models(
            e.spec_db(),
            e.spec_calculators(),
            p,
        )),
        c2.total_cost_micro as int == total_of_models(engine_models(
            e.spec_db(),
            e.spec_calculators(),
            p,
        )),
    ensures
        c1.items@.map_values(item_model_fn()) == c2.items@.map_values(item_model_fn()),
        c1.total_cost_micro == c2.total_cost_micro,
{
}

} // verus!
