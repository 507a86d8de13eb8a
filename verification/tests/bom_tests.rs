use nova_bom::Discipline;
use nova_bom::bom::{BomCalculation, BomEngine, BomItem, consolidate_items};
use nova_bom::building::{Building, Floor, Project, Wall};
use nova_bom::components::{Component, ComponentType, ElectricalComponent, SuspendedCeilingComponent};
use nova_bom::geometry::Point2D;
use nova_bom::material::{Material, MaterialCategory, Unit};

fn empty_project() -> Project {
    Project::new("Test Project".to_string(), "".to_string())
}

fn project_with_floor(floor: Floor) -> Project {
    let mut project = empty_project();
    let mut building = Building::new("Building A".to_string(), "Via Test 1".to_string());
    building.add_floor(floor);
    project.add_building(building);
    project
}

fn drywall_wall(length_mm: i64, height_mm: u64) -> Wall {
    let mut wall = Wall::new(
        "Wall 1".to_string(),
        Point2D::new(0, 0),
        Point2D::new(length_mm, 0),
        100,
        height_mm,
    );
    wall.disciplines.push(Discipline::Drywall);
    wall
}

fn find<'a>(calc: &'a BomCalculation, code: &str) -> Option<&'a BomItem> {
    calc.items.iter().find(|i| i.material_code == code)
}

#[test]
fn test_drywall_scenario() {
    // one wall, 4.0 m long and 2.8 m high, tagged for drywall
    let mut floor = Floor::new("Ground".to_string(), 0, 2800);
    floor.add_wall(drywall_wall(4000, 2800));
    let project = project_with_floor(floor);

    let engine = BomEngine::new();
    let calc = engine.calculate_bom(&project).unwrap();

    assert_eq!(calc.items.len(), 5);
    // area = 4.0 * 2.8 = 11.2 m2
    assert_eq!(find(&calc, "DW_PANEL_125").unwrap().quantity_milli, 11_200);
    // studs: ceil(4.0 / 0.4) = 10, each 2.8 m: 28.0 m
    assert_eq!(find(&calc, "DW_STUD_75").unwrap().quantity_milli, 28_000);
    // tracks: 4.0 * 2 = 8.0 m
    assert_eq!(find(&calc, "DW_TRACK_75").unwrap().quantity_milli, 8_000);
    // screws: 11.2 * 25 = 280
    assert_eq!(find(&calc, "DW_SCREW_25").unwrap().quantity_milli, 280_000);
    // fixings: ceil(4.0 / 0.6) * 2 = 14
    assert_eq!(find(&calc, "ANCHOR_8MM").unwrap().quantity_milli, 14_000);

    // line totals are exact: 11.2 m2 * 15.50 = 173.60
    assert_eq!(find(&calc, "DW_PANEL_125").unwrap().total_cost_micro, 173_600_000);
    assert_eq!(find(&calc, "DW_PANEL_125").unwrap().unit_cost_milli, 15_500);
    assert_eq!(find(&calc, "DW_PANEL_125").unwrap().material_name, "Drywall Panel 12.5mm");
    assert_eq!(find(&calc, "DW_PANEL_125").unwrap().discipline, Discipline::Drywall);
}

#[test]
fn test_drywall_empty_design() {
    let project = empty_project();
    let engine = BomEngine::new();
    let calc = engine.calculate_bom(&project).unwrap();
    assert!(calc.items.is_empty());
    assert_eq!(calc.total_cost_micro, 0);
}

#[test]
fn test_ceiling_zero_without_components() {
    // a floor with walls and electrical work but zero ceiling components
    // charges no ceiling area and emits no ceiling items
    let mut floor = Floor::new("Ground".to_string(), 0, 2800);
    floor.add_wall(drywall_wall(4000, 2800));
    floor.add_component(Component::new(
        "Outlet 1".to_string(),
        ComponentType::Electrical(ElectricalComponent::Outlet),
        Point2D::new(100, 100),
        Discipline::Electrical,
    ));
    let project = project_with_floor(floor);

    let engine = BomEngine::new();
    let calc = engine.calculate_bom(&project).unwrap();
    assert!(find(&calc, "CEIL_TILE_600").is_none());
    assert!(find(&calc, "CEIL_GRID_MAIN").is_none());
    assert!(find(&calc, "CEIL_GRID_CROSS").is_none());
    assert!(find(&calc, "CEIL_HANGER").is_none());
}

#[test]
fn test_electrical_scenario() {
    // two outlets and one switch
    let mut floor = Floor::new("Ground".to_string(), 0, 2800);
    for (name, kind) in [
        ("Presa 1", ElectricalComponent::Outlet),
        ("Presa 2", ElectricalComponent::Outlet),
        ("Interruttore 1", ElectricalComponent::Switch),
    ] {
        floor.add_component(Component::new(
            name.to_string(),
            ComponentType::Electrical(kind),
            Point2D::new(0, 0),
            Discipline::Electrical,
        ));
    }
    let project = project_with_floor(floor);

    let engine = BomEngine::new();
    let calc = engine.calculate_bom(&project).unwrap();

    // cable: (10 + 10 + 8) * 1.2 = 33.6 m
    assert_eq!(find(&calc, "ELEC_NYM_315").unwrap().quantity_milli, 33_600);
    // outlets: 2 pieces
    assert_eq!(find(&calc, "ELEC_OUTLET_STD").unwrap().quantity_milli, 2_000);
    // the switch is counted but produces no priced item
    assert_eq!(calc.items.len(), 2);
}

#[test]
fn test_calculation_idempotent() {
    let mut floor = Floor::new("Ground".to_string(), 0, 2800);
    floor.add_wall(drywall_wall(4000, 2800));
    floor.add_component(Component::new(
        "Outlet 1".to_string(),
        ComponentType::Electrical(ElectricalComponent::Outlet),
        Point2D::new(0, 0),
        Discipline::Electrical,
    ));
    let project = project_with_floor(floor);

    let engine = BomEngine::new();
    let a = engine.calculate_bom(&project).unwrap();
    let b = engine.calculate_bom(&project).unwrap();
    assert_eq!(a.items.len(), b.items.len());
    for (x, y) in a.items.iter().zip(b.items.iter()) {
        assert_eq!(x.material_code, y.material_code);
        assert_eq!(x.material_name, y.material_name);
        assert_eq!(x.quantity_milli, y.quantity_milli);
        assert_eq!(x.unit, y.unit);
        assert_eq!(x.unit_cost_milli, y.unit_cost_milli);
        assert_eq!(x.total_cost_micro, y.total_cost_micro);
        assert_eq!(x.discipline, y.discipline);
        assert_eq!(x.category, y.category);
        assert_eq!(x.notes, y.notes);
    }
    assert_eq!(a.total_cost_micro, b.total_cost_micro);
    assert_eq!(a.project_id, b.project_id);
}

#[test]
fn test_total_is_sum_of_items() {
    let mut floor = Floor::new("Ground".to_string(), 0, 2800);
    floor.add_wall(drywall_wall(4000, 2800));
    let project = project_with_floor(floor);
    let engine = BomEngine::new();
    let calc = engine.calculate_bom(&project).unwrap();
    let sum: u128 = calc.items.iter().map(|i| i.total_cost_micro).sum();
    assert_eq!(calc.total_cost_micro, sum);
}

#[test]
fn test_consolidation_merges_duplicate_codes() {
    let material = Material::new(
        "Wall Anchor 8mm".to_string(),
        "ANCHOR_8MM".to_string(),
        Unit::Piece,
        250,
        Discipline::Architecture,
        MaterialCategory::Anchor,
    );
    let a = BomItem::new(&material, 2_000, Some("first".to_string()));
    let b = BomItem::new(&material, 3_000, Some("second".to_string()));
    let q1 = a.quantity_milli;
    let q2 = b.quantity_milli;
    let c1 = a.total_cost_micro;
    let c2 = b.total_cost_micro;

    let merged = consolidate_items(vec![a, b]);
    assert_eq!(merged.len(), 1);
    assert_eq!(merged[0].quantity_milli, q1 + q2);
    assert_eq!(merged[0].total_cost_micro, c1 + c2);
    // the other fields come from the first occurrence
    assert_eq!(merged[0].notes.as_deref(), Some("first"));
}

#[test]
fn test_consolidation_keeps_distinct_codes() {
    let anchor = Material::new(
        "Wall Anchor 8mm".to_string(),
        "ANCHOR_8MM".to_string(),
        Unit::Piece,
        250,
        Discipline::Architecture,
        MaterialCategory::Anchor,
    );
    let screw = Material::new(
        "Drywall Screw 25mm".to_string(),
        "DW_SCREW_25".to_string(),
        Unit::Piece,
        50,
        Discipline::Drywall,
        MaterialCategory::DrywallScrew,
    );
    let items = vec![
        BomItem::new(&anchor, 1_000, None),
        BomItem::new(&screw, 2_000, None),
        BomItem::new(&anchor, 4_000, None),
    ];
    let merged = consolidate_items(items);
    assert_eq!(merged.len(), 2);
    assert_eq!(merged[0].material_code, "ANCHOR_8MM");
    assert_eq!(merged[0].quantity_milli, 5_000);
    assert_eq!(merged[1].material_code, "DW_SCREW_25");
    assert_eq!(merged[1].quantity_milli, 2_000);
}


/// Split one CSV line into its fields, honoring quoting with doubled quotes.
fn csv_fields(line: &str) -> Vec<String> {
    let mut fields: Vec<String> = Vec::new();
    let mut cur = String::new();
    let mut in_quotes = false;
    let mut chars = line.chars().peekable();
    while let Some(c) = chars.next() {
        if in_quotes {
            if c == '"' {
                if chars.peek() == Some(&'"') {
                    chars.next();
                    cur.push('"');
                } else {
                    in_quotes = false;
                }
            } else {
                cur.push(c);
            }
        } else if c == '"' {
            in_quotes = true;
        } else if c == ',' {
            fields.push(cur.clone());
            cur.clear();
        } else {
            cur.push(c);
        }
    }
    fields.push(cur);
    fields
}

#[test]
fn test_csv_export_header_and_rows() {
    let mut floor = Floor::new("Ground".to_string(), 0, 2800);
    floor.add_wall(drywall_wall(4000, 2800));
    let project = project_with_floor(floor);
    let engine = BomEngine::new();
    let calc = engine.calculate_bom(&project).unwrap();

    let csv = engine.export_csv(&calc).unwrap();
    let lines: Vec<&str> = csv.lines().collect();
    assert_eq!(
        lines[0],
        "Material Code,Material Name,Quantity,Unit,Unit Cost,Total Cost,Discipline,Category,Notes"
    );
    assert_eq!(lines.len(), 1 + calc.items.len());
    for line in &lines[1..] {
        assert_eq!(csv_fields(line).len(), 9);
    }
    assert_eq!(
        lines[1],
        "DW_PANEL_125,Drywall Panel 12.5mm,11.2,SquareMeter,15.5,173.6,Drywall,DrywallPanel,Calculated from wall areas and drywall components"
    );
}

#[test]
fn test_csv_export_quotes_special_fields() {
    let material = Material::new(
        "Panel, \"Large\"".to_string(),
        "X1".to_string(),
        Unit::Piece,
        1_000,
        Discipline::Drywall,
        MaterialCategory::Other("Custom".to_string()),
    );
    let item = BomItem::new(&material, 1_000, None);
    let calc = BomCalculation {
        project_id: 7,
        items: vec![item],
        total_cost_micro: 1_000_000,
        calculation_date: String::new(),
    };
    let engine = BomEngine::new();
    let csv = engine.export_csv(&calc).unwrap();
    assert!(csv.contains("X1,\"Panel, \"\"Large\"\"\",1,Piece,1,1,Drywall,Custom,"));
}

#[test]
fn test_empty_notes_render_empty() {
    let material = Material::new(
        "Thing".to_string(),
        "X2".to_string(),
        Unit::Piece,
        500,
        Discipline::Drywall,
        MaterialCategory::Other("Custom".to_string()),
    );
    let item = BomItem::new(&material, 2_000, None);
    let calc = BomCalculation {
        project_id: 7,
        items: vec![item],
        total_cost_micro: 1_000_000,
        calculation_date: String::new(),
    };
    let engine = BomEngine::new();
    let csv = engine.export_csv(&calc).unwrap();
    let lines: Vec<&str> = csv.lines().collect();
    assert_eq!(lines[1], "X2,Thing,2,Piece,0.5,1,Drywall,Custom,");
}

#[test]
fn test_wall_length_and_area() {
    let wall = Wall::new(
        "W".to_string(),
        Point2D::new(0, 0),
        Point2D::new(3000, 4000),
        100,
        2000,
    );
    assert_eq!(wall.length(), 5000);
    // 5.0 m * 2.0 m = 10.0 m2
    assert_eq!(wall.area(), 10_000);
}

#[test]
fn test_degenerate_wall_contributes_nothing() {
    // a zero-length wall tagged for drywall yields zero area, so no items
    let mut floor = Floor::new("Ground".to_string(), 0, 2800);
    floor.add_wall(drywall_wall(0, 2800));
    let project = project_with_floor(floor);
    let engine = BomEngine::new();
    let calc = engine.calculate_bom(&project).unwrap();
    assert!(calc.items.is_empty());
}

#[test]
fn test_ceiling_tile_components_charge_area() {
    let mut floor = Floor::new("Ground".to_string(), 0, 2800);
    for k in 0..3 {
        floor.add_component(Component::new(
            format!("Tile {}", k),
            ComponentType::SuspendedCeiling(SuspendedCeilingComponent::Tile),
            Point2D::new(k, 0),
            Discipline::SuspendedCeiling,
        ));
    }
    let project = project_with_floor(floor);
    let engine = BomEngine::new();
    let calc = engine.calculate_bom(&project).unwrap();

    // area = 3 * 0.36 = 1.08 m2, no walls so no bounding box
    // tiles = 1.08 / 0.36 * 1.05 = 3.15
    assert_eq!(find(&calc, "CEIL_TILE_600").unwrap().quantity_milli, 3_150);
    // hangers = 1.08 / 1.44 * 1.1 = 0.825
    assert_eq!(find(&calc, "CEIL_HANGER").unwrap().quantity_milli, 825);
    assert!(find(&calc, "CEIL_GRID_MAIN").is_some());
    assert!(find(&calc, "CEIL_GRID_CROSS").is_some());
    assert!(find(&calc, "ANCHOR_8MM").is_some());
}

#[test]
fn test_engine_catalog_lookup_and_extension() {
    let mut engine = BomEngine::new();
    assert!(engine.get_material_by_code("DW_PANEL_125").is_some());
    assert!(engine.get_material_by_code("CUSTOM_1").is_none());

    engine.add_material(Material::new(
        "Custom Thing".to_string(),
        "CUSTOM_1".to_string(),
        Unit::Piece,
        750,
        Discipline::Painting,
        MaterialCategory::Other("Misc".to_string()),
    ));
    assert_eq!(engine.get_material_by_code("CUSTOM_1").unwrap().name, "Custom Thing");

    // replacing the panel price changes the priced report
    engine.add_material(Material::new(
        "Drywall Panel 12.5mm".to_string(),
        "DW_PANEL_125".to_string(),
        Unit::SquareMeter,
        20_000,
        Discipline::Drywall,
        MaterialCategory::DrywallPanel,
    ));
    let mut floor = Floor::new("Ground".to_string(), 0, 2800);
    floor.add_wall(drywall_wall(4000, 2800));
    let project = project_with_floor(floor);
    let calc = engine.calculate_bom(&project).unwrap();
    let panel = find(&calc, "DW_PANEL_125").unwrap();
    assert_eq!(panel.unit_cost_milli, 20_000);
    // 11.2 m2 * 20.00 = 224.00
    assert_eq!(panel.total_cost_micro, 224_000_000);
}
