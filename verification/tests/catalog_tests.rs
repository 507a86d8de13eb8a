use nova_bom::Discipline;
use nova_bom::i18n::Language;
use nova_bom::layer::{Color, LayerManager};
use nova_bom::building::{Floor, Opening, OpeningType, Wall};
use nova_bom::geometry::Point2D;
use nova_bom::material::{Material, MaterialCategory, MaterialDatabase, Unit};

#[test]
fn test_default_catalog_contents() {
    let db = MaterialDatabase::default();
    assert_eq!(db.materials.len(), 11);

    let panel = db.get_material_by_code("DW_PANEL_125").unwrap();
    assert_eq!(panel.name, "Drywall Panel 12.5mm");
    assert_eq!(panel.cost_per_unit_milli, 15_500);
    assert_eq!(panel.unit, Unit::SquareMeter);
    assert_eq!(panel.discipline, Discipline::Drywall);

    let cable = db.get_material_by_code("ELEC_NYM_315").unwrap();
    assert_eq!(cable.unit, Unit::MeterCable);
    assert_eq!(cable.cost_per_unit_milli, 2_800);

    assert!(db.get_material_by_code("NO_SUCH_CODE").is_none());
}

#[test]
fn test_add_material_replaces_existing_code() {
    let mut db = MaterialDatabase::new();
    db.add_material(Material::new(
        "Anchor".to_string(),
        "ANCHOR_8MM".to_string(),
        Unit::Piece,
        250,
        Discipline::Architecture,
        MaterialCategory::Anchor,
    ));
    assert_eq!(db.materials.len(), 1);

    // re-adding the same code replaces the entry: last write wins
    db.add_material(Material::new(
        "Better Anchor".to_string(),
        "ANCHOR_8MM".to_string(),
        Unit::Piece,
        300,
        Discipline::Architecture,
        MaterialCategory::Anchor,
    ));
    assert_eq!(db.materials.len(), 1);
    let m = db.get_material_by_code("ANCHOR_8MM").unwrap();
    assert_eq!(m.name, "Better Anchor");
    assert_eq!(m.cost_per_unit_milli, 300);
}

#[test]
fn test_filters_by_discipline_and_category() {
    let db = MaterialDatabase::default();
    let drywall = db.get_materials_by_discipline(Discipline::Drywall);
    assert_eq!(drywall.len(), 4);
    for m in &drywall {
        assert_eq!(m.discipline, Discipline::Drywall);
    }

    let grids = db.get_materials_by_category(&MaterialCategory::CeilingGrid);
    assert_eq!(grids.len(), 2);

    // two Other categories always match each other
    let mut db = MaterialDatabase::new();
    db.add_material(Material::new(
        "Custom".to_string(),
        "C1".to_string(),
        Unit::Piece,
        100,
        Discipline::Painting,
        MaterialCategory::Other("a".to_string()),
    ));
    let others = db.get_materials_by_category(&MaterialCategory::Other("b".to_string()));
    assert_eq!(others.len(), 1);
}

#[test]
fn test_unit_and_discipline_names() {
    assert_eq!(Unit::SquareMeter.name(), "SquareMeter");
    assert_eq!(Unit::MeterCable.name(), "MeterCable");
    assert_eq!(Discipline::SuspendedCeiling.name(), "SuspendedCeiling");
    assert_eq!(MaterialCategory::DrywallPanel.name(), "DrywallPanel");
    assert_eq!(MaterialCategory::Other("Custom".to_string()).name(), "Custom");
}

#[test]
fn test_language_codes() {
    assert_eq!(Language::Italian.code(), "it");
    assert_eq!(Language::English.code(), "en");
    assert_eq!(Language::Italian.display_name(), "Italiano");
    assert_eq!(Language::English.display_name(), "English");
    assert_eq!(Language::from_code("it"), Some(Language::Italian));
    assert_eq!(Language::from_code("en"), Some(Language::English));
    assert_eq!(Language::from_code("de"), None);
    assert_eq!(Language::from_code(""), None);
}

#[test]
fn test_default_layers() {
    let manager = LayerManager::default();
    assert_eq!(manager.layers.len(), 7);
    let electrical = manager.get_layer_by_discipline(Discipline::Electrical).unwrap();
    assert_eq!(electrical.name, "Electrical");
    assert!(electrical.visible);
    assert_eq!(electrical.color, Color::rgb(255, 0, 0));
    assert_eq!(
        Color::default_for_discipline(Discipline::SuspendedCeiling),
        Color::rgb(128, 0, 128)
    );
}

#[test]
fn test_layer_visibility() {
    let mut manager = LayerManager::default();
    let id = manager.layers[2].id;
    manager.set_layer_visibility(id, false);
    assert!(!manager.layers[2].visible);
    manager.set_layer_visibility(id, true);
    assert!(manager.layers[2].visible);
}

#[test]
fn test_opening_area() {
    let opening = Opening::new(
        "Door".to_string(),
        OpeningType::Door,
        Point2D::new(0, 0),
        900,
        2100,
    );
    // 0.9 m * 2.1 m = 1.89 m2
    assert_eq!(opening.area(), 1_890);
}

#[test]
fn test_point_origin() {
    let p = Point2D::origin();
    assert_eq!(p.x, 0);
    assert_eq!(p.y, 0);
}

#[test]
fn test_walls_by_discipline() {
    let mut floor = Floor::new("Ground".to_string(), 0, 2800);
    let mut w1 = Wall::new(
        "W1".to_string(),
        Point2D::new(0, 0),
        Point2D::new(1000, 0),
        100,
        2800,
    );
    w1.disciplines.push(Discipline::Drywall);
    let w2 = Wall::new(
        "W2".to_string(),
        Point2D::new(0, 0),
        Point2D::new(2000, 0),
        100,
        2800,
    );
    floor.add_wall(w1);
    floor.add_wall(w2);

    let drywall_walls = floor.walls_by_discipline(Discipline::Drywall);
    assert_eq!(drywall_walls.len(), 1);
    assert_eq!(drywall_walls[0].name, "W1");
    // every wall participates in architecture by default
    assert_eq!(floor.walls_by_discipline(Discipline::Architecture).len(), 2);
    assert_eq!(floor.walls_by_discipline(Discipline::Plumbing).len(), 0);
}

#[test]
fn test_layer_lookup_missing_discipline() {
    let manager = LayerManager::new();
    assert!(manager.get_layer_by_discipline(Discipline::Electrical).is_none());
}
