//! Trade components placed on a floor (electrical, plumbing, drywall,
//! suspended ceiling).

use vstd::prelude::*;
use crate::{Discipline, EntityId, Phase, new_entity_id};
use crate::geometry::Point2D;

verus! {

/// Types of components.
#[derive(Debug, Clone)]
pub enum ComponentType {
    Electrical(ElectricalComponent),
    Plumbing(PlumbingComponent),
    Drywall(DrywallComponent),
    SuspendedCeiling(SuspendedCeilingComponent),
}

/// Electrical component types.
#[derive(Debug, Clone, Copy, PartialEq, Eq, Structural, Hash)]
pub enum ElectricalComponent {
    Outlet,
    Switch,
    Light,
    Panel,
    Junction,
    Conduit,
}

/// Plumbing component types.
#[derive(Debug, Clone, Copy, PartialEq, Eq, Structural, Hash)]
pub enum PlumbingComponent {
    Sink,
    Toilet,
    Shower,
    Pipe,
    Valve,
    Fixture,
}

/// Drywall component types.
#[derive(Debug, Clone, Copy, PartialEq, Eq, Structural, Hash)]
pub enum DrywallComponent {
    Stud,
    Track,
    Panel,
    Corner,
    Joint,
}

/// Suspended ceiling component types.
#[derive(Debug, Clone, Copy, PartialEq, Eq, Structural, Hash)]
pub enum SuspendedCeilingComponent {
    Tile,
    Grid,
    Hanger,
    Support,
    Light,
}

/// Component properties for customization.  Electrical ratings and pipe
/// diameters are fixed-point thousandths.
#[derive(Debug, Clone)]
pub struct ComponentProperties {
    pub manufacturer: Option<String>,
    pub model: Option<String>,
    pub size: Option<String>,
    pub voltage_milli: Option<u64>,
    pub amperage_milli: Option<u64>,
    pub pipe_diameter_milli: Option<u64>,
    pub material: Option<String>,
    pub custom_properties: Vec<(String, String)>,
}

impl ComponentProperties {
    /// All properties unset.
    pub open spec fn spec_is_empty(self) -> bool {
        &&& self.manufacturer is None
        &&& self.model is None
        &&& self.size is None
        &&& self.voltage_milli is None
        &&& self.amperage_milli is None
        &&& self.pipe_diameter_milli is None
        &&& self.material is None
        &&& self.custom_properties@ =~= Seq::<(String, String)>::empty()
    }
}

impl Default for ComponentProperties {
    fn default() -> (p: ComponentProperties)
        ensures
            p.spec_is_empty(),
    {
        ComponentProperties {
            manufacturer: None,
            model: None,
            size: None,
            voltage_milli: None,
            amperage_milli: None,
            pipe_diameter_milli: None,
            material: None,
            custom_properties: Vec::new(),
        }
    }
}

/// A placed MEP component.  Rotation is in thousandths of a degree.
#[derive(Debug, Clone)]
pub struct Component {
    pub id: EntityId,
    pub name: String,
    pub component_type: ComponentType,
    pub position: Point2D,
    pub rotation_millideg: u64,
    pub discipline: Discipline,
    pub phase: Phase,
    pub properties: ComponentProperties,
}

impl Component {
    pub fn new(
        name: String,
        component_type: ComponentType,
        position: Point2D,
        discipline: Discipline,
    ) -> (c: Component)
        ensures
            c.name == name,
            c.component_type == component_type,
            c.position == position,
            c.rotation_millideg == 0,
            c.discipline == discipline,
            c.phase == Phase::New,
            c.properties.spec_is_empty(),
    {
        Component {
            id: new_entity_id(),
            name,
            component_type,
            position,
            rotation_millideg: 0,
            discipline,
            phase: Phase::New,
            properties: ComponentProperties::default(),
        }
    }
}

} // verus!
