//! Layers for organizing drawing elements by discipline.

use vstd::prelude::*;
use crate::{Discipline, EntityId, new_entity_id};

verus! {

/// Color representation.
#[derive(Debug, Clone, Copy, PartialEq, Eq, Structural)]
pub struct Color {
    pub r: u8,
    pub g: u8,
    pub b: u8,
    pub a: u8,
}

impl Color {
    pub fn new(r: u8, g: u8, b: u8, a: u8) -> (c: Color)
        ensures
            c == (Color { r, g, b, a }),
    {
        Color { r, g, b, a }
    }

    /// An opaque color.
    pub fn rgb(r: u8, g: u8, b: u8) -> (c: Color)
        ensures
            c == (Color { r, g, b, a: 255 }),
    {
        Color::new(r, g, b, 255)
    }

    /// The default layer color of each discipline.
    pub open spec fn spec_default_for_discipline(discipline: Discipline) -> Color {
        match discipline {
            Discipline::Architecture => Color { r: 0, g: 0, b: 0, a: 255 },
            Discipline::Electrical => Color { r: 255, g: 0, b: 0, a: 255 },
            Discipline::Plumbing => Color { r: 0, g: 0, b: 255, a: 255 },
            Discipline::Masonry => Color { r: 139, g: 69, b: 19, a: 255 },
            Discipline::Drywall => Color { r: 255, g: 165, b: 0, a: 255 },
            Discipline::Painting => Color { r: 255, g: 255, b: 0, a: 255 },
            Discipline::SuspendedCeiling => Color { r: 128, g: 0, b: 128, a: 255 },
        }
    }

    /// Get default color for discipline.
    pub fn default_for_discipline(discipline: Discipline) -> (c: Color)
        ensures
            c == Color::spec_default_for_discipline(discipline),
    {
        match discipline {
            Discipline::Architecture => Color::rgb(0, 0, 0),
            Discipline::Electrical => Color::rgb(255, 0, 0),
            Discipline::Plumbing => Color::rgb(0, 0, 255),
            Discipline::Masonry => Color::rgb(139, 69, 19),
            Discipline::Drywall => Color::rgb(255, 165, 0),
            Discipline::Painting => Color::rgb(255, 255, 0),
            Discipline::SuspendedCeiling => Color::rgb(128, 0, 128),
        }
    }
}

/// Layer for organizing drawing elements by discipline.  The line weight is
/// in thousandths.
#[derive(Debug, Clone)]
pub struct Layer {
    pub id: EntityId,
    pub name: String,
    pub discipline: Discipline,
    pub visible: bool,
    pub locked: bool,
    pub color: Color,
    pub line_weight_milli: u64,
}

impl Layer {
    pub fn new(name: String, discipline: Discipline) -> (l: Layer)
        ensures
            l.name == name,
            l.discipline == discipline,
            l.visible,
            !l.locked,
            l.color == Color::spec_default_for_discipline(discipline),
            l.line_weight_milli == 1000,
    {
        Layer {
            id: new_entity_id(),
            name,
            discipline,
            visible: true,
            locked: false,
            color: Color::default_for_discipline(discipline),
            line_weight_milli: 1000,
        }
    }
}

/// Layer manager for organizing project layers.
#[derive(Debug, Clone)]
pub struct LayerManager {
    pub layers: Vec<Layer>,
}

/// The seven disciplines, in the order default layers are created.
pub open spec fn default_layer_order() -> Seq<Discipline> {
    seq![
        Discipline::Architecture,
        Discipline::Electrical,
        Discipline::Plumbing,
        Discipline::Masonry,
        Discipline::Drywall,
        Discipline::Painting,
        Discipline::SuspendedCeiling,
    ]
}

/// The display name of the default layer for each discipline.
pub open spec fn default_layer_name(d: Discipline) -> Seq<char> {
    match d {
        Discipline::Architecture => "Architecture"@,
        Discipline::Electrical => "Electrical"@,
        Discipline::Plumbing => "Plumbing"@,
        Discipline::Masonry => "Masonry"@,
        Discipline::Drywall => "Drywall"@,
        Discipline::Painting => "Painting"@,
        Discipline::SuspendedCeiling => "Suspended Ceiling"@,
    }
}

impl LayerManager {
    pub fn new() -> (m: LayerManager)
        ensures
            m.layers@ =~= Seq::<Layer>::empty(),
    {
        LayerManager { layers: Vec::new() }
    }

    pub fn add_layer(&mut self, layer: Layer)
        ensures
            final(self).layers@ == old(self).layers@.push(layer),
    {
        self.layers.push(layer);
    }

    /// The first layer of the given discipline, in insertion order.
    pub fn get_layer_by_discipline(&self, discipline: Discipline) -> (r: Option<&Layer>)
        ensures
            r is Some <==> exists|i: int| 0 <= i < self.layers@.len() && (
            #[trigger] self.layers@[i]).discipline == discipline,
            r matches Some(l) ==> exists|i: int| 0 <= i < self.layers@.len() && *l
                == self.layers@[i] && l.discipline == discipline,
    {
        let mut i: usize = 0;
        while i < self.layers.len()
            invariant
                i <= self.layers@.len(),
                forall|j: int| 0 <= j < i ==> (#[trigger] self.layers@[j]).discipline
                    != discipline,
            decreases self.layers@.len() - i,
        {
            if self.layers[i].discipline == discipline {
                return Some(&self.layers[i]);
            }
            i += 1;
        }
        None
    }

    /// Set the visibility of the first layer with the given id; a missing id
    /// changes nothing, and layers with other ids are never touched.
    pub fn set_layer_visibility(&mut self, layer_id: EntityId, visible: bool)
        ensures
            final(self).layers@.len() == old(self).layers@.len(),
            forall|j: int| 0 <= j < old(self).layers@.len() && (
            #[trigger] old(self).layers@[j]).id != layer_id ==> final(self).layers@[j]
                == old(self).layers@[j],
            (exists|j: int| 0 <= j < old(self).layers@.len() && (
            #[trigger] old(self).layers@[j]).id == layer_id) ==> exists|j: int| 0 <= j
                < final(self).layers@.len() && (#[trigger] final(self).layers@[j]).id
                == layer_id && final(self).layers@[j].visible == visible,
    {
        let mut i: usize = 0;
        while i < self.layers.len()
            invariant
                i <= self.layers@.len(),
                self.layers@ == old(self).layers@,
                forall|j: int| 0 <= j < i ==> (#[trigger] self.layers@[j]).id
                    != layer_id,
            decreases self.layers@.len() - i,
        {
            if self.layers[i].id == layer_id {
                let l = &mut self.layers[i];
                l.visible = visible;
                proof {
                    assert(self.layers@[i as int].id == layer_id);
                    assert(self.layers@[i as int].visible == visible);
                }
                return;
            }
            i += 1;
        }
    }

    /// Create default layers for all disciplines, in a fixed order.
    pub fn create_default_layers(&mut self)
        ensures
            final(self).layers@.len() == old(self).layers@.len() + 7,
            final(self).layers@.take(old(self).layers@.len() as int) == old(
                self,
            ).layers@,
            forall|k: int| old(self).layers@.len() <= k < old(self).layers@.len() + 7
                ==> {
                let d = default_layer_order()[k - old(self).layers@.len()];
                &&& (#[trigger] final(self).layers@[k]).discipline == d
                &&& final(self).layers@[k].name@ == default_layer_name(d)
                &&& final(self).layers@[k].visible
            },
    {
        let ghost n = self.layers@.len() as int;
        self.add_layer(Layer::new("Architecture".to_owned(), Discipline::Architecture));
        self.add_layer(Layer::new("Electrical".to_owned(), Discipline::Electrical));
        self.add_layer(Layer::new("Plumbing".to_owned(), Discipline::Plumbing));
        self.add_layer(Layer::new("Masonry".to_owned(), Discipline::Masonry));
        self.add_layer(Layer::new("Drywall".to_owned(), Discipline::Drywall));
        self.add_layer(Layer::new("Painting".to_owned(), Discipline::Painting));
        self.add_layer(Layer::new(
            "Suspended Ceiling".to_owned(),
            Discipline::SuspendedCeiling,
        ));
        proof {
            assert(self.layers@.take(n) =~= old(self).layers@);
        }
    }
}

impl Default for LayerManager {
    /// A manager holding the seven default layers.
    fn default() -> (m: LayerManager)
        ensures
            m.layers@.len() == 7,
            forall|k: int| 0 <= k < 7 ==> (#[trigger] m.layers@[k]).discipline
                == default_layer_order()[k],
    {
        let mut manager = LayerManager::new();
        manager.create_default_layers();
        manager
    }
}

} // verus!
