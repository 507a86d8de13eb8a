//! Quantity-takeoff / bill-of-materials engine for a building design tool.
//!
//! A design tree (buildings, floors, walls, openings, trade components) is
//! read by discipline calculators that derive material quantities from fixed
//! trade heuristics.  A catalog maps material codes to units and costs; the
//! engine consolidates the calculators' raw items into one costed report and
//! can render it as CSV text.
//!
//! All quantities and monetary amounts are fixed-point integers: lengths in
//! millimetres, quantities in thousandths of their unit ("milli"), unit costs
//! in thousandths, line totals in millionths ("micro").  This makes every
//! formula exact and lets each one be stated and proved as written.

use vstd::prelude::*;

pub mod arith;
pub mod bom;
pub mod building;
pub mod components;
pub mod drywall;
pub mod electrical;
pub mod export;
pub mod geometry;
pub mod i18n;
pub mod layer;
pub mod material;
pub mod plugin;
pub mod plugin_manager;
pub mod strutil;
pub mod suspended_ceiling;

verus! {

/// Phases of construction work.
#[derive(Debug, Clone, Copy, PartialEq, Eq, Structural, Hash)]
pub enum Phase {
    /// Existing conditions
    Existing,
    /// Demolition phase
    Demolition,
    /// New construction
    New,
}

/// Engineering disciplines.
#[derive(Debug, Clone, Copy, PartialEq, Eq, Structural, Hash)]
pub enum Discipline {
    /// Architectural
    Architecture,
    /// Electrical systems
    Electrical,
    /// Plumbing/hydraulic systems
    Plumbing,
    /// Masonry work
    Masonry,
    /// Drywall (cartongesso)
    Drywall,
    /// Painting (imbiancino)
    Painting,
    /// Suspended ceilings (controsoffitti)
    SuspendedCeiling,
}

impl Discipline {
    /// The discipline's name, as the exporter prints it.
    pub open spec fn spec_name(self) -> Seq<char> {
        match self {
            Discipline::Architecture => "Architecture"@,
            Discipline::Electrical => "Electrical"@,
            Discipline::Plumbing => "Plumbing"@,
            Discipline::Masonry => "Masonry"@,
            Discipline::Drywall => "Drywall"@,
            Discipline::Painting => "Painting"@,
            Discipline::SuspendedCeiling => "SuspendedCeiling"@,
        }
    }

    /// The discipline's name as a string.
    pub fn name(&self) -> (r: String)
        ensures
            r@ == self.spec_name(),
    {
        match self {
            Discipline::Architecture => "Architecture".to_owned(),
            Discipline::Electrical => "Electrical".to_owned(),
            Discipline::Plumbing => "Plumbing".to_owned(),
            Discipline::Masonry => "Masonry".to_owned(),
            Discipline::Drywall => "Drywall".to_owned(),
            Discipline::Painting => "Painting".to_owned(),
            Discipline::SuspendedCeiling => "SuspendedCeiling".to_owned(),
        }
    }
}

/// Unique identifier for entities: the 128 bits of a version-4 UUID.
pub type EntityId = u128;

/// Generate a new unique entity ID.
///
/// Relies on `uuid::Uuid::new_v4` for the random identifier; the value is
/// random, so nothing is promised about it.
#[verifier::external_body]
pub fn new_entity_id() -> EntityId {
    uuid::Uuid::new_v4().as_u128()
}

/// The current time as an ISO-8601 / RFC 3339 timestamp, UTC.
///
/// Relies on `chrono::Utc::now` and `chrono::DateTime::to_rfc3339`; the value
/// depends on the clock, so nothing is promised about it.
#[verifier::external_body]
pub(crate) fn now_rfc3339() -> String {
    chrono::Utc::now().to_rfc3339()
}

} // verus!
