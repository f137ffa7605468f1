//! Entity (DXCC) resolver trait and data types.

use crate::domain::Continent;
use vstd::prelude::*;

verus! {

/// Resolved entity/DXCC information for a callsign.
#[derive(Debug)]
pub struct EntityInfo {
    /// DXCC entity name (e.g., "United States", "Japan").
    pub entity_name: String,
    pub continent: Continent,
    pub cq_zone: u8,
    pub itu_zone: u8,
    /// Latitude in degrees, as a decimal number.
    pub lat: String,
    /// Longitude in degrees, as a decimal number.
    pub lon: String,
    /// Primary DXCC prefix (e.g., "K", "JA").
    pub primary_prefix: String,
}

/// What an [`EntityInfo`] stands for.
pub struct EntityModel {
    pub entity_name: Seq<char>,
    pub continent: Continent,
    pub cq_zone: u8,
    pub itu_zone: u8,
    pub lat: Seq<char>,
    pub lon: Seq<char>,
    pub primary_prefix: Seq<char>,
}

impl View for EntityInfo {
    type V = EntityModel;

    open spec fn view(&self) -> EntityModel {
        EntityModel {
            entity_name: self.entity_name@,
            continent: self.continent,
            cq_zone: self.cq_zone,
            itu_zone: self.itu_zone,
            lat: self.lat@,
            lon: self.lon@,
            primary_prefix: self.primary_prefix@,
        }
    }
}

impl Clone for EntityInfo {
    fn clone(&self) -> (r: Self)
        ensures
            r@ == self@,
    {
        EntityInfo {
            entity_name: self.entity_name.clone(),
            continent: self.continent,
            cq_zone: self.cq_zone,
            itu_zone: self.itu_zone,
            lat: self.lat.clone(),
            lon: self.lon.clone(),
            primary_prefix: self.primary_prefix.clone(),
        }
    }
}

/// The view of optional entity information.
pub open spec fn opt_entity(info: Option<EntityInfo>) -> Option<EntityModel> {
    match info {
        Some(i) => Some(i@),
        None => None,
    }
}

/// Trait for resolving callsigns to DXCC entity information.
///
/// Implementations might use cty.dat, a database, or an API.
/// The library provides [`crate::resolver::cty::CtyResolver`].
pub trait EntityResolver: Send + Sync {
    /// What the resolver may answer for a callsign: anything, if it does not
    /// say more.
    open spec fn may_answer(&self, callsign: Seq<char>, answer: Option<EntityModel>) -> bool {
        true
    }

    /// The entity of a callsign.
    fn resolve(&self, callsign: &str) -> (r: Option<EntityInfo>)
        ensures
            self.may_answer(callsign@, opt_entity(r)),
    ;
}

} // verus!
