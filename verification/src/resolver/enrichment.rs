//! Enrichment resolver trait for LoTW, master DB, callbook, and club memberships.
//!
//! Implementations (e.g., loading the LoTW user list, parsing SCP files) live
//! with the application. The library provides [`NullEnrichmentResolver`] as a
//! default that returns `None` for all queries.

use crate::sets::{opt_set, ValueSet};
use vstd::prelude::*;

verus! {

/// Trait for resolving enrichment data about callsigns.
///
/// Implementations might load data from LoTW user lists, super-check-partial
/// databases, callbook APIs, or club membership files.
pub trait EnrichmentResolver: Send + Sync {
    /// What the resolver may answer to the question for LoTW.
    open spec fn may_answer_lotw(&self, callsign: Seq<char>, answer: Option<bool>) -> bool {
        true
    }

    /// What the resolver may answer to the question for the master database.
    open spec fn may_answer_master_db(&self, callsign: Seq<char>, answer: Option<bool>) -> bool {
        true
    }

    /// What the resolver may answer to the question for a callbook.
    open spec fn may_answer_callbook(&self, callsign: Seq<char>, answer: Option<bool>) -> bool {
        true
    }

    /// What the resolver may answer to the question for memberships.
    open spec fn may_answer_memberships(
        &self,
        callsign: Seq<char>,
        answer: Option<Set<Seq<char>>>,
    ) -> bool {
        true
    }

    /// Whether the callsign is a confirmed LoTW user.
    fn lotw_user(&self, callsign: &str) -> (r: Option<bool>)
        ensures
            self.may_answer_lotw(callsign@, r),
    ;

    /// Whether the callsign appears in the contest master database (SCP).
    fn in_master_db(&self, callsign: &str) -> (r: Option<bool>)
        ensures
            self.may_answer_master_db(callsign@, r),
    ;

    /// Whether the callsign appears in a callbook database.
    fn in_callbook(&self, callsign: &str) -> (r: Option<bool>)
        ensures
            self.may_answer_callbook(callsign@, r),
    ;

    /// Club memberships for the callsign (e.g., "ARRL", "SKCC").
    fn memberships(&self, callsign: &str) -> (r: Option<ValueSet<String>>)
        ensures
            self.may_answer_memberships(callsign@, opt_set(r)),
    ;
}

/// Null implementation that returns `None` for all queries.
///
/// Used as the default when no enrichment data is available.
pub struct NullEnrichmentResolver;

impl EnrichmentResolver for NullEnrichmentResolver {
    open spec fn may_answer_lotw(&self, callsign: Seq<char>, answer: Option<bool>) -> bool {
        answer is None
    }

    open spec fn may_answer_master_db(&self, callsign: Seq<char>, answer: Option<bool>) -> bool {
        answer is None
    }

    open spec fn may_answer_callbook(&self, callsign: Seq<char>, answer: Option<bool>) -> bool {
        answer is None
    }

    open spec fn may_answer_memberships(
        &self,
        callsign: Seq<char>,
        answer: Option<Set<Seq<char>>>,
    ) -> bool {
        answer is None
    }

    fn lotw_user(&self, _callsign: &str) -> (r: Option<bool>) {
        None
    }

    fn in_master_db(&self, _callsign: &str) -> (r: Option<bool>) {
        None
    }

    fn in_callbook(&self, _callsign: &str) -> (r: Option<bool>) {
        None
    }

    fn memberships(&self, _callsign: &str) -> (r: Option<ValueSet<String>>) {
        None
    }
}

} // verus!
