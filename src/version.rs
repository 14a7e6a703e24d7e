//! Ordering of candidate and installed (version, build) pairs.
use vstd::prelude::*;
use crate::error::PkgError;
use crate::text::{lex_less, str_less};

verus! {

/// How one version string compares with another.
#[derive(Debug, Clone, Copy, PartialEq, Eq, Structural)]
pub enum VersionOrder {
    Less,
    Equal,
    Greater,
}

/// What `version_compare::compare` returns for two version strings:
/// `None` where either string does not parse.
pub uninterp spec fn version_order_of(a: Seq<char>, b: Seq<char>) -> Option<VersionOrder>;

/// Relies on `version_compare::compare`, which parses both strings with the
/// default manifest, fails where either does not parse, and otherwise
/// returns one of `Lt`, `Eq`, `Gt`.
#[verifier::external_body]
fn compare_versions(a: &str, b: &str) -> (r: Option<VersionOrder>)
    ensures
        r == version_order_of(a@, b@),
{
    match version_compare::compare(a, b) {
        Ok(version_compare::Cmp::Lt) => Some(VersionOrder::Less),
        Ok(version_compare::Cmp::Eq) => Some(VersionOrder::Equal),
        Ok(version_compare::Cmp::Gt) => Some(VersionOrder::Greater),
        _ => None,
    }
}

/// The upgrade rule: a strictly greater version wins; on equal versions the
/// build tag decides by plain lexicographic order; a lower version never wins.
pub open spec fn upgrade_rule(order: VersionOrder, cand_build: Seq<char>, inst_build: Seq<char>) -> bool {
    match order {
        VersionOrder::Greater => true,
        VersionOrder::Equal => lex_less(inst_build, cand_build),
        VersionOrder::Less => false,
    }
}

/// Applies the upgrade rule to an already computed version order.
pub fn is_upgrade_by_order(order: VersionOrder, cand_build: &str, inst_build: &str) -> (r: bool)
    ensures
        r == upgrade_rule(order, cand_build@, inst_build@),
{
    match order {
        VersionOrder::Greater => true,
        VersionOrder::Equal => str_less(inst_build, cand_build),
        VersionOrder::Less => false,
    }
}

/// Whether the candidate (version, build) supersedes the installed one.
pub fn is_upgrade(cand_version: &str, cand_build: &str, inst_version: &str, inst_build: &str) -> (r: Result<bool, PkgError>)
    ensures
        version_order_of(cand_version@, inst_version@) is None <==> r == Err::<bool, PkgError>(PkgError::InvalidVersion),
        match version_order_of(cand_version@, inst_version@) {
            Some(o) => r == Ok::<bool, PkgError>(upgrade_rule(o, cand_build@, inst_build@)),
            None => true,
        },
{
    match compare_versions(cand_version, inst_version) {
        Some(o) => Ok(is_upgrade_by_order(o, cand_build, inst_build)),
        None => Err(PkgError::InvalidVersion),
    }
}

} // verus!
