//! The shapes of the documents that a beacon and its specification exchange, as
//! plain data: entry types, granularities, result sets and their records.
use vstd::prelude::*;

use crate::location::Url;

verus! {

/// A declared entry type: its identifier, its display name, and where its record schema lies.
#[derive(Clone, Debug)]
pub struct EntryType {
    pub id: String,
    pub name: String,
    pub ontology_term_for_this_type: OntologyTerm,
    pub part_of_specification: String,
    pub default_schema: DefaultSchema,
}

#[derive(Clone, Debug)]
pub struct OntologyTerm {
    pub id: String,
    pub label: String,
}

#[derive(Clone, Debug)]
pub struct DefaultSchema {
    pub reference_to_schema_definition: String,
}

#[derive(Clone, Copy, Debug, PartialEq, Eq, Structural)]
pub enum FilteringTermType {
    OntologyTerm,
    Alphanumeric,
    Custom,
}

/// A term that a collection endpoint can be filtered by.
#[derive(Clone, Debug)]
pub struct FilteringTerm {
    pub ft_type: FilteringTermType,
    pub url: Url,
    pub id: String,
    pub label: Option<String>,
    pub scope: Option<String>,
}

/// The level of detail that a response discloses.
#[derive(Clone, Copy, Debug, PartialEq, Eq, Structural)]
pub enum Granularity {
    Boolean,
    Count,
    Aggregated,
    Record,
}

/// The granularity that a `meta.returnedGranularity` text names.
pub open spec fn granularity_named(t: Seq<char>) -> Option<Granularity> {
    if t == "boolean"@ {
        Some(Granularity::Boolean)
    } else if t == "count"@ {
        Some(Granularity::Count)
    } else if t == "aggregated"@ {
        Some(Granularity::Aggregated)
    } else if t == "record"@ {
        Some(Granularity::Record)
    } else {
        None
    }
}

/// Whether two texts are equal, character for character.
pub fn text_eq(a: &str, b: &str) -> (r: bool)
    ensures
        r == (a@ == b@),
{
    let n = a.unicode_len();
    if n != b.unicode_len() {
        return false;
    }
    let mut i: usize = 0;
    while i < n
        invariant
            n == a@.len(),
            n == b@.len(),
            i <= n,
            a@.subrange(0, i as int) == b@.subrange(0, i as int),
        decreases n - i,
    {
        if a.get_char(i) != b.get_char(i) {
            return false;
        }
        assert(a@.subrange(0, i + 1) =~= a@.subrange(0, i as int).push(a@[i as int]));
        assert(b@.subrange(0, i + 1) =~= b@.subrange(0, i as int).push(b@[i as int]));
        i = i + 1;
    }
    assert(a@.subrange(0, n as int) =~= a@);
    assert(b@.subrange(0, n as int) =~= b@);
    true
}

impl Granularity {
    /// The granularity that `t` names: `boolean`, `count`, `aggregated` or `record`.
    pub fn from_text(t: &str) -> (r: Option<Granularity>)
        ensures
            r == granularity_named(t@),
    {
        if text_eq(t, "boolean") {
            Some(Granularity::Boolean)
        } else if text_eq(t, "count") {
            Some(Granularity::Count)
        } else if text_eq(t, "aggregated") {
            Some(Granularity::Aggregated)
        } else if text_eq(t, "record") {
            Some(Granularity::Record)
        } else {
            None
        }
    }
}

/// The part of a result-set response that holds its result sets.
#[derive(Clone, Debug)]
pub struct BeaconResultSetResponse {
    pub response: ResultSetResponse,
}

#[derive(Clone, Debug)]
pub struct ResultSetResponse {
    pub result_sets: Vec<ResultSet>,
}

#[derive(Clone, Debug)]
pub struct ResultSet {
    pub results: Vec<EntityResult>,
}

/// A record, as far as its identifier goes: most entities carry an `id`,
/// variants a `variantInternalId`, cohorts a `cohortId`.
#[derive(Clone, Debug)]
pub enum EntityResult {
    General { id: String },
    Variant { variant_internal_id: String },
    Cohort { cohort_id: String },
}

impl EntityResult {
    pub open spec fn id_spec(&self) -> Seq<char> {
        match self {
            EntityResult::General { id } => id@,
            EntityResult::Variant { variant_internal_id } => variant_internal_id@,
            EntityResult::Cohort { cohort_id } => cohort_id@,
        }
    }

    /// The identifier of the record, whichever field holds it.
    pub fn id(&self) -> (r: String)
        ensures
            r@ == self.id_spec(),
    {
        match self {
            EntityResult::General { id } => id.clone(),
            EntityResult::Variant { variant_internal_id } => variant_internal_id.clone(),
            EntityResult::Cohort { cohort_id } => cohort_id.clone(),
        }
    }
}

/// The identifiers of all records of all result sets, in order.
pub open spec fn all_ids(sets: Seq<ResultSet>) -> Seq<Seq<char>>
    decreases sets.len(),
{
    if sets.len() == 0 {
        Seq::empty()
    } else {
        all_ids(sets.drop_last()) + sets.last().results@.map_values(|e: EntityResult| e.id_spec())
    }
}

impl BeaconResultSetResponse {
    /// The identifiers of all records of all result sets, in order.
    pub fn ids(&self) -> (r: Vec<String>)
        ensures
            r@.map_values(|s: String| s@) == all_ids(self.response.result_sets@),
    {
        let sets = &self.response.result_sets;
        let mut out: Vec<String> = Vec::new();
        let mut i: usize = 0;
        while i < sets.len()
            invariant
                i <= sets.len(),
                out@.map_values(|s: String| s@) == all_ids(sets@.subrange(0, i as int)),
            decreases sets.len() - i,
        {
            let results = &sets[i].results;
            let ghost start = out@.map_values(|s: String| s@);
            let mut j: usize = 0;
            while j < results.len()
                invariant
                    i < sets.len(),
                    results == sets@[i as int].results,
                    j <= results.len(),
                    out@.map_values(|s: String| s@) == start + results@.subrange(0, j as int).map_values(|e: EntityResult| e.id_spec()),
                decreases results.len() - j,
            {
                let ghost before = out@;
                out.push(results[j].id());
                assert(out@.map_values(|s: String| s@) =~= before.map_values(|s: String| s@).push(results@[j as int].id_spec()));
                assert(results@.subrange(0, j + 1).map_values(|e: EntityResult| e.id_spec()) =~= results@.subrange(0, j as int).map_values(|e: EntityResult| e.id_spec()).push(results@[j as int].id_spec()));
                j = j + 1;
            }
            assert(results@.subrange(0, j as int) =~= results@);
            assert(sets@.subrange(0, i + 1).drop_last() =~= sets@.subrange(0, i as int));
            i = i + 1;
        }
        assert(sets@.subrange(0, i as int) =~= sets@);
        out
    }
}

/// The part of a response that says its granularity.
#[derive(Clone, Debug)]
pub struct BeaconMetaGranularityResponse {
    pub meta: MetaGranularityResponse,
}

#[derive(Clone, Copy, Debug)]
pub struct MetaGranularityResponse {
    pub returned_granularity: Granularity,
}

} // verus!
