//! Checking one endpoint's response: the granularity it declares decides which
//! envelope schema it is held to, and a record-level response has each of its
//! records held to the entity's own schema as well.
use vstd::prelude::*;

use crate::error::{EnvelopeField, ErrorView, VerifierError};
use crate::interface::{granularity_named, Granularity};
use crate::json::{
    compile_schema, compiled_doc, flag_in, items_in, path_of, text_in, violations, violations_of, Json, Schema,
    member_of,
};
use crate::location::{joined, url_join, Url, copy_url};
use crate::report::{
    fold_reports, folded_verdicts, lemma_folded_verdict, lemma_valid_verdicts_keep_first, same_place,
    verdict, EndpointReport, Verdict,
};

verus! {

/// The envelope schemas of the framework that responses are held to.
#[derive(Clone, Copy, Debug, PartialEq, Eq, Structural)]
pub enum EnvelopeKind {
    Boolean,
    Count,
    ResultSets,
}

/// The envelope schema for a granularity: boolean and count responses have
/// their own, aggregated and record responses share the result-set one.
pub open spec fn envelope_of(g: Granularity) -> EnvelopeKind {
    match g {
        Granularity::Boolean => EnvelopeKind::Boolean,
        Granularity::Count => EnvelopeKind::Count,
        Granularity::Aggregated => EnvelopeKind::ResultSets,
        Granularity::Record => EnvelopeKind::ResultSets,
    }
}

/// Whether the records of a response are held to the entity's schema: only
/// at record granularity.
pub open spec fn walks_records(g: Granularity) -> bool {
    g == Granularity::Record
}

/// The envelope schema that a response of granularity `g` is held to.
pub fn envelope_for(g: Granularity) -> (r: EnvelopeKind)
    ensures
        r == envelope_of(g),
{
    match g {
        Granularity::Boolean => EnvelopeKind::Boolean,
        Granularity::Count => EnvelopeKind::Count,
        Granularity::Aggregated => EnvelopeKind::ResultSets,
        Granularity::Record => EnvelopeKind::ResultSets,
    }
}

/// Whether a response of granularity `g` has its records checked one by one.
pub fn checks_records(g: Granularity) -> (r: bool)
    ensures
        r == walks_records(g),
{
    match g {
        Granularity::Record => true,
        _ => false,
    }
}

/// The granularity that a response declares in `meta.returnedGranularity`.
pub open spec fn granularity_of(j: Json) -> Option<Granularity> {
    match text_in(path_of(j, "meta"@, "returnedGranularity"@)) {
        Some(t) => granularity_named(t),
        None => None,
    }
}

/// What a response says in `responseSummary.exists`, where that is a boolean.
pub open spec fn exists_of(j: Json) -> Option<bool> {
    flag_in(path_of(j, "responseSummary"@, "exists"@))
}

/// The `results` of each result set, in order; the first field that is
/// missing or not an array otherwise.
pub open spec fn results_all(sets: Seq<Json>) -> Result<Seq<Seq<Json>>, EnvelopeField>
    decreases sets.len(),
{
    if sets.len() == 0 {
        Ok(Seq::empty())
    } else {
        match results_all(sets.drop_last()) {
            Err(f) => Err(f),
            Ok(done) => match items_in(member_of(sets.last(), "results"@)) {
                None => Err(EnvelopeField::Results),
                Some(items) => Ok(done.push(items)),
            },
        }
    }
}

/// The records of a response: the `results` of each of `response.resultSets`.
pub open spec fn records_of(j: Json) -> Result<Seq<Seq<Json>>, EnvelopeField> {
    match items_in(path_of(j, "response"@, "resultSets"@)) {
        None => Err(EnvelopeField::ResultSets),
        Some(sets) => results_all(sets),
    }
}

/// The records of all result sets, one after another.
pub open spec fn flat(sets: Seq<Seq<Json>>) -> Seq<Json>
    decreases sets.len(),
{
    if sets.len() == 0 {
        Seq::empty()
    } else {
        flat(sets.drop_last()) + sets.last()
    }
}

/// The line that reports one violation: its message, then its instance path
/// in parentheses.
pub open spec fn violation_line(v: (Seq<char>, Seq<char>)) -> Seq<char> {
    v.0 + " ("@ + v.1 + ")"@
}

/// Each violation's line followed by a line break.
pub open spec fn violations_text(vs: Seq<(Seq<char>, Seq<char>)>) -> Seq<char>
    decreases vs.len(),
{
    if vs.len() == 0 {
        Seq::empty()
    } else {
        violations_text(vs.drop_last()) + violation_line(vs.last()) + seq!['\n']
    }
}

/// The outcome of holding `instance` to a schema: `BadSchema` where the
/// schema did not compile, `BadResponse` with the violations' lines where
/// there are violations.
pub open spec fn check_outcome(schema: Option<Json>, instance: Json) -> Result<(), ErrorView> {
    match schema {
        None => Err(ErrorView::BadSchema),
        Some(doc) => if violations_of(doc, instance).len() == 0 {
            Ok(())
        } else {
            Err(ErrorView::BadResponse(violations_text(violations_of(doc, instance))))
        },
    }
}

pub open spec fn outcome_view(r: Result<(), VerifierError>) -> Result<(), ErrorView> {
    match r {
        Ok(()) => Ok(()),
        Err(e) => Err(e@),
    }
}

pub open spec fn doc_of(schema: Option<&Result<Schema, Json>>) -> Option<Json> {
    match schema {
        Some(s) => compiled_doc(*s),
        None => None,
    }
}

/// The report text of violations: each line followed by a line break.
pub fn violations_report(vs: &Vec<(String, String)>) -> (r: String)
    ensures
        r@ == violations_text(vs@.map_values(|p: (String, String)| (p.0@, p.1@))),
{
    let mut out = String::new();
    let mut i: usize = 0;
    while i < vs.len()
        invariant
            i <= vs.len(),
            out@ == violations_text(vs@.subrange(0, i as int).map_values(|p: (String, String)| (p.0@, p.1@))),
        decreases vs.len() - i,
    {
        let ghost prev = vs@.subrange(0, i as int).map_values(|p: (String, String)| (p.0@, p.1@));
        assert(vs@.subrange(0, i + 1).map_values(|p: (String, String)| (p.0@, p.1@)).drop_last() =~= prev);
        out.append(vs[i].0.as_str());
        out.append(" (");
        out.append(vs[i].1.as_str());
        out.append(")");
        out.append("\n");
        proof {
            reveal_strlit(" (");
            reveal_strlit(")");
            reveal_strlit("\n");
        }
        i = i + 1;
    }
    assert(vs@.subrange(0, i as int) =~= vs@);
    out
}

/// Holds `instance` to a compiled schema: `BadResponse` with one line per violation.
pub fn valid_schema(json_schema: &Schema, instance: &Json) -> (r: Result<(), VerifierError>)
    ensures
        outcome_view(r) == check_outcome(Some(json_schema.source()), *instance),
{
    match violations(json_schema, instance) {
        Ok(()) => Ok(()),
        Err(vs) => Err(VerifierError::BadResponse(violations_report(&vs))),
    }
}

/// Holds `instance` to a schema that may be missing or may have failed to compile.
pub fn check_against(schema: Option<&Result<Schema, Json>>, instance: &Json) -> (r: Result<(), VerifierError>)
    ensures
        outcome_view(r) == check_outcome(doc_of(schema), *instance),
{
    match schema {
        Some(Ok(s)) => valid_schema(s, instance),
        _ => Err(VerifierError::BadSchema),
    }
}

/// The verdict on one record held to the schema `schema`: valid with the
/// record kept, invalid for its violations, or not judged where there is no
/// compiled schema.
pub open spec fn record_verdict(schema: Option<Json>, rec: Json) -> Verdict {
    match check_outcome(schema, rec) {
        Ok(()) => (Some(true), None, Some(rec)),
        Err(ErrorView::BadSchema) => (None, Some(ErrorView::BadSchema), None),
        Err(e) => (Some(false), Some(e), None),
    }
}

/// A valid verdict with nothing kept: the verdict on no records.
pub open spec fn empty_verdict() -> Verdict {
    (Some(true), None, None)
}

/// The verdict on records: each record's verdict, folded from the first; the
/// first failure wins, else the first record is kept.
pub open spec fn records_fold(schema: Option<Json>, recs: Seq<Json>) -> Verdict {
    folded_verdicts(empty_verdict(), recs.map_values(|rec: Json| record_verdict(schema, rec)))
}

/// The verdict on a record-level response from `responseSummary.exists` and
/// its records: a response that found nothing is valid with nothing kept, a
/// missing field makes it invalid, and otherwise all records of all result
/// sets are folded.
pub open spec fn records_verdict(
    schema: Option<Json>,
    exists: Option<bool>,
    records: Result<Seq<Seq<Json>>, EnvelopeField>,
) -> Verdict {
    match exists {
        None => (Some(false), Some(ErrorView::MalformedResponse(EnvelopeField::Exists)), None),
        Some(false) => empty_verdict(),
        Some(true) => match records {
            Err(f) => (Some(false), Some(ErrorView::MalformedResponse(f)), None),
            Ok(sets) => records_fold(schema, flat(sets)),
        },
    }
}

/// Records that all meet the schema give a valid verdict that keeps the first.
pub proof fn lemma_valid_records_keep_first(schema: Option<Json>, recs: Seq<Json>)
    requires
        recs.len() > 0,
        forall|i: int| 0 <= i < recs.len() ==> check_outcome(schema, #[trigger] recs[i]) is Ok,
    ensures
        records_fold(schema, recs) == (Some(true), None::<ErrorView>, Some(recs[0])),
{
    let vs = recs.map_values(|rec: Json| record_verdict(schema, rec));
    assert forall|i: int| 0 <= i < vs.len() implies (#[trigger] vs[i]).0 == Some(true) by {
        assert(check_outcome(schema, recs[i]) is Ok);
    }
    lemma_valid_verdicts_keep_first(empty_verdict(), vs);
}

/// A fresh report carrying the names and URL of `base`.
fn like(base: &EndpointReport) -> (r: EndpointReport)
    ensures
        same_place(r, *base),
        r.valid is None,
        r.error is None,
        r.output is None,
{
    let url = match &base.url {
        Some(u) => Some(copy_url(u)),
        None => None,
    };
    EndpointReport {
        entity_name: base.entity_name.clone(),
        valid: None,
        error: None,
        output: None,
        url,
        name: base.name.clone(),
    }
}

/// The report on one record held to `schema`.
pub fn record_report(base: &EndpointReport, schema: Option<&Result<Schema, Json>>, rec: Json) -> (r: EndpointReport)
    ensures
        same_place(r, *base),
        verdict(r) == record_verdict(doc_of(schema), rec),
{
    match check_against(schema, &rec) {
        Ok(()) => like(base).ok(Some(rec)),
        Err(VerifierError::BadSchema) => like(base).null(VerifierError::BadSchema),
        Err(e) => like(base).error(e),
    }
}

/// Holds each record to `schema` and folds the reports, from the first.
pub fn fold_records(base: &EndpointReport, schema: Option<&Result<Schema, Json>>, recs: Vec<Json>) -> (r: EndpointReport)
    ensures
        same_place(r, *base),
        verdict(r) == records_fold(doc_of(schema), recs@),
{
    let ghost all = recs@;
    let mut reports: Vec<EndpointReport> = Vec::new();
    let mut rest = recs;
    let total = rest.len();
    let mut k: usize = 0;
    while rest.len() > 0
        invariant
            k + rest@.len() == all.len(),
            all.len() == total,
            rest@ == all.subrange(k as int, all.len() as int),
            reports@.len() == k,
            forall|i: int| 0 <= i < k ==> same_place(#[trigger] reports@[i], *base),
            forall|i: int| 0 <= i < k ==> verdict(#[trigger] reports@[i]) == record_verdict(doc_of(schema), all[i]),
        decreases rest@.len(),
    {
        let rec = rest.remove(0);
        assert(rest@ =~= all.subrange(k + 1, all.len() as int));
        reports.push(record_report(base, schema, rec));
        k = k + 1;
    }
    let ghost rs = reports@;
    let empty = like(base).ok(None);
    let ghost e = empty;
    let r = fold_reports(empty, reports);
    proof {
        lemma_folded_verdict(e, rs);
        assert(rs.map_values(|x: EndpointReport| verdict(x)) =~= all.map_values(|rec: Json| record_verdict(doc_of(schema), rec)));
    }
    r
}

pub open spec fn records_view(r: Result<Vec<Vec<Json>>, EnvelopeField>) -> Result<Seq<Seq<Json>>, EnvelopeField> {
    match r {
        Ok(sets) => Ok(sets@.map_values(|v: Vec<Json>| v@)),
        Err(f) => Err(f),
    }
}

/// Takes the records out of a response: the `results` of each of
/// `response.resultSets`, or the first field that is missing or not an array.
pub fn take_records(j: Json) -> (r: Result<Vec<Vec<Json>>, EnvelopeField>)
    ensures
        records_view(r) == records_of(j),
{
    let ghost whole = j;
    let sets = match j.take_member("response") {
        Some(body) => match body.take_member("resultSets") {
            Some(s) => match s.into_items() {
                Some(items) => items,
                None => return Err(EnvelopeField::ResultSets),
            },
            None => return Err(EnvelopeField::ResultSets),
        },
        None => return Err(EnvelopeField::ResultSets),
    };
    let ghost all = sets@;
    assert(items_in(path_of(whole, "response"@, "resultSets"@)) == Some(all));
    let mut out: Vec<Vec<Json>> = Vec::new();
    let mut rest = sets;
    let total = rest.len();
    let mut k: usize = 0;
    assert(all.subrange(0, 0) =~= Seq::<Json>::empty());
    assert(out@.map_values(|v: Vec<Json>| v@) =~= Seq::<Seq<Json>>::empty());
    while rest.len() > 0
        invariant
            k + rest@.len() == all.len(),
            all.len() == total,
            rest@ == all.subrange(k as int, all.len() as int),
            out@.len() == k,
            whole == j,
            results_all(all.subrange(0, k as int)) == Ok::<Seq<Seq<Json>>, EnvelopeField>(out@.map_values(|v: Vec<Json>| v@)),
            items_in(path_of(whole, "response"@, "resultSets"@)) == Some(all),
        decreases rest@.len(),
    {
        let set = rest.remove(0);
        assert(rest@ =~= all.subrange(k + 1, all.len() as int));
        assert(all.subrange(0, k + 1).drop_last() =~= all.subrange(0, k as int));
        assert(all.subrange(0, k + 1).last() == set);
        let found = match set.take_member("results") {
            Some(res) => res.into_items(),
            None => None,
        };
        let items = match found {
            Some(items) => items,
            None => {
                proof {
                    assert(results_all(all.subrange(0, k + 1)) == Err::<Seq<Seq<Json>>, EnvelopeField>(EnvelopeField::Results));
                    lemma_results_all_prefix_err(all, k + 1);
                }
                return Err(EnvelopeField::Results);
            },
        };
        let ghost before = out@;
        out.push(items);
        assert(out@.map_values(|v: Vec<Json>| v@) =~= before.map_values(|v: Vec<Json>| v@).push(out@[k as int]@));
        k = k + 1;
    }
    assert(all.subrange(0, k as int) =~= all);
    Ok(out)
}

proof fn lemma_results_all_prefix_err(all: Seq<Json>, k: int)
    requires
        0 <= k <= all.len(),
        results_all(all.subrange(0, k)) is Err,
    ensures
        results_all(all) == results_all(all.subrange(0, k)),
    decreases all.len() - k,
{
    if k < all.len() {
        assert(all.subrange(0, k + 1).drop_last() =~= all.subrange(0, k));
        lemma_results_all_prefix_err(all, k + 1);
    } else {
        assert(all.subrange(0, k) =~= all);
    }
}

/// All records of all result sets, one after another.
pub fn flatten(sets: Vec<Vec<Json>>) -> (r: Vec<Json>)
    ensures
        r@ == flat(sets@.map_values(|v: Vec<Json>| v@)),
{
    let ghost all = sets@.map_values(|v: Vec<Json>| v@);
    let mut out: Vec<Json> = Vec::new();
    let mut rest = sets;
    let total = rest.len();
    let mut k: usize = 0;
    assert(all.subrange(0, 0) =~= Seq::<Seq<Json>>::empty());
    while rest.len() > 0
        invariant
            k + rest@.len() == all.len(),
            all.len() == total,
            rest@.map_values(|v: Vec<Json>| v@) == all.subrange(k as int, all.len() as int),
            out@ == flat(all.subrange(0, k as int)),
        decreases rest@.len(),
    {
        let ghost before = rest@;
        let mut set = rest.remove(0);
        assert(rest@ =~= before.subrange(1, before.len() as int));
        assert(rest@.map_values(|v: Vec<Json>| v@) =~= before.map_values(|v: Vec<Json>| v@).subrange(1, before.len() as int));
        assert(rest@.map_values(|v: Vec<Json>| v@) =~= all.subrange(k + 1, all.len() as int));
        assert(before.map_values(|v: Vec<Json>| v@)[0] == set@);
        assert(all.subrange(0, k + 1).drop_last() =~= all.subrange(0, k as int));
        out.append(&mut set);
        k = k + 1;
    }
    assert(all.subrange(0, k as int) =~= all);
    out
}

/// The compiled envelope schemas.
pub struct ResponseSchemas {
    pub boolean: Result<Schema, Json>,
    pub count: Result<Schema, Json>,
    pub result_sets: Result<Schema, Json>,
}

/// The document of the compiled envelope schema of kind `k`.
pub open spec fn envelope_doc(s: ResponseSchemas, k: EnvelopeKind) -> Option<Json> {
    match k {
        EnvelopeKind::Boolean => compiled_doc(s.boolean),
        EnvelopeKind::Count => compiled_doc(s.count),
        EnvelopeKind::ResultSets => compiled_doc(s.result_sets),
    }
}

impl ResponseSchemas {
    /// Compiles the three envelope schemas, once each.
    pub fn compile(boolean: Json, count: Json, result_sets: Json) -> (r: ResponseSchemas)
        ensures
            compiled_doc(r.boolean) == (if crate::json::compiles(boolean) { Some(boolean) } else { None::<Json> }),
            compiled_doc(r.count) == (if crate::json::compiles(count) { Some(count) } else { None::<Json> }),
            compiled_doc(r.result_sets) == (if crate::json::compiles(result_sets) { Some(result_sets) } else { None::<Json> }),
    {
        ResponseSchemas {
            boolean: compile_schema(boolean),
            count: compile_schema(count),
            result_sets: compile_schema(result_sets),
        }
    }

    /// The compiled schema of an envelope.
    pub fn schema(&self, k: EnvelopeKind) -> (r: &Result<Schema, Json>)
        ensures
            compiled_doc(*r) == envelope_doc(*self, k),
    {
        match k {
            EnvelopeKind::Boolean => &self.boolean,
            EnvelopeKind::Count => &self.count,
            EnvelopeKind::ResultSets => &self.result_sets,
        }
    }
}

/// The schemas that entities' records are held to, each compiled once.
pub struct SchemaRegistry {
    pub schemas: Vec<Result<Schema, Json>>,
}

/// The document of the compiled schema at `index`; `None` where there is none
/// or it did not compile.
pub open spec fn registry_doc(reg: SchemaRegistry, index: int) -> Option<Json> {
    if 0 <= index < reg.schemas@.len() {
        compiled_doc(reg.schemas@[index])
    } else {
        None
    }
}

impl SchemaRegistry {
    /// The schema at `index`, where there is one.
    pub fn get(&self, index: usize) -> (r: Option<&Result<Schema, Json>>)
        ensures
            doc_of(r) == registry_doc(*self, index as int),
    {
        if index < self.schemas.len() {
            Some(&self.schemas[index])
        } else {
            None
        }
    }
}

/// The verdict on a response. An unknown granularity makes it invalid; an
/// envelope schema that did not compile leaves it unjudged; a broken
/// envelope makes it invalid; a record-level response takes the verdict on
/// its records; any other response is valid and kept whole.
pub open spec fn response_verdict(j: Json, schemas: ResponseSchemas, record_schema: Option<Json>) -> Verdict {
    match granularity_of(j) {
        None => (Some(false), Some(ErrorView::BadGranularity), None),
        Some(g) => match check_outcome(envelope_doc(schemas, envelope_of(g)), j) {
            Err(ErrorView::BadSchema) => (None, Some(ErrorView::BadSchema), None),
            Err(e) => (Some(false), Some(e), None),
            Ok(()) => if walks_records(g) {
                records_verdict(record_schema, exists_of(j), records_of(j))
            } else {
                (Some(true), None, Some(j))
            },
        },
    }
}

/// The verdict on what came of fetching an endpoint: a body that is not JSON
/// is invalid, any other failure to answer leaves it unjudged, and an answer
/// is judged by `response_verdict`.
pub open spec fn fetched_verdict(
    response: Result<Json, VerifierError>,
    schemas: ResponseSchemas,
    record_schema: Option<Json>,
) -> Verdict {
    match response {
        Err(VerifierError::ResponseIsNotJson) => (Some(false), Some(ErrorView::ResponseIsNotJson), None),
        Err(e) => (None, Some(e@), None),
        Ok(j) => response_verdict(j, schemas, record_schema),
    }
}

/// A boolean response is held to the boolean envelope alone, and its records,
/// if it has any, are never checked: its verdict is that of the envelope.
pub proof fn lemma_boolean_checked_on_envelope_only(j: Json, schemas: ResponseSchemas, s1: Option<Json>, s2: Option<Json>)
    requires
        granularity_of(j) == Some(Granularity::Boolean),
    ensures
        response_verdict(j, schemas, s1) == response_verdict(j, schemas, s2),
        check_outcome(compiled_doc(schemas.boolean), j) is Ok ==> response_verdict(j, schemas, s1) == (Some(true), None::<ErrorView>, Some(j)),
{
}

/// The text of `meta.returnedGranularity`, read as a granularity.
pub fn returned_granularity(j: &Json) -> (r: Option<Granularity>)
    ensures
        r == granularity_of(*j),
{
    match j.member("meta") {
        Some(meta) => match meta.member("returnedGranularity") {
            Some(g) => match g.as_text() {
                Some(t) => Granularity::from_text(t.as_str()),
                None => None,
            },
            None => None,
        },
        None => None,
    }
}

/// The value of `responseSummary.exists`, where it is a boolean.
pub fn exists_flag(j: &Json) -> (r: Option<bool>)
    ensures
        r == exists_of(*j),
{
    match j.member("responseSummary") {
        Some(summary) => match summary.member("exists") {
            Some(e) => e.as_flag(),
            None => None,
        },
        None => None,
    }
}

/// An endpoint to check: the entity it belongs to, the schema of that entity's
/// records (an index into the schema registry), a display name, and its URL
/// relative to the beacon's root.
pub struct BeaconEndpoint {
    pub entity_name: String,
    pub entity_schema: usize,
    pub name: String,
    pub url: Url,
}

impl BeaconEndpoint {
    /// The URL of this endpoint under `root_url`.
    pub fn endpoint_url(&self, root_url: &Url) -> (r: Url)
        ensures
            r@ == joined(root_url@, self.url@),
    {
        url_join(root_url, &self.url)
    }

    /// Judges what came of fetching this endpoint under `root_url`; see
    /// `fetched_verdict`.
    pub fn validate(
        self,
        root_url: &Url,
        response: Result<Json, VerifierError>,
        schemas: &ResponseSchemas,
        registry: &SchemaRegistry,
    ) -> (r: EndpointReport)
        ensures
            r.entity_name@ == self.entity_name@,
            r.name@ == self.name@,
            r.url matches Some(u) && u@ == joined(root_url@, self.url@),
            verdict(r) == fetched_verdict(response, *schemas, registry_doc(*registry, self.entity_schema as int)),
    {
        let endpoint_url = url_join(root_url, &self.url);
        let report = EndpointReport::new(self.entity_name.as_str(), self.name.as_str(), endpoint_url);
        let j = match response {
            Ok(j) => j,
            Err(VerifierError::ResponseIsNotJson) => return report.error(VerifierError::ResponseIsNotJson),
            Err(e) => return report.null(e),
        };
        let g = match returned_granularity(&j) {
            Some(g) => g,
            None => return report.error(VerifierError::BadGranularity),
        };
        match self.validate_against_framework(&j, schemas.schema(envelope_for(g))) {
            Err(VerifierError::BadSchema) => report.null(VerifierError::BadSchema),
            Err(e) => report.error(e),
            Ok(()) => if checks_records(g) {
                let r = self.validate_resultset_response(j, registry.get(self.entity_schema), &report);
                r
            } else {
                report.ok(Some(j))
            },
        }
    }

    /// Holds a response to an envelope schema.
    pub fn validate_against_framework(&self, response_json: &Json, response_schema: &Result<Schema, Json>) -> (r:
        Result<(), VerifierError>)
        ensures
            outcome_view(r) == check_outcome(compiled_doc(*response_schema), *response_json),
    {
        check_against(Some(response_schema), response_json)
    }

    /// Judges a record-level response; see `records_verdict`.
    pub fn validate_resultset_response(
        &self,
        response_json: Json,
        schema: Option<&Result<Schema, Json>>,
        base: &EndpointReport,
    ) -> (r: EndpointReport)
        ensures
            same_place(r, *base),
            verdict(r) == records_verdict(doc_of(schema), exists_of(response_json), records_of(response_json)),
    {
        match exists_flag(&response_json) {
            None => like(base).error(VerifierError::MalformedResponse(EnvelopeField::Exists)),
            Some(false) => like(base).ok(None),
            Some(true) => match take_records(response_json) {
                Err(f) => like(base).error(VerifierError::MalformedResponse(f)),
                Ok(sets) => fold_records(base, schema, flatten(sets)),
            },
        }
    }
}

} // verus!
