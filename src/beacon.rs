//! The beacon under test: its name from `/info`, the framework-level checks,
//! the decisions taken around each HTTP exchange, and the identifier that the
//! collection endpoint yields for the endpoints that follow it.
use vstd::prelude::*;

use crate::endpoint::{check_against, check_outcome, BeaconEndpoint, ResponseSchemas};
use crate::error::{ErrorView, VerifierError};
use crate::interface::EntityResult;
use crate::json::{
    compile_schema, compiled_doc, compiles, items_in, json_display, json_text, member_of, path_of, text_in, Json, Schema,
};
use crate::location::{copy_url, joined, path_segments, split_path, url_join, url_text, Url, UrlView};
use crate::model::Model;
use crate::report::{verdict, EndpointReport, Verdict};

verus! {

/// The framework's schemas, each compiled once: one per framework-level
/// endpoint, and the envelopes of entity responses.
pub struct Framework {
    pub info: Result<Schema, Json>,
    pub configuration: Result<Schema, Json>,
    pub beacon_map: Result<Schema, Json>,
    pub entry_types: Result<Schema, Json>,
    pub responses: ResponseSchemas,
    pub collections_json: Json,
}

pub open spec fn compiled_from(r: Result<Schema, Json>, doc: Json) -> bool {
    compiled_doc(r) == (if compiles(doc) { Some(doc) } else { None::<Json> })
}

impl Framework {
    /// Compiles the framework's schema documents.
    pub fn new(
        info: Json,
        configuration: Json,
        beacon_map: Json,
        entry_types: Json,
        result_sets: Json,
        boolean: Json,
        count: Json,
        collections_json: Json,
    ) -> (r: Framework)
        ensures
            compiled_from(r.info, info),
            compiled_from(r.configuration, configuration),
            compiled_from(r.beacon_map, beacon_map),
            compiled_from(r.entry_types, entry_types),
            compiled_from(r.responses.result_sets, result_sets),
            compiled_from(r.responses.boolean, boolean),
            compiled_from(r.responses.count, count),
            r.collections_json == collections_json,
    {
        Framework {
            info: compile_schema(info),
            configuration: compile_schema(configuration),
            beacon_map: compile_schema(beacon_map),
            entry_types: compile_schema(entry_types),
            responses: ResponseSchemas::compile(boolean, count, result_sets),
            collections_json,
        }
    }
}

/// The framework-level endpoints, each checked on its own: `info`,
/// `configuration`, `map` and `entry_types`.
#[derive(Clone, Copy, Debug, PartialEq, Eq, Structural)]
pub enum FrameworkEndpoint {
    Info,
    Configuration,
    BeaconMap,
    EntryTypes,
}

/// The framework-level endpoints, in the order they are checked.
pub fn framework_endpoints() -> (r: Vec<FrameworkEndpoint>)
    ensures
        r@ == seq![FrameworkEndpoint::Info, FrameworkEndpoint::Configuration, FrameworkEndpoint::BeaconMap, FrameworkEndpoint::EntryTypes],
{
    let r = vec![FrameworkEndpoint::Info, FrameworkEndpoint::Configuration, FrameworkEndpoint::BeaconMap, FrameworkEndpoint::EntryTypes];
    assert(r@ =~= seq![FrameworkEndpoint::Info, FrameworkEndpoint::Configuration, FrameworkEndpoint::BeaconMap, FrameworkEndpoint::EntryTypes]);
    r
}

pub open spec fn framework_label(e: FrameworkEndpoint) -> Seq<char> {
    match e {
        FrameworkEndpoint::Info => "Info"@,
        FrameworkEndpoint::Configuration => "Configuration"@,
        FrameworkEndpoint::BeaconMap => "BeaconMap"@,
        FrameworkEndpoint::EntryTypes => "EntryTypes"@,
    }
}

pub open spec fn framework_location(e: FrameworkEndpoint) -> Seq<char> {
    match e {
        FrameworkEndpoint::Info => "info"@,
        FrameworkEndpoint::Configuration => "configuration"@,
        FrameworkEndpoint::BeaconMap => "map"@,
        FrameworkEndpoint::EntryTypes => "entry_types"@,
    }
}

impl FrameworkEndpoint {
    /// The name under which the endpoint is reported.
    pub fn label(&self) -> (r: String)
        ensures
            r@ == framework_label(*self),
    {
        match self {
            FrameworkEndpoint::Info => String::from_str("Info"),
            FrameworkEndpoint::Configuration => String::from_str("Configuration"),
            FrameworkEndpoint::BeaconMap => String::from_str("BeaconMap"),
            FrameworkEndpoint::EntryTypes => String::from_str("EntryTypes"),
        }
    }

    /// The path of the endpoint under the beacon's root.
    pub fn location(&self) -> (r: String)
        ensures
            r@ == framework_location(*self),
    {
        match self {
            FrameworkEndpoint::Info => String::from_str("info"),
            FrameworkEndpoint::Configuration => String::from_str("configuration"),
            FrameworkEndpoint::BeaconMap => String::from_str("map"),
            FrameworkEndpoint::EntryTypes => String::from_str("entry_types"),
        }
    }
}

/// The compiled schema that a framework-level endpoint is held to.
pub open spec fn framework_schema(f: Framework, e: FrameworkEndpoint) -> Result<Schema, Json> {
    match e {
        FrameworkEndpoint::Info => f.info,
        FrameworkEndpoint::Configuration => f.configuration,
        FrameworkEndpoint::BeaconMap => f.beacon_map,
        FrameworkEndpoint::EntryTypes => f.entry_types,
    }
}

impl Framework {
    /// The compiled schema that a framework-level endpoint is held to.
    pub fn schema_for(&self, e: FrameworkEndpoint) -> (r: &Result<Schema, Json>)
        ensures
            *r == framework_schema(*self, e),
    {
        match e {
            FrameworkEndpoint::Info => &self.info,
            FrameworkEndpoint::Configuration => &self.configuration,
            FrameworkEndpoint::BeaconMap => &self.beacon_map,
            FrameworkEndpoint::EntryTypes => &self.entry_types,
        }
    }
}

/// `url` with the segments of `location` appended to its path.
pub open spec fn under(url: UrlView, location: Seq<char>) -> UrlView {
    UrlView { segments: url.segments + path_segments(location), ..url }
}

/// The URL of `location` under `url`.
pub fn location_url(url: &Url, location: &str) -> (r: Url)
    ensures
        r@ == under(url@, location@),
{
    let extra = Url { head: String::new(), segments: split_path(location), tail: String::new() };
    url_join(url, &extra)
}

/// Appending the path `a` and then the path `b` to a URL gives the URL that
/// appending the path `a/b` gives.
pub proof fn lemma_location_associative(root: UrlView, a: Seq<char>, b: Seq<char>)
    ensures
        under(under(root, a), b) == under(root, a + seq!['/'] + b),
{
    crate::location::lemma_path_segments_concat(a, b);
    assert(root.segments + path_segments(a) + path_segments(b) =~= root.segments + (path_segments(a) + path_segments(b)));
}

/// The name that stands for a beacon whose `/info` does not give one.
pub open spec fn unknown_name() -> Seq<char> {
    "Unknown name (bad /info)"@
}

/// The beacon's name from its `/info` response: `response.name`, as it is
/// where it is a string, else written as JSON; a placeholder where it is missing.
pub open spec fn name_of(info: Json) -> Seq<char> {
    match path_of(info, "response"@, "name"@) {
        None => unknown_name(),
        Some(Json::String(s)) => s@,
        Some(v) => json_display(v),
    }
}

/// The beacon's name from its `/info` response; see `name_of`.
pub fn get_name(info: &Json) -> (r: String)
    ensures
        r@ == name_of(*info),
{
    match info.member("response") {
        None => String::from_str("Unknown name (bad /info)"),
        Some(response) => match response.member("name") {
            None => String::from_str("Unknown name (bad /info)"),
            Some(name) => match name.as_text() {
                Some(t) => t,
                None => json_text(name),
            },
        },
    }
}

/// The beacon under test.
pub struct Beacon {
    pub name: String,
    pub url: Url,
    pub model: Option<Model>,
    pub framework: Framework,
}

impl Beacon {
    /// The beacon at `url`, named from what came of fetching its `/info`
    /// endpoint: the name it gives, or a placeholder where its body is not
    /// JSON; the reason, where the endpoint could not be reached.
    pub fn new(model: Option<Model>, framework: Framework, url: &Url, info: Result<Json, VerifierError>) -> (r: Result<
        Self,
        VerifierError,
    >)
        ensures
            r is Err <==> (info is Err && !(info->Err_0 is ResponseIsNotJson)),
            r matches Err(e) ==> info == Err::<Json, VerifierError>(e),
            r matches Ok(b) ==> {
                &&& b.url@ == url@
                &&& b.model == model
                &&& b.framework == framework
                &&& b.name@ == match info {
                    Ok(j) => name_of(j),
                    Err(_) => unknown_name(),
                }
            },
    {
        match info {
            Err(VerifierError::ResponseIsNotJson) => Ok(Beacon {
                name: String::from_str("Unknown name (bad /info)"),
                url: copy_url(url),
                model,
                framework,
            }),
            Err(e) => Err(e),
            Ok(j) => Ok(Beacon { name: get_name(&j), url: copy_url(url), model, framework }),
        }
    }

    /// The URL of the `/info` endpoint of the beacon at `url`.
    pub fn info_url(url: &Url) -> (r: Url)
        ensures
            r@ == under(url@, "info"@),
    {
        location_url(url, "info")
    }

    /// Judges what came of fetching a framework-level endpoint; see `framework_verdict`.
    pub fn validate_against_framework(
        &self,
        entity_name: &str,
        location: &str,
        schema: &Result<Schema, Json>,
        response: Result<Json, VerifierError>,
    ) -> (r: EndpointReport)
        ensures
            r.entity_name@ == entity_name@,
            r.name@ == self.name@,
            r.url matches Some(u) && u@ == under(self.url@, location@),
            verdict(r) == framework_verdict(compiled_doc(*schema), response),
    {
        let url = location_url(&self.url, location);
        let report = EndpointReport::new(entity_name, self.name.as_str(), url);
        match response {
            Err(VerifierError::ResponseIsNotJson) => report.error(VerifierError::ResponseIsNotJson),
            Err(e) => report.null(e),
            Ok(j) => match check_against(Some(schema), &j) {
                Ok(()) => report.ok(Some(j)),
                Err(VerifierError::BadSchema) => report.null(VerifierError::BadSchema),
                Err(e) => report.error(e),
            },
        }
    }
}

/// The verdict on a framework-level endpoint: a body that is not JSON is
/// invalid; any other failure to answer, or a schema that did not compile,
/// leaves it unjudged; an answer is valid, and kept, exactly when the schema
/// finds no violation, and otherwise invalid with the violations' lines.
pub open spec fn framework_verdict(schema: Option<Json>, response: Result<Json, VerifierError>) -> Verdict {
    match response {
        Err(VerifierError::ResponseIsNotJson) => (Some(false), Some(ErrorView::ResponseIsNotJson), None),
        Err(e) => (None, Some(e@), None),
        Ok(j) => match check_outcome(schema, j) {
            Ok(()) => (Some(true), None, Some(j)),
            Err(ErrorView::BadSchema) => (None, Some(ErrorView::BadSchema), None),
            Err(e) => (Some(false), Some(e), None),
        },
    }
}

/// How an HTTP request is sent.
#[derive(Clone, Copy, Debug, PartialEq, Eq, Structural)]
pub enum Method {
    Get,
    Post,
}

/// What to do once an endpoint has answered with a status.
#[derive(Clone, Debug)]
pub enum Next {
    /// Read the body as JSON.
    Decode,
    /// Send the request again, with this method.
    Retry(Method),
    /// Give up: the endpoint is taken as not answering.
    Fail(VerifierError),
}

pub open spec fn is_success(status: u16) -> bool {
    200 <= status < 300
}

/// After an answer with `status` to a request sent with `method` to `url`: a
/// success is decoded; a GET refused with 405 (Method Not Allowed) is sent again
/// once as a POST; anything else gives up, the endpoint unresponsive.
pub fn after_status(method: Method, status: u16, url: &Url) -> (r: Next)
    ensures
        is_success(status) ==> r is Decode,
        !is_success(status) && method == Method::Get && status == 405 ==> (r matches Next::Retry(m) && m == Method::Post),
        !is_success(status) && !(method == Method::Get && status == 405) ==> (r matches Next::Fail(VerifierError::UnresponsiveEndpoint(t)) && t@ == url_text(url@)),
{
    if 200 <= status && status < 300 {
        Next::Decode
    } else if status == 405 && method == Method::Get {
        Next::Retry(Method::Post)
    } else {
        Next::Fail(VerifierError::UnresponsiveEndpoint(url.to_string()))
    }
}

/// The error for a request that the HTTP client itself could not complete:
/// `BadStatus` where the client rejected the status, else the client's message.
pub fn after_failure(is_status: bool, message: String) -> (r: VerifierError)
    ensures
        is_status ==> r is BadStatus,
        !is_status ==> (r matches VerifierError::RequestError(m) && m@ == message@),
{
    if is_status {
        VerifierError::BadStatus
    } else {
        VerifierError::RequestError(message)
    }
}

/// The response of an endpoint from its decoded body: `ResponseIsNotJson`
/// where the body was not JSON.
pub fn after_body(body: Option<Json>) -> (r: Result<Json, VerifierError>)
    ensures
        body matches Some(j) ==> r == Ok::<Json, VerifierError>(j),
        body is None ==> r == Err::<Json, VerifierError>(VerifierError::ResponseIsNotJson),
{
    match body {
        Some(j) => Ok(j),
        None => Err(VerifierError::ResponseIsNotJson),
    }
}

/// The identifier of a record: its `id`, else its `variant_internal_id`,
/// else its `cohort_id`, the first that is a string.
pub open spec fn entity_id(j: Json) -> Option<Seq<char>> {
    match text_in(member_of(j, "id"@)) {
        Some(t) => Some(t),
        None => match text_in(member_of(j, "variant_internal_id"@)) {
            Some(t) => Some(t),
            None => text_in(member_of(j, "cohort_id"@)),
        },
    }
}

/// The record that an identifier is drawn from: the first record of the
/// first result set whose `results` is a non-empty array.
pub open spec fn first_record(sets: Seq<Json>) -> Option<Json>
    decreases sets.len(),
{
    if sets.len() == 0 {
        None
    } else {
        match items_in(member_of(sets[0], "results"@)) {
            Some(items) => if items.len() > 0 {
                Some(items[0])
            } else {
                first_record(sets.subrange(1, sets.len() as int))
            },
            None => first_record(sets.subrange(1, sets.len() as int)),
        }
    }
}

/// The identifier that a report yields: where it is valid and kept an
/// instance, that of the instance where it is a record, else that of the
/// first record of the result sets it holds.
pub open spec fn report_id(valid: Option<bool>, output: Option<Json>) -> Option<Seq<char>> {
    match (valid, output) {
        (Some(true), Some(j)) => match entity_id(j) {
            Some(t) => Some(t),
            None => match items_in(path_of(j, "response"@, "resultSets"@)) {
                Some(sets) => match first_record(sets) {
                    Some(rec) => entity_id(rec),
                    None => None,
                },
                None => None,
            },
        },
        _ => None,
    }
}

/// The record's identifier, in the shape of the entity it belongs to; see `entity_id`.
pub fn entity_result(record: &Json) -> (r: Option<EntityResult>)
    ensures
        r matches Some(e) ==> entity_id(*record) == Some(e.id_spec()),
        r is None ==> entity_id(*record) is None,
{
    if let Some(v) = record.member("id") {
        if let Some(t) = v.as_text() {
            return Some(EntityResult::General { id: t });
        }
    }
    if let Some(v) = record.member("variant_internal_id") {
        if let Some(t) = v.as_text() {
            return Some(EntityResult::Variant { variant_internal_id: t });
        }
    }
    if let Some(v) = record.member("cohort_id") {
        if let Some(t) = v.as_text() {
            return Some(EntityResult::Cohort { cohort_id: t });
        }
    }
    None
}

fn first_record_of(sets: &Vec<Json>) -> (r: Option<&Json>)
    ensures
        r matches Some(x) ==> first_record(sets@) == Some(*x),
        r is None ==> first_record(sets@) is None,
{
    let mut i: usize = 0;
    assert(sets@.subrange(0, sets@.len() as int) =~= sets@);
    while i < sets.len()
        invariant
            i <= sets.len(),
            first_record(sets@) == first_record(sets@.subrange(i as int, sets@.len() as int)),
        decreases sets.len() - i,
    {
        let ghost rest = sets@.subrange(i as int, sets@.len() as int);
        assert(rest[0] == sets@[i as int]);
        assert(rest.subrange(1, rest.len() as int) =~= sets@.subrange(i + 1, sets@.len() as int));
        if let Some(res) = sets[i].member("results") {
            if let Some(items) = res.as_items() {
                if items.len() > 0 {
                    return Some(&items[0]);
                }
            }
        }
        i = i + 1;
    }
    None
}

/// The identifier that a collection report yields for the endpoints that
/// follow it; see `report_id`.
pub fn identifier(report: &EndpointReport) -> (r: Option<String>)
    ensures
        r matches Some(t) ==> report_id(report.valid, report.output) == Some(t@),
        r is None ==> report_id(report.valid, report.output) is None,
{
    match (&report.valid, &report.output) {
        (Some(true), Some(j)) => {
            if let Some(e) = entity_result(j) {
                return Some(e.id());
            }
            let sets = match j.member("response") {
                Some(body) => match body.member("resultSets") {
                    Some(s) => match s.as_items() {
                        Some(items) => items,
                        None => return None,
                    },
                    None => return None,
                },
                None => return None,
            };
            match first_record_of(sets) {
                Some(rec) => match entity_result(rec) {
                    Some(e) => Some(e.id()),
                    None => None,
                },
                None => None,
            }
        },
        _ => None,
    }
}

impl BeaconEndpoint {
    /// The report on an endpoint that is not called, for the reason given.
    pub fn skipped(self, root_url: &Url, reason: VerifierError) -> (r: EndpointReport)
        ensures
            r.entity_name@ == self.entity_name@,
            r.name@ == self.name@,
            r.url matches Some(u) && u@ == joined(root_url@, self.url@),
            verdict(r) == (None::<bool>, Some(reason@), None::<Json>),
    {
        let url = url_join(root_url, &self.url);
        EndpointReport::new(self.entity_name.as_str(), self.name.as_str(), url).null(reason)
    }
}

} // verus!
