use beacon_verifier::beacon::{
    after_body, after_failure, after_status, identifier, Beacon, Framework, Method, Next,
};
use beacon_verifier::endpoint::{
    checks_records, envelope_for, fold_records, take_records, BeaconEndpoint, EnvelopeKind, ResponseSchemas,
    SchemaRegistry,
};
use beacon_verifier::error::{EnvelopeField, VerifierError};
use beacon_verifier::interface::{
    BeaconResultSetResponse, DefaultSchema, EntityResult, EntryType, Granularity, OntologyTerm, ResultSet,
    ResultSetResponse,
};
use beacon_verifier::json::{compile_schema, Json};
use beacon_verifier::location::Url;
use beacon_verifier::model::{Endpoint, Model, RelatedEndpoint, Step};
use beacon_verifier::output::{entity_passed, BeaconOutput, EndpointOutput, Output};
use beacon_verifier::report::{fold_reports, EndpointReport};
use beacon_verifier::run::Run;
use serde_json::Value;

fn to_json(v: Value) -> Json {
    match v {
        Value::Null => Json::Null,
        Value::Bool(b) => Json::Bool(b),
        Value::Number(n) => Json::Number(n),
        Value::String(s) => Json::String(s),
        Value::Array(items) => Json::Array(items.into_iter().map(to_json).collect()),
        Value::Object(map) => Json::Object(map.into_iter().map(|(k, v)| (k, to_json(v))).collect()),
    }
}

fn json(text: &str) -> Json {
    to_json(serde_json::from_str(text).unwrap())
}

fn url(text: &str) -> Url {
    Url::parse(text).unwrap()
}

fn report(valid: Option<bool>, output: Option<Json>) -> EndpointReport {
    let r = EndpointReport::new("E", "E all entries", url("https://b.org/e"));
    match valid {
        Some(true) => r.ok(output),
        Some(false) => r.error(VerifierError::BadResponse("x".to_string())),
        None => r.null(VerifierError::BadStatus),
    }
}

fn envelope_schemas() -> ResponseSchemas {
    ResponseSchemas::compile(
        json(r#"{"type":"object","required":["meta","responseSummary"]}"#),
        json(r#"{"type":"object","required":["meta","responseSummary"],"properties":{"responseSummary":{"required":["numTotalResults"]}}}"#),
        json(r#"{"type":"object","required":["meta","responseSummary"]}"#),
    )
}

fn entity_schema() -> Json {
    json(r#"{"type":"object","required":["id","sex"],"properties":{"id":{"type":"string"},"sex":{"type":"string"}}}"#)
}

fn registry() -> SchemaRegistry {
    SchemaRegistry { schemas: vec![compile_schema(entity_schema())] }
}

fn endpoint() -> BeaconEndpoint {
    BeaconEndpoint {
        entity_name: "Individual".to_string(),
        entity_schema: 0,
        name: "Individual all entries".to_string(),
        url: url("https://spec.org/individuals"),
    }
}

fn entry_type(id: &str, name: &str) -> (EntryType, Json) {
    (
        EntryType {
            id: id.to_string(),
            name: name.to_string(),
            ontology_term_for_this_type: OntologyTerm { id: "NCIT:C25190".to_string(), label: "Person".to_string() },
            part_of_specification: "Beacon v2".to_string(),
            default_schema: DefaultSchema { reference_to_schema_definition: "./s.json".to_string() },
        },
        entity_schema(),
    )
}

fn individuals_set() -> Endpoint {
    Endpoint {
        entry_type: "individual".to_string(),
        open_apiendpoints_definition: None,
        root_url: url("https://spec.org/individuals"),
        single_entry_url: Some(url("https://spec.org/individuals/{id}")),
        filtering_terms_url: None,
        endpoints: Some(vec![(
            "biosample".to_string(),
            RelatedEndpoint {
                returned_entry_type: "biosample".to_string(),
                url: url("https://spec.org/individuals/{id}/biosamples"),
            },
        )]),
    }
}

fn model() -> Model {
    Model::resolve(
        vec![entry_type("individual", "Individual"), entry_type("biosample", "Biosample")],
        vec![individuals_set()],
    )
    .ok()
    .unwrap()
}

#[test]
fn join_keeps_a_failure_whatever_follows() {
    let x = report(Some(false), None);
    assert_eq!(x.join(report(Some(true), Some(json("1")))).valid, Some(false));
    let y = report(None, None);
    assert_eq!(y.join(report(Some(false), None)).valid, None);
}

#[test]
fn join_lets_a_failure_replace_a_success() {
    let a = report(Some(true), Some(json("1")));
    let j = a.join(report(None, None));
    assert_eq!(j.valid, None);
    assert!(matches!(j.error, Some(VerifierError::BadStatus)));
}

#[test]
fn fold_of_valid_reports_keeps_first_instance() {
    let reports = vec![
        report(Some(true), Some(json(r#"{"id":"first"}"#))),
        report(Some(true), Some(json(r#"{"id":"second"}"#))),
        report(Some(true), Some(json(r#"{"id":"third"}"#))),
    ];
    let r = fold_reports(report(Some(true), None), reports);
    assert_eq!(r.valid, Some(true));
    assert_eq!(r.output, Some(json(r#"{"id":"first"}"#)));
}

#[test]
fn fold_of_nothing_is_the_empty_report() {
    let r = fold_reports(report(Some(true), None), vec![]);
    assert_eq!(r.valid, Some(true));
    assert_eq!(r.output, None);
}

#[test]
fn fold_takes_first_failure() {
    let reports = vec![report(Some(true), Some(json("1"))), report(None, None), report(Some(false), None)];
    let r = fold_reports(report(Some(true), None), reports);
    assert_eq!(r.valid, None);
}

#[test]
fn fold_of_records_takes_first_failure_or_first_record() {
    let schema = compile_schema(entity_schema());
    let base = EndpointReport::new("E", "n", url("https://b.org/e"));
    let recs = vec![json(r#"{"id":"a","sex":"F"}"#), json(r#"{"id":"b"}"#)];
    let r = fold_records(&base, Some(&schema), recs);
    assert_eq!(r.valid, Some(false));
    assert_eq!(r.name, "n");
    let recs = vec![json(r#"{"id":"a","sex":"F"}"#), json(r#"{"id":"b","sex":"M"}"#)];
    let r = fold_records(&base, Some(&schema), recs);
    assert_eq!(r.valid, Some(true));
    assert_eq!(r.output, Some(json(r#"{"id":"a","sex":"F"}"#)));
    let r = fold_records(&base, None, vec![json("{}")]);
    assert_eq!(r.valid, None);
}

#[test]
fn first_record_is_kept_after_an_empty_result_set() {
    let root = url("https://beacon.org/api");
    let response = json(
        r#"{"meta":{"returnedGranularity":"record"},"responseSummary":{"exists":true},
            "response":{"resultSets":[{"results":[]},{"results":[{"id":"r1","sex":"F"}]}]}}"#,
    );
    let r = endpoint().validate(&root, Ok(response), &envelope_schemas(), &registry());
    assert_eq!(r.valid, Some(true));
    assert_eq!(r.output, Some(json(r#"{"id":"r1","sex":"F"}"#)));
    assert_eq!(identifier(&r), Some("r1".to_string()));
}

#[test]
fn granularity_text_is_read_exactly() {
    assert_eq!(Granularity::from_text("boolean"), Some(Granularity::Boolean));
    assert_eq!(Granularity::from_text("count"), Some(Granularity::Count));
    assert_eq!(Granularity::from_text("aggregated"), Some(Granularity::Aggregated));
    assert_eq!(Granularity::from_text("record"), Some(Granularity::Record));
    assert_eq!(Granularity::from_text("Record"), None);
    assert_eq!(Granularity::from_text(""), None);
}

#[test]
fn dispatch_by_granularity() {
    assert_eq!(envelope_for(Granularity::Boolean), EnvelopeKind::Boolean);
    assert_eq!(envelope_for(Granularity::Count), EnvelopeKind::Count);
    assert_eq!(envelope_for(Granularity::Aggregated), EnvelopeKind::ResultSets);
    assert_eq!(envelope_for(Granularity::Record), EnvelopeKind::ResultSets);
    assert!(!checks_records(Granularity::Boolean));
    assert!(!checks_records(Granularity::Aggregated));
    assert!(checks_records(Granularity::Record));
}

#[test]
fn boolean_response_is_not_checked_against_records() {
    let response = json(
        r#"{"meta":{"returnedGranularity":"boolean"},"responseSummary":{"exists":true},
            "response":{"resultSets":[{"results":[{"nothing":"here"}]}]}}"#,
    );
    let root = url("https://beacon.org/api");
    let r = endpoint().validate(&root, Ok(response), &envelope_schemas(), &registry());
    assert_eq!(r.valid, Some(true));
    assert_eq!(
        r.output,
        Some(json(
            r#"{"meta":{"returnedGranularity":"boolean"},"responseSummary":{"exists":true},
            "response":{"resultSets":[{"results":[{"nothing":"here"}]}]}}"#
        ))
    );
}

#[test]
fn unknown_granularity_is_invalid() {
    let root = url("https://beacon.org/api");
    let r = endpoint().validate(
        &root,
        Ok(json(r#"{"meta":{"returnedGranularity":"everything"},"responseSummary":{"exists":true}}"#)),
        &envelope_schemas(),
        &registry(),
    );
    assert_eq!(r.valid, Some(false));
    assert!(matches!(r.error, Some(VerifierError::BadGranularity)));
    let r = endpoint().validate(&root, Ok(json(r#"{"responseSummary":{"exists":true}}"#)), &envelope_schemas(), &registry());
    assert!(matches!(r.error, Some(VerifierError::BadGranularity)));
}

#[test]
fn count_response_is_held_to_count_envelope() {
    let root = url("https://beacon.org/api");
    let r = endpoint().validate(
        &root,
        Ok(json(r#"{"meta":{"returnedGranularity":"count"},"responseSummary":{"exists":true}}"#)),
        &envelope_schemas(),
        &registry(),
    );
    assert_eq!(r.valid, Some(false));
    assert!(matches!(r.error, Some(VerifierError::BadResponse(_))));
}

#[test]
fn envelope_failure_is_invalid() {
    let root = url("https://beacon.org/api");
    let r = endpoint().validate(
        &root,
        Ok(json(r#"{"meta":{"returnedGranularity":"record"}}"#)),
        &envelope_schemas(),
        &registry(),
    );
    assert_eq!(r.valid, Some(false));
}

#[test]
fn unanswered_endpoint_is_not_judged() {
    let root = url("https://beacon.org/api");
    let r = endpoint().validate(&root, Err(VerifierError::BadStatus), &envelope_schemas(), &registry());
    assert_eq!(r.valid, None);
    assert!(matches!(r.error, Some(VerifierError::BadStatus)));
    let r = endpoint().validate(&root, Err(VerifierError::ResponseIsNotJson), &envelope_schemas(), &registry());
    assert_eq!(r.valid, Some(false));
    assert!(matches!(r.error, Some(VerifierError::ResponseIsNotJson)));
    assert_eq!(r.url.unwrap().to_string(), "https://beacon.org/api/individuals");
}

#[test]
fn uncompiled_schema_leaves_records_unjudged() {
    let root = url("https://beacon.org/api");
    let bad = SchemaRegistry { schemas: vec![compile_schema(json(r#"{"type":12}"#))] };
    let r = endpoint().validate(
        &root,
        Ok(json(
            r#"{"meta":{"returnedGranularity":"record"},"responseSummary":{"exists":true},
                "response":{"resultSets":[{"results":[{"id":"a","sex":"F"}]}]}}"#,
        )),
        &envelope_schemas(),
        &bad,
    );
    assert_eq!(r.valid, None);
    assert!(matches!(r.error, Some(VerifierError::BadSchema)));
}

#[test]
fn missing_structure_is_invalid_not_a_crash() {
    let root = url("https://beacon.org/api");
    let r = endpoint().validate(
        &root,
        Ok(json(r#"{"meta":{"returnedGranularity":"record"},"responseSummary":{}}"#)),
        &envelope_schemas(),
        &registry(),
    );
    assert_eq!(r.valid, Some(false));
    assert!(matches!(r.error, Some(VerifierError::MalformedResponse(EnvelopeField::Exists))));
    let r = endpoint().validate(
        &root,
        Ok(json(r#"{"meta":{"returnedGranularity":"record"},"responseSummary":{"exists":true}}"#)),
        &envelope_schemas(),
        &registry(),
    );
    assert!(matches!(r.error, Some(VerifierError::MalformedResponse(EnvelopeField::ResultSets))));
    let taken = take_records(json(r#"{"response":{"resultSets":[{"results":[1]},{"results":3}]}}"#));
    assert!(matches!(taken, Err(EnvelopeField::Results)));
    let taken = take_records(json(r#"{"response":{"resultSets":[{"results":[1,2]},{"results":[]}]}}"#)).ok().unwrap();
    assert_eq!(taken, vec![vec![json("1"), json("2")], vec![]]);
}

#[test]
fn scenario_nothing_found_gives_no_identifier() {
    let m = model();
    let root = url("https://beacon.org/api");
    let response = json(r#"{"meta":{"returnedGranularity":"record"},"responseSummary":{"exists":false}}"#);
    let r = m.collection_endpoint(0).validate(&root, Ok(response), &envelope_schemas(), &m.registry);
    assert_eq!(r.valid, Some(true));
    assert_eq!(r.output, None);
    let id = identifier(&r);
    assert_eq!(id, None);
    let steps = m.endpoints(0, id);
    assert_eq!(steps.len(), 2);
    for step in steps {
        match step {
            Step::Skip(ep, VerifierError::NoIdentifierAvailable) => {
                assert!(ep.url.to_string().contains("_id_"));
                let rep = ep.skipped(&root, VerifierError::NoIdentifierAvailable);
                assert_eq!(rep.valid, None);
            },
            _ => panic!("a step without an identifier is not called"),
        }
    }
}

#[test]
fn scenario_one_record_leads_to_single_entry() {
    let m = model();
    let root = url("https://beacon.org/api");
    let response = json(
        r#"{"meta":{"returnedGranularity":"record"},"responseSummary":{"exists":true},
            "response":{"resultSets":[{"results":[{"id":"abc123","sex":"F"}]}]}}"#,
    );
    let r = m.collection_endpoint(0).validate(&root, Ok(response), &envelope_schemas(), &m.registry);
    assert_eq!(r.valid, Some(true));
    assert_eq!(r.name, "Individual all entries");
    let id = identifier(&r);
    assert_eq!(id, Some("abc123".to_string()));
    let steps = m.endpoints(0, id);
    match &steps[0] {
        Step::Call(ep) => {
            assert_eq!(ep.name, "Individual single entry");
            assert_eq!(ep.endpoint_url(&root).to_string(), "https://beacon.org/api/individuals/abc123");
        },
        _ => panic!("the single entry is called"),
    }
    match &steps[1] {
        Step::Call(ep) => {
            assert_eq!(ep.name, "Biosample related with a Individual");
            assert_eq!(ep.entity_name, "Individual");
            assert_eq!(ep.entity_schema, m.schema_slots[1]);
            assert_eq!(ep.endpoint_url(&root).to_string(), "https://beacon.org/api/individuals/abc123/biosamples");
        },
        _ => panic!("the related endpoint is called"),
    }
}

#[test]
fn scenario_missing_property_is_invalid_with_its_path() {
    let m = model();
    let root = url("https://beacon.org/api");
    let response = json(
        r#"{"meta":{"returnedGranularity":"record"},"responseSummary":{"exists":true},
            "response":{"resultSets":[{"results":[{"id":"abc123"}]}]}}"#,
    );
    let r = m.collection_endpoint(0).validate(&root, Ok(response), &envelope_schemas(), &m.registry);
    assert_eq!(r.valid, Some(false));
    match &r.error {
        Some(VerifierError::BadResponse(text)) => {
            assert!(text.contains("sex"));
            assert!(text.contains("()"));
        },
        _ => panic!("a schema violation is reported"),
    }
    assert_eq!(identifier(&r), None);
}

#[test]
fn scenario_method_not_allowed_retries_with_post() {
    let u = url("https://beacon.org/api/individuals");
    assert!(matches!(after_status(Method::Get, 405, &u), Next::Retry(Method::Post)));
    assert!(matches!(after_status(Method::Post, 200, &u), Next::Decode));
    assert!(matches!(after_status(Method::Post, 405, &u), Next::Fail(VerifierError::UnresponsiveEndpoint(_))));
    assert!(matches!(after_status(Method::Get, 500, &u), Next::Fail(VerifierError::UnresponsiveEndpoint(_))));
    let posted = after_body(Some(json(r#"{"meta":{"returnedGranularity":"boolean"},"responseSummary":{"exists":true}}"#)));
    let r = endpoint().validate(&url("https://beacon.org/api"), posted, &envelope_schemas(), &registry());
    assert_eq!(r.valid, Some(true));
    assert!(matches!(after_body(None), Err(VerifierError::ResponseIsNotJson)));
}

#[test]
fn unresolved_entry_type_fails_the_model() {
    let mut set = individuals_set();
    set.entry_type = "dataset".to_string();
    match Model::resolve(vec![entry_type("individual", "Individual")], vec![set]) {
        Err(VerifierError::UnresolvedEntityType(t)) => assert_eq!(t, "dataset"),
        _ => panic!("an unresolved entry type is fatal"),
    }
}

#[test]
fn unknown_related_type_is_named_unknown_entity() {
    let m = Model::resolve(vec![entry_type("individual", "Individual")], vec![individuals_set()]).ok().unwrap();
    assert_eq!(m.entities[0].name, "Individual");
    let steps = m.endpoints(0, Some("x".to_string()));
    match &steps[1] {
        Step::Skip(ep, VerifierError::UnresolvedEntityType(t)) => {
            assert_eq!(ep.name, "Unknown entity related with a Individual");
            assert_eq!(t, "biosample");
        },
        _ => panic!("an unknown related type is not called"),
    }
}

#[test]
fn output_groups_by_entity_and_orders_by_name() {
    let mut out = Output::new();
    for (entity, name) in [("B", "zeta"), ("A", "beta"), ("B", "alpha"), ("A", "alpha")] {
        out.push(EndpointReport::new(entity, name, url("https://b.org/x")).ok(None));
    }
    let groups = out.finish();
    assert_eq!(groups.len(), 2);
    assert_eq!(groups[0].0, "B");
    let names: Vec<&str> = groups[0].1.iter().map(|o| o.name.as_str()).collect();
    assert_eq!(names, vec!["alpha", "zeta"]);
    let names: Vec<&str> = groups[1].1.iter().map(|o| o.name.as_str()).collect();
    assert_eq!(names, vec!["alpha", "beta"]);
}

#[test]
fn entity_passes_only_when_all_valid() {
    let ok = EndpointOutput { name: "a".to_string(), url: None, valid: Some(true), error: None };
    let bad = EndpointOutput { name: "b".to_string(), url: None, valid: None, error: Some(VerifierError::BadSchema) };
    assert!(entity_passed(&vec![]));
    assert!(!entity_passed(&vec![ok, bad]));
}

#[test]
fn ids_of_result_sets_in_order() {
    let r = BeaconResultSetResponse {
        response: ResultSetResponse {
            result_sets: vec![
                ResultSet { results: vec![EntityResult::General { id: "a".to_string() }] },
                ResultSet {
                    results: vec![
                        EntityResult::Variant { variant_internal_id: "v".to_string() },
                        EntityResult::Cohort { cohort_id: "c".to_string() },
                    ],
                },
            ],
        },
    };
    assert_eq!(r.ids(), vec!["a".to_string(), "v".to_string(), "c".to_string()]);
}

fn framework_with(result_sets: &str) -> Framework {
    Framework::new(
        json(r#"{"type":"object","required":["response"]}"#),
        json("{}"),
        json("{}"),
        json("{}"),
        json(result_sets),
        json("{}"),
        json("{}"),
        json("{}"),
    )
}

fn framework() -> Framework {
    framework_with("{}")
}

#[test]
fn beacon_is_named_from_info() {
    let root = url("https://beacon.org/api");
    let b = Beacon::new(None, framework(), &root, Ok(json(r#"{"response":{"name":"My Beacon"}}"#))).ok().unwrap();
    assert_eq!(b.name, "My Beacon");
    let b = Beacon::new(None, framework(), &root, Ok(json(r#"{"response":{"name":7}}"#))).ok().unwrap();
    assert_eq!(b.name, "7");
    let b = Beacon::new(None, framework(), &root, Ok(json(r#"{"meta":{}}"#))).ok().unwrap();
    assert_eq!(b.name, "Unknown name (bad /info)");
    assert!(Beacon::new(None, framework(), &root, Err(VerifierError::BadStatus)).is_err());
    let b = Beacon::new(None, framework(), &root, Err(VerifierError::ResponseIsNotJson)).ok().unwrap();
    assert_eq!(b.name, "Unknown name (bad /info)");
    assert_eq!(Beacon::info_url(&root).to_string(), "https://beacon.org/api/info");
}

#[test]
fn framework_endpoint_is_checked_against_its_schema() {
    let root = url("https://beacon.org/api");
    let b = Beacon::new(None, framework(), &root, Ok(json(r#"{"response":{"name":"B"}}"#))).ok().unwrap();
    let r = b.validate_against_framework("Info", "info", &b.framework.info, Ok(json(r#"{"response":{}}"#)));
    assert_eq!(r.valid, Some(true));
    assert_eq!(r.url.unwrap().to_string(), "https://beacon.org/api/info");
    let r = b.validate_against_framework("Info", "info", &b.framework.info, Ok(json(r#"{"meta":{}}"#)));
    assert_eq!(r.valid, Some(false));
    match r.error {
        Some(VerifierError::BadResponse(text)) => assert_eq!(text, "\"response\" is a required property ()\n"),
        _ => panic!("a violation is reported with its path"),
    }
    let r = b.validate_against_framework("Info", "info", &b.framework.info, Err(VerifierError::ResponseIsNotJson));
    assert_eq!(r.valid, Some(false));
    let bad = compile_schema(json(r#"{"type":12}"#));
    let r = b.validate_against_framework("Info", "info", &bad, Ok(json("{}")));
    assert!(matches!(r.error, Some(VerifierError::BadSchema)));
}

#[test]
fn run_asks_for_framework_then_collection_then_follow_ups() {
    let root = url("https://beacon.org/api");
    let fw = framework_with(r#"{"type":"object","required":["meta","responseSummary"]}"#);
    let b = Beacon::new(Some(model()), fw, &root, Ok(json(r#"{"response":{"name":"B"}}"#))).ok().unwrap();
    let mut run = Run::new(b);
    let mut asked = Vec::new();
    while let Some(u) = run.next_request() {
        let text = u.to_string();
        let response = if text.ends_with("/individuals") {
            Ok(json(
                r#"{"meta":{"returnedGranularity":"record"},"responseSummary":{"exists":true},
                    "response":{"resultSets":[{"results":[{"id":"abc123","sex":"F"}]}]}}"#,
            ))
        } else if text.ends_with("/info") {
            Ok(json(r#"{"response":{"name":"B"}}"#))
        } else {
            Err(VerifierError::UnresponsiveEndpoint(text.clone()))
        };
        asked.push(text);
        run.answer(response);
    }
    assert_eq!(
        asked,
        vec![
            "https://beacon.org/api/info",
            "https://beacon.org/api/configuration",
            "https://beacon.org/api/map",
            "https://beacon.org/api/entry_types",
            "https://beacon.org/api/individuals",
            "https://beacon.org/api/individuals/abc123",
            "https://beacon.org/api/individuals/abc123/biosamples",
        ]
    );
    let out = run.finish("2024-01-01 00:00:00".to_string());
    assert_eq!(out.name, "B");
    assert_eq!(out.last_updated, "2024-01-01 00:00:00");
    let individual = out.entities.iter().find(|g| g.0 == "Individual").unwrap();
    let names: Vec<&str> = individual.1.iter().map(|o| o.name.as_str()).collect();
    assert_eq!(names, vec!["Biosample related with a Individual", "Individual all entries", "Individual single entry"]);
    assert_eq!(individual.1[1].valid, Some(true));
    assert_eq!(individual.1[2].valid, None);
}

#[test]
fn run_without_model_checks_framework_only() {
    let root = url("https://beacon.org/api");
    let b = Beacon::new(None, framework(), &root, Ok(json(r#"{"response":{"name":"B"}}"#))).ok().unwrap();
    let mut run = Run::new(b);
    let mut n = 0;
    while run.next_request().is_some() {
        run.answer(Err(VerifierError::BadStatus));
        n += 1;
    }
    assert_eq!(n, 4);
    let groups = run.finish(String::new()).entities;
    assert_eq!(groups.len(), 4);
    assert!(groups.iter().all(|g| g.1.len() == 1 && g.1[0].valid.is_none()));
}

#[test]
fn unreachable_beacon_is_named_with_its_reason() {
    let out = BeaconOutput::unreachable("timeout", url("https://b.org"), "t".to_string());
    assert_eq!(out.name, "Unknown Beacon (timeout)");
    assert!(out.entities.is_empty());
}

#[test]
fn identifier_of_an_aggregated_response_comes_from_its_records() {
    let root = url("https://beacon.org/api");
    let response = json(
        r#"{"meta":{"returnedGranularity":"aggregated"},"responseSummary":{"exists":true},
            "response":{"resultSets":[{"results":[]},{"results":[{"variant_internal_id":"v9"}]}]}}"#,
    );
    let r = endpoint().validate(&root, Ok(response), &envelope_schemas(), &registry());
    assert_eq!(r.valid, Some(true));
    assert_eq!(identifier(&r), Some("v9".to_string()));
}

#[test]
fn client_failures_become_errors() {
    assert!(matches!(after_failure(true, "status 500".to_string()), VerifierError::BadStatus));
    match after_failure(false, "connection refused".to_string()) {
        VerifierError::RequestError(m) => assert_eq!(m, "connection refused"),
        _ => panic!("the client's message is kept"),
    }
}

#[test]
fn a_schema_shared_by_entry_types_is_compiled_once() {
    let m = model();
    assert_eq!(m.registry.schemas.len(), 1);
    assert_eq!(m.schema_slots, vec![0, 0]);
    let mut other = entry_type("cohort", "Cohort");
    other.0.default_schema.reference_to_schema_definition = "./cohort.json".to_string();
    let m = Model::resolve(vec![entry_type("individual", "Individual"), other, entry_type("biosample", "Biosample")], vec![])
        .ok()
        .unwrap();
    assert_eq!(m.registry.schemas.len(), 2);
    assert_eq!(m.schema_slots, vec![0, 1, 0]);
}
