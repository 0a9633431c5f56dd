use beacon_verifier::beacon::location_url;
use beacon_verifier::location::{replace_vars, split_path, substitute, url_join, Url};
use beacon_verifier::model::schema_path;
use beacon_verifier::text::replace;

#[test]
fn test_replace_vars() {
    let replaced = replace_vars(
        &Url::parse("https://google.com/biosamples/{id}").unwrap(),
        vec![("id", "my_id")],
    );
    assert_eq!(replaced.to_string(), "https://google.com/biosamples/my_id");
}

#[test]
fn parse_keeps_head_path_and_tail() {
    let u = Url::parse("https://example.org:8080/api/v2/?q=1#top").unwrap();
    assert_eq!(u.head, "https://example.org:8080");
    assert_eq!(u.segments, vec!["api".to_string(), "v2".to_string()]);
    assert_eq!(u.tail, "?q=1#top");
    assert_eq!(u.to_string(), "https://example.org:8080/api/v2?q=1#top");
}

#[test]
fn parse_rejects_text_that_is_no_url() {
    assert!(Url::parse("not a url").is_none());
}

#[test]
fn root_path_is_a_slash() {
    let u = Url::parse("https://example.org").unwrap();
    assert_eq!(u.path(), "/");
    assert_eq!(u.to_string(), "https://example.org/");
}

#[test]
fn split_path_drops_empty_and_dot_runs() {
    assert_eq!(split_path("/a//b/./c/"), vec!["a".to_string(), "b".to_string(), "c".to_string()]);
    assert!(split_path("/").is_empty());
}

#[test]
fn join_appends_template_path_and_keeps_root_host() {
    let root = Url::parse("https://beacon.example.org/api").unwrap();
    let template = Url::parse("https://other.example.com/individuals").unwrap();
    let j = url_join(&root, &template);
    assert_eq!(j.to_string(), "https://beacon.example.org/api/individuals");
}

#[test]
fn join_in_two_steps_equals_join_of_both_paths() {
    let root = Url::parse("https://beacon.example.org/api").unwrap();
    let two_steps = location_url(&location_url(&root, "a"), "b");
    let one_step = location_url(&root, "a/b");
    assert_eq!(two_steps.path(), one_step.path());
    assert_eq!(one_step.path(), "/api/a/b");
}

#[test]
fn substitute_replaces_every_placeholder() {
    let u = Url::parse("https://x.org/a/{id}/b/{id}{id}").unwrap();
    let r = substitute(&u, "id", "v1");
    assert_eq!(r.to_string(), "https://x.org/a/v1/b/v1v1");
    assert!(!r.to_string().contains("%7B"));
    assert!(Url::parse(&r.to_string()).is_some());
}

#[test]
fn substitute_leaves_other_variables() {
    let u = Url::parse("https://x.org/{other}/{id}").unwrap();
    let r = substitute(&u, "id", "v");
    assert_eq!(r.to_string(), "https://x.org/%7Bother%7D/v");
}

#[test]
fn replace_scans_from_the_left_without_overlap() {
    assert_eq!(replace("aaaa", "aa", "b"), "bb");
    assert_eq!(replace("xyz", "q", "r"), "xyz");
    assert_eq!(replace("", "q", "r"), "");
}

#[test]
fn schema_path_of_a_url_reference_is_its_path() {
    assert_eq!(
        schema_path("https://raw.example.org/models/individuals/defaultSchema.json").unwrap(),
        "models/individuals/defaultSchema.json"
    );
    assert_eq!(schema_path("./individuals/schema.json").unwrap(), "./individuals/schema.json");
    assert!(schema_path("http not a url").is_none());
}

#[test]
fn parse_rejects_urls_without_a_hierarchical_path() {
    assert!(Url::parse("mailto:someone@example.org").is_none());
    let u = Url::parse("https://x.org/a/../b").unwrap();
    assert_eq!(u.to_string(), "https://x.org/b");
}
