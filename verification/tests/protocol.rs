//! The paginated fetch protocol: page merging, continuation links, the
//! cycle guard, and the error taxonomy.

use gierm::api::{Data, FetchMachine, PageResult, StepOutcome, FetchError, extract_next_url};

fn arr(items: Vec<Data>) -> Data {
    Data::Arr(items)
}

fn obj(entries: Vec<(&str, Data)>) -> Data {
    Data::Obj(entries.into_iter().map(|(k, v)| (k.to_string(), v)).collect())
}

#[test]
fn array_pages_concatenate_in_page_order() {
    let mut m = FetchMachine::begin("https://api.github.com/users/a/repos".to_string());
    let r1 = m.step(PageResult::Page {
        body: Some(arr(vec![Data::Int(1), Data::Int(2)])),
        status: 200,
        link: Some("<https://api.github.com/p2>; rel=\"next\"".to_string()),
    });
    assert_eq!(r1, StepOutcome::KeepGoing);
    assert_eq!(m.pending, "https://api.github.com/p2");
    let r2 = m.step(PageResult::Page {
        body: Some(arr(vec![Data::Int(3)])),
        status: 200,
        link: None,
    });
    assert_eq!(r2, StepOutcome::Done);
    assert_eq!(m.data, arr(vec![Data::Int(1), Data::Int(2), Data::Int(3)]));
    assert_eq!(m.status, 200);
}

#[test]
fn object_pages_union_later_page_wins() {
    let mut m = FetchMachine::begin("u1".to_string());
    let r1 = m.step(PageResult::Page {
        body: Some(obj(vec![("a", Data::Int(1)), ("c", Data::Int(9))])),
        status: 200,
        link: Some("<u2>; rel=\"next\"".to_string()),
    });
    assert_eq!(r1, StepOutcome::KeepGoing);
    let r2 = m.step(PageResult::Page {
        body: Some(obj(vec![("a", Data::Int(2)), ("b", Data::Int(3))])),
        status: 200,
        link: None,
    });
    assert_eq!(r2, StepOutcome::Done);
    assert_eq!(m.data.get_field("a"), Some(&Data::Int(2)));
    assert_eq!(m.data.get_field("b"), Some(&Data::Int(3)));
    assert_eq!(m.data.get_field("c"), Some(&Data::Int(9)));
}

#[test]
fn termination_without_next_link() {
    let mut m = FetchMachine::begin("u1".to_string());
    let r = m.step(PageResult::Page {
        body: Some(arr(vec![])),
        status: 200,
        link: Some("<u0>; rel=\"prev\"".to_string()),
    });
    assert_eq!(r, StepOutcome::Done);
}

#[test]
fn cycle_guard_stops_on_repeated_url() {
    let mut m = FetchMachine::begin("u1".to_string());
    let r = m.step(PageResult::Page {
        body: Some(arr(vec![Data::Int(1)])),
        status: 200,
        link: Some("<u1>; rel=\"next\"".to_string()),
    });
    assert_eq!(r, StepOutcome::Done);
    assert_eq!(m.data, arr(vec![Data::Int(1)]));
}

#[test]
fn transport_failure_stops_with_network_error() {
    let mut m = FetchMachine::begin("u1".to_string());
    let r = m.step(PageResult::Failed);
    assert_eq!(r, StepOutcome::Stopped(FetchError::NetworkError));
    assert_eq!(m.data, Data::Null);
}

#[test]
fn undecodable_body_stops_with_decode_error() {
    let mut m = FetchMachine::begin("u1".to_string());
    let r = m.step(PageResult::Page { body: None, status: 200, link: None });
    assert_eq!(r, StepOutcome::Stopped(FetchError::DecodeError));
}

#[test]
fn object_then_array_is_a_shape_mismatch() {
    let mut m = FetchMachine::begin("u1".to_string());
    let r1 = m.step(PageResult::Page {
        body: Some(obj(vec![("a", Data::Int(1))])),
        status: 200,
        link: Some("<u2>; rel=\"next\"".to_string()),
    });
    assert_eq!(r1, StepOutcome::KeepGoing);
    let r2 = m.step(PageResult::Page {
        body: Some(arr(vec![])),
        status: 200,
        link: None,
    });
    assert_eq!(r2, StepOutcome::Stopped(FetchError::ShapeMismatch));
}

#[test]
fn scalar_payload_cannot_merge() {
    let mut m = FetchMachine::begin("u1".to_string());
    let r1 = m.step(PageResult::Page {
        body: Some(Data::Int(5)),
        status: 200,
        link: Some("<u2>; rel=\"next\"".to_string()),
    });
    assert_eq!(r1, StepOutcome::KeepGoing);
    let r2 = m.step(PageResult::Page {
        body: Some(arr(vec![])),
        status: 200,
        link: None,
    });
    assert_eq!(r2, StepOutcome::Stopped(FetchError::ShapeMismatch));
}

#[test]
fn null_first_page_is_replaced() {
    let mut m = FetchMachine::begin("u1".to_string());
    let r = m.step(PageResult::Page {
        body: Some(Data::Str("hello".to_string())),
        status: 404,
        link: None,
    });
    assert_eq!(r, StepOutcome::Done);
    assert_eq!(m.data, Data::Str("hello".to_string()));
    assert_eq!(m.status, 404);
}

#[test]
fn next_url_extracted_from_link_header() {
    let r = extract_next_url("<https://api.github.com/user/repos?page=2>; rel=\"next\"");
    assert_eq!(r, Some("https://api.github.com/user/repos?page=2".to_string()));
}

#[test]
fn next_url_skips_other_relations() {
    let r = extract_next_url("<https://x/prev>; rel=\"prev\", <https://x/next>; rel=\"next\"");
    assert_eq!(r, Some("https://x/next".to_string()));
}

#[test]
fn no_next_relation_gives_none() {
    assert_eq!(extract_next_url("<https://x/prev>; rel=\"prev\""), None);
    assert_eq!(extract_next_url(""), None);
    assert_eq!(extract_next_url("rel=\"next\""), None);
}
