use request::Request;

#[test]
fn headers_trims_names_and_values() {
    let set = Request::headers(&[("  accept ", " application/json\t")]);
    assert_eq!(set.len(), 1);
    assert_eq!(set.get("accept"), Some(&String::from("application/json")));
}

#[test]
fn headers_last_write_wins_on_duplicate_names() {
    let set = Request::headers(&[("a", "1"), ("b", "2"), (" a ", "3")]);
    assert_eq!(set.len(), 2);
    assert_eq!(set.get("a"), Some(&String::from("3")));
    assert_eq!(set.get("b"), Some(&String::from("2")));
}

#[test]
fn headers_missing_name_is_none() {
    let set = Request::headers(&[("a", "1")]);
    assert_eq!(set.get("b"), None);
}

#[test]
fn headers_of_nothing_is_empty() {
    let set = Request::headers(&[]);
    assert_eq!(set.len(), 0);
}

#[test]
fn new_builds_a_client_and_clones_share_defaults() {
    let rq = Request::new("agent-under-test", &[("x-marker", "on")]);
    let copy = rq.clone();
    // Both handles exist and are usable; the transport client is shared.
    let _ = rq.client();
    let _ = copy.client();
}

#[test]
fn admissible_pairs_accepts_well_formed_configuration() {
    assert!(request::headers::pairs_admissible(&[
        ("  accept ", " text/html "),
        ("x-id", ""),
        ("a", "tab\tok"),
    ]));
}

#[test]
fn admissible_pairs_refuses_malformed_names_and_values() {
    assert!(!request::headers::pairs_admissible(&[("ACCEPT", "x")]));
    assert!(!request::headers::pairs_admissible(&[("", "x")]));
    assert!(!request::headers::pairs_admissible(&[("a b", "x")]));
    assert!(!request::headers::pairs_admissible(&[("a", "bad\u{7f}value")]));
}
