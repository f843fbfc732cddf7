use rev::query::build_review_query;

#[test]
fn query_for_a_team() {
    let q = build_review_query(Some("lunarway/squad-aura"), None, None);
    assert_eq!(q, "is:pr team-review-requested:lunarway/squad-aura state:open  ");
}

#[test]
fn query_for_a_user() {
    let q = build_review_query(Some("kjuulh"), None, None);
    assert_eq!(q, "is:pr review-requested:kjuulh state:open  ");
}

#[test]
fn query_for_the_caller() {
    let q = build_review_query(None, None, None);
    assert_eq!(q, "is:pr review-requested:@me state:open  ");
}

#[test]
fn query_with_org_and_labels() {
    let q = build_review_query(
        Some("kjuulh"),
        Some("lunarway"),
        Some(vec!["dependencies".to_string(), "bug".to_string()]),
    );
    assert_eq!(
        q,
        "is:pr review-requested:kjuulh state:open org:lunarway label:dependencies,bug"
    );
}

#[test]
fn query_with_one_label() {
    let q = build_review_query(None, None, Some(vec!["bug".to_string()]));
    assert_eq!(q, "is:pr review-requested:@me state:open  label:bug");
}
