use arbitra::bulk::{
    bulk_create_ops, bulk_report, bulk_status_decide, bulk_update_targets, BulkItemOutcome,
};
use arbitra::router::visible_id_suffix;
use arbitra::search::{
    paging, process_search_term, search_body_builder, search_target, split_csv, QueryKind,
};

fn ok_item() -> BulkItemOutcome {
    BulkItemOutcome { error: None, status: 201 }
}

fn failed_item(reason: &str, status: i64) -> BulkItemOutcome {
    BulkItemOutcome { error: Some(reason.to_string()), status }
}

#[test]
fn one_failed_item_of_five_is_reported_alone() {
    let items = vec![
        ok_item(),
        ok_item(),
        failed_item("mapper_parsing_exception", 400),
        ok_item(),
        ok_item(),
    ];
    let report = bulk_report(true, &items);
    assert_eq!(report.error_count, 1);
    assert!(report.has_errors);
    assert_eq!(report.errors.len(), 1);
    assert_eq!(report.errors[0].document_number, 2);
    assert_eq!(report.errors[0].error, "mapper_parsing_exception");
    assert_eq!(report.errors[0].status, 400);
}

#[test]
fn clear_flag_reports_nothing() {
    let items = vec![ok_item(), ok_item()];
    let report = bulk_report(false, &items);
    assert_eq!(report.error_count, 0);
    assert!(!report.has_errors);
    assert!(report.errors.is_empty());
}

#[test]
fn several_failures_keep_batch_order() {
    let items = vec![
        failed_item("a", 400),
        ok_item(),
        failed_item("b", 409),
        failed_item("c", 500),
    ];
    let report = bulk_report(true, &items);
    assert_eq!(report.error_count, 3);
    let numbers: Vec<usize> = report.errors.iter().map(|f| f.document_number).collect();
    assert_eq!(numbers, vec![0, 2, 3]);
    assert_eq!(report.errors[1].error, "b");
    assert_eq!(report.errors[2].status, 500);
}

#[test]
fn bulk_status_is_multi_status_on_partial_failure() {
    assert_eq!(bulk_status_decide(200, true), 207);
    assert_eq!(bulk_status_decide(200, false), 200);
}

#[test]
fn bulk_create_ops_route_into_range() {
    let ops = bulk_create_ops("shop.orders", 12, 4);
    assert_eq!(ops.len(), 12);
    for op in &ops {
        let suffix = visible_id_suffix(&op.doc_id);
        let partition: usize = suffix.parse().unwrap();
        assert!(partition < 4);
        assert_eq!(op.target, format!("shop.orders.{partition}"));
    }
}

#[test]
fn bulk_update_targets_parse_suffixes() {
    let ids = vec!["tokena.3".to_string(), "tokenb.10".to_string()];
    let targets = bulk_update_targets("shop.orders", &ids).unwrap();
    assert_eq!(targets, vec!["shop.orders.3", "shop.orders.10"]);
}

#[test]
fn bulk_update_refuses_malformed_ids() {
    assert!(bulk_update_targets("p", &vec!["token.x".to_string()]).is_none());
    assert!(bulk_update_targets("p", &vec!["token.".to_string()]).is_none());
    assert!(bulk_update_targets("p", &vec!["token.18446744073709551616".to_string()]).is_none());
}

#[test]
fn star_term_is_match_all() {
    let star = process_search_term(&Some("*".to_string()), false, 3);
    let none = process_search_term(&None, false, 3);
    assert!(star.is_none());
    assert!(none.is_none());
    let body_star = search_body_builder(&star, &None, &None);
    let body_none = search_body_builder(&none, &None, &None);
    assert!(matches!(body_star.query, QueryKind::MatchAll));
    assert!(matches!(body_none.query, QueryKind::MatchAll));
}

#[test]
fn star_term_is_match_all_even_in_wildcard_mode() {
    assert!(process_search_term(&Some("*".to_string()), true, 3).is_none());
}

#[test]
fn short_tokens_stay_unexpanded() {
    let term = process_search_term(&Some("ab".to_string()), true, 3).unwrap();
    assert_eq!(term, "ab");
    let term = process_search_term(&Some("abcd".to_string()), true, 3).unwrap();
    assert_eq!(term, "abcd*");
    let term = process_search_term(&Some("ab abcd".to_string()), true, 3).unwrap();
    assert_eq!(term, "ab abcd*");
}

#[test]
fn wildcards_off_passes_term_through() {
    let term = process_search_term(&Some("ab abcd".to_string()), false, 3).unwrap();
    assert_eq!(term, "ab abcd");
}

#[test]
fn expansion_trims_the_term_first() {
    let term = process_search_term(&Some("  abcd  ".to_string()), true, 3).unwrap();
    assert_eq!(term, "abcd*");
}

#[test]
fn body_builder_fills_query_string() {
    let body = search_body_builder(
        &Some("red shoes".to_string()),
        &Some(vec!["title".to_string(), "tags".to_string()]),
        &Some("title, price ,stock".to_string()),
    );
    assert_eq!(body.includes, vec!["title", "price", "stock"]);
    match body.query {
        QueryKind::QueryString { query, query_type, fields, minimum_should_match } => {
            assert_eq!(query, "red shoes");
            assert_eq!(query_type, "cross_fields");
            assert_eq!(fields, vec!["title", "tags"]);
            assert_eq!(minimum_should_match, "75%");
        }
        QueryKind::MatchAll => panic!("expected a query_string query"),
    }
}

#[test]
fn body_builder_defaults_to_star() {
    let body = search_body_builder(&Some("x".to_string()), &None, &None);
    assert_eq!(body.includes, vec!["*"]);
    match body.query {
        QueryKind::QueryString { fields, .. } => assert_eq!(fields, vec!["*"]),
        QueryKind::MatchAll => panic!("expected a query_string query"),
    }
}

#[test]
fn split_csv_trims_pieces() {
    assert_eq!(split_csv("a, b ,c"), vec!["a", "b", "c"]);
    assert_eq!(split_csv("solo"), vec!["solo"]);
    assert_eq!(split_csv(""), vec![""]);
}

#[test]
fn paging_defaults() {
    assert_eq!(paging(&None, &None), (0, 20));
    assert_eq!(paging(&Some(40), &Some(10)), (40, 10));
}

#[test]
fn search_target_spans_partitions() {
    assert_eq!(search_target("Shop", "Orders", true), "shop.orders.*");
    assert_eq!(search_target("Shop", "Orders", false), "shop.orders");
}
