use arbitra::errors::{ErrorTypes, FileErrorTypes};
use arbitra::helpers::{file_import_plan, str_or_default_if_exists_in_vec, FileKind};
use arbitra::lifecycle::{
    create_index_plan, delete_application_decide, delete_index_plan, get_document_error,
    initialize_decide, insert_app_gate, search_error, server_and_index_gate,
    update_document_error, CreateIndexPlan,
};
use arbitra::partition::{
    create_gate_decide, create_statuses_decide, effective_partitions, index_exists, CreateGate,
};
use arbitra::registry::{
    add_index_to_list, app_exists_decide, app_exists_query, exact_phrase, get_app_indexes_decide,
};
use arbitra::search::QueryKind;
use arbitra::status::is_success_status;
use arbitra::structs::{stats_entry, AppConfig};

#[test]
fn error_messages_exact() {
    assert_eq!(
        ErrorTypes::ApplicationNotFound("app1".to_string()).message(),
        "Application ID [app1] not found"
    );
    assert_eq!(
        ErrorTypes::IndexNotFound("idx".to_string()).message(),
        "Index [idx] not found"
    );
    assert_eq!(
        ErrorTypes::DocumentNotFound("d.3".to_string()).message(),
        "Document ID [d.3] not found"
    );
    assert_eq!(ErrorTypes::BadDataRequest.message(), "Bad data request");
    assert_eq!(
        ErrorTypes::IndexExists("idx".to_string()).message(),
        "Failed to create new index, index [idx] already exists"
    );
    assert_eq!(ErrorTypes::ServerDown.message(), "Server currently unavailable");
    assert_eq!(ErrorTypes::Unknown.message(), "Unknown error occured");
}

#[test]
fn file_error_messages_exact() {
    assert_eq!(
        FileErrorTypes::InvalidLine(7).message(),
        "Found inconsistent data at line [7]"
    );
    // the oversize message renders the found size in both brackets
    assert_eq!(
        FileErrorTypes::FileTooLarge(100, 50).message(),
        "File Too Large, found [100] of maximum [100]"
    );
    assert_eq!(
        FileErrorTypes::InvalidFileExtension(".json, .csv, .tsv".to_string()).message(),
        "Invalid file extension, valid file extensions: [.json, .csv, .tsv]"
    );
    assert_eq!(
        FileErrorTypes::InvalidFile("json".to_string()).message(),
        "Invalid [json] File"
    );
}

#[test]
fn exact_phrase_quotes_the_name() {
    assert_eq!(exact_phrase("My App"), "\"My App\"");
}

#[test]
fn app_exists_query_targets_the_name_field() {
    let body = app_exists_query("My App");
    match body.query {
        QueryKind::QueryString { query, fields, .. } => {
            assert_eq!(query, "\"My App\"");
            assert_eq!(fields, vec!["name"]);
        }
        QueryKind::MatchAll => panic!("expected a query_string query"),
    }
}

#[test]
fn app_exists_needs_a_hit() {
    assert!(!app_exists_decide(0));
    assert!(app_exists_decide(1));
    assert!(app_exists_decide(25));
}

#[test]
fn indexes_fetch_decides_by_status() {
    let ok = get_app_indexes_decide("app1", 200, Some(vec!["a".to_string()]));
    assert_eq!(ok.unwrap(), vec!["a"]);
    let empty = get_app_indexes_decide("app1", 200, None);
    assert_eq!(empty.unwrap(), Vec::<String>::new());
    let (st, err) = get_app_indexes_decide("app1", 404, None).unwrap_err();
    assert_eq!(st, 404);
    assert_eq!(err.message(), "Application ID [app1] not found");
    let (st, err) = get_app_indexes_decide("app1", 500, None).unwrap_err();
    assert_eq!(st, 500);
    assert!(matches!(err, ErrorTypes::Unknown));
}

#[test]
fn add_index_sorts_and_deduplicates() {
    let list = vec!["beta".to_string(), "alpha".to_string()];
    assert_eq!(add_index_to_list(&list, "zeta"), vec!["alpha", "beta", "zeta"]);
    assert_eq!(add_index_to_list(&list, "beta"), vec!["alpha", "beta"]);
    assert_eq!(add_index_to_list(&Vec::new(), "only"), vec!["only"]);
}

#[test]
fn missing_index_is_not_found_with_list_returned() {
    let registry = Ok(vec!["orders".to_string(), "users".to_string()]);
    match index_exists("products", registry) {
        Err((st, err, list)) => {
            assert_eq!(st, 404);
            assert_eq!(err.message(), "Index [products] not found");
            assert_eq!(list, vec!["orders", "users"]);
        }
        Ok(_) => panic!("expected not-found"),
    }
}

#[test]
fn listed_index_is_found_at_its_position() {
    let registry = Ok(vec!["orders".to_string(), "users".to_string()]);
    let (pos, list) = index_exists("users", registry).unwrap();
    assert_eq!(pos, 1);
    assert_eq!(list, vec!["orders", "users"]);
}

#[test]
fn application_absence_outranks_index_absence() {
    // even if a physically identical-looking partition existed, a
    // missing application answers ApplicationNotFound, not IndexNotFound
    let registry: Result<Vec<String>, (u16, ErrorTypes)> =
        Err((404, ErrorTypes::ApplicationNotFound("app1".to_string())));
    match index_exists("orders", registry) {
        Err((st, err, list)) => {
            assert_eq!(st, 404);
            assert_eq!(err.message(), "Application ID [app1] not found");
            assert!(list.is_empty());
        }
        Ok(_) => panic!("expected application-not-found"),
    }
}

#[test]
fn create_gate_by_probe_status() {
    assert!(matches!(create_gate_decide(200), CreateGate::Conflict));
    assert!(matches!(create_gate_decide(404), CreateGate::Proceed));
    assert!(matches!(create_gate_decide(503), CreateGate::Other(503)));
}

#[test]
fn creation_succeeds_only_when_every_partition_did() {
    assert_eq!(create_statuses_decide(404, &vec![200, 200, 200, 200]), 201);
    assert_eq!(create_statuses_decide(404, &vec![200, 500, 200]), 404);
    assert_eq!(create_statuses_decide(404, &Vec::new()), 201);
}

#[test]
fn partition_count_override() {
    assert_eq!(effective_partitions(Some(4), 10), 4);
    assert_eq!(effective_partitions(None, 10), 10);
}

#[test]
fn server_down_outranks_everything() {
    let lookup = Ok((0, vec!["a".to_string()]));
    let (st, err) = server_and_index_gate(false, lookup).unwrap_err();
    assert_eq!(st, 503);
    assert_eq!(err.message(), "Server currently unavailable");
}

#[test]
fn gate_passes_lookup_through_when_up() {
    let lookup = Ok((0, vec!["a".to_string()]));
    let (pos, list) = server_and_index_gate(true, lookup).unwrap();
    assert_eq!(pos, 0);
    assert_eq!(list, vec!["a"]);
    let lookup = Err((404, ErrorTypes::IndexNotFound("i".to_string()), Vec::new()));
    let (st, err) = server_and_index_gate(true, lookup).unwrap_err();
    assert_eq!(st, 404);
    assert!(matches!(err, ErrorTypes::IndexNotFound(_)));
}

#[test]
fn app_creation_gates_and_statuses() {
    assert_eq!(insert_app_gate(true), Some(409));
    assert_eq!(insert_app_gate(false), None);
    let (st, err) = initialize_decide(201);
    assert_eq!(st, 201);
    assert!(err.is_none());
    let (st, err) = initialize_decide(409);
    assert_eq!(st, 409);
    assert!(err.is_none());
    let (st, err) = initialize_decide(500);
    assert_eq!(st, 500);
    assert!(matches!(err, Some(ErrorTypes::Unknown)));
}

#[test]
fn create_index_conflicts_on_listed_name() {
    let lookup = Ok((0, vec!["orders".to_string()]));
    match create_index_plan("orders", lookup) {
        CreateIndexPlan::Conflict { status, error } => {
            assert_eq!(status, 409);
            assert_eq!(
                error.message(),
                "Failed to create new index, index [orders] already exists"
            );
        }
        _ => panic!("expected a conflict"),
    }
}

#[test]
fn create_index_proceeds_with_updated_list() {
    let lookup = Err((
        404,
        ErrorTypes::IndexNotFound("products".to_string()),
        vec!["users".to_string(), "orders".to_string()],
    ));
    match create_index_plan("products", lookup) {
        CreateIndexPlan::Proceed { new_list } => {
            assert_eq!(new_list, vec!["orders", "products", "users"]);
        }
        _ => panic!("expected to proceed"),
    }
}

#[test]
fn create_index_passes_application_absence_through() {
    let lookup = Err((
        404,
        ErrorTypes::ApplicationNotFound("app1".to_string()),
        Vec::new(),
    ));
    match create_index_plan("products", lookup) {
        CreateIndexPlan::Fail { status, error } => {
            assert_eq!(status, 404);
            assert_eq!(error.message(), "Application ID [app1] not found");
        }
        _ => panic!("expected failure"),
    }
}

#[test]
fn delete_index_removes_exactly_the_listed_entry() {
    let lookup = Ok((1, vec!["a".to_string(), "b".to_string(), "c".to_string()]));
    let new_list = delete_index_plan(lookup).unwrap();
    assert_eq!(new_list, vec!["a", "c"]);
}

#[test]
fn delete_application_yields_the_cascade_pattern() {
    let pattern = delete_application_decide("MyApp", 200).unwrap();
    assert_eq!(pattern, "myapp.*");
    let (st, err) = delete_application_decide("MyApp", 404).unwrap_err();
    assert_eq!(st, 404);
    assert_eq!(err.message(), "Application ID [MyApp] not found");
}

#[test]
fn document_errors_by_status() {
    assert!(get_document_error("d.1", 200).is_none());
    assert_eq!(
        get_document_error("d.1", 404).unwrap().message(),
        "Document ID [d.1] not found"
    );
    assert!(matches!(get_document_error("d.1", 500), Some(ErrorTypes::Unknown)));
    assert!(matches!(
        update_document_error("d.1", 400),
        Some(ErrorTypes::BadDataRequest)
    ));
    assert_eq!(
        update_document_error("d.1", 404).unwrap().message(),
        "Document ID [d.1] not found"
    );
}

#[test]
fn search_errors_by_status() {
    assert!(search_error("idx", 200).is_none());
    assert_eq!(search_error("idx", 404).unwrap().message(), "Index [idx] not found");
    assert!(matches!(search_error("idx", 400), Some(ErrorTypes::BadDataRequest)));
    assert!(matches!(search_error("idx", 418), Some(ErrorTypes::Unknown)));
}

#[test]
fn upload_plans_by_extension() {
    assert!(matches!(file_import_plan("data.json", 10, 100), Ok(FileKind::Json)));
    assert!(matches!(file_import_plan("DATA.JSON", 10, 100), Ok(FileKind::Json)));
    assert!(matches!(file_import_plan("rows.csv", 10, 100), Ok(FileKind::Csv)));
    assert!(matches!(file_import_plan("rows.tsv", 10, 100), Ok(FileKind::Tsv)));
    match file_import_plan("rows.txt", 10, 100) {
        Err(e) => assert_eq!(
            e.message(),
            "Invalid file extension, valid file extensions: [.json, .csv, .tsv]"
        ),
        Ok(_) => panic!("expected refusal"),
    }
    match file_import_plan("big.json", 101, 100) {
        Err(e) => assert_eq!(e.message(), "File Too Large, found [101] of maximum [101]"),
        Ok(_) => panic!("expected refusal"),
    }
}

#[test]
fn mode_strings_reduce_to_known_set() {
    let allowed = vec!["true".to_string(), "false".to_string(), "strict".to_string()];
    assert_eq!(str_or_default_if_exists_in_vec("TRUE", allowed.clone(), "strict"), "true");
    assert_eq!(str_or_default_if_exists_in_vec("false", allowed.clone(), "strict"), "false");
    assert_eq!(str_or_default_if_exists_in_vec("weird", allowed, "strict"), "strict");
}

#[test]
fn stats_entries_omit_missing_payloads() {
    let entry = stats_entry("orders", Some((12, 3, 4096))).unwrap();
    assert_eq!(entry.index, "orders");
    assert_eq!(entry.docs_count, 12);
    assert_eq!(entry.docs_deleted, 3);
    assert_eq!(entry.primary_size, 4096);
    assert!(stats_entry("orders", None).is_none());
}

#[test]
fn stock_configuration() {
    let config = AppConfig::stock();
    assert_eq!(config.application_list_name, "application_list");
    assert_eq!(config.default_elastic_shards, 3);
    assert_eq!(config.default_elastic_replicas, 3);
    assert_eq!(config.default_partitions, 10);
    assert_eq!(config.max_input_file_size, 1024 * 1024 * 50);
    assert_eq!(config.default_min_search_wildcard_expansion, 3);
}

#[test]
fn status_ranges() {
    assert!(is_success_status(200));
    assert!(is_success_status(299));
    assert!(!is_success_status(199));
    assert!(!is_success_status(404));
}
