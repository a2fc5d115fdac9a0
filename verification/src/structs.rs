//! The plain request and response shapes of the layer's endpoints, and
//! the configuration value threaded into every component. The transport
//! wrappers that decode HTTP requests into these shapes live outside;
//! here they are bare data.

use vstd::prelude::*;

verus! {

/// Names a new application.
pub struct NewApp {
    pub app_name: String,
}

/// Filters the application list by name, optionally.
pub struct SearchApp {
    pub app_name: Option<String>,
}

/// Addresses one application.
pub struct RequiredAppID {
    pub app_id: String,
}

/// Renames an application.
pub struct UpdateApp {
    pub app_id: String,
    pub app_name: String,
}

/// Names a new application.
pub struct RequiredAppName {
    pub app_name: String,
}

/// Optionally names an application.
pub struct OptionalAppName {
    pub app_name: Option<String>,
}

/// Used for GET/POST: Search.
pub struct DocumentSearchQuery {
    pub search_term: Option<String>,
    pub search_in: Option<String>,
    pub return_fields: Option<String>,
    pub from: Option<i64>,
    pub count: Option<i64>,
    pub wildcards: Option<bool>,
    pub min_before_expansion: Option<usize>,
}

/// Used for Get: Document.
pub struct ReturnFields {
    pub return_fields: Option<String>,
}

/// Addresses one document of one index of one application.
pub struct RequiredDocumentID {
    pub app_id: String,
    pub index: String,
    pub document_id: String,
}

/// Used for Post: Index.
pub struct IndexCreate {
    pub index: String,
    pub shards: Option<usize>,
    pub replicas: Option<usize>,
    pub partitions: Option<usize>,
}

/// Used for Get: Index.
pub struct OptionalIndex {
    pub index: Option<String>,
}

/// Addresses one index of one application.
pub struct RequiredIndex {
    pub app_id: String,
    pub index: String,
}

/// Used for Delete: Index.
pub struct IndexDelete {
    pub app_id: String,
    pub index: String,
}

/// Addresses one document of one index, without an application.
pub struct DocumentDelete {
    pub index: String,
    pub document_id: String,
}

/// A search against one index, without an application.
pub struct DocumentSearch {
    pub index: String,
    pub search_term: Option<String>,
    pub search_in: Option<String>,
    pub return_fields: Option<String>,
    pub from: Option<i64>,
    pub count: Option<i64>,
}

/// Addresses one document of one index.
pub struct DocById {
    pub index: String,
    pub document_id: String,
}

/// Parameters of a test-data insertion.
pub struct TestDataInsert {
    pub index: Option<String>,
    pub shards: Option<usize>,
    pub replicas: Option<usize>,
    pub link: Option<String>,
}

/// Used for Response GET: Index — one logical index with its aggregate
/// statistics summed over its partitions.
pub struct IndexResponse {
    pub index: String,
    pub docs_count: u64,
    pub docs_deleted: u64,
    pub primary_size: u64,
}

/// The configuration threaded into every component: the registry's
/// reserved index name, the engine-level shard and replica defaults,
/// how many partitions back a new logical index, the upload size limit,
/// and the shortest token length wildcard mode expands.
pub struct AppConfig {
    pub application_list_name: String,
    pub default_elastic_shards: usize,
    pub default_elastic_replicas: usize,
    pub default_partitions: usize,
    pub max_input_file_size: usize,
    pub default_min_search_wildcard_expansion: usize,
}

impl AppConfig {
    /// The stock configuration: registry index `application_list`,
    /// three shards and three replicas, ten partitions per logical
    /// index, a fifty-megabyte upload limit, and wildcard expansion
    /// from three characters up.
    pub fn stock() -> (r: AppConfig)
        ensures
            r.application_list_name@ == "application_list"@,
            r.default_elastic_shards == 3,
            r.default_elastic_replicas == 3,
            r.default_partitions == 10,
            r.max_input_file_size == 52428800,
            r.default_min_search_wildcard_expansion == 3,
    {
        let mut name = String::new();
        name.append("application_list");
        AppConfig {
            application_list_name: name,
            default_elastic_shards: 3,
            default_elastic_replicas: 3,
            default_partitions: 10,
            max_input_file_size: 52428800,
            default_min_search_wildcard_expansion: 3,
        }
    }
}

/// One logical index's statistics entry, when the engine reported any:
/// a logical index with no matching partition has no stats payload and
/// is simply omitted, not reported as an error.
pub fn stats_entry(index: &str, stats: Option<(u64, u64, u64)>) -> (r: Option<IndexResponse>)
    ensures
        match stats {
            Option::Some(s) => r matches Option::Some(e) && e.index@ == index@ && e.docs_count
                == s.0 && e.docs_deleted == s.1 && e.primary_size == s.2,
            Option::None => r is None,
        },
{
    match stats {
        Option::Some(s) => {
            let mut name = String::new();
            name.append(index);
            Option::Some(
                IndexResponse {
                    index: name,
                    docs_count: s.0,
                    docs_deleted: s.1,
                    primary_size: s.2,
                },
            )
        },
        Option::None => Option::None,
    }
}

} // verus!
