use arbitra::naming::{index_name_builder, normalize_index_name, normalize_name, partition_name, wildcard_name};
use arbitra::partition::partition_names;
use arbitra::router::{compose_id, compose_visible_id, doc_target, visible_id_suffix};
use arbitra::text::{u64_to_dec_string, str_eq, str_lex_lt};

#[test]
fn build_name_joins_normalized_parts() {
    assert_eq!(index_name_builder("TestApp", "MyIndex"), "testapp.myindex");
}

#[test]
fn build_name_trims_and_lowercases() {
    assert_eq!(index_name_builder("  TestApp  ", "\tMyIndex\n"), "testapp.myindex");
}

#[test]
fn build_name_is_case_and_whitespace_insensitive() {
    let a = index_name_builder("Shop", "Orders");
    let b = index_name_builder(" SHOP ", "orders  ");
    assert_eq!(a, b);
}

#[test]
fn build_name_keeps_inner_spaces() {
    assert_eq!(index_name_builder("app", " My Index "), "app.my index");
}

#[test]
fn build_name_differs_for_different_names() {
    assert_ne!(
        index_name_builder("appa", "index"),
        index_name_builder("appb", "index")
    );
    assert_ne!(
        index_name_builder("app", "indexa"),
        index_name_builder("app", "indexb")
    );
}

#[test]
fn dotted_application_ids_can_collide() {
    // injectivity of the joined name holds only for application ids
    // without dots: with one, two different splits read the same
    assert_eq!(index_name_builder("a.b", "c"), index_name_builder("a", "b.c"));
}

#[test]
fn normalize_index_name_replaces_spaces() {
    assert_eq!(normalize_index_name("  My New Index "), "my_new_index");
}

#[test]
fn normalize_name_plain() {
    assert_eq!(normalize_name(" A b C "), "a b c");
}

#[test]
fn partition_name_appends_number() {
    assert_eq!(partition_name("app.idx", 0), "app.idx.0");
    assert_eq!(partition_name("app.idx", 7), "app.idx.7");
    assert_eq!(partition_name("app.idx", 12), "app.idx.12");
}

#[test]
fn wildcard_name_appends_star() {
    assert_eq!(wildcard_name("app.idx"), "app.idx.*");
}

#[test]
fn four_partitions_are_created_distinct_and_checkable() {
    let names = partition_names("app.idx", 4);
    assert_eq!(names.len(), 4);
    assert_eq!(names[0], "app.idx.0");
    assert_eq!(names[1], "app.idx.1");
    assert_eq!(names[2], "app.idx.2");
    assert_eq!(names[3], "app.idx.3");
    for i in 0..4 {
        for j in 0..4 {
            if i != j {
                assert_ne!(names[i], names[j]);
            }
        }
        // each name independently satisfies an existence check against
        // the provisioned set
        assert!(names.contains(&partition_name("app.idx", i as u64)));
    }
}

#[test]
fn decimal_rendering_exact() {
    assert_eq!(u64_to_dec_string(0), "0");
    assert_eq!(u64_to_dec_string(10), "10");
    assert_eq!(u64_to_dec_string(123), "123");
    assert_eq!(u64_to_dec_string(u64::MAX), "18446744073709551615");
}

#[test]
fn visible_id_composition_and_suffix() {
    let id = compose_visible_id("abcDEF123", 7);
    assert_eq!(id, "abcDEF123.7");
    assert_eq!(visible_id_suffix(&id), "7");
}

#[test]
fn suffix_of_foreign_ids() {
    assert_eq!(visible_id_suffix("a.b.12"), "12");
    assert_eq!(visible_id_suffix("nodots"), "nodots");
    assert_eq!(visible_id_suffix("trailing."), "");
}

#[test]
fn doc_target_routes_by_trailing_segment() {
    assert_eq!(doc_target("app.idx", "token.3"), "app.idx.3");
    assert_eq!(doc_target("app.idx", "a.b.12"), "app.idx.12");
    assert_eq!(doc_target("app.idx", "forged"), "app.idx.forged");
}

#[test]
fn composed_id_round_trips_to_its_partition() {
    for _ in 0..50 {
        let (id, partition) = compose_id(5);
        assert!(partition < 5);
        let suffix = visible_id_suffix(&id);
        assert_eq!(suffix.parse::<usize>().unwrap(), partition);
        // the token is 26 id characters, none of them a dot
        let token = &id[..id.len() - suffix.len() - 1];
        assert_eq!(token.chars().count(), 26);
        for c in token.chars() {
            assert!(
                c == '_' || c == '-' || c.is_ascii_alphanumeric(),
                "unexpected id character {c:?}"
            );
        }
        assert_eq!(doc_target("app.idx", &id), format!("app.idx.{partition}"));
    }
}

#[test]
fn single_partition_always_routes_to_zero() {
    let (id, partition) = compose_id(1);
    assert_eq!(partition, 0);
    assert_eq!(visible_id_suffix(&id), "0");
}

#[test]
fn str_helpers() {
    assert!(str_eq("abc", "abc"));
    assert!(!str_eq("abc", "abd"));
    assert!(!str_eq("abc", "ab"));
    assert!(str_lex_lt("abc", "abd"));
    assert!(str_lex_lt("ab", "abc"));
    assert!(!str_lex_lt("abc", "abc"));
    assert!(!str_lex_lt("b", "abc"));
}
