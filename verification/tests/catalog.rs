//! Catalog behaviour: creation, lookup, links, cascades and the error
//! taxonomy, against a fresh in-memory store.

use tagz::models::{relationships, File, Tag};
use tagz::{find_tags_by_names, open_memory_catalog, CatalogError};

fn fresh() -> rusqlite::Connection {
    open_memory_catalog().unwrap()
}

#[test]
fn tag_create_assigns_name_and_is_findable() {
    let mut conn = fresh();
    let t = Tag::create("alpha", &mut conn).unwrap();
    assert_eq!(t.name, "alpha");
    let found = Tag::find_by_name("alpha", &conn).unwrap().unwrap();
    assert_eq!(found.id, t.id);
    assert_eq!(found.name, "alpha");
    assert!(Tag::name_exists("alpha", &conn).unwrap());
    assert!(!Tag::name_exists("beta", &conn).unwrap());
}

#[test]
fn tag_create_duplicate_is_refused() {
    let mut conn = fresh();
    Tag::create("alpha", &mut conn).unwrap();
    let e = Tag::create("alpha", &mut conn).unwrap_err();
    assert!(matches!(e, CatalogError::Duplicate));
}

#[test]
fn file_create_duplicate_is_refused() {
    let mut conn = fresh();
    File::create("report.txt", &mut conn).unwrap();
    let e = File::create("report.txt", &mut conn).unwrap_err();
    assert!(matches!(e, CatalogError::Duplicate));
}

#[test]
fn file_create_and_lookups() {
    let mut conn = fresh();
    let f = File::create("report.txt", &mut conn).unwrap();
    assert_eq!(f.name, "report.txt");
    assert!(f.tags.is_empty());
    let by_id = File::find_by_id(f.id, &conn).unwrap().unwrap();
    assert_eq!(by_id.name, "report.txt");
    let by_name = File::find_by_name("report.txt", &conn).unwrap().unwrap();
    assert_eq!(by_name.id, f.id);
    assert!(File::name_exists("report.txt", &conn).unwrap());
    assert!(File::id_exists(f.id, &conn).unwrap());
    assert!(!File::id_exists(f.id + 1000, &conn).unwrap());
    assert!(File::find_by_id(f.id + 1000, &conn).unwrap().is_none());
}

#[test]
fn extract_variants_report_unknown_name() {
    let conn = fresh();
    assert!(matches!(
        Tag::extract_from_name("nope", &conn).unwrap_err(),
        CatalogError::UnknownName
    ));
    assert!(matches!(
        File::extract_from_name("nope", &conn).unwrap_err(),
        CatalogError::UnknownName
    ));
    assert!(matches!(
        File::extract_from_id(42, &conn).unwrap_err(),
        CatalogError::UnknownName
    ));
    assert!(matches!(
        File::extract_id_exists(42, &conn).unwrap_err(),
        CatalogError::UnknownName
    ));
}

#[test]
fn link_create_conflict_and_exists() {
    let mut conn = fresh();
    let t = Tag::create("alpha", &mut conn).unwrap();
    let f = File::create("a.txt", &mut conn).unwrap();
    assert!(!relationships::file_id_and_tag_id_exists(f.id, t.id, &conn).unwrap());
    relationships::FileTag::create(f.id, t.id, &mut conn).unwrap();
    assert!(relationships::file_id_and_tag_id_exists(f.id, t.id, &conn).unwrap());
    let e = relationships::FileTag::create(f.id, t.id, &mut conn).unwrap_err();
    assert!(matches!(e, CatalogError::Conflict));
}

#[test]
fn unlink_reports_whether_a_row_was_removed() {
    let mut conn = fresh();
    let t = Tag::create("alpha", &mut conn).unwrap();
    let f = File::create("a.txt", &mut conn).unwrap();
    assert!(!relationships::delete_between_file_id_and_tag_id(f.id, t.id, &mut conn).unwrap());
    relationships::FileTag::create(f.id, t.id, &mut conn).unwrap();
    assert!(relationships::delete_between_file_id_and_tag_id(f.id, t.id, &mut conn).unwrap());
    assert!(!relationships::file_id_and_tag_id_exists(f.id, t.id, &conn).unwrap());
}

#[test]
fn tag_cascade_leaves_no_referencing_link() {
    let mut conn = fresh();
    let t = Tag::create("alpha", &mut conn).unwrap();
    let f1 = File::create("a.txt", &mut conn).unwrap();
    let f2 = File::create("b.txt", &mut conn).unwrap();
    relationships::FileTag::create(f1.id, t.id, &mut conn).unwrap();
    relationships::FileTag::create(f2.id, t.id, &mut conn).unwrap();
    assert!(t.has_related_files(&conn).unwrap());
    t.unlink_all_files(&mut conn).unwrap();
    t.delete(&mut conn).unwrap();
    assert!(!relationships::file_id_and_tag_id_exists(f1.id, t.id, &conn).unwrap());
    assert!(!relationships::file_id_and_tag_id_exists(f2.id, t.id, &conn).unwrap());
    assert!(!Tag::name_exists("alpha", &conn).unwrap());
    // the files themselves are untouched
    assert!(File::id_exists(f1.id, &conn).unwrap());
}

#[test]
fn file_cascade_leaves_no_referencing_link() {
    let mut conn = fresh();
    let ta = Tag::create("alpha", &mut conn).unwrap();
    let tb = Tag::create("beta", &mut conn).unwrap();
    let f = File::create_with_tags("a.txt", &vec![ta.id, tb.id], &mut conn).unwrap();
    f.unlink_all_tags(&mut conn).unwrap();
    f.delete(&mut conn).unwrap();
    assert!(!relationships::file_id_and_tag_id_exists(f.id, ta.id, &conn).unwrap());
    assert!(!relationships::file_id_and_tag_id_exists(f.id, tb.id, &conn).unwrap());
    assert!(!File::name_exists("a.txt", &conn).unwrap());
    assert!(!ta.has_related_files(&conn).unwrap());
}

#[test]
fn create_with_tags_links_every_requested_tag() {
    let mut conn = fresh();
    let ta = Tag::create("alpha", &mut conn).unwrap();
    let tb = Tag::create("beta", &mut conn).unwrap();
    let f = File::create_with_tags("a.txt", &vec![ta.id, tb.id], &mut conn).unwrap();
    assert_eq!(f.name, "a.txt");
    assert!(f.tags.is_empty());
    assert!(relationships::file_id_and_tag_id_exists(f.id, ta.id, &conn).unwrap());
    assert!(relationships::file_id_and_tag_id_exists(f.id, tb.id, &conn).unwrap());
}

#[test]
fn create_with_tags_deduplicates_requested_ids() {
    let mut conn = fresh();
    let ta = Tag::create("alpha", &mut conn).unwrap();
    let f = File::create_with_tags("a.txt", &vec![ta.id, ta.id, ta.id], &mut conn).unwrap();
    let mut hydrated = File::find_by_id(f.id, &conn).unwrap().unwrap();
    hydrated.update_tags(&conn).unwrap();
    assert_eq!(hydrated.tags.len(), 1);
    assert_eq!(hydrated.tags[0].id, ta.id);
}

#[test]
fn atomic_creation_rolls_back_on_unknown_tag() {
    let mut conn = fresh();
    let ta = Tag::create("alpha", &mut conn).unwrap();
    let ghost_id = ta.id + 12345;
    let e = File::create_with_tags("x", &vec![ta.id, ghost_id], &mut conn).unwrap_err();
    assert!(matches!(e, CatalogError::UnknownName));
    // no "x" file row is left behind
    assert!(!File::name_exists("x", &conn).unwrap());
    // and no link either
    assert!(!ta.has_related_files(&conn).unwrap());
}

#[test]
fn create_with_tags_refuses_taken_name_untouched() {
    let mut conn = fresh();
    let ta = Tag::create("alpha", &mut conn).unwrap();
    File::create("x", &mut conn).unwrap();
    let e = File::create_with_tags("x", &vec![ta.id], &mut conn).unwrap_err();
    assert!(matches!(e, CatalogError::Duplicate));
    assert!(!ta.has_related_files(&conn).unwrap());
}

#[test]
fn update_tags_hydrates_exactly_the_linked_tags() {
    let mut conn = fresh();
    let ta = Tag::create("alpha", &mut conn).unwrap();
    let tb = Tag::create("beta", &mut conn).unwrap();
    let tc = Tag::create("gamma", &mut conn).unwrap();
    let mut f = File::create_with_tags("a.txt", &vec![ta.id, tc.id], &mut conn).unwrap();
    f.update_tags(&conn).unwrap();
    let mut got: Vec<i64> = f.tags.iter().map(|t| t.id).collect();
    got.sort();
    let mut want = vec![ta.id, tc.id];
    want.sort();
    assert_eq!(got, want);
    assert!(!f.tags.iter().any(|t| t.id == tb.id));
}

#[test]
fn find_related_to_file_resolves_names() {
    let mut conn = fresh();
    let ta = Tag::create("alpha", &mut conn).unwrap();
    let f = File::create_with_tags("a.txt", &vec![ta.id], &mut conn).unwrap();
    let tags = Tag::find_related_to_file(f.id, &conn).unwrap();
    assert_eq!(tags.len(), 1);
    assert_eq!(tags[0].id, ta.id);
    assert_eq!(tags[0].name, "alpha");
}

#[test]
fn tag_all_lists_every_tag_once() {
    let mut conn = fresh();
    Tag::create("alpha", &mut conn).unwrap();
    Tag::create("beta", &mut conn).unwrap();
    Tag::create("gamma", &mut conn).unwrap();
    let all = Tag::all(&conn).unwrap();
    let mut names: Vec<String> = all.iter().map(|t| t.name.clone()).collect();
    names.sort();
    assert_eq!(names, vec!["alpha", "beta", "gamma"]);
}

#[test]
fn find_all_where_in_names_skips_misses() {
    let mut conn = fresh();
    let ta = Tag::create("alpha", &mut conn).unwrap();
    let names = vec!["alpha".to_string(), "missing".to_string()];
    let got = Tag::find_all_where_in_names(&names, &conn).unwrap();
    assert_eq!(got.len(), 1);
    assert_eq!(got[0].id, ta.id);
}

#[test]
fn find_all_where_in_ids_skips_misses() {
    let mut conn = fresh();
    let ta = Tag::create("alpha", &mut conn).unwrap();
    let tb = Tag::create("beta", &mut conn).unwrap();
    let got = Tag::find_all_where_in_ids(&vec![tb.id, ta.id + 999_999], &conn).unwrap();
    assert_eq!(got.len(), 1);
    assert_eq!(got[0].id, tb.id);
    assert_eq!(got[0].name, "beta");
}

#[test]
fn unknown_tag_names_fail_the_whole_resolution() {
    let mut conn = fresh();
    Tag::create("real-tag", &mut conn).unwrap();
    let names = vec!["real-tag".to_string(), "ghost-tag".to_string()];
    let e = find_tags_by_names(&names, &conn).unwrap_err();
    match e {
        CatalogError::UnknownTags(lost) => {
            assert_eq!(lost, vec!["ghost-tag".to_string()]);
        },
        other => panic!("expected UnknownTags, got {:?}", other),
    }
}

#[test]
fn known_tag_names_resolve_in_request_order() {
    let mut conn = fresh();
    let ta = Tag::create("alpha", &mut conn).unwrap();
    let tb = Tag::create("beta", &mut conn).unwrap();
    let names = vec!["beta".to_string(), "alpha".to_string()];
    let got = find_tags_by_names(&names, &conn).unwrap();
    assert_eq!(got.len(), 2);
    assert_eq!(got[0].id, tb.id);
    assert_eq!(got[1].id, ta.id);
}

#[test]
fn all_in_file_ids_returns_each_link_row() {
    let mut conn = fresh();
    let ta = Tag::create("alpha", &mut conn).unwrap();
    let tb = Tag::create("beta", &mut conn).unwrap();
    let f1 = File::create_with_tags("a.txt", &vec![ta.id, tb.id], &mut conn).unwrap();
    let f2 = File::create_with_tags("b.txt", &vec![tb.id], &mut conn).unwrap();
    let rows = relationships::FileTag::all_in_file_ids(&vec![f1.id, f2.id], &conn).unwrap();
    let mut pairs: Vec<(i64, i64)> = rows.iter().map(|r| (r.file_id, r.tag_id)).collect();
    pairs.sort();
    let mut want = vec![(f1.id, ta.id), (f1.id, tb.id), (f2.id, tb.id)];
    want.sort();
    assert_eq!(pairs, want);
}

#[test]
fn separate_catalogs_are_independent() {
    let mut c1 = fresh();
    let c2 = fresh();
    Tag::create("alpha", &mut c1).unwrap();
    assert!(!Tag::name_exists("alpha", &c2).unwrap());
}

#[test]
fn duplicated_known_names_resolve_once() {
    let mut conn = fresh();
    let ta = Tag::create("alpha", &mut conn).unwrap();
    let names = vec!["alpha".to_string(), "alpha".to_string()];
    let got = find_tags_by_names(&names, &conn).unwrap();
    assert_eq!(got.len(), 1);
    assert_eq!(got[0].id, ta.id);
    assert_eq!(got[0].name, "alpha");
}

#[test]
fn duplicated_unknown_names_are_listed_once() {
    let mut conn = fresh();
    Tag::create("real-tag", &mut conn).unwrap();
    let names = vec![
        "real-tag".to_string(),
        "ghost-tag".to_string(),
        "ghost-tag".to_string(),
    ];
    let e = find_tags_by_names(&names, &conn).unwrap_err();
    match e {
        CatalogError::UnknownTags(lost) => {
            assert_eq!(lost, vec!["ghost-tag".to_string()]);
        },
        other => panic!("expected UnknownTags, got {:?}", other),
    }
}

#[test]
fn find_all_where_in_names_resolves_per_distinct_name() {
    let mut conn = fresh();
    let ta = Tag::create("alpha", &mut conn).unwrap();
    let names = vec![
        "alpha".to_string(),
        "alpha".to_string(),
        "missing".to_string(),
    ];
    let got = Tag::find_all_where_in_names(&names, &conn).unwrap();
    assert_eq!(got.len(), 1);
    assert_eq!(got[0].id, ta.id);
}

#[test]
fn find_all_where_in_ids_resolves_per_distinct_id() {
    let mut conn = fresh();
    let ta = Tag::create("alpha", &mut conn).unwrap();
    let got = Tag::find_all_where_in_ids(&vec![ta.id, ta.id, ta.id], &conn).unwrap();
    assert_eq!(got.len(), 1);
    assert_eq!(got[0].id, ta.id);
}

#[test]
fn all_in_file_ids_ignores_repeated_file_ids() {
    let mut conn = fresh();
    let ta = Tag::create("alpha", &mut conn).unwrap();
    let tb = Tag::create("beta", &mut conn).unwrap();
    let f = File::create_with_tags("a.txt", &vec![ta.id, tb.id], &mut conn).unwrap();
    let rows = relationships::FileTag::all_in_file_ids(&vec![f.id, f.id, f.id], &conn).unwrap();
    assert_eq!(rows.len(), 2);
    let mut pairs: Vec<(i64, i64)> = rows.iter().map(|r| (r.file_id, r.tag_id)).collect();
    pairs.sort();
    let mut want = vec![(f.id, ta.id), (f.id, tb.id)];
    want.sort();
    assert_eq!(pairs, want);
}

#[test]
fn lookups_serve_the_stored_timestamps() {
    let mut conn = fresh();
    let t = Tag::create("alpha", &mut conn).unwrap();
    let t2 = Tag::find_by_name("alpha", &conn).unwrap().unwrap();
    assert_eq!(t2.created_at, t.created_at);
    assert!(!t2.created_at.is_empty());
    let f = File::create("a.txt", &mut conn).unwrap();
    let f2 = File::find_by_id(f.id, &conn).unwrap().unwrap();
    assert_eq!(f2.created_at, f.created_at);
    assert_eq!(f2.updated_at, f.updated_at);
    let f3 = File::find_by_name("a.txt", &conn).unwrap().unwrap();
    assert_eq!(f3.created_at, f.created_at);
}
