//! The tag-filtered query engine: matching semantics in both modes,
//! pagination arithmetic, and result hydration.

use tagz::models::{File, Tag};
use tagz::open_memory_catalog;

fn fresh() -> rusqlite::Connection {
    open_memory_catalog().unwrap()
}

fn ids_of(files: &[File]) -> Vec<i64> {
    files.iter().map(|f| f.id).collect()
}

fn list(
    conn: &rusqlite::Connection,
    tag_ids: &[i64],
    amount: u32,
    page: u32,
    exact: bool,
) -> Vec<File> {
    File::find_specific_amount_by_tags_ids_on_page(&tag_ids.to_vec(), amount, page, exact, conn)
        .unwrap()
}

#[test]
fn exact_match_requires_equal_sets() {
    let mut conn = fresh();
    let a = Tag::create("a", &mut conn).unwrap();
    let b = Tag::create("b", &mut conn).unwrap();
    let fab = File::create_with_tags("fab", &vec![a.id, b.id], &mut conn).unwrap();
    // a file tagged {a, b} must not answer an exact query for {a} alone ...
    assert!(list(&conn, &[a.id], 10, 0, true).is_empty());
    // ... nor for a superset {a, b, c} of its tags ...
    let c = Tag::create("c", &mut conn).unwrap();
    assert!(list(&conn, &[a.id, b.id, c.id], 10, 0, true).is_empty());
    // ... but it answers {a, b}, whichever order the ids come in
    assert_eq!(ids_of(&list(&conn, &[a.id, b.id], 10, 0, true)), vec![fab.id]);
    assert_eq!(ids_of(&list(&conn, &[b.id, a.id], 10, 0, true)), vec![fab.id]);
}

#[test]
fn exact_match_ignores_repeated_query_ids() {
    let mut conn = fresh();
    let a = Tag::create("a", &mut conn).unwrap();
    let fa = File::create_with_tags("fa", &vec![a.id], &mut conn).unwrap();
    assert_eq!(ids_of(&list(&conn, &[a.id, a.id], 10, 0, true)), vec![fa.id]);
}

#[test]
fn exact_match_excludes_subsets_and_supersets() {
    let mut conn = fresh();
    let a = Tag::create("a", &mut conn).unwrap();
    let b = Tag::create("b", &mut conn).unwrap();
    let fa = File::create_with_tags("fa", &vec![a.id], &mut conn).unwrap();
    let _fab = File::create_with_tags("fab", &vec![a.id, b.id], &mut conn).unwrap();
    // only the file whose whole tag set is {a} answers exact {a}
    assert_eq!(ids_of(&list(&conn, &[a.id], 10, 0, true)), vec![fa.id]);
}

#[test]
fn inclusive_match_needs_one_shared_tag() {
    let mut conn = fresh();
    let a = Tag::create("a", &mut conn).unwrap();
    let b = Tag::create("b", &mut conn).unwrap();
    let c = Tag::create("c", &mut conn).unwrap();
    let fa = File::create_with_tags("fa", &vec![a.id], &mut conn).unwrap();
    let fab = File::create_with_tags("fab", &vec![a.id, b.id], &mut conn).unwrap();
    let _fc = File::create_with_tags("fc", &vec![c.id], &mut conn).unwrap();
    // both files sharing a tag with {a, b} answer, newest first, each once
    assert_eq!(ids_of(&list(&conn, &[a.id, b.id], 10, 0, false)), vec![fab.id, fa.id]);
    // a file with no queried tag does not
    assert!(!ids_of(&list(&conn, &[a.id, b.id], 10, 0, false)).contains(&_fc.id));
}

#[test]
fn results_come_newest_first() {
    let mut conn = fresh();
    let a = Tag::create("a", &mut conn).unwrap();
    let f1 = File::create_with_tags("f1", &vec![a.id], &mut conn).unwrap();
    let f2 = File::create_with_tags("f2", &vec![a.id], &mut conn).unwrap();
    let f3 = File::create_with_tags("f3", &vec![a.id], &mut conn).unwrap();
    assert_eq!(ids_of(&list(&conn, &[a.id], 10, 0, false)), vec![f3.id, f2.id, f1.id]);
}

#[test]
fn pagination_concatenates_to_the_full_listing() {
    let mut conn = fresh();
    let a = Tag::create("a", &mut conn).unwrap();
    let mut created: Vec<i64> = Vec::new();
    for name in ["f1", "f2", "f3", "f4", "f5"] {
        created.push(File::create_with_tags(name, &vec![a.id], &mut conn).unwrap().id);
    }
    created.reverse(); // newest first
    let mut gathered: Vec<i64> = Vec::new();
    for page in 0..3u32 {
        gathered.extend(ids_of(&list(&conn, &[a.id], 2, page, false)));
    }
    assert_eq!(gathered, created);
    // beyond the end: an empty page, not an error
    assert!(list(&conn, &[a.id], 2, 3, false).is_empty());
    assert!(list(&conn, &[a.id], 2, 1000, false).is_empty());
}

#[test]
fn pagination_applies_to_exact_mode_too() {
    let mut conn = fresh();
    let a = Tag::create("a", &mut conn).unwrap();
    let f1 = File::create_with_tags("f1", &vec![a.id], &mut conn).unwrap();
    let f2 = File::create_with_tags("f2", &vec![a.id], &mut conn).unwrap();
    let f3 = File::create_with_tags("f3", &vec![a.id], &mut conn).unwrap();
    assert_eq!(ids_of(&list(&conn, &[a.id], 2, 0, true)), vec![f3.id, f2.id]);
    assert_eq!(ids_of(&list(&conn, &[a.id], 2, 1, true)), vec![f1.id]);
    assert!(list(&conn, &[a.id], 2, 2, true).is_empty());
}

#[test]
fn oversized_pages_are_allowed() {
    let mut conn = fresh();
    let a = Tag::create("a", &mut conn).unwrap();
    let f = File::create_with_tags("f", &vec![a.id], &mut conn).unwrap();
    assert_eq!(ids_of(&list(&conn, &[a.id], u32::MAX, 0, false)), vec![f.id]);
    assert!(list(&conn, &[a.id], u32::MAX, 1, false).is_empty());
}

#[test]
fn hydration_fills_the_complete_tag_list() {
    let mut conn = fresh();
    let a = Tag::create("a", &mut conn).unwrap();
    let b = Tag::create("b", &mut conn).unwrap();
    let c = Tag::create("c", &mut conn).unwrap();
    let fab = File::create_with_tags("fab", &vec![a.id, b.id], &mut conn).unwrap();
    let fc = File::create_with_tags("fc", &vec![c.id], &mut conn).unwrap();
    // filter by {a} only: the result still carries the file's whole tag list
    let got = list(&conn, &[a.id], 10, 0, false);
    assert_eq!(got.len(), 1);
    assert_eq!(got[0].id, fab.id);
    let mut tag_ids: Vec<i64> = got[0].tags.iter().map(|t| t.id).collect();
    tag_ids.sort();
    let mut want = vec![a.id, b.id];
    want.sort();
    assert_eq!(tag_ids, want);
    let mut names: Vec<String> = got[0].tags.iter().map(|t| t.name.clone()).collect();
    names.sort();
    let mut want_names = vec![a.name.clone(), b.name.clone()];
    want_names.sort();
    assert_eq!(names, want_names);
    // and a result never borrows another file's tags
    let got_c = list(&conn, &[c.id], 10, 0, false);
    assert_eq!(got_c.len(), 1);
    assert_eq!(got_c[0].id, fc.id);
    assert_eq!(got_c[0].tags.len(), 1);
    assert_eq!(got_c[0].tags[0].id, c.id);
}

#[test]
fn where_in_ids_drops_unknown_ids_and_pages_desc() {
    let mut conn = fresh();
    let f1 = File::create("f1", &mut conn).unwrap();
    let f2 = File::create("f2", &mut conn).unwrap();
    let f3 = File::create("f3", &mut conn).unwrap();
    let f4 = File::create("f4", &mut conn).unwrap();
    let ids = vec![f1.id, f3.id, f4.id, f4.id + 999];
    let page0 =
        File::find_specific_amount_where_in_ids_on_page(&ids, 2, 0, &conn).unwrap();
    assert_eq!(ids_of(&page0), vec![f4.id, f3.id]);
    let page1 =
        File::find_specific_amount_where_in_ids_on_page(&ids, 2, 1, &conn).unwrap();
    assert_eq!(ids_of(&page1), vec![f1.id]);
    let page2 =
        File::find_specific_amount_where_in_ids_on_page(&ids, 2, 2, &conn).unwrap();
    assert!(page2.is_empty());
    // f2 was not asked for
    assert!(!ids_of(&page0).contains(&f2.id) && !ids_of(&page1).contains(&f2.id));
}

#[test]
fn list_by_tags_resolves_names_and_serves_the_page() {
    let mut conn = fresh();
    let a = Tag::create("a", &mut conn).unwrap();
    let b = Tag::create("b", &mut conn).unwrap();
    let fab = tagz::models::File::create_with_tags("fab", &vec![a.id, b.id], &mut conn).unwrap();
    let fa = tagz::models::File::create_with_tags("fa", &vec![a.id], &mut conn).unwrap();
    let names = vec!["a".to_string(), "b".to_string()];
    let got = tagz::list_by_tags(&names, 10, 0, false, &conn).unwrap();
    assert_eq!(ids_of(&got), vec![fa.id, fab.id]);
    let exact = tagz::list_by_tags(&names, 10, 0, true, &conn).unwrap();
    assert_eq!(ids_of(&exact), vec![fab.id]);
    // the page entries arrive hydrated
    let mut tag_names: Vec<String> =
        exact[0].tags.iter().map(|t| t.name.clone()).collect();
    tag_names.sort();
    assert_eq!(tag_names, vec!["a", "b"]);
}

#[test]
fn list_by_tags_rejects_unknown_names() {
    let mut conn = fresh();
    Tag::create("real-tag", &mut conn).unwrap();
    let names = vec!["real-tag".to_string(), "ghost-tag".to_string()];
    let e = tagz::list_by_tags(&names, 10, 0, false, &conn).unwrap_err();
    match e {
        tagz::CatalogError::UnknownTags(lost) => {
            assert_eq!(lost, vec!["ghost-tag".to_string()]);
        },
        other => panic!("expected UnknownTags, got {:?}", other),
    }
}

#[test]
fn querying_an_unused_tag_yields_nothing() {
    let mut conn = fresh();
    let a = Tag::create("a", &mut conn).unwrap();
    File::create("untagged", &mut conn).unwrap();
    assert!(list(&conn, &[a.id], 10, 0, false).is_empty());
    assert!(list(&conn, &[a.id], 10, 0, true).is_empty());
}

#[test]
fn hydrated_tags_carry_the_stored_records() {
    let mut conn = fresh();
    let a = Tag::create("a", &mut conn).unwrap();
    let _f = tagz::models::File::create_with_tags("fa", &vec![a.id], &mut conn).unwrap();
    let got = list(&conn, &[a.id], 10, 0, false);
    assert_eq!(got.len(), 1);
    assert_eq!(got[0].tags.len(), 1);
    assert_eq!(got[0].tags[0].id, a.id);
    assert_eq!(got[0].tags[0].name, a.name);
    assert_eq!(got[0].tags[0].created_at, a.created_at);
}

#[test]
fn list_by_tags_deduplicates_the_request() {
    let mut conn = fresh();
    let a = Tag::create("a", &mut conn).unwrap();
    let fa = tagz::models::File::create_with_tags("fa", &vec![a.id], &mut conn).unwrap();
    let names = vec!["a".to_string(), "a".to_string()];
    // a duplicated name neither fails the query nor changes its meaning
    let got = tagz::list_by_tags(&names, 10, 0, true, &conn).unwrap();
    assert_eq!(ids_of(&got), vec![fa.id]);
}
