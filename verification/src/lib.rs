//! A tag-based file catalog: files are annotated with named tags and can be
//! queried by tag membership, either inclusively (any of the given tags) or
//! exactly (the file's tag set equals the given set), with pagination and
//! with each result hydrated with its full tag list.
//!
//! The relational store (SQLite through rusqlite) is a collaborator: its
//! primitive operations stand behind trusted wrappers in `store`, whose
//! contracts speak of the table views `files_of`, `tags_of` and `links_of`,
//! plus the timestamp views `file_stamps_of` and `tag_stamps_of`. Everything
//! built on those primitives — matching, pagination, hydration, cascades —
//! is verified.

use vstd::prelude::*;

pub mod models;
pub mod order;
pub mod store;
pub mod views;

use models::{tags_include_name, File, Tag};
use order::is_page_listing;
use store::{file_stamps_of, files_of, in_tx, links_of, sql_error_text, tag_stamps_of, tags_of};
use views::{candidate_set, file_ids, file_record_ok, has_tag_named, names_include,
    tag_ids_named, tag_names_unique};

verus! {

/// Process configuration: where the service should listen.
pub struct AppConfig {
    pub http_target: String,
}

/// The errors the catalog surfaces, as the service taxonomy names them:
/// a referenced name or id that does not exist, a unique-name collision,
/// a relationship conflict, a query naming unknown tags (carrying them),
/// and an opaque storage fault (carrying the store's own message).
#[derive(Debug)]
pub enum CatalogError {
    UnknownName,
    Duplicate,
    Conflict,
    UnknownTags(Vec<String>),
    Storage(String),
}

/// Classifies a storage failure without swallowing its description.
pub(crate) fn storage_error(e: rusqlite::Error) -> (r: CatalogError)
    ensures
        r is Storage,
{
    CatalogError::Storage(sql_error_text(&e))
}

/// Opens a fresh in-memory catalog with the schema prepared: all three
/// tables exist and hold no rows, and no transaction is open — the
/// state every mutating operation of the catalog expects and restores.
pub fn open_memory_catalog() -> (r: Result<rusqlite::Connection, CatalogError>)
    ensures
        r matches Ok(c) ==> ({
            &&& files_of(c) == Map::<i64, Seq<char>>::empty()
            &&& tags_of(c) == Map::<i64, Seq<char>>::empty()
            &&& links_of(c) == Set::<(i64, i64)>::empty()
            &&& file_stamps_of(c) == Map::<i64, (Seq<char>, Seq<char>)>::empty()
            &&& tag_stamps_of(c) == Map::<i64, Seq<char>>::empty()
            &&& !in_tx(c)
        }),
{
    let mut conn = match store::sql_open_in_memory() {
        Ok(c) => c,
        Err(e) => {
            return Err(storage_error(e));
        },
    };
    match prepare_tables(&mut conn) {
        Ok(()) => Ok(conn),
        Err(e) => Err(e),
    }
}

/// Creates the catalog's tables on a connection. Schema definition adds no
/// rows, so the three table views are untouched.
pub fn prepare_tables(conn: &mut rusqlite::Connection) -> (r: Result<(), CatalogError>)
    requires
        !in_tx(*old(conn)),
    ensures
        files_of(*final(conn)) == files_of(*old(conn)),
        tags_of(*final(conn)) == tags_of(*old(conn)),
        links_of(*final(conn)) == links_of(*old(conn)),
        file_stamps_of(*final(conn)) == file_stamps_of(*old(conn)),
        tag_stamps_of(*final(conn)) == tag_stamps_of(*old(conn)),
        !in_tx(*final(conn)),
        r matches Err(e) ==> e is Storage,
{
    match store::sql_create_schema(conn) {
        Ok(()) => Ok(()),
        Err(e) => Err(storage_error(e)),
    }
}

/// Whether one of the collected names reads as the given one.
fn strings_include(v: &Vec<String>, name: &String) -> (b: bool)
    ensures
        b == names_include(v@, name@),
{
    let mut k: usize = 0;
    while k < v.len()
        invariant
            k <= v@.len(),
            forall|j: int| 0 <= j < k ==> (#[trigger] v@[j])@ != name@,
        decreases v@.len() - k,
    {
        if v[k] == *name {
            proof {
                assert((#[trigger] v@[k as int])@ == name@);
            }
            return true;
        }
        k += 1;
    }
    false
}

/// Resolves the requested tag names — deduplicated first, as one record
/// per distinct name, in first-request order — failing fast on unknown
/// names: if any name has no tag, the whole query is refused as
/// `UnknownTags`, carrying exactly the unknown names, each once — never
/// a silently narrowed query.
pub fn find_tags_by_names(names: &Vec<String>, conn: &rusqlite::Connection) -> (r: Result<
    Vec<Tag>,
    CatalogError,
>)
    ensures
        r matches Ok(v) ==> ({
            &&& forall|k: int|
                0 <= k < v@.len() ==> tags_of(*conn).contains_pair(
                    (#[trigger] v@[k]).id,
                    v@[k].name@,
                ) && tag_stamps_of(*conn).contains_pair(v@[k].id, v@[k].created_at@)
                    && names_include(names@, v@[k].name@)
            &&& forall|i: int| 0 <= i < names@.len() ==> has_tag_named(v@, (#[trigger] names@[i])@)
            &&& forall|k1: int, k2: int|
                0 <= k1 < k2 < v@.len() ==> (#[trigger] v@[k1]).name@ != (#[trigger] v@[k2]).name@
        }),
        r matches Err(e) ==> ({
            &&& e is UnknownTags || e is Storage
            &&& e matches CatalogError::UnknownTags(lost) ==> ({
                &&& lost@.len() > 0
                &&& forall|j: int|
                    0 <= j < lost@.len() ==> !tags_of(*conn).values().contains(
                        (#[trigger] lost@[j])@,
                    ) && names_include(names@, lost@[j]@)
                &&& forall|i: int|
                    0 <= i < names@.len() && !tags_of(*conn).values().contains(
                        (#[trigger] names@[i])@,
                    ) ==> names_include(lost@, names@[i]@)
                &&& forall|j1: int, j2: int|
                    0 <= j1 < j2 < lost@.len() ==> (#[trigger] lost@[j1])@ != (
                    #[trigger] lost@[j2])@
            })
        }),
{
    let mut found: Vec<Tag> = Vec::new();
    let mut lost: Vec<String> = Vec::new();
    let mut i: usize = 0;
    while i < names.len()
        invariant
            i <= names@.len(),
            forall|k: int|
                0 <= k < found@.len() ==> tags_of(*conn).contains_pair(
                    (#[trigger] found@[k]).id,
                    found@[k].name@,
                ) && tag_stamps_of(*conn).contains_pair(found@[k].id, found@[k].created_at@)
                    && names_include(names@, found@[k].name@),
            forall|k1: int, k2: int|
                0 <= k1 < k2 < found@.len() ==> (#[trigger] found@[k1]).name@ != (
                #[trigger] found@[k2]).name@,
            forall|j: int|
                0 <= j < lost@.len() ==> !tags_of(*conn).values().contains((#[trigger] lost@[j])@)
                    && names_include(names@, lost@[j]@),
            forall|j1: int, j2: int|
                0 <= j1 < j2 < lost@.len() ==> (#[trigger] lost@[j1])@ != (#[trigger] lost@[j2])@,
            forall|ii: int|
                0 <= ii < i && tags_of(*conn).values().contains((#[trigger] names@[ii])@)
                    ==> has_tag_named(found@, names@[ii]@),
            forall|ii: int|
                0 <= ii < i && !tags_of(*conn).values().contains((#[trigger] names@[ii])@)
                    ==> names_include(lost@, names@[ii]@),
        decreases names@.len() - i,
    {
        let already_found = tags_include_name(&found, &names[i]);
        let already_lost = strings_include(&lost, &names[i]);
        if !already_found && !already_lost {
            match store::sql_tag_by_name(conn, names[i].as_str()) {
                Ok(Some(t)) => {
                    let ghost pre = found@;
                    proof {
                        assert((#[trigger] names@[i as int])@ == t.name@);
                        assert(names@.contains(names@[i as int]));
                    }
                    found.push(t);
                    proof {
                        assert forall|nm: Seq<char>|
                            has_tag_named(pre, nm) implies has_tag_named(found@, nm) by {
                            let k = choose|k: int|
                                0 <= k < pre.len() && (#[trigger] pre[k]).name@ == nm;
                            assert(found@[k].name@ == nm);
                        }
                        assert(found@[pre.len() as int].name@ == names@[i as int]@);
                        assert(has_tag_named(found@, names@[i as int]@));
                    }
                },
                Ok(None) => {
                    let ghost pre = lost@;
                    lost.push(names[i].clone());
                    proof {
                        assert((#[trigger] lost@[pre.len() as int])@ == names@[i as int]@);
                        assert forall|nm: Seq<char>|
                            names_include(pre, nm) implies names_include(lost@, nm) by {
                            let k = choose|k: int|
                                0 <= k < pre.len() && (#[trigger] pre[k])@ == nm;
                            assert(lost@[k]@ == nm);
                        }
                        assert(names_include(lost@, names@[i as int]@));
                        assert(names@.contains(names@[i as int]));
                        assert(names_include(names@, names@[i as int]@));
                        assert(!tags_of(*conn).values().contains(names@[i as int]@));
                    }
                },
                Err(e) => {
                    return Err(storage_error(e));
                },
            }
        } else {
            proof {
                if already_found {
                    // the name was resolved before; in particular it is known
                    let k = choose|k: int|
                        0 <= k < found@.len() && (#[trigger] found@[k]).name@
                            == names@[i as int]@;
                    assert(tags_of(*conn).dom().contains(found@[k].id));
                    assert(tags_of(*conn).values().contains(names@[i as int]@));
                } else {
                    // the name was missed before; in particular it is unknown
                    let j = choose|j: int|
                        0 <= j < lost@.len() && (#[trigger] lost@[j])@ == names@[i as int]@;
                    assert(!tags_of(*conn).values().contains(names@[i as int]@));
                }
            }
        }
        i += 1;
    }
    if lost.len() == 0 {
        proof {
            assert forall|i: int|
                0 <= i < names@.len() implies has_tag_named(found@, (#[trigger] names@[i])@) by {
                if !tags_of(*conn).values().contains(names@[i]@) {
                    assert(names_include(lost@, names@[i]@));
                }
            }
        }
        Ok(found)
    } else {
        Err(CatalogError::UnknownTags(lost))
    }
}

/// The catalog's one outward query: lists the files matching the named
/// tags — inclusively or exactly — newest first, windowed to the
/// requested page, each result hydrated with its full tag list. Unknown
/// names fail the whole query as `UnknownTags`, carrying exactly the
/// unknown names. Querying by no names at all is a caller error.
///
/// Since the directory's names are unique, the page served is exactly
/// the page of the candidate set of the tag ids the request names.
pub fn list_by_tags(
    names: &Vec<String>,
    amount: u32,
    page: u32,
    exact: bool,
    conn: &rusqlite::Connection,
) -> (r: Result<Vec<File>, CatalogError>)
    requires
        names@.len() > 0,
    ensures
        r matches Ok(v) ==> ({
            &&& forall|i: int|
                0 <= i < names@.len() ==> tags_of(*conn).values().contains(
                    (#[trigger] names@[i])@,
                )
            &&& forall|k: int|
                0 <= k < v@.len() ==> file_record_ok(
                    #[trigger] v@[k],
                    files_of(*conn),
                    file_stamps_of(*conn),
                    tags_of(*conn),
                    tag_stamps_of(*conn),
                    links_of(*conn),
                )
            &&& tag_names_unique(tags_of(*conn)) ==> candidate_set(
                files_of(*conn),
                links_of(*conn),
                tag_ids_named(tags_of(*conn), names@),
                exact,
            ).finite()
            &&& tag_names_unique(tags_of(*conn)) ==> is_page_listing(
                candidate_set(
                    files_of(*conn),
                    links_of(*conn),
                    tag_ids_named(tags_of(*conn), names@),
                    exact,
                ),
                amount as nat,
                page as nat,
                file_ids(v@),
            )
        }),
        r matches Err(e) ==> ({
            &&& e is UnknownTags || e is Storage
            &&& e matches CatalogError::UnknownTags(lost) ==> ({
                &&& lost@.len() > 0
                &&& forall|j: int|
                    0 <= j < lost@.len() ==> !tags_of(*conn).values().contains(
                        (#[trigger] lost@[j])@,
                    ) && names_include(names@, lost@[j]@)
                &&& forall|i: int|
                    0 <= i < names@.len() && !tags_of(*conn).values().contains(
                        (#[trigger] names@[i])@,
                    ) ==> names_include(lost@, names@[i]@)
            })
        }),
{
    let tags = match find_tags_by_names(names, conn) {
        Ok(ts) => ts,
        Err(e) => {
            return Err(e);
        },
    };
    let mut ids: Vec<i64> = Vec::new();
    let mut i: usize = 0;
    while i < tags.len()
        invariant
            i <= tags@.len(),
            ids@.len() == i,
            forall|j: int| 0 <= j < i ==> #[trigger] ids@[j] == tags@[j].id,
        decreases tags@.len() - i,
    {
        ids.push(tags[i].id);
        i += 1;
    }
    proof {
        // the request names at least one tag, so at least one id was resolved
        assert(has_tag_named(tags@, names@[0]@));
        assert(tags@.len() > 0);
        assert(ids@.len() > 0);
        if tag_names_unique(tags_of(*conn)) {
            assert forall|t: i64| #[trigger]
                ids@.to_set().contains(t) <==> tag_ids_named(tags_of(*conn), names@).contains(
                    t,
                ) by {
                assert(ids@.to_set().contains(t) <==> ids@.contains(t));
                if ids@.contains(t) {
                    let j = choose|j: int| 0 <= j < ids@.len() && ids@[j] == t;
                    assert(tags_of(*conn).contains_pair(tags@[j].id, tags@[j].name@));
                    assert(names_include(names@, tags_of(*conn)[t]));
                }
                if tag_ids_named(tags_of(*conn), names@).contains(t) {
                    let j = choose|j: int|
                        0 <= j < names@.len() && (#[trigger] names@[j])@ == tags_of(*conn)[t];
                    assert(has_tag_named(tags@, names@[j]@));
                    let k = choose|k: int|
                        0 <= k < tags@.len() && (#[trigger] tags@[k]).name@ == names@[j]@;
                    assert(tags_of(*conn).contains_pair(tags@[k].id, tags@[k].name@));
                    assert(tags_of(*conn)[tags@[k].id] == tags_of(*conn)[t]);
                    assert(tags@[k].id == t);
                    assert(ids@[k] == t);
                    assert(ids@.contains(t));
                }
            }
            assert(ids@.to_set() =~= tag_ids_named(tags_of(*conn), names@));
        }
    }
    let r = File::find_specific_amount_by_tags_ids_on_page(&ids, amount, page, exact, conn);
    proof {
        assert forall|i: int|
            0 <= i < names@.len() implies tags_of(*conn).values().contains(
            (#[trigger] names@[i])@,
        ) by {
            assert(has_tag_named(tags@, names@[i]@));
            let k = choose|k: int|
                0 <= k < tags@.len() && (#[trigger] tags@[k]).name@ == names@[i]@;
            assert(tags_of(*conn).contains_pair(tags@[k].id, tags@[k].name@));
            assert(tags_of(*conn).dom().contains(tags@[k].id));
        }
    }
    r
}

} // verus!
