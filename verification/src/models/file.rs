//! The file catalog: file records keyed by id and by unique name, and
//! the tag-filtered query engine over them.
//!
//! The engine answers "list the files matching tag set T, page P, size
//! N, in inclusive or exact mode": it resolves a candidate id set from
//! the relationship index, filters it for exact matches in memory,
//! windows the newest-first listing, fetches the page's rows and
//! hydrates each with its full tag list. Its contract states the result
//! per `candidate_set`, page rank and `hydrated` — the matching,
//! pagination and hydration laws all speak the same language.

use vstd::prelude::*;

use crate::models::Tag;
use crate::order::{
    contains_id, ids_equal, is_page_listing, lemma_asc_unique, lemma_page_rank, page_window,
    sort_dedup_asc, sort_dedup_desc, strictly_asc,
};
use crate::store::{self, file_stamps_of, files_of, in_tx, links_of, tag_stamps_of, tags_of};
use crate::views::{
    candidate_set, file_ids, file_record_ok, hydrated, link_set, matches_any, matches_exactly,
    present_ids, tag_set_of,
};
use crate::{storage_error, CatalogError};

verus! {

broadcast use vstd::seq_lib::group_seq_properties;

/// A file record. The `tags` list is transient: the store never keeps it
/// on the row; it is filled by joining through the relationship index at
/// read time, and a freshly fetched record carries an empty list.
#[derive(Debug)]
pub struct File {
    pub id: i64,
    pub name: String,
    pub tags: Vec<Tag>,
    pub updated_at: String,
    pub created_at: String,
}

/// Whether file `f` is linked to one of the first `n` queried tag ids.
spec fn linked_to_prefix(links: Set<(i64, i64)>, q: Seq<i64>, n: int, f: i64) -> bool {
    exists|j: int| 0 <= j < n && links.contains((f, #[trigger] q[j]))
}

impl File {
    /// Looks a file up by id; `None` means the id is not catalogued.
    pub fn find_by_id(id: i64, conn: &rusqlite::Connection) -> (r: Result<
        Option<File>,
        CatalogError,
    >)
        ensures
            r matches Ok(Some(f)) ==> ({
                &&& f.id == id
                &&& files_of(*conn).contains_pair(id, f.name@)
                &&& file_stamps_of(*conn).contains_pair(id, (f.updated_at@, f.created_at@))
                &&& f.tags@ == Seq::<Tag>::empty()
            }),
            r matches Ok(None) ==> !files_of(*conn).dom().contains(id),
            r matches Err(e) ==> e is Storage,
    {
        match store::sql_file_by_id(conn, id) {
            Ok(o) => Ok(o),
            Err(e) => Err(storage_error(e)),
        }
    }

    /// Looks a file up by name; `None` means no file has the name.
    pub fn find_by_name(name: &str, conn: &rusqlite::Connection) -> (r: Result<
        Option<File>,
        CatalogError,
    >)
        ensures
            r matches Ok(Some(f)) ==> ({
                &&& files_of(*conn).contains_pair(f.id, f.name@)
                &&& file_stamps_of(*conn).contains_pair(f.id, (f.updated_at@, f.created_at@))
                &&& f.name@ == name@
                &&& f.tags@ == Seq::<Tag>::empty()
            }),
            r matches Ok(None) ==> !files_of(*conn).values().contains(name@),
            r matches Err(e) ==> e is Storage,
    {
        match store::sql_file_by_name(conn, name) {
            Ok(o) => Ok(o),
            Err(e) => Err(storage_error(e)),
        }
    }

    /// Whether a file with the given name exists.
    pub fn name_exists(name: &str, conn: &rusqlite::Connection) -> (r: Result<bool, CatalogError>)
        ensures
            r matches Ok(b) ==> (b <==> files_of(*conn).values().contains(name@)),
            r matches Err(e) ==> e is Storage,
    {
        match store::sql_file_by_name(conn, name) {
            Ok(Some(f)) => {
                proof {
                    assert(files_of(*conn).dom().contains(f.id));
                    assert(files_of(*conn).values().contains(name@));
                }
                Ok(true)
            },
            Ok(None) => Ok(false),
            Err(e) => Err(storage_error(e)),
        }
    }

    /// Whether a file with the given id exists.
    pub fn id_exists(id: i64, conn: &rusqlite::Connection) -> (r: Result<bool, CatalogError>)
        ensures
            r matches Ok(b) ==> (b <==> files_of(*conn).dom().contains(id)),
            r matches Err(e) ==> e is Storage,
    {
        match store::sql_file_by_id(conn, id) {
            Ok(Some(f)) => {
                proof {
                    assert(files_of(*conn).dom().contains(f.id));
                }
                Ok(true)
            },
            Ok(None) => Ok(false),
            Err(e) => Err(storage_error(e)),
        }
    }

    /// Looks a file up by id; an absent id is refused as `UnknownName`.
    pub fn extract_from_id(id: i64, conn: &rusqlite::Connection) -> (r: Result<File, CatalogError>)
        ensures
            r matches Ok(f) ==> ({
                &&& f.id == id
                &&& files_of(*conn).contains_pair(id, f.name@)
                &&& file_stamps_of(*conn).contains_pair(id, (f.updated_at@, f.created_at@))
                &&& f.tags@ == Seq::<Tag>::empty()
            }),
            r matches Err(e) ==> ({
                &&& e is UnknownName || e is Storage
                &&& e is UnknownName ==> !files_of(*conn).dom().contains(id)
            }),
    {
        match File::find_by_id(id, conn) {
            Ok(Some(f)) => Ok(f),
            Ok(None) => Err(CatalogError::UnknownName),
            Err(e) => Err(e),
        }
    }

    /// Checks that a file id is catalogued; an absent id is refused as
    /// `UnknownName`.
    pub fn extract_id_exists(id: i64, conn: &rusqlite::Connection) -> (r: Result<(), CatalogError>)
        ensures
            r is Ok ==> files_of(*conn).dom().contains(id),
            r matches Err(e) ==> ({
                &&& e is UnknownName || e is Storage
                &&& e is UnknownName ==> !files_of(*conn).dom().contains(id)
            }),
    {
        match File::id_exists(id, conn) {
            Ok(true) => Ok(()),
            Ok(false) => Err(CatalogError::UnknownName),
            Err(e) => Err(e),
        }
    }

    /// Looks a file up by name; an absent name is refused as
    /// `UnknownName`.
    pub fn extract_from_name(name: &str, conn: &rusqlite::Connection) -> (r: Result<
        File,
        CatalogError,
    >)
        ensures
            r matches Ok(f) ==> ({
                &&& files_of(*conn).contains_pair(f.id, f.name@)
                &&& file_stamps_of(*conn).contains_pair(f.id, (f.updated_at@, f.created_at@))
                &&& f.name@ == name@
                &&& f.tags@ == Seq::<Tag>::empty()
            }),
            r matches Err(e) ==> ({
                &&& e is UnknownName || e is Storage
                &&& e is UnknownName ==> !files_of(*conn).values().contains(name@)
            }),
    {
        match File::find_by_name(name, conn) {
            Ok(Some(f)) => Ok(f),
            Ok(None) => Err(CatalogError::UnknownName),
            Err(e) => Err(e),
        }
    }

    /// Creates a file with the given name and no tags. A taken name is
    /// refused as `Duplicate` and nothing changes; on success the
    /// catalog grows by exactly the one fresh record that is returned.
    pub fn create(name: &str, conn: &mut rusqlite::Connection) -> (r: Result<File, CatalogError>)
        requires
            !in_tx(*old(conn)),
        ensures
            !in_tx(*final(conn)),
            r matches Ok(f) ==> ({
                &&& f.name@ == name@
                &&& f.tags@ == Seq::<Tag>::empty()
                &&& !files_of(*old(conn)).dom().contains(f.id)
                &&& !files_of(*old(conn)).values().contains(name@)
                &&& files_of(*final(conn)) == files_of(*old(conn)).insert(f.id, name@)
                &&& file_stamps_of(*final(conn)) == file_stamps_of(*old(conn)).insert(
                    f.id,
                    (f.updated_at@, f.created_at@),
                )
                &&& tags_of(*final(conn)) == tags_of(*old(conn))
                &&& links_of(*final(conn)) == links_of(*old(conn))
                &&& tag_stamps_of(*final(conn)) == tag_stamps_of(*old(conn))
            }),
            r matches Err(e) ==> ({
                &&& e is Duplicate || e is Storage
                &&& e is Duplicate ==> files_of(*old(conn)).values().contains(name@)
                &&& files_of(*final(conn)) == files_of(*old(conn))
                &&& tags_of(*final(conn)) == tags_of(*old(conn))
                &&& links_of(*final(conn)) == links_of(*old(conn))
                &&& file_stamps_of(*final(conn)) == file_stamps_of(*old(conn))
                &&& tag_stamps_of(*final(conn)) == tag_stamps_of(*old(conn))
            }),
    {
        match store::sql_file_by_name(conn, name) {
            Err(e) => Err(storage_error(e)),
            Ok(Some(f)) => {
                proof {
                    assert(files_of(*old(conn)).dom().contains(f.id));
                    assert(files_of(*old(conn)).values().contains(name@));
                }
                Err(CatalogError::Duplicate)
            },
            Ok(None) => match store::sql_insert_file(conn, name) {
                Ok(f) => Ok(f),
                Err(e) => Err(storage_error(e)),
            },
        }
    }

    /// Deletes the file's own row. The cascade must have run first: no
    /// link may reference the file any more, since a link must not
    /// outlive either of its endpoints.
    pub fn delete(&self, conn: &mut rusqlite::Connection) -> (r: Result<(), CatalogError>)
        requires
            forall|t: i64| !links_of(*old(conn)).contains((self.id, t)),
            !in_tx(*old(conn)),
        ensures
            !in_tx(*final(conn)),
            r is Ok ==> ({
                &&& files_of(*final(conn)) == files_of(*old(conn)).remove(self.id)
                &&& file_stamps_of(*final(conn)) == file_stamps_of(*old(conn)).remove(self.id)
                &&& tags_of(*final(conn)) == tags_of(*old(conn))
                &&& links_of(*final(conn)) == links_of(*old(conn))
                &&& tag_stamps_of(*final(conn)) == tag_stamps_of(*old(conn))
            }),
            r matches Err(e) ==> ({
                &&& e is Storage
                &&& files_of(*final(conn)) == files_of(*old(conn))
                &&& tags_of(*final(conn)) == tags_of(*old(conn))
                &&& links_of(*final(conn)) == links_of(*old(conn))
                &&& file_stamps_of(*final(conn)) == file_stamps_of(*old(conn))
                &&& tag_stamps_of(*final(conn)) == tag_stamps_of(*old(conn))
            }),
    {
        match store::sql_delete_file(conn, self.id) {
            Ok(u) => Ok(u),
            Err(e) => Err(storage_error(e)),
        }
    }

    /// Removes every link that references this file: the cascade step
    /// that must precede deleting the file itself.
    pub fn unlink_all_tags(&self, conn: &mut rusqlite::Connection) -> (r: Result<(), CatalogError>)
        requires
            !in_tx(*old(conn)),
        ensures
            !in_tx(*final(conn)),
            r is Ok ==> ({
                &&& links_of(*final(conn)) == Set::new(
                    |p: (i64, i64)| links_of(*old(conn)).contains(p) && p.0 != self.id,
                )
                &&& files_of(*final(conn)) == files_of(*old(conn))
                &&& tags_of(*final(conn)) == tags_of(*old(conn))
                &&& file_stamps_of(*final(conn)) == file_stamps_of(*old(conn))
                &&& tag_stamps_of(*final(conn)) == tag_stamps_of(*old(conn))
            }),
            r matches Err(e) ==> ({
                &&& e is Storage
                &&& files_of(*final(conn)) == files_of(*old(conn))
                &&& tags_of(*final(conn)) == tags_of(*old(conn))
                &&& links_of(*final(conn)) == links_of(*old(conn))
                &&& file_stamps_of(*final(conn)) == file_stamps_of(*old(conn))
                &&& tag_stamps_of(*final(conn)) == tag_stamps_of(*old(conn))
            }),
    {
        match store::sql_delete_links_of_file(conn, self.id) {
            Ok(u) => Ok(u),
            Err(e) => Err(storage_error(e)),
        }
    }

    /// Refreshes this record's transient tag list from the relationship
    /// index; every other field stays as it was.
    pub fn update_tags(&mut self, conn: &rusqlite::Connection) -> (r: Result<(), CatalogError>)
        ensures
            final(self).id == old(self).id,
            final(self).name == old(self).name,
            final(self).updated_at == old(self).updated_at,
            final(self).created_at == old(self).created_at,
            r is Ok ==> hydrated(
                final(self).tags@,
                old(self).id,
                links_of(*conn),
                tags_of(*conn),
                tag_stamps_of(*conn),
            ),
            r matches Err(e) ==> e is Storage && final(self).tags == old(self).tags,
    {
        match Tag::find_related_to_file(self.id, conn) {
            Ok(ts) => {
                self.tags = ts;
                Ok(())
            },
            Err(e) => Err(e),
        }
    }

    /// The page of the given candidate ids that the catalog has rows
    /// for, newest first: ids without a row are dropped, the rest are
    /// ordered by descending id and windowed, and the page's rows are
    /// returned without tag lists.
    pub fn find_specific_amount_where_in_ids_on_page(
        ids: &Vec<i64>,
        amount: u32,
        page: u32,
        conn: &rusqlite::Connection,
    ) -> (r: Result<Vec<File>, CatalogError>)
        ensures
            r matches Ok(v) ==> ({
                &&& present_ids(ids@, files_of(*conn)).finite()
                &&& is_page_listing(
                    present_ids(ids@, files_of(*conn)),
                    amount as nat,
                    page as nat,
                    file_ids(v@),
                )
                &&& forall|k: int|
                    0 <= k < v@.len() ==> files_of(*conn).contains_pair(
                        (#[trigger] v@[k]).id,
                        v@[k].name@,
                    ) && file_stamps_of(*conn).contains_pair(
                        v@[k].id,
                        (v@[k].updated_at@, v@[k].created_at@),
                    ) && v@[k].tags@ == Seq::<Tag>::empty()
            }),
            r matches Err(e) ==> e is Storage,
    {
        let ghost filesv = files_of(*conn);
        let mut present: Vec<i64> = Vec::new();
        let mut i: usize = 0;
        while i < ids.len()
            invariant
                i <= ids@.len(),
                filesv == files_of(*conn),
                forall|f: i64| #[trigger]
                    present@.contains(f) <==> (ids@.subrange(0, i as int).contains(f)
                        && filesv.dom().contains(f)),
            decreases ids@.len() - i,
        {
            let ghost pre = present@;
            let idv = ids[i];
            let mut had = false;
            match store::sql_file_by_id(conn, idv) {
                Ok(Some(_)) => {
                    present.push(idv);
                    had = true;
                },
                Ok(None) => {},
                Err(e) => {
                    return Err(storage_error(e));
                },
            }
            proof {
                assert(ids@.subrange(0, i + 1) =~= ids@.subrange(0, i as int).push(
                    ids@[i as int],
                ));
                if !had {
                    assert(present@ == pre);
                }
            }
            i += 1;
        }
        proof {
            assert(ids@.subrange(0, ids@.len() as int) =~= ids@);
        }
        let sorted = sort_dedup_desc(&present);
        let window = page_window(&sorted, amount, page);
        let ghost pres = present_ids(ids@, filesv);
        proof {
            assert forall|f: i64| #[trigger] sorted@.to_set().contains(f) <==> pres.contains(
                f,
            ) by {
                assert(sorted@.to_set().contains(f) <==> sorted@.contains(f));
            }
            assert(sorted@.to_set() =~= pres);
            assert(pres.finite()) by {
                broadcast use vstd::seq_lib::seq_to_set_is_finite;

            }
            lemma_page_rank(sorted@, amount as nat, page as nat, 0);
            assert forall|f: i64| #[trigger] window@.contains(f) <==> (pres.contains(f) && (
            amount as nat) * (page as nat) <= crate::order::rank_in(pres, f) < (amount as nat) * (
            page as nat) + (amount as nat)) by {
                lemma_page_rank(sorted@, amount as nat, page as nat, f);
            }
            assert forall|f: i64| #[trigger] window@.contains(f) implies filesv.dom().contains(
                f,
            ) by {}
        }
        let mut out: Vec<File> = Vec::new();
        let mut k: usize = 0;
        while k < window.len()
            invariant
                k <= window@.len(),
                filesv == files_of(*conn),
                out@.len() == k,
                forall|j: int|
                    0 <= j < k ==> (#[trigger] out@[j]).id == window@[j] && filesv.contains_pair(
                        out@[j].id,
                        out@[j].name@,
                    ) && file_stamps_of(*conn).contains_pair(
                        out@[j].id,
                        (out@[j].updated_at@, out@[j].created_at@),
                    ) && out@[j].tags@ == Seq::<Tag>::empty(),
                forall|f: i64| #[trigger] window@.contains(f) ==> filesv.dom().contains(f),
            decreases window@.len() - k,
        {
            let fid = window[k];
            proof {
                assert(window@.contains(window@[k as int]));
            }
            match store::sql_file_by_id(conn, fid) {
                Ok(Some(f)) => {
                    out.push(f);
                },
                Ok(None) => {
                    return Err(CatalogError::UnknownName);  // unreachable: the id is catalogued
                },
                Err(e) => {
                    return Err(storage_error(e));
                },
            }
            k += 1;
        }
        proof {
            assert(file_ids(out@) =~= window@);
            assert(crate::order::strictly_desc(file_ids(out@))) by {
                lemma_page_rank(sorted@, amount as nat, page as nat, 0);
            }
            assert(is_page_listing(pres, amount as nat, page as nat, file_ids(out@)));
        }
        Ok(out)
    }

    /// The tag-filtered query. Lists the files matching the queried tag
    /// ids — inclusively (at least one shared tag) or exactly (the
    /// file's tag set equals the queried set) — newest first, windowed
    /// to the requested page, each result hydrated with its full tag
    /// list. It only reads: the connection is borrowed shared, so no
    /// table is touched. Querying by no tags at all is a caller error:
    /// there is no "list everything" path through this operation.
    pub fn find_specific_amount_by_tags_ids_on_page(
        tags: &Vec<i64>,
        amount: u32,
        page: u32,
        exact: bool,
        conn: &rusqlite::Connection,
    ) -> (r: Result<Vec<File>, CatalogError>)
        requires
            tags@.len() > 0,
        ensures
            r matches Ok(v) ==> ({
                &&& candidate_set(files_of(*conn), links_of(*conn), tags@.to_set(), exact).finite()
                &&& is_page_listing(
                    candidate_set(files_of(*conn), links_of(*conn), tags@.to_set(), exact),
                    amount as nat,
                    page as nat,
                    file_ids(v@),
                )
                &&& forall|k: int|
                    0 <= k < v@.len() ==> file_record_ok(
                        #[trigger] v@[k],
                        files_of(*conn),
                        file_stamps_of(*conn),
                        tags_of(*conn),
                        tag_stamps_of(*conn),
                        links_of(*conn),
                    )
            }),
            r matches Err(e) ==> e is Storage,
    {
        let ghost filesv = files_of(*conn);
        let ghost linksv = links_of(*conn);
        let ghost tagsv = tags_of(*conn);
        let ghost fstampsv = file_stamps_of(*conn);
        let ghost tstampsv = tag_stamps_of(*conn);
        let ghost qset = tags@.to_set();
        let q = sort_dedup_asc(tags);
        proof {
            assert forall|t: i64| #[trigger] q@.contains(t) <==> qset.contains(t) by {
                assert(qset.contains(t) <==> tags@.contains(t));
            }
            assert(tags@.contains(tags@[0]));
            assert(q@.len() > 0) by {
                assert(q@.contains(tags@[0]));
            }
        }
        // candidate resolution: every file linked to one of the queried tags
        let mut cands: Vec<i64> = Vec::new();
        let mut i: usize = 0;
        while i < q.len()
            invariant
                i <= q@.len(),
                linksv == links_of(*conn),
                cands@.no_duplicates(),
                forall|f: i64| #[trigger]
                    cands@.contains(f) <==> linked_to_prefix(linksv, q@, i as int, f),
            decreases q@.len() - i,
        {
            let t = q[i];
            let fs = match store::sql_file_ids_of_tag(conn, t) {
                Ok(fs) => fs,
                Err(e) => {
                    return Err(storage_error(e));
                },
            };
            let mut j: usize = 0;
            while j < fs.len()
                invariant
                    j <= fs@.len(),
                    i < q@.len(),
                    t == q@[i as int],
                    linksv == links_of(*conn),
                    forall|f: i64| #[trigger] fs@.contains(f) <==> linksv.contains((f, t)),
                    cands@.no_duplicates(),
                    forall|f: i64| #[trigger]
                        cands@.contains(f) <==> (linked_to_prefix(linksv, q@, i as int, f)
                            || fs@.subrange(0, j as int).contains(f)),
                decreases fs@.len() - j,
            {
                let f = fs[j];
                proof {
                    assert(fs@.contains(fs@[j as int]));
                }
                if !contains_id(&cands, f) {
                    cands.push(f);
                }
                proof {
                    assert(fs@.subrange(0, j + 1) =~= fs@.subrange(0, j as int).push(
                        fs@[j as int],
                    ));
                }
                j += 1;
            }
            proof {
                assert(fs@.subrange(0, fs@.len() as int) =~= fs@);
                assert forall|f: i64| #[trigger]
                    cands@.contains(f) <==> linked_to_prefix(linksv, q@, i + 1, f) by {
                    if cands@.contains(f) && fs@.contains(f) {
                        assert(linksv.contains((f, q@[i as int])));
                    }
                    if linked_to_prefix(linksv, q@, i + 1, f) {
                        let jj = choose|jj: int|
                            0 <= jj < i + 1 && linksv.contains((f, #[trigger] q@[jj]));
                        if jj == i {
                            assert(fs@.contains(f));
                        } else {
                            assert(linked_to_prefix(linksv, q@, i as int, f));
                        }
                    }
                }
            }
            i += 1;
        }
        proof {
            assert forall|f: i64| #[trigger] cands@.contains(f) <==> matches_any(
                linksv,
                f,
                qset,
            ) by {
                if cands@.contains(f) {
                    let jj = choose|jj: int|
                        0 <= jj < q@.len() && linksv.contains((f, #[trigger] q@[jj]));
                    assert(q@.contains(q@[jj]));
                    assert(qset.contains(q@[jj]));
                }
                if matches_any(linksv, f, qset) {
                    let t = choose|t: i64| qset.contains(t) && #[trigger] linksv.contains((f, t));
                    assert(q@.contains(t));
                    let jj = choose|jj: int| 0 <= jj < q@.len() && q@[jj] == t;
                    assert(linksv.contains((f, q@[jj])));
                    assert(linked_to_prefix(linksv, q@, q@.len() as int, f));
                }
            }
        }
        // exact mode: keep only the files whose whole tag set is the query set
        let chosen: Vec<i64> = if exact {
            let mut kept: Vec<i64> = Vec::new();
            let mut k2: usize = 0;
            while k2 < cands.len()
                invariant
                    k2 <= cands@.len(),
                    linksv == links_of(*conn),
                    strictly_asc(q@),
                    q@.len() > 0,
                    forall|t: i64| #[trigger] q@.contains(t) <==> qset.contains(t),
                    cands@.no_duplicates(),
                    forall|f: i64| #[trigger] cands@.contains(f) <==> matches_any(
                        linksv,
                        f,
                        qset,
                    ),
                    kept@.no_duplicates(),
                    forall|f: i64| #[trigger]
                        kept@.contains(f) <==> (cands@.subrange(0, k2 as int).contains(f)
                            && matches_exactly(linksv, f, qset)),
                decreases cands@.len() - k2,
            {
                let f = cands[k2];
                proof {
                    assert(cands@.contains(cands@[k2 as int]));
                }
                let ts = match store::sql_tag_ids_of_file(conn, f) {
                    Ok(ts) => ts,
                    Err(e) => {
                        return Err(storage_error(e));
                    },
                };
                let ts_sorted = sort_dedup_asc(&ts);
                let eq = ids_equal(&ts_sorted, &q);
                proof {
                    assert forall|t: i64| #[trigger] ts_sorted@.contains(t) <==> tag_set_of(
                        linksv,
                        f,
                    ).contains(t) by {
                        assert(ts@.contains(t) <==> linksv.contains((f, t)));
                    }
                    if eq {
                        assert forall|t: i64| tag_set_of(linksv, f).contains(t) <==> qset.contains(
                            t,
                        ) by {
                            assert(ts_sorted@.contains(t) <==> tag_set_of(linksv, f).contains(t));
                            assert(q@.contains(t) <==> qset.contains(t));
                        }
                        assert(tag_set_of(linksv, f) =~= qset);
                    } else {
                        if matches_exactly(linksv, f, qset) {
                            assert forall|t: i64| #[trigger] ts_sorted@.contains(t) <==> q@.contains(
                                t,
                            ) by {
                                assert(tag_set_of(linksv, f).contains(t) <==> qset.contains(t));
                            }
                            lemma_asc_unique(ts_sorted@, q@);
                        }
                    }
                }
                if eq {
                    proof {
                        if kept@.contains(f) {
                            let jj = choose|jj: int|
                                0 <= jj < k2 && #[trigger] cands@.subrange(0, k2 as int)[jj] == f;
                            assert(cands@[jj] == f && cands@[k2 as int] == f);
                        }
                    }
                    kept.push(f);
                }
                proof {
                    assert(cands@.subrange(0, k2 + 1) =~= cands@.subrange(0, k2 as int).push(
                        cands@[k2 as int],
                    ));
                }
                k2 += 1;
            }
            proof {
                assert(cands@.subrange(0, cands@.len() as int) =~= cands@);
            }
            kept
        } else {
            cands
        };
        proof {
            assert forall|f: i64| #[trigger]
                chosen@.contains(f) <==> (if exact {
                    matches_exactly(linksv, f, qset)
                } else {
                    matches_any(linksv, f, qset)
                }) by {
                if exact && matches_exactly(linksv, f, qset) {
                    assert(q@.contains(q@[0]));
                    assert(qset.contains(q@[0]));
                    assert(tag_set_of(linksv, f).contains(q@[0]));
                    assert(linksv.contains((f, q@[0])));
                    assert(matches_any(linksv, f, qset));
                }
            }
        }
        // paginate over the filtered candidates, newest first
        let paged = match File::find_specific_amount_where_in_ids_on_page(
            &chosen,
            amount,
            page,
            conn,
        ) {
            Ok(p) => p,
            Err(e) => {
                return Err(e);
            },
        };
        let ghost cset = candidate_set(filesv, linksv, qset, exact);
        proof {
            assert(present_ids(chosen@, filesv) =~= cset);
        }
        // hydration: fill in each page entry's tag list
        let ghost orig = paged@;
        let mut rem = paged;
        let mut out: Vec<File> = Vec::new();
        while rem.len() > 0
            invariant
                filesv == files_of(*conn),
                linksv == links_of(*conn),
                tagsv == tags_of(*conn),
                fstampsv == file_stamps_of(*conn),
                tstampsv == tag_stamps_of(*conn),
                out@.len() + rem@.len() == orig.len(),
                rem@ == orig.subrange(out@.len() as int, orig.len() as int),
                forall|j: int|
                    0 <= j < orig.len() ==> filesv.contains_pair(
                        (#[trigger] orig[j]).id,
                        orig[j].name@,
                    ) && fstampsv.contains_pair(
                        orig[j].id,
                        (orig[j].updated_at@, orig[j].created_at@),
                    ),
                forall|j: int|
                    0 <= j < out@.len() ==> (#[trigger] out@[j]).id == orig[j].id
                        && file_record_ok(out@[j], filesv, fstampsv, tagsv, tstampsv, linksv),
            decreases rem@.len(),
        {
            let ghost done = out@.len() as int;
            let mut f = rem.remove(0);
            proof {
                assert(orig.subrange(done, orig.len() as int)[0] == orig[done]);
                assert(f == orig[done]);
            }
            match f.update_tags(conn) {
                Ok(u) => u,
                Err(e) => {
                    return Err(e);
                },
            };
            out.push(f);
            proof {
                assert(rem@ =~= orig.subrange(out@.len() as int, orig.len() as int));
            }
        }
        proof {
            assert(file_ids(out@) =~= file_ids(orig));
            assert(is_page_listing(cset, amount as nat, page as nat, file_ids(out@)));
        }
        Ok(out)
    }

    /// Creates a file with the given name and attaches every one of the
    /// given tag ids, as one all-or-nothing step: a taken name is
    /// refused as `Duplicate`, an id no tag has as `UnknownName`, and on
    /// any such input — whatever the failure is classified as — nothing
    /// changes at all, since every path on it returns before the first
    /// write. On success the catalog grows by the one fresh returned
    /// record — whose transient tag list is not yet filled — and the
    /// link index by exactly the requested links. A storage fault inside
    /// the transaction itself is rolled back by the store, of which no
    /// state is claimed.
    pub fn create_with_tags(name: &str, tags: &Vec<i64>, conn: &mut rusqlite::Connection) -> (r:
        Result<File, CatalogError>)
        requires
            !in_tx(*old(conn)),
        ensures
            r matches Ok(f) ==> ({
                &&& f.name@ == name@
                &&& f.tags@ == Seq::<Tag>::empty()
                &&& !files_of(*old(conn)).dom().contains(f.id)
                &&& !files_of(*old(conn)).values().contains(name@)
                &&& forall|j: int|
                    0 <= j < tags@.len() ==> tags_of(*old(conn)).dom().contains(
                        #[trigger] tags@[j],
                    )
                &&& files_of(*final(conn)) == files_of(*old(conn)).insert(f.id, name@)
                &&& file_stamps_of(*final(conn)) == file_stamps_of(*old(conn)).insert(
                    f.id,
                    (f.updated_at@, f.created_at@),
                )
                &&& tags_of(*final(conn)) == tags_of(*old(conn))
                &&& tag_stamps_of(*final(conn)) == tag_stamps_of(*old(conn))
                &&& links_of(*final(conn)) == links_of(*old(conn)).union(link_set(f.id, tags@))
                &&& !in_tx(*final(conn))
            }),
            r matches Err(e) ==> ({
                &&& e is Duplicate || e is UnknownName || e is Storage
                &&& e is Duplicate ==> files_of(*old(conn)).values().contains(name@)
                &&& e is UnknownName ==> exists|j: int|
                    0 <= j < tags@.len() && !tags_of(*old(conn)).dom().contains(
                        #[trigger] tags@[j],
                    )
                &&& (e is Duplicate || e is UnknownName) ==> ({
                    &&& files_of(*final(conn)) == files_of(*old(conn))
                    &&& tags_of(*final(conn)) == tags_of(*old(conn))
                    &&& links_of(*final(conn)) == links_of(*old(conn))
                    &&& file_stamps_of(*final(conn)) == file_stamps_of(*old(conn))
                    &&& tag_stamps_of(*final(conn)) == tag_stamps_of(*old(conn))
                    &&& !in_tx(*final(conn))
                })
            }),
            (files_of(*old(conn)).values().contains(name@) || exists|j: int|
                0 <= j < tags@.len() && !tags_of(*old(conn)).dom().contains(
                    #[trigger] tags@[j],
                )) ==> ({
                &&& r is Err
                &&& files_of(*final(conn)) == files_of(*old(conn))
                &&& tags_of(*final(conn)) == tags_of(*old(conn))
                &&& links_of(*final(conn)) == links_of(*old(conn))
                &&& file_stamps_of(*final(conn)) == file_stamps_of(*old(conn))
                &&& tag_stamps_of(*final(conn)) == tag_stamps_of(*old(conn))
                &&& !in_tx(*final(conn))
            }),
    {
        // refuse a taken name before touching anything
        match store::sql_file_by_name(conn, name) {
            Err(e) => {
                return Err(storage_error(e));
            },
            Ok(Some(ex)) => {
                proof {
                    assert(files_of(*old(conn)).dom().contains(ex.id));
                    assert(files_of(*old(conn)).values().contains(name@));
                }
                return Err(CatalogError::Duplicate);
            },
            Ok(None) => {},
        }
        // the links to create: each requested tag id once
        let q = sort_dedup_asc(tags);
        // every requested tag must exist, or nothing is created at all
        let mut i: usize = 0;
        while i < q.len()
            invariant
                i <= q@.len(),
                files_of(*conn) == files_of(*old(conn)),
                tags_of(*conn) == tags_of(*old(conn)),
                links_of(*conn) == links_of(*old(conn)),
                file_stamps_of(*conn) == file_stamps_of(*old(conn)),
                tag_stamps_of(*conn) == tag_stamps_of(*old(conn)),
                !in_tx(*conn),
                !files_of(*old(conn)).values().contains(name@),
                forall|t: i64| #[trigger] q@.contains(t) <==> tags@.contains(t),
                forall|j: int| 0 <= j < i ==> tags_of(*old(conn)).dom().contains(#[trigger] q@[j]),
            decreases q@.len() - i,
        {
            match store::sql_tag_by_id(conn, q[i]) {
                Ok(Some(_)) => {},
                Ok(None) => {
                    proof {
                        assert(q@.contains(q@[i as int]));
                        assert(tags@.contains(q@[i as int]));
                        let jj = choose|jj: int|
                            0 <= jj < tags@.len() && #[trigger] tags@[jj] == q@[i as int];
                        assert(!tags_of(*old(conn)).dom().contains(tags@[jj]));
                    }
                    return Err(CatalogError::UnknownName);
                },
                Err(e) => {
                    return Err(storage_error(e));
                },
            }
            i += 1;
        }
        proof {
            assert forall|j: int|
                0 <= j < tags@.len() implies tags_of(*old(conn)).dom().contains(
                #[trigger] tags@[j],
            ) by {
                assert(tags@.contains(tags@[j]));
                assert(q@.contains(tags@[j]));
                let jj = choose|jj: int| 0 <= jj < q@.len() && #[trigger] q@[jj] == tags@[j];
                assert(tags_of(*old(conn)).dom().contains(q@[jj]));
            }
        }
        // all or nothing from here on: the store's transaction guards the
        // insert-then-link sequence
        match store::sql_tx_begin(conn) {
            Ok(u) => u,
            Err(e) => {
                return Err(storage_error(e));
            },
        }
        let ghost files0 = files_of(*conn);
        let ghost tags0 = tags_of(*conn);
        let ghost links0 = links_of(*conn);
        let ghost fstamps0 = file_stamps_of(*conn);
        let ghost tstamps0 = tag_stamps_of(*conn);
        let f = match store::sql_insert_file(conn, name) {
            Ok(f) => f,
            Err(e) => {
                let _ = store::sql_tx_rollback(conn);
                return Err(storage_error(e));
            },
        };
        let mut i2: usize = 0;
        while i2 < q.len()
            invariant
                i2 <= q@.len(),
                files_of(*conn) == files0.insert(f.id, name@),
                file_stamps_of(*conn) == fstamps0.insert(f.id, (f.updated_at@, f.created_at@)),
                tags_of(*conn) == tags0,
                tag_stamps_of(*conn) == tstamps0,
                links_of(*conn) == links0.union(link_set(f.id, q@.subrange(0, i2 as int))),
                // the pre-checks passed: on any input the atomicity clause
                // speaks of, this loop is never reached
                !files_of(*old(conn)).values().contains(name@),
                forall|j: int|
                    0 <= j < tags@.len() ==> tags_of(*old(conn)).dom().contains(
                        #[trigger] tags@[j],
                    ),
            decreases q@.len() - i2,
        {
            let ghost before = links_of(*conn);
            match store::sql_insert_link(conn, f.id, q[i2]) {
                Ok(u) => u,
                Err(e) => {
                    let _ = store::sql_tx_rollback(conn);
                    return Err(storage_error(e));
                },
            }
            proof {
                assert(q@.subrange(0, i2 + 1) =~= q@.subrange(0, i2 as int).push(q@[i2 as int]));
                assert(links_of(*conn) =~= links0.union(link_set(f.id, q@.subrange(0, i2 + 1))))
                    by {
                    assert(links_of(*conn) == before.insert((f.id, q@[i2 as int])));
                }
            }
            i2 += 1;
        }
        match store::sql_tx_commit(conn) {
            Ok(u) => u,
            Err(e) => {
                let _ = store::sql_tx_rollback(conn);
                return Err(storage_error(e));
            },
        }
        proof {
            assert(q@.subrange(0, q@.len() as int) =~= q@);
            assert(link_set(f.id, q@) =~= link_set(f.id, tags@));
        }
        Ok(f)
    }
}

} // verus!
