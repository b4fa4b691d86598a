//! The relationship index: the many-to-many links between files and tags.
//!
//! A link is a bare (file id, tag id) pair with no life of its own: it is
//! created by an attach, removed one at a time by a detach, or removed in
//! bulk when its file or its tag goes away. The cascade law proved here
//! says the bulk removals leave nothing behind.

use vstd::prelude::*;

use crate::store::{self, files_of, in_tx, links_of, tags_of};
use crate::{storage_error, CatalogError};

verus! {

broadcast use vstd::seq_lib::group_seq_properties;

/// One link row: a (file id, tag id) pair, nothing more.
pub struct FileTag {
    pub tag_id: i64,
    pub file_id: i64,
}

/// Whether the row list holds the link (f, t).
pub open spec fn has_link_row(v: Seq<FileTag>, f: i64, t: i64) -> bool {
    exists|k: int| 0 <= k < v.len() && (#[trigger] v[k]).file_id == f && v[k].tag_id == t
}

/// Whether the link (file id, tag id) exists.
pub fn file_id_and_tag_id_exists(file_id: i64, tag_id: i64, conn: &rusqlite::Connection) -> (r:
    Result<bool, CatalogError>)
    ensures
        r matches Ok(b) ==> (b <==> links_of(*conn).contains((file_id, tag_id))),
        r matches Err(e) ==> e is Storage,
{
    match store::sql_link_exists(conn, file_id, tag_id) {
        Ok(b) => Ok(b),
        Err(e) => Err(storage_error(e)),
    }
}

/// Detaches the tag from the file. Says whether there was a link to
/// remove; everything else stays as it was.
pub fn delete_between_file_id_and_tag_id(
    file_id: i64,
    tag_id: i64,
    conn: &mut rusqlite::Connection,
) -> (r: Result<bool, CatalogError>)
    requires
        !in_tx(*old(conn)),
    ensures
        !in_tx(*final(conn)),
        r matches Ok(b) ==> ({
            &&& links_of(*final(conn)) == links_of(*old(conn)).remove((file_id, tag_id))
            &&& (b <==> links_of(*old(conn)).contains((file_id, tag_id)))
            &&& files_of(*final(conn)) == files_of(*old(conn))
            &&& tags_of(*final(conn)) == tags_of(*old(conn))
        }),
        r matches Err(e) ==> ({
            &&& e is Storage
            &&& files_of(*final(conn)) == files_of(*old(conn))
            &&& tags_of(*final(conn)) == tags_of(*old(conn))
            &&& links_of(*final(conn)) == links_of(*old(conn))
        }),
{
    match store::sql_delete_link(conn, file_id, tag_id) {
        Ok(n) => Ok(n == 1),
        Err(e) => Err(storage_error(e)),
    }
}

impl FileTag {
    /// Attaches the tag to the file. An existing link is refused as
    /// `Conflict`: this layer never upserts.
    pub fn create(file_id: i64, tag_id: i64, conn: &mut rusqlite::Connection) -> (r: Result<
        (),
        CatalogError,
    >)
        requires
            !in_tx(*old(conn)),
        ensures
            !in_tx(*final(conn)),
            r is Ok ==> ({
                &&& !links_of(*old(conn)).contains((file_id, tag_id))
                &&& links_of(*final(conn)) == links_of(*old(conn)).insert((file_id, tag_id))
                &&& files_of(*final(conn)) == files_of(*old(conn))
                &&& tags_of(*final(conn)) == tags_of(*old(conn))
            }),
            r matches Err(e) ==> ({
                &&& e is Conflict || e is Storage
                &&& e is Conflict ==> links_of(*old(conn)).contains((file_id, tag_id))
                &&& files_of(*final(conn)) == files_of(*old(conn))
                &&& tags_of(*final(conn)) == tags_of(*old(conn))
                &&& links_of(*final(conn)) == links_of(*old(conn))
            }),
    {
        match store::sql_link_exists(conn, file_id, tag_id) {
            Err(e) => Err(storage_error(e)),
            Ok(true) => Err(CatalogError::Conflict),
            Ok(false) => match store::sql_insert_link(conn, file_id, tag_id) {
                Ok(u) => Ok(u),
                Err(e) => Err(storage_error(e)),
            },
        }
    }

    /// All link rows of the given files, each row once: for every
    /// distinct listed file id, each of its links appears exactly once,
    /// and nothing of any other file does.
    pub fn all_in_file_ids(files: &Vec<i64>, conn: &rusqlite::Connection) -> (r: Result<
        Vec<FileTag>,
        CatalogError,
    >)
        ensures
            r matches Ok(v) ==> ({
                &&& forall|k: int|
                    0 <= k < v@.len() ==> links_of(*conn).contains(
                        ((#[trigger] v@[k]).file_id, v@[k].tag_id),
                    ) && files@.contains(v@[k].file_id)
                &&& forall|f: i64, t: i64|
                    files@.contains(f) && #[trigger] links_of(*conn).contains((f, t))
                        ==> has_link_row(v@, f, t)
                &&& forall|k1: int, k2: int|
                    0 <= k1 < k2 < v@.len() ==> ((#[trigger] v@[k1]).file_id != (
                    #[trigger] v@[k2]).file_id || v@[k1].tag_id != v@[k2].tag_id)
            }),
            r matches Err(e) ==> e is Storage,
    {
        let mut v: Vec<FileTag> = Vec::new();
        let mut done: Vec<i64> = Vec::new();
        let mut i: usize = 0;
        while i < files.len()
            invariant
                i <= files@.len(),
                forall|x: i64| #[trigger] done@.contains(x) ==> files@.contains(x),
                forall|ii: int| 0 <= ii < i ==> done@.contains(#[trigger] files@[ii]),
                forall|k: int|
                    0 <= k < v@.len() ==> links_of(*conn).contains(
                        ((#[trigger] v@[k]).file_id, v@[k].tag_id),
                    ) && done@.contains(v@[k].file_id),
                forall|x: i64, t: i64|
                    done@.contains(x) && #[trigger] links_of(*conn).contains((x, t))
                        ==> has_link_row(v@, x, t),
                forall|k1: int, k2: int|
                    0 <= k1 < k2 < v@.len() ==> ((#[trigger] v@[k1]).file_id != (
                    #[trigger] v@[k2]).file_id || v@[k1].tag_id != v@[k2].tag_id),
            decreases files@.len() - i,
        {
            let f = files[i];
            proof {
                assert(files@.contains(files@[i as int]));
            }
            if !crate::order::contains_id(&done, f) {
                let ts = match store::sql_tag_ids_of_file(conn, f) {
                    Ok(ts) => ts,
                    Err(e) => {
                        return Err(storage_error(e));
                    },
                };
                let ghost base = v@.len() as int;
                let mut j: usize = 0;
                while j < ts.len()
                    invariant
                        j <= ts@.len(),
                        files@.contains(f),
                        !done@.contains(f),
                        ts@.no_duplicates(),
                        forall|t: i64| #[trigger] ts@.contains(t) <==> links_of(*conn).contains(
                            (f, t),
                        ),
                        0 <= base <= v@.len(),
                        v@.len() == base + j,
                        forall|x: i64| #[trigger] done@.contains(x) ==> files@.contains(x),
                        forall|ii: int| 0 <= ii < i ==> done@.contains(#[trigger] files@[ii]),
                        forall|k: int|
                            0 <= k < base ==> done@.contains((#[trigger] v@[k]).file_id),
                        forall|k: int|
                            base <= k < v@.len() ==> (#[trigger] v@[k]).file_id == f
                                && v@[k].tag_id == ts@[k - base],
                        forall|k: int|
                            0 <= k < v@.len() ==> links_of(*conn).contains(
                                ((#[trigger] v@[k]).file_id, v@[k].tag_id),
                            ),
                        forall|x: i64, t: i64|
                            done@.contains(x) && #[trigger] links_of(*conn).contains((x, t))
                                ==> has_link_row(v@, x, t),
                        forall|k1: int, k2: int|
                            0 <= k1 < k2 < v@.len() ==> ((#[trigger] v@[k1]).file_id != (
                            #[trigger] v@[k2]).file_id || v@[k1].tag_id != v@[k2].tag_id),
                    decreases ts@.len() - j,
                {
                    let t = ts[j];
                    proof {
                        assert(ts@.contains(t));
                    }
                    let ghost vpre = v@;
                    v.push(FileTag { tag_id: t, file_id: f });
                    proof {
                        assert forall|ff: i64, tt: i64|
                            has_link_row(vpre, ff, tt) implies has_link_row(v@, ff, tt) by {
                            let k = choose|k: int|
                                0 <= k < vpre.len() && (#[trigger] vpre[k]).file_id == ff
                                    && vpre[k].tag_id == tt;
                            assert(v@[k].file_id == ff && v@[k].tag_id == tt);
                        }
                    }
                    j += 1;
                }
                let ghost donepre = done@;
                done.push(f);
                proof {
                    assert forall|t: i64|
                        #[trigger] links_of(*conn).contains((f, t)) implies has_link_row(
                        v@,
                        f,
                        t,
                    ) by {
                        assert(ts@.contains(t));
                        let jj = choose|jj: int| 0 <= jj < ts@.len() && ts@[jj] == t;
                        assert(v@[base + jj].file_id == f && v@[base + jj].tag_id == ts@[jj]);
                    }
                    assert(done@[donepre.len() as int] == f);
                    assert(done@.contains(f));
                }
            } else {
                proof {
                    assert(done@.contains(f));
                }
            }
            i += 1;
        }
        proof {
            assert(files@.subrange(0, files@.len() as int) =~= files@);
            assert forall|ff: i64, t: i64|
                files@.contains(ff) && #[trigger] links_of(*conn).contains((ff, t))
                implies has_link_row(v@, ff, t) by {
                let ii = choose|ii: int| 0 <= ii < files@.len() && files@[ii] == ff;
                assert(done@.contains(files@[ii]));
            }
        }
        Ok(v)
    }
}

/// Law: cascade integrity for a tag. Removing every link of a tag and
/// then the tag's own row leaves no link referencing that tag id: the
/// unlink step removes exactly the referencing links, and deleting the
/// tag row touches no link at all.
pub proof fn lemma_tag_cascade_integrity(
    links_before: Set<(i64, i64)>,
    links_unlinked: Set<(i64, i64)>,
    links_deleted: Set<(i64, i64)>,
    tag_id: i64,
)
    requires
        links_unlinked == Set::new(|p: (i64, i64)| links_before.contains(p) && p.1 != tag_id),
        links_deleted == links_unlinked,
    ensures
        forall|f: i64| !links_deleted.contains((f, tag_id)),
{
}

/// Law: cascade integrity for a file. Removing every link of a file and
/// then the file's own row leaves no link referencing that file id.
pub proof fn lemma_file_cascade_integrity(
    links_before: Set<(i64, i64)>,
    links_unlinked: Set<(i64, i64)>,
    links_deleted: Set<(i64, i64)>,
    file_id: i64,
)
    requires
        links_unlinked == Set::new(|p: (i64, i64)| links_before.contains(p) && p.0 != file_id),
        links_deleted == links_unlinked,
    ensures
        forall|t: i64| !links_deleted.contains((file_id, t)),
{
}

} // verus!
