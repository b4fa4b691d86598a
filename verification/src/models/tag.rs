//! The tag directory: tag records keyed by id, with unique names.

use vstd::prelude::*;

use crate::store::{self, file_stamps_of, files_of, in_tx, links_of, tag_stamps_of, tags_of};
use crate::views::{has_tag_id, has_tag_named, hydrated, ids_of, names_include};
use crate::{storage_error, CatalogError};

verus! {

/// A tag record as the directory stores it: a stable id, a unique name,
/// and its creation timestamp as the store renders it.
#[derive(Debug)]
pub struct Tag {
    pub id: i64,
    pub name: String,
    pub created_at: String,
}

/// Whether the resolved list already holds a tag with the given name.
pub(crate) fn tags_include_name(v: &Vec<Tag>, name: &String) -> (b: bool)
    ensures
        b == has_tag_named(v@, name@),
{
    let mut k: usize = 0;
    while k < v.len()
        invariant
            k <= v@.len(),
            forall|j: int| 0 <= j < k ==> (#[trigger] v@[j]).name@ != name@,
        decreases v@.len() - k,
    {
        if v[k].name == *name {
            proof {
                assert((#[trigger] v@[k as int]).name@ == name@);
            }
            return true;
        }
        k += 1;
    }
    false
}

/// Whether the resolved list already holds a tag with the given id.
pub(crate) fn tags_include_id(v: &Vec<Tag>, id: i64) -> (b: bool)
    ensures
        b == has_tag_id(v@, id),
{
    let mut k: usize = 0;
    while k < v.len()
        invariant
            k <= v@.len(),
            forall|j: int| 0 <= j < k ==> (#[trigger] v@[j]).id != id,
        decreases v@.len() - k,
    {
        if v[k].id == id {
            proof {
                assert((#[trigger] v@[k as int]).id == id);
            }
            return true;
        }
        k += 1;
    }
    false
}

impl Tag {
    /// Creates a tag with the given name. The name must not be taken: a
    /// taken name is refused as `Duplicate` and nothing changes. On
    /// success the directory grows by exactly the one fresh record that
    /// is returned; files and links are untouched.
    pub fn create(name: &str, conn: &mut rusqlite::Connection) -> (r: Result<Tag, CatalogError>)
        requires
            !in_tx(*old(conn)),
        ensures
            !in_tx(*final(conn)),
            r matches Ok(t) ==> ({
                &&& t.name@ == name@
                &&& !tags_of(*old(conn)).dom().contains(t.id)
                &&& !tags_of(*old(conn)).values().contains(name@)
                &&& tags_of(*final(conn)) == tags_of(*old(conn)).insert(t.id, name@)
                &&& tag_stamps_of(*final(conn)) == tag_stamps_of(*old(conn)).insert(
                    t.id,
                    t.created_at@,
                )
                &&& files_of(*final(conn)) == files_of(*old(conn))
                &&& links_of(*final(conn)) == links_of(*old(conn))
                &&& file_stamps_of(*final(conn)) == file_stamps_of(*old(conn))
            }),
            r matches Err(e) ==> ({
                &&& e is Duplicate || e is Storage
                &&& e is Duplicate ==> tags_of(*old(conn)).values().contains(name@)
                &&& files_of(*final(conn)) == files_of(*old(conn))
                &&& tags_of(*final(conn)) == tags_of(*old(conn))
                &&& links_of(*final(conn)) == links_of(*old(conn))
                &&& file_stamps_of(*final(conn)) == file_stamps_of(*old(conn))
                &&& tag_stamps_of(*final(conn)) == tag_stamps_of(*old(conn))
            }),
    {
        match store::sql_tag_by_name(conn, name) {
            Err(e) => Err(storage_error(e)),
            Ok(Some(t)) => {
                proof {
                    assert(tags_of(*old(conn)).dom().contains(t.id));
                    assert(tags_of(*old(conn)).values().contains(name@));
                }
                Err(CatalogError::Duplicate)
            },
            Ok(None) => match store::sql_insert_tag(conn, name) {
                Ok(t) => Ok(t),
                Err(e) => Err(storage_error(e)),
            },
        }
    }

    /// Looks a tag up by name; `None` means no tag has the name.
    pub fn find_by_name(name: &str, conn: &rusqlite::Connection) -> (r: Result<
        Option<Tag>,
        CatalogError,
    >)
        ensures
            r matches Ok(Some(t)) ==> ({
                &&& tags_of(*conn).contains_pair(t.id, t.name@)
                &&& tag_stamps_of(*conn).contains_pair(t.id, t.created_at@)
                &&& t.name@ == name@
            }),
            r matches Ok(None) ==> !tags_of(*conn).values().contains(name@),
            r matches Err(e) ==> e is Storage,
    {
        match store::sql_tag_by_name(conn, name) {
            Ok(o) => Ok(o),
            Err(e) => Err(storage_error(e)),
        }
    }

    /// Removes every link that references this tag: the cascade step
    /// that must precede deleting the tag itself. Files and tags are
    /// untouched.
    pub fn unlink_all_files(&self, conn: &mut rusqlite::Connection) -> (r: Result<
        (),
        CatalogError,
    >)
        requires
            !in_tx(*old(conn)),
        ensures
            !in_tx(*final(conn)),
            r is Ok ==> ({
                &&& links_of(*final(conn)) == Set::new(
                    |p: (i64, i64)| links_of(*old(conn)).contains(p) && p.1 != self.id,
                )
                &&& files_of(*final(conn)) == files_of(*old(conn))
                &&& tags_of(*final(conn)) == tags_of(*old(conn))
                &&& file_stamps_of(*final(conn)) == file_stamps_of(*old(conn))
                &&& tag_stamps_of(*final(conn)) == tag_stamps_of(*old(conn))
            }),
            r matches Err(e) ==> ({
                &&& e is Storage
                &&& files_of(*final(conn)) == files_of(*old(conn))
                &&& tags_of(*final(conn)) == tags_of(*old(conn))
                &&& links_of(*final(conn)) == links_of(*old(conn))
                &&& file_stamps_of(*final(conn)) == file_stamps_of(*old(conn))
                &&& tag_stamps_of(*final(conn)) == tag_stamps_of(*old(conn))
            }),
    {
        match store::sql_delete_links_of_tag(conn, self.id) {
            Ok(u) => Ok(u),
            Err(e) => Err(storage_error(e)),
        }
    }

    /// Deletes the tag's own row. The cascade must have run first: no
    /// link may reference the tag any more, since a link must not
    /// outlive either of its endpoints.
    pub fn delete(&self, conn: &mut rusqlite::Connection) -> (r: Result<(), CatalogError>)
        requires
            forall|f: i64| !links_of(*old(conn)).contains((f, self.id)),
            !in_tx(*old(conn)),
        ensures
            !in_tx(*final(conn)),
            r is Ok ==> ({
                &&& tags_of(*final(conn)) == tags_of(*old(conn)).remove(self.id)
                &&& tag_stamps_of(*final(conn)) == tag_stamps_of(*old(conn)).remove(self.id)
                &&& files_of(*final(conn)) == files_of(*old(conn))
                &&& links_of(*final(conn)) == links_of(*old(conn))
                &&& file_stamps_of(*final(conn)) == file_stamps_of(*old(conn))
            }),
            r matches Err(e) ==> ({
                &&& e is Storage
                &&& files_of(*final(conn)) == files_of(*old(conn))
                &&& tags_of(*final(conn)) == tags_of(*old(conn))
                &&& links_of(*final(conn)) == links_of(*old(conn))
                &&& file_stamps_of(*final(conn)) == file_stamps_of(*old(conn))
                &&& tag_stamps_of(*final(conn)) == tag_stamps_of(*old(conn))
            }),
    {
        match store::sql_delete_tag(conn, self.id) {
            Ok(u) => Ok(u),
            Err(e) => Err(storage_error(e)),
        }
    }

    /// Whether any file is still linked to this tag.
    pub fn has_related_files(&self, conn: &rusqlite::Connection) -> (r: Result<bool, CatalogError>)
        ensures
            r matches Ok(b) ==> (b <==> exists|f: i64|
                #[trigger] links_of(*conn).contains((f, self.id))),
            r matches Err(e) ==> e is Storage,
    {
        let fs = match store::sql_file_ids_of_tag(conn, self.id) {
            Ok(fs) => fs,
            Err(e) => {
                return Err(storage_error(e));
            },
        };
        if fs.len() > 0 {
            proof {
                assert(fs@.contains(fs@[0]));
            }
            Ok(true)
        } else {
            proof {
                if exists|f: i64| #[trigger] links_of(*conn).contains((f, self.id)) {
                    let f = choose|f: i64| #[trigger] links_of(*conn).contains((f, self.id));
                    assert(fs@.contains(f));
                }
            }
            Ok(false)
        }
    }

    /// Looks a tag up by name; an absent name is refused as
    /// `UnknownName`.
    pub fn extract_from_name(name: &str, conn: &rusqlite::Connection) -> (r: Result<
        Tag,
        CatalogError,
    >)
        ensures
            r matches Ok(t) ==> ({
                &&& tags_of(*conn).contains_pair(t.id, t.name@)
                &&& tag_stamps_of(*conn).contains_pair(t.id, t.created_at@)
                &&& t.name@ == name@
            }),
            r matches Err(e) ==> ({
                &&& e is UnknownName || e is Storage
                &&& e is UnknownName ==> !tags_of(*conn).values().contains(name@)
            }),
    {
        match Tag::find_by_name(name, conn) {
            Ok(Some(t)) => Ok(t),
            Ok(None) => Err(CatalogError::UnknownName),
            Err(e) => Err(e),
        }
    }

    /// Resolves a batch of names to tag records: one record per
    /// distinct requested name that a tag bears, in first-request
    /// order. Names no tag has are silently skipped — the caller
    /// detects misses by comparing the result against the request.
    pub fn find_all_where_in_names(names: &Vec<String>, conn: &rusqlite::Connection) -> (r: Result<
        Vec<Tag>,
        CatalogError,
    >)
        ensures
            r matches Ok(v) ==> ({
                &&& forall|k: int|
                    0 <= k < v@.len() ==> tags_of(*conn).contains_pair(
                        (#[trigger] v@[k]).id,
                        v@[k].name@,
                    ) && tag_stamps_of(*conn).contains_pair(v@[k].id, v@[k].created_at@)
                        && names_include(names@, v@[k].name@)
                &&& forall|i: int|
                    0 <= i < names@.len() && tags_of(*conn).values().contains(
                        (#[trigger] names@[i])@,
                    ) ==> has_tag_named(v@, names@[i]@)
                &&& forall|k1: int, k2: int|
                    0 <= k1 < k2 < v@.len() ==> (#[trigger] v@[k1]).name@ != (
                    #[trigger] v@[k2]).name@
                &&& ids_of(v@).no_duplicates()
            }),
            r matches Err(e) ==> e is Storage,
    {
        let mut v: Vec<Tag> = Vec::new();
        let mut i: usize = 0;
        while i < names.len()
            invariant
                i <= names@.len(),
                forall|k: int|
                    0 <= k < v@.len() ==> tags_of(*conn).contains_pair(
                        (#[trigger] v@[k]).id,
                        v@[k].name@,
                    ) && tag_stamps_of(*conn).contains_pair(v@[k].id, v@[k].created_at@)
                        && names_include(names@, v@[k].name@),
                forall|ii: int|
                    0 <= ii < i && tags_of(*conn).values().contains((#[trigger] names@[ii])@)
                        ==> has_tag_named(v@, names@[ii]@),
                forall|k1: int, k2: int|
                    0 <= k1 < k2 < v@.len() ==> (#[trigger] v@[k1]).name@ != (
                    #[trigger] v@[k2]).name@,
            decreases names@.len() - i,
        {
            if !tags_include_name(&v, &names[i]) {
                match store::sql_tag_by_name(conn, names[i].as_str()) {
                    Ok(Some(t)) => {
                        let ghost vpre = v@;
                        proof {
                            assert((#[trigger] names@[i as int])@ == t.name@);
                            assert(names@.contains(names@[i as int]));
                        }
                        v.push(t);
                        proof {
                            assert forall|nm: Seq<char>|
                                has_tag_named(vpre, nm) implies has_tag_named(v@, nm) by {
                                let k = choose|k: int|
                                    0 <= k < vpre.len() && (#[trigger] vpre[k]).name@ == nm;
                                assert(v@[k].name@ == nm);
                            }
                            assert(v@[vpre.len() as int].name@ == names@[i as int]@);
                            assert(has_tag_named(v@, names@[i as int]@));
                        }
                    },
                    Ok(None) => {
                        proof {
                            assert(!tags_of(*conn).values().contains(names@[i as int]@));
                        }
                    },
                    Err(e) => {
                        return Err(storage_error(e));
                    },
                }
            } else {
                proof {
                    assert(has_tag_named(v@, names@[i as int]@));
                }
            }
            i += 1;
        }
        proof {
            // distinct names force distinct ids: the directory maps each
            // id to a single name
            assert forall|k1: int, k2: int|
                0 <= k1 < v@.len() && 0 <= k2 < v@.len() && k1 != k2 implies ids_of(v@)[k1]
                != ids_of(v@)[k2] by {
                assert(ids_of(v@)[k1] == v@[k1].id);
                assert(ids_of(v@)[k2] == v@[k2].id);
                if v@[k1].id == v@[k2].id {
                    assert(tags_of(*conn).contains_pair(v@[k1].id, v@[k1].name@));
                    assert(tags_of(*conn).contains_pair(v@[k2].id, v@[k2].name@));
                }
            }
        }
        Ok(v)
    }

    /// Resolves a batch of tag ids to tag records: one record per
    /// distinct requested id the directory has, in first-request order.
    /// Absent ids are silently skipped.
    pub fn find_all_where_in_ids(ids: &Vec<i64>, conn: &rusqlite::Connection) -> (r: Result<
        Vec<Tag>,
        CatalogError,
    >)
        ensures
            r matches Ok(v) ==> ({
                &&& forall|k: int|
                    0 <= k < v@.len() ==> tags_of(*conn).contains_pair(
                        (#[trigger] v@[k]).id,
                        v@[k].name@,
                    ) && tag_stamps_of(*conn).contains_pair(v@[k].id, v@[k].created_at@)
                        && ids@.contains(v@[k].id)
                &&& forall|i: int|
                    0 <= i < ids@.len() && tags_of(*conn).dom().contains(#[trigger] ids@[i])
                        ==> has_tag_id(v@, ids@[i])
                &&& ids_of(v@).no_duplicates()
            }),
            r matches Err(e) ==> e is Storage,
    {
        let mut v: Vec<Tag> = Vec::new();
        let mut i: usize = 0;
        while i < ids.len()
            invariant
                i <= ids@.len(),
                forall|k: int|
                    0 <= k < v@.len() ==> tags_of(*conn).contains_pair(
                        (#[trigger] v@[k]).id,
                        v@[k].name@,
                    ) && tag_stamps_of(*conn).contains_pair(v@[k].id, v@[k].created_at@)
                        && ids@.contains(v@[k].id),
                forall|ii: int|
                    0 <= ii < i && tags_of(*conn).dom().contains(#[trigger] ids@[ii])
                        ==> has_tag_id(v@, ids@[ii]),
                forall|k1: int, k2: int|
                    0 <= k1 < k2 < v@.len() ==> (#[trigger] v@[k1]).id != (#[trigger] v@[k2]).id,
            decreases ids@.len() - i,
        {
            if !tags_include_id(&v, ids[i]) {
                match store::sql_tag_by_id(conn, ids[i]) {
                    Ok(Some(t)) => {
                        let ghost vpre = v@;
                        proof {
                            assert(ids@.contains(ids@[i as int]));
                        }
                        v.push(t);
                        proof {
                            assert forall|id: i64|
                                has_tag_id(vpre, id) implies has_tag_id(v@, id) by {
                                let k = choose|k: int|
                                    0 <= k < vpre.len() && (#[trigger] vpre[k]).id == id;
                                assert(v@[k].id == id);
                            }
                            assert(v@[vpre.len() as int].id == ids@[i as int]);
                            assert(has_tag_id(v@, ids@[i as int]));
                        }
                    },
                    Ok(None) => {},
                    Err(e) => {
                        return Err(storage_error(e));
                    },
                }
            } else {
                proof {
                    assert(has_tag_id(v@, ids@[i as int]));
                }
            }
            i += 1;
        }
        proof {
            assert forall|k1: int, k2: int|
                0 <= k1 < v@.len() && 0 <= k2 < v@.len() && k1 != k2 implies ids_of(v@)[k1]
                != ids_of(v@)[k2] by {
                assert(ids_of(v@)[k1] == v@[k1].id);
                assert(ids_of(v@)[k2] == v@[k2].id);
            }
        }
        Ok(v)
    }

    /// The tags linked to a file, hydrated from the relationship index:
    /// exactly the catalogued tags whose link row exists, each once, in
    /// the order the store handed the rows back.
    pub fn find_related_to_file(file: i64, conn: &rusqlite::Connection) -> (r: Result<
        Vec<Tag>,
        CatalogError,
    >)
        ensures
            r matches Ok(v) ==> hydrated(
                v@,
                file,
                links_of(*conn),
                tags_of(*conn),
                tag_stamps_of(*conn),
            ),
            r matches Err(e) ==> e is Storage,
    {
        let ids = match store::sql_tag_ids_of_file(conn, file) {
            Ok(ids) => ids,
            Err(e) => {
                return Err(storage_error(e));
            },
        };
        let mut v: Vec<Tag> = Vec::new();
        let mut i: usize = 0;
        while i < ids.len()
            invariant
                i <= ids@.len(),
                ids@.no_duplicates(),
                forall|t: i64| #[trigger] ids@.contains(t) <==> links_of(*conn).contains(
                    (file, t),
                ),
                forall|k: int|
                    0 <= k < v@.len() ==> links_of(*conn).contains(
                        (file, (#[trigger] v@[k]).id),
                    ) && tags_of(*conn).contains_pair(v@[k].id, v@[k].name@) && tag_stamps_of(
                        *conn,
                    ).contains_pair(v@[k].id, v@[k].created_at@),
                forall|k: int|
                    0 <= k < v@.len() ==> ids@.subrange(0, i as int).contains(
                        (#[trigger] v@[k]).id,
                    ),
                forall|ii: int|
                    #![trigger tags_of(*conn).dom().contains(ids@[ii])]
                    0 <= ii < i && tags_of(*conn).dom().contains(ids@[ii])
                        ==> exists|k: int| 0 <= k < v@.len() && (#[trigger] v@[k]).id == ids@[ii],
                ids_of(v@).no_duplicates(),
            decreases ids@.len() - i,
        {
            match store::sql_tag_by_id(conn, ids[i]) {
                Ok(Some(t)) => {
                    let ghost vpre = v@;
                    proof {
                        assert(ids@.contains(ids@[i as int]));
                        assert forall|k: int| 0 <= k < vpre.len() implies (#[trigger] vpre[k]).id
                            != ids@[i as int] by {
                            if vpre[k].id == ids@[i as int] {
                                let jj = choose|jj: int|
                                    0 <= jj < i && #[trigger] ids@.subrange(0, i as int)[jj]
                                        == vpre[k].id;
                                assert(ids@[jj] == ids@[i as int]);
                            }
                        }
                    }
                    v.push(t);
                    proof {
                        assert forall|k: int|
                            0 <= k < v@.len() implies ids@.subrange(0, i + 1).contains(
                            (#[trigger] v@[k]).id,
                        ) by {
                            if k < vpre.len() {
                                let jj = choose|jj: int|
                                    0 <= jj < i && #[trigger] ids@.subrange(0, i as int)[jj]
                                        == vpre[k].id;
                                assert(ids@.subrange(0, i + 1)[jj] == v@[k].id);
                            } else {
                                assert(ids@.subrange(0, i + 1)[i as int] == v@[k].id);
                            }
                        }
                        assert forall|ii: int|
                            0 <= ii < i + 1 && tags_of(*conn).dom().contains(#[trigger] ids@[ii])
                            implies exists|k: int|
                            0 <= k < v@.len() && (#[trigger] v@[k]).id == ids@[ii] by {
                            if ii < i {
                                let k = choose|k: int|
                                    0 <= k < vpre.len() && (#[trigger] vpre[k]).id == ids@[ii];
                                assert(v@[k].id == ids@[ii]);
                            } else {
                                assert(v@[vpre.len() as int].id == ids@[ii]);
                            }
                        }
                        assert(ids_of(v@) =~= ids_of(vpre).push(t.id));
                        assert forall|k1: int, k2: int|
                            0 <= k1 < v@.len() && 0 <= k2 < v@.len() && k1 != k2 implies ids_of(
                            v@,
                        )[k1] != ids_of(v@)[k2] by {
                            assert(ids_of(v@)[k1] == v@[k1].id);
                            assert(ids_of(v@)[k2] == v@[k2].id);
                        }
                    }
                },
                Ok(None) => {},
                Err(e) => {
                    return Err(storage_error(e));
                },
            }
            i += 1;
        }
        proof {
            assert(ids@.subrange(0, ids@.len() as int) =~= ids@);
            assert forall|t: i64|
                #[trigger] links_of(*conn).contains((file, t)) && tags_of(*conn).dom().contains(t)
                implies exists|k: int| 0 <= k < v@.len() && (#[trigger] v@[k]).id == t by {
                assert(ids@.contains(t));
                let ii = choose|ii: int| 0 <= ii < ids@.len() && ids@[ii] == t;
                assert(tags_of(*conn).dom().contains(ids@[ii]));
            }
        }
        Ok(v)
    }

    /// Every tag in the directory, each id once, in the order the store
    /// handed the rows back.
    pub fn all(conn: &rusqlite::Connection) -> (r: Result<Vec<Tag>, CatalogError>)
        ensures
            r matches Ok(v) ==> ({
                &&& ids_of(v@).no_duplicates()
                &&& forall|k: int|
                    0 <= k < v@.len() ==> tags_of(*conn).contains_pair(
                        (#[trigger] v@[k]).id,
                        v@[k].name@,
                    ) && tag_stamps_of(*conn).contains_pair(v@[k].id, v@[k].created_at@)
                &&& forall|id: i64|
                    #[trigger] tags_of(*conn).dom().contains(id) ==> exists|k: int|
                        0 <= k < v@.len() && (#[trigger] v@[k]).id == id
            }),
            r matches Err(e) ==> e is Storage,
    {
        match store::sql_all_tags(conn) {
            Ok(v) => Ok(v),
            Err(e) => Err(storage_error(e)),
        }
    }

    /// Whether a tag with the given name exists.
    pub fn name_exists(name: &str, conn: &rusqlite::Connection) -> (r: Result<bool, CatalogError>)
        ensures
            r matches Ok(b) ==> (b <==> tags_of(*conn).values().contains(name@)),
            r matches Err(e) ==> e is Storage,
    {
        match store::sql_tag_by_name(conn, name) {
            Ok(Some(_)) => Ok(true),
            Ok(None) => Ok(false),
            Err(e) => Err(storage_error(e)),
        }
    }
}

} // verus!
