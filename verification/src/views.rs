//! The spec-level model of matching and hydration.
//!
//! Queries are judged against the table views: `tag_set_of` reads a
//! file's tag ids off the link view, the two match modes are stated over
//! that set, and `hydrated` says what a correctly filled tag list of a
//! result is. The laws of exact matching, inclusive matching and
//! hydration completeness are proved here once and for all views.

use vstd::prelude::*;

use crate::models::{File, Tag};
use crate::order::{lemma_asc_unique, strictly_asc};

verus! {

/// The set of tag ids linked to file `f`.
pub open spec fn tag_set_of(links: Set<(i64, i64)>, f: i64) -> Set<i64> {
    Set::new(|t: i64| links.contains((f, t)))
}

/// Inclusive match: the file carries at least one of the queried tags.
pub open spec fn matches_any(links: Set<(i64, i64)>, f: i64, q: Set<i64>) -> bool {
    exists|t: i64| q.contains(t) && #[trigger] links.contains((f, t))
}

/// Exact match: the file's tag set is the queried set itself — not a
/// superset, not a subset.
pub open spec fn matches_exactly(links: Set<(i64, i64)>, f: i64, q: Set<i64>) -> bool {
    tag_set_of(links, f) == q
}

/// The candidate set of one query: the catalogued files that match the
/// queried tag set in the given mode.
pub open spec fn candidate_set(
    filesv: Map<i64, Seq<char>>,
    links: Set<(i64, i64)>,
    q: Set<i64>,
    exact: bool,
) -> Set<i64> {
    Set::new(
        |f: i64|
            filesv.dom().contains(f) && (if exact {
                matches_exactly(links, f, q)
            } else {
                matches_any(links, f, q)
            }),
    )
}

/// The links that attaching the tag ids `ts` to file `f` creates.
pub open spec fn link_set(f: i64, ts: Seq<i64>) -> Set<(i64, i64)> {
    Set::new(|p: (i64, i64)| p.0 == f && ts.contains(p.1))
}

/// The ids of a tag list, in order.
pub open spec fn ids_of(tags: Seq<Tag>) -> Seq<i64> {
    tags.map_values(|t: Tag| t.id)
}

/// Whether the tag list holds a tag with the given id.
pub open spec fn has_tag_id(tags: Seq<Tag>, id: i64) -> bool {
    exists|k: int| 0 <= k < tags.len() && (#[trigger] tags[k]).id == id
}

/// Whether the tag list holds a tag with the given name.
pub open spec fn has_tag_named(tags: Seq<Tag>, nm: Seq<char>) -> bool {
    exists|k: int| 0 <= k < tags.len() && (#[trigger] tags[k]).name@ == nm
}

/// Whether some requested name reads as `nm`.
pub open spec fn names_include(names: Seq<String>, nm: Seq<char>) -> bool {
    exists|i: int| 0 <= i < names.len() && (#[trigger] names[i])@ == nm
}

/// A correctly hydrated tag list for file `f`: every entry is a
/// catalogued tag that is linked to `f` and carries the stored record's
/// name and timestamp, every linked catalogued tag appears, and no tag
/// id appears twice. The order is whatever the store handed back.
pub open spec fn hydrated(
    tags: Seq<Tag>,
    f: i64,
    links: Set<(i64, i64)>,
    tagsv: Map<i64, Seq<char>>,
    tstamps: Map<i64, Seq<char>>,
) -> bool {
    &&& forall|k: int|
        0 <= k < tags.len() ==> links.contains((f, (#[trigger] tags[k]).id))
            && tagsv.contains_pair(tags[k].id, tags[k].name@) && tstamps.contains_pair(
            tags[k].id,
            tags[k].created_at@,
        )
    &&& forall|t: i64|
        #[trigger] links.contains((f, t)) && tagsv.dom().contains(t) ==> exists|k: int|
            0 <= k < tags.len() && (#[trigger] tags[k]).id == t
    &&& ids_of(tags).no_duplicates()
}

/// The ids of a file result list, in order.
pub open spec fn file_ids(s: Seq<File>) -> Seq<i64> {
    s.map_values(|f: File| f.id)
}

/// Tag names are unique: no two tag ids carry the same name. The store
/// enforces this with a UNIQUE column; every directory view reached
/// through the library keeps it.
pub open spec fn tag_names_unique(tagsv: Map<i64, Seq<char>>) -> bool {
    forall|k1: i64, k2: i64|
        tagsv.dom().contains(k1) && tagsv.dom().contains(k2) && tagsv[k1] == tagsv[k2] ==> k1 == k2
}

/// The tag ids whose names the request names.
pub open spec fn tag_ids_named(tagsv: Map<i64, Seq<char>>, names: Seq<String>) -> Set<i64> {
    Set::new(|t: i64| tagsv.dom().contains(t) && names_include(names, tagsv[t]))
}

/// Adding a fresh id under an untaken name keeps tag names unique —
/// exactly what `Tag::create` ensures, so the invariant carries from an
/// empty directory through every creation.
pub proof fn lemma_unique_names_after_insert(tagsv: Map<i64, Seq<char>>, id: i64, nm: Seq<char>)
    requires
        tag_names_unique(tagsv),
        !tagsv.values().contains(nm),
        !tagsv.dom().contains(id),
    ensures
        tag_names_unique(tagsv.insert(id, nm)),
{
    assert forall|k1: i64, k2: i64|
        tagsv.insert(id, nm).dom().contains(k1) && tagsv.insert(id, nm).dom().contains(k2)
            && tagsv.insert(id, nm)[k1] == tagsv.insert(id, nm)[k2] implies k1 == k2 by {
        if k1 != k2 {
            if k1 == id {
                assert(tagsv.dom().contains(k2) && tagsv[k2] == nm);
                assert(tagsv.contains_value(nm));
            } else if k2 == id {
                assert(tagsv.dom().contains(k1) && tagsv[k1] == nm);
                assert(tagsv.contains_value(nm));
            }
        }
    }
}

/// Removing a row keeps tag names unique.
pub proof fn lemma_unique_names_after_remove(tagsv: Map<i64, Seq<char>>, id: i64)
    requires
        tag_names_unique(tagsv),
    ensures
        tag_names_unique(tagsv.remove(id)),
{
}

/// The requested ids that the file catalog actually has rows for.
pub open spec fn present_ids(ids: Seq<i64>, filesv: Map<i64, Seq<char>>) -> Set<i64> {
    Set::new(|f: i64| ids.contains(f) && filesv.dom().contains(f))
}

/// A correct query result record: a catalogued file row, with the
/// stored row's name and timestamps, carrying its hydrated tag list.
pub open spec fn file_record_ok(
    file: File,
    filesv: Map<i64, Seq<char>>,
    fstamps: Map<i64, (Seq<char>, Seq<char>)>,
    tagsv: Map<i64, Seq<char>>,
    tstamps: Map<i64, Seq<char>>,
    links: Set<(i64, i64)>,
) -> bool {
    &&& filesv.contains_pair(file.id, file.name@)
    &&& fstamps.contains_pair(file.id, (file.updated_at@, file.created_at@))
    &&& hydrated(file.tags@, file.id, links, tagsv, tstamps)
}

/// Law: exact-match correctness. Let `s` be the canonical ascending
/// listing of a file's tag ids and `q` a canonical ascending query
/// listing. The file matches the query set exactly iff the two listings
/// are element-wise equal — so the outcome hangs on the two id sets
/// alone, not on the order the caller named the tags in, and neither a
/// superset nor a subset of the query set matches.
pub proof fn lemma_exact_match_correctness(
    links: Set<(i64, i64)>,
    f: i64,
    s: Seq<i64>,
    q: Seq<i64>,
)
    requires
        strictly_asc(s),
        strictly_asc(q),
        forall|t: i64| #[trigger] s.contains(t) <==> tag_set_of(links, f).contains(t),
    ensures
        matches_exactly(links, f, q.to_set()) <==> s == q,
{
    if matches_exactly(links, f, q.to_set()) {
        assert forall|t: i64| #[trigger] s.contains(t) <==> q.contains(t) by {
            assert(q.to_set().contains(t) <==> q.contains(t));
        }
        lemma_asc_unique(s, q);
    }
    if s == q {
        assert forall|t: i64| q.to_set().contains(t) <==> tag_set_of(links, f).contains(t) by {
            assert(q.to_set().contains(t) <==> q.contains(t));
        }
        assert(tag_set_of(links, f) =~= q.to_set());
    }
}

/// Law: inclusive-match correctness. A file matches inclusively iff its
/// tag set and the query set intersect: one shared tag is enough.
pub proof fn lemma_inclusive_match_correctness(links: Set<(i64, i64)>, f: i64, q: Set<i64>)
    ensures
        matches_any(links, f, q) <==> tag_set_of(links, f).intersect(q) != Set::<i64>::empty(),
{
    if matches_any(links, f, q) {
        let t = choose|t: i64| q.contains(t) && #[trigger] links.contains((f, t));
        assert(tag_set_of(links, f).intersect(q).contains(t));
        assert(!Set::<i64>::empty().contains(t));
    }
    if tag_set_of(links, f).intersect(q) != Set::<i64>::empty() {
        if !matches_any(links, f, q) {
            assert forall|t: i64| !(#[trigger] tag_set_of(links, f).intersect(q).contains(t)) by {
                assert(!(q.contains(t) && links.contains((f, t))));
            }
            assert(tag_set_of(links, f).intersect(q) =~= Set::<i64>::empty());
        }
    }
}

/// Law: hydration completeness. Under referential integrity — every
/// linked tag id is catalogued — a hydrated tag list holds exactly the
/// tag ids that are linked to the file: none missing, none extra, none
/// twice, whichever tag ids the query filtered by.
pub proof fn lemma_hydration_complete(
    tags: Seq<Tag>,
    f: i64,
    links: Set<(i64, i64)>,
    tagsv: Map<i64, Seq<char>>,
    tstamps: Map<i64, Seq<char>>,
)
    requires
        hydrated(tags, f, links, tagsv, tstamps),
        forall|t: i64| #[trigger] links.contains((f, t)) ==> tagsv.dom().contains(t),
    ensures
        forall|t: i64| ids_of(tags).contains(t) <==> #[trigger] links.contains((f, t)),
        ids_of(tags).no_duplicates(),
{
    assert forall|t: i64| ids_of(tags).contains(t) <==> #[trigger] links.contains((f, t)) by {
        if ids_of(tags).contains(t) {
            let k = choose|k: int| 0 <= k < ids_of(tags).len() && ids_of(tags)[k] == t;
            assert(tags[k].id == t);
            assert(links.contains((f, tags[k].id)));
        }
        if links.contains((f, t)) {
            let k = choose|k: int| 0 <= k < tags.len() && (#[trigger] tags[k]).id == t;
            assert(ids_of(tags)[k] == t);
            assert(ids_of(tags).contains(t));
        }
    }
}

} // verus!
