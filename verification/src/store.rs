//! The trusted boundary around the relational store.
//!
//! The catalog keeps its state in three SQLite tables reached through one
//! `rusqlite::Connection`. The connection is opaque to the verifier, so this
//! module gives its contents names — `files_of`, `tags_of` and `links_of`,
//! one view per table, plus `file_stamps_of` and `tag_stamps_of` for the
//! timestamp columns — and wraps each primitive statement the catalog
//! issues in a function whose contract states, over those views, what the
//! statement does. Every wrapper's body is a single statement against the
//! store plus the conversion of its arguments and rows; nothing else in the
//! crate touches rusqlite.
//!
//! The views are functions of the `Connection` value and include the
//! connection's own uncommitted work. Reading the store through them is
//! sound only while that connection is the store's sole access path — the
//! serialized-access discipline the catalog prescribes, which the service
//! follows by guarding its one connection with a mutex. A sixth name,
//! `in_tx`, tracks whether an explicit transaction is open on the
//! connection: a statement that fails inside an open transaction may have
//! the whole transaction rolled back by the store itself, so the
//! "a failed statement changes nothing" clauses hold only in autocommit
//! mode and are stated so.

use vstd::prelude::*;

use crate::models::{File, Tag};
use rusqlite::OptionalExtension;

verus! {

#[verifier::external_type_specification]
#[verifier::external_body]
pub struct ExConnection(rusqlite::Connection);

#[verifier::external_type_specification]
#[verifier::external_body]
pub struct ExSqlError(rusqlite::Error);

/// The rows of the `files` table: file id to file name.
pub uninterp spec fn files_of(c: rusqlite::Connection) -> Map<i64, Seq<char>>;

/// The rows of the `tags` table: tag id to tag name.
pub uninterp spec fn tags_of(c: rusqlite::Connection) -> Map<i64, Seq<char>>;

/// The rows of the `file_tags` table: the set of (file id, tag id) links.
pub uninterp spec fn links_of(c: rusqlite::Connection) -> Set<(i64, i64)>;

/// The timestamp columns of the `files` table: file id to its
/// (updated_at, created_at) pair of timestamp texts.
pub uninterp spec fn file_stamps_of(c: rusqlite::Connection) -> Map<i64, (Seq<char>, Seq<char>)>;

/// The created_at column of the `tags` table: tag id to its timestamp text.
pub uninterp spec fn tag_stamps_of(c: rusqlite::Connection) -> Map<i64, Seq<char>>;

/// Whether an explicit transaction is open on the connection — that is,
/// whether SQLite's autocommit mode is off. Opened by BEGIN, closed by
/// COMMIT or ROLLBACK.
pub uninterp spec fn in_tx(c: rusqlite::Connection) -> bool;

/// Relies on rusqlite::Error's Display impl, for the storage-fault message.
#[verifier::external_body]
pub(crate) fn sql_error_text(e: &rusqlite::Error) -> String {
    format!("{}", e)
}

/// Relies on rusqlite::Connection::open_in_memory: a fresh in-memory
/// database holds no rows in any table, and a fresh connection starts in
/// autocommit mode with no transaction open.
#[verifier::external_body]
pub(crate) fn sql_open_in_memory() -> (r: Result<rusqlite::Connection, rusqlite::Error>)
    ensures
        r matches Ok(c) ==> ({
            &&& files_of(c) == Map::<i64, Seq<char>>::empty()
            &&& tags_of(c) == Map::<i64, Seq<char>>::empty()
            &&& links_of(c) == Set::<(i64, i64)>::empty()
            &&& file_stamps_of(c) == Map::<i64, (Seq<char>, Seq<char>)>::empty()
            &&& tag_stamps_of(c) == Map::<i64, Seq<char>>::empty()
            &&& !in_tx(c)
        }),
{
    rusqlite::Connection::open_in_memory()
}

/// Relies on rusqlite::Connection::execute_batch, running the CREATE TABLE
/// statements of the catalog schema in autocommit mode: table definition
/// adds no rows and opens no transaction, so all views are left as they
/// were whether or not it succeeds.
#[verifier::external_body]
pub(crate) fn sql_create_schema(c: &mut rusqlite::Connection) -> (r: Result<(), rusqlite::Error>)
    requires
        !in_tx(*old(c)),
    ensures
        files_of(*final(c)) == files_of(*old(c)),
        tags_of(*final(c)) == tags_of(*old(c)),
        links_of(*final(c)) == links_of(*old(c)),
        file_stamps_of(*final(c)) == file_stamps_of(*old(c)),
        tag_stamps_of(*final(c)) == tag_stamps_of(*old(c)),
        !in_tx(*final(c)),
{
    c.execute_batch(
        "CREATE TABLE IF NOT EXISTS files (
             id INTEGER PRIMARY KEY AUTOINCREMENT,
             name TEXT UNIQUE NOT NULL,
             updated_at TEXT NOT NULL DEFAULT (datetime('now')),
             created_at TEXT NOT NULL DEFAULT (datetime('now')));
         CREATE TABLE IF NOT EXISTS tags (
             id INTEGER PRIMARY KEY AUTOINCREMENT,
             name TEXT UNIQUE NOT NULL,
             created_at TEXT NOT NULL DEFAULT (datetime('now')));
         CREATE TABLE IF NOT EXISTS file_tags (
             file_id INTEGER NOT NULL,
             tag_id INTEGER NOT NULL,
             PRIMARY KEY (file_id, tag_id));",
    )
}

/// Relies on rusqlite::Connection::query_row running a single
/// INSERT INTO tags ... RETURNING statement in autocommit mode: on
/// success exactly one tag row with a fresh id and the given name was
/// added (the name column is UNIQUE, so a duplicate is refused) and that
/// row is returned; a failed statement is rolled back by itself and
/// leaves every table as it was, and neither outcome opens a
/// transaction.
#[verifier::external_body]
pub(crate) fn sql_insert_tag(c: &mut rusqlite::Connection, name: &str) -> (r: Result<
    Tag,
    rusqlite::Error,
>)
    requires
        !in_tx(*old(c)),
    ensures
        !in_tx(*final(c)),
        r matches Ok(t) ==> ({
            &&& !tags_of(*old(c)).dom().contains(t.id)
            &&& !tags_of(*old(c)).values().contains(name@)
            &&& t.name@ == name@
            &&& tags_of(*final(c)) == tags_of(*old(c)).insert(t.id, name@)
            &&& tag_stamps_of(*final(c)) == tag_stamps_of(*old(c)).insert(t.id, t.created_at@)
            &&& files_of(*final(c)) == files_of(*old(c))
            &&& links_of(*final(c)) == links_of(*old(c))
            &&& file_stamps_of(*final(c)) == file_stamps_of(*old(c))
        }),
        r is Err ==> ({
            &&& files_of(*final(c)) == files_of(*old(c))
            &&& tags_of(*final(c)) == tags_of(*old(c))
            &&& links_of(*final(c)) == links_of(*old(c))
            &&& file_stamps_of(*final(c)) == file_stamps_of(*old(c))
            &&& tag_stamps_of(*final(c)) == tag_stamps_of(*old(c))
        }),
{
    c.query_row(
        "INSERT INTO tags (name) VALUES (?1) RETURNING id, name, created_at",
        (name,),
        |row| Ok(Tag { id: row.get(0)?, name: row.get(1)?, created_at: row.get(2)? }),
    )
}

/// Relies on rusqlite::Connection::query_row (SELECT from tags by name)
/// with OptionalExtension::optional: returns the row whose UNIQUE name
/// matches, or nothing when no tag has the name.
#[verifier::external_body]
pub(crate) fn sql_tag_by_name(c: &rusqlite::Connection, name: &str) -> (r: Result<
    Option<Tag>,
    rusqlite::Error,
>)
    ensures
        r matches Ok(Some(t)) ==> ({
            &&& tags_of(*c).contains_pair(t.id, t.name@)
            &&& tag_stamps_of(*c).contains_pair(t.id, t.created_at@)
            &&& t.name@ == name@
        }),
        r matches Ok(None) ==> !tags_of(*c).values().contains(name@),
{
    c.query_row(
        "SELECT id, name, created_at FROM tags WHERE name = ?1",
        (name,),
        |row| Ok(Tag { id: row.get(0)?, name: row.get(1)?, created_at: row.get(2)? }),
    ).optional()
}

/// Relies on rusqlite::Connection::query_row (SELECT from tags by id)
/// with OptionalExtension::optional: returns the row keyed by the id, or
/// nothing when the id is absent.
#[verifier::external_body]
pub(crate) fn sql_tag_by_id(c: &rusqlite::Connection, id: i64) -> (r: Result<
    Option<Tag>,
    rusqlite::Error,
>)
    ensures
        r matches Ok(Some(t)) ==> ({
            &&& t.id == id
            &&& tags_of(*c).contains_pair(id, t.name@)
            &&& tag_stamps_of(*c).contains_pair(id, t.created_at@)
        }),
        r matches Ok(None) ==> !tags_of(*c).dom().contains(id),
{
    c.query_row(
        "SELECT id, name, created_at FROM tags WHERE id = ?1",
        (id,),
        |row| Ok(Tag { id: row.get(0)?, name: row.get(1)?, created_at: row.get(2)? }),
    ).optional()
}

/// Relies on rusqlite::Connection::query_row running a single
/// INSERT INTO files ... RETURNING statement: on success exactly one file
/// row with a fresh id and the given name was added (the name column is
/// UNIQUE, so a duplicate is refused) and that row is returned. In
/// autocommit mode a failed statement is rolled back by itself and
/// leaves every table as it was; inside an open transaction the store
/// may roll the whole transaction back on a failure, so nothing is
/// claimed of that state. The row carries no tag list.
#[verifier::external_body]
pub(crate) fn sql_insert_file(c: &mut rusqlite::Connection, name: &str) -> (r: Result<
    File,
    rusqlite::Error,
>)
    ensures
        !in_tx(*old(c)) ==> !in_tx(*final(c)),
        r matches Ok(f) ==> ({
            &&& !files_of(*old(c)).dom().contains(f.id)
            &&& !files_of(*old(c)).values().contains(name@)
            &&& f.name@ == name@
            &&& f.tags@ == Seq::<Tag>::empty()
            &&& files_of(*final(c)) == files_of(*old(c)).insert(f.id, name@)
            &&& file_stamps_of(*final(c)) == file_stamps_of(*old(c)).insert(
                f.id,
                (f.updated_at@, f.created_at@),
            )
            &&& tags_of(*final(c)) == tags_of(*old(c))
            &&& links_of(*final(c)) == links_of(*old(c))
            &&& tag_stamps_of(*final(c)) == tag_stamps_of(*old(c))
        }),
        r is Err && !in_tx(*old(c)) ==> ({
            &&& files_of(*final(c)) == files_of(*old(c))
            &&& tags_of(*final(c)) == tags_of(*old(c))
            &&& links_of(*final(c)) == links_of(*old(c))
            &&& file_stamps_of(*final(c)) == file_stamps_of(*old(c))
            &&& tag_stamps_of(*final(c)) == tag_stamps_of(*old(c))
        }),
{
    c.query_row(
        "INSERT INTO files (name) VALUES (?1) RETURNING id, name, updated_at, created_at",
        (name,),
        |row| Ok(File {
            id: row.get(0)?,
            name: row.get(1)?,
            tags: Vec::new(),
            updated_at: row.get(2)?,
            created_at: row.get(3)?,
        }),
    )
}

/// Relies on rusqlite::Connection::query_row (SELECT from files by id)
/// with OptionalExtension::optional: returns the row keyed by the id, or
/// nothing when the id is absent. The row carries no tag list.
#[verifier::external_body]
pub(crate) fn sql_file_by_id(c: &rusqlite::Connection, id: i64) -> (r: Result<
    Option<File>,
    rusqlite::Error,
>)
    ensures
        r matches Ok(Some(f)) ==> ({
            &&& f.id == id
            &&& files_of(*c).contains_pair(id, f.name@)
            &&& file_stamps_of(*c).contains_pair(id, (f.updated_at@, f.created_at@))
            &&& f.tags@ == Seq::<Tag>::empty()
        }),
        r matches Ok(None) ==> !files_of(*c).dom().contains(id),
{
    c.query_row(
        "SELECT id, name, updated_at, created_at FROM files WHERE id = ?1",
        (id,),
        |row| Ok(File {
            id: row.get(0)?,
            name: row.get(1)?,
            tags: Vec::new(),
            updated_at: row.get(2)?,
            created_at: row.get(3)?,
        }),
    ).optional()
}

/// Relies on rusqlite::Connection::query_row (SELECT from files by name)
/// with OptionalExtension::optional: returns the row whose UNIQUE name
/// matches, or nothing when no file has the name. The row carries no tag
/// list.
#[verifier::external_body]
pub(crate) fn sql_file_by_name(c: &rusqlite::Connection, name: &str) -> (r: Result<
    Option<File>,
    rusqlite::Error,
>)
    ensures
        r matches Ok(Some(f)) ==> ({
            &&& files_of(*c).contains_pair(f.id, f.name@)
            &&& file_stamps_of(*c).contains_pair(f.id, (f.updated_at@, f.created_at@))
            &&& f.name@ == name@
            &&& f.tags@ == Seq::<Tag>::empty()
        }),
        r matches Ok(None) ==> !files_of(*c).values().contains(name@),
{
    c.query_row(
        "SELECT id, name, updated_at, created_at FROM files WHERE name = ?1",
        (name,),
        |row| Ok(File {
            id: row.get(0)?,
            name: row.get(1)?,
            tags: Vec::new(),
            updated_at: row.get(2)?,
            created_at: row.get(3)?,
        }),
    ).optional()
}

/// Relies on rusqlite::Connection::execute (DELETE FROM files by id) in
/// autocommit mode: on success the one row keyed by the id — if any —
/// is gone and nothing else changed; a failed statement is rolled back
/// by itself and leaves every table as it was.
#[verifier::external_body]
pub(crate) fn sql_delete_file(c: &mut rusqlite::Connection, id: i64) -> (r: Result<
    (),
    rusqlite::Error,
>)
    requires
        !in_tx(*old(c)),
    ensures
        !in_tx(*final(c)),
        r is Ok ==> ({
            &&& files_of(*final(c)) == files_of(*old(c)).remove(id)
            &&& file_stamps_of(*final(c)) == file_stamps_of(*old(c)).remove(id)
            &&& tags_of(*final(c)) == tags_of(*old(c))
            &&& links_of(*final(c)) == links_of(*old(c))
            &&& tag_stamps_of(*final(c)) == tag_stamps_of(*old(c))
        }),
        r is Err ==> ({
            &&& files_of(*final(c)) == files_of(*old(c))
            &&& tags_of(*final(c)) == tags_of(*old(c))
            &&& links_of(*final(c)) == links_of(*old(c))
            &&& file_stamps_of(*final(c)) == file_stamps_of(*old(c))
            &&& tag_stamps_of(*final(c)) == tag_stamps_of(*old(c))
        }),
{
    c.execute("DELETE FROM files WHERE id = ?1", (id,)).map(|_| ())
}

/// Relies on rusqlite::Connection::execute (DELETE FROM tags by id) in
/// autocommit mode: on success the one row keyed by the id — if any —
/// is gone and nothing else changed; a failed statement is rolled back
/// by itself and leaves every table as it was.
#[verifier::external_body]
pub(crate) fn sql_delete_tag(c: &mut rusqlite::Connection, id: i64) -> (r: Result<
    (),
    rusqlite::Error,
>)
    requires
        !in_tx(*old(c)),
    ensures
        !in_tx(*final(c)),
        r is Ok ==> ({
            &&& tags_of(*final(c)) == tags_of(*old(c)).remove(id)
            &&& tag_stamps_of(*final(c)) == tag_stamps_of(*old(c)).remove(id)
            &&& files_of(*final(c)) == files_of(*old(c))
            &&& links_of(*final(c)) == links_of(*old(c))
            &&& file_stamps_of(*final(c)) == file_stamps_of(*old(c))
        }),
        r is Err ==> ({
            &&& files_of(*final(c)) == files_of(*old(c))
            &&& tags_of(*final(c)) == tags_of(*old(c))
            &&& links_of(*final(c)) == links_of(*old(c))
            &&& file_stamps_of(*final(c)) == file_stamps_of(*old(c))
            &&& tag_stamps_of(*final(c)) == tag_stamps_of(*old(c))
        }),
{
    c.execute("DELETE FROM tags WHERE id = ?1", (id,)).map(|_| ())
}

/// Relies on rusqlite::Connection::execute (INSERT INTO file_tags): on
/// success the one link was added and was not there before (the pair is
/// the table's PRIMARY KEY, so a duplicate is refused). In autocommit
/// mode a failed statement is rolled back by itself and leaves every
/// table as it was; inside an open transaction the store may roll the
/// whole transaction back on a failure, so nothing is claimed of that
/// state.
#[verifier::external_body]
pub(crate) fn sql_insert_link(c: &mut rusqlite::Connection, file_id: i64, tag_id: i64) -> (r:
    Result<(), rusqlite::Error>)
    ensures
        !in_tx(*old(c)) ==> !in_tx(*final(c)),
        r is Ok ==> ({
            &&& !links_of(*old(c)).contains((file_id, tag_id))
            &&& links_of(*final(c)) == links_of(*old(c)).insert((file_id, tag_id))
            &&& files_of(*final(c)) == files_of(*old(c))
            &&& tags_of(*final(c)) == tags_of(*old(c))
            &&& file_stamps_of(*final(c)) == file_stamps_of(*old(c))
            &&& tag_stamps_of(*final(c)) == tag_stamps_of(*old(c))
        }),
        r is Err && !in_tx(*old(c)) ==> ({
            &&& files_of(*final(c)) == files_of(*old(c))
            &&& tags_of(*final(c)) == tags_of(*old(c))
            &&& links_of(*final(c)) == links_of(*old(c))
            &&& file_stamps_of(*final(c)) == file_stamps_of(*old(c))
            &&& tag_stamps_of(*final(c)) == tag_stamps_of(*old(c))
        }),
{
    c.execute(
        "INSERT INTO file_tags (file_id, tag_id) VALUES (?1, ?2)",
        (file_id, tag_id),
    ).map(|_| ())
}

/// Relies on rusqlite::Connection::execute (DELETE FROM file_tags by
/// pair) in autocommit mode, which reports the number of rows removed:
/// on success the link is gone, and the count says whether it was
/// there; a failed statement is rolled back by itself and leaves every
/// table as it was.
#[verifier::external_body]
pub(crate) fn sql_delete_link(c: &mut rusqlite::Connection, file_id: i64, tag_id: i64) -> (r:
    Result<usize, rusqlite::Error>)
    requires
        !in_tx(*old(c)),
    ensures
        !in_tx(*final(c)),
        r matches Ok(n) ==> ({
            &&& links_of(*final(c)) == links_of(*old(c)).remove((file_id, tag_id))
            &&& n == (if links_of(*old(c)).contains((file_id, tag_id)) {
                1int
            } else {
                0int
            })
            &&& files_of(*final(c)) == files_of(*old(c))
            &&& tags_of(*final(c)) == tags_of(*old(c))
            &&& file_stamps_of(*final(c)) == file_stamps_of(*old(c))
            &&& tag_stamps_of(*final(c)) == tag_stamps_of(*old(c))
        }),
        r is Err ==> ({
            &&& files_of(*final(c)) == files_of(*old(c))
            &&& tags_of(*final(c)) == tags_of(*old(c))
            &&& links_of(*final(c)) == links_of(*old(c))
            &&& file_stamps_of(*final(c)) == file_stamps_of(*old(c))
            &&& tag_stamps_of(*final(c)) == tag_stamps_of(*old(c))
        }),
{
    c.execute("DELETE FROM file_tags WHERE file_id = ?1 AND tag_id = ?2", (file_id, tag_id))
}

/// Relies on rusqlite::Connection::execute (DELETE FROM file_tags by
/// file id) in autocommit mode: on success every link of that file —
/// and nothing else — is gone; a failed statement is rolled back by
/// itself and leaves every table as it was.
#[verifier::external_body]
pub(crate) fn sql_delete_links_of_file(c: &mut rusqlite::Connection, file_id: i64) -> (r: Result<
    (),
    rusqlite::Error,
>)
    requires
        !in_tx(*old(c)),
    ensures
        !in_tx(*final(c)),
        r is Ok ==> ({
            &&& links_of(*final(c)) == Set::new(
                |p: (i64, i64)| links_of(*old(c)).contains(p) && p.0 != file_id,
            )
            &&& files_of(*final(c)) == files_of(*old(c))
            &&& tags_of(*final(c)) == tags_of(*old(c))
            &&& file_stamps_of(*final(c)) == file_stamps_of(*old(c))
            &&& tag_stamps_of(*final(c)) == tag_stamps_of(*old(c))
        }),
        r is Err ==> ({
            &&& files_of(*final(c)) == files_of(*old(c))
            &&& tags_of(*final(c)) == tags_of(*old(c))
            &&& links_of(*final(c)) == links_of(*old(c))
            &&& file_stamps_of(*final(c)) == file_stamps_of(*old(c))
            &&& tag_stamps_of(*final(c)) == tag_stamps_of(*old(c))
        }),
{
    c.execute("DELETE FROM file_tags WHERE file_id = ?1", (file_id,)).map(|_| ())
}

/// Relies on rusqlite::Connection::execute (DELETE FROM file_tags by tag
/// id) in autocommit mode: on success every link of that tag — and
/// nothing else — is gone; a failed statement is rolled back by itself
/// and leaves every table as it was.
#[verifier::external_body]
pub(crate) fn sql_delete_links_of_tag(c: &mut rusqlite::Connection, tag_id: i64) -> (r: Result<
    (),
    rusqlite::Error,
>)
    requires
        !in_tx(*old(c)),
    ensures
        !in_tx(*final(c)),
        r is Ok ==> ({
            &&& links_of(*final(c)) == Set::new(
                |p: (i64, i64)| links_of(*old(c)).contains(p) && p.1 != tag_id,
            )
            &&& files_of(*final(c)) == files_of(*old(c))
            &&& tags_of(*final(c)) == tags_of(*old(c))
            &&& file_stamps_of(*final(c)) == file_stamps_of(*old(c))
            &&& tag_stamps_of(*final(c)) == tag_stamps_of(*old(c))
        }),
        r is Err ==> ({
            &&& files_of(*final(c)) == files_of(*old(c))
            &&& tags_of(*final(c)) == tags_of(*old(c))
            &&& links_of(*final(c)) == links_of(*old(c))
            &&& file_stamps_of(*final(c)) == file_stamps_of(*old(c))
            &&& tag_stamps_of(*final(c)) == tag_stamps_of(*old(c))
        }),
{
    c.execute("DELETE FROM file_tags WHERE tag_id = ?1", (tag_id,)).map(|_| ())
}

/// Relies on rusqlite::Connection::query_row (SELECT 1 FROM file_tags by
/// pair) with OptionalExtension::optional: says whether the link row is
/// there.
#[verifier::external_body]
pub(crate) fn sql_link_exists(c: &rusqlite::Connection, file_id: i64, tag_id: i64) -> (r: Result<
    bool,
    rusqlite::Error,
>)
    ensures
        r matches Ok(b) ==> (b <==> links_of(*c).contains((file_id, tag_id))),
{
    c.query_row(
        "SELECT 1 FROM file_tags WHERE file_id = ?1 AND tag_id = ?2 LIMIT 1",
        (file_id, tag_id),
        |row| row.get::<usize, i64>(0),
    ).optional().map(|x| x.is_some())
}

/// Relies on rusqlite::Statement::query_map (SELECT tag_id FROM
/// file_tags by file id): returns, in whatever order the store walks
/// them, exactly the tag ids linked to the file, each once (the pair is
/// the table's PRIMARY KEY).
#[verifier::external_body]
pub(crate) fn sql_tag_ids_of_file(c: &rusqlite::Connection, file_id: i64) -> (r: Result<
    Vec<i64>,
    rusqlite::Error,
>)
    ensures
        r matches Ok(v) ==> ({
            &&& v@.no_duplicates()
            &&& forall|t: i64| #[trigger] v@.contains(t) <==> links_of(*c).contains((file_id, t))
        }),
{
    let mut stmt = c.prepare("SELECT tag_id FROM file_tags WHERE file_id = ?1")?;
    let rows = stmt.query_map((file_id,), |row| row.get(0))?;
    rows.collect()
}

/// Relies on rusqlite::Statement::query_map (SELECT file_id FROM
/// file_tags by tag id): returns, in whatever order the store walks
/// them, exactly the file ids linked to the tag, each once (the pair is
/// the table's PRIMARY KEY).
#[verifier::external_body]
pub(crate) fn sql_file_ids_of_tag(c: &rusqlite::Connection, tag_id: i64) -> (r: Result<
    Vec<i64>,
    rusqlite::Error,
>)
    ensures
        r matches Ok(v) ==> ({
            &&& v@.no_duplicates()
            &&& forall|f: i64| #[trigger] v@.contains(f) <==> links_of(*c).contains((f, tag_id))
        }),
{
    let mut stmt = c.prepare("SELECT file_id FROM file_tags WHERE tag_id = ?1")?;
    let rows = stmt.query_map((tag_id,), |row| row.get(0))?;
    rows.collect()
}

/// Relies on rusqlite::Statement::query_map (SELECT from tags): returns,
/// in whatever order the store walks them, one record per tag row, ids
/// unrepeated (id is the table's key).
#[verifier::external_body]
pub(crate) fn sql_all_tags(c: &rusqlite::Connection) -> (r: Result<Vec<Tag>, rusqlite::Error>)
    ensures
        r matches Ok(v) ==> ({
            &&& crate::views::ids_of(v@).no_duplicates()
            &&& forall|k: int|
                0 <= k < v@.len() ==> tags_of(*c).contains_pair(
                    (#[trigger] v@[k]).id,
                    v@[k].name@,
                ) && tag_stamps_of(*c).contains_pair(v@[k].id, v@[k].created_at@)
            &&& forall|id: i64|
                #[trigger] tags_of(*c).dom().contains(id) ==> exists|k: int|
                    0 <= k < v@.len() && (#[trigger] v@[k]).id == id
        }),
{
    let mut stmt = c.prepare("SELECT id, name, created_at FROM tags")?;
    let rows = stmt.query_map(
        (),
        |row| Ok(Tag { id: row.get(0)?, name: row.get(1)?, created_at: row.get(2)? }),
    )?;
    rows.collect()
}

/// Relies on rusqlite::Connection::execute_batch running BEGIN from
/// autocommit mode: opening a transaction reads and changes no rows,
/// whether or not it succeeds; on success a transaction is open, and a
/// failed BEGIN opens none.
#[verifier::external_body]
pub(crate) fn sql_tx_begin(c: &mut rusqlite::Connection) -> (r: Result<(), rusqlite::Error>)
    requires
        !in_tx(*old(c)),
    ensures
        files_of(*final(c)) == files_of(*old(c)),
        tags_of(*final(c)) == tags_of(*old(c)),
        links_of(*final(c)) == links_of(*old(c)),
        file_stamps_of(*final(c)) == file_stamps_of(*old(c)),
        tag_stamps_of(*final(c)) == tag_stamps_of(*old(c)),
        r is Ok ==> in_tx(*final(c)),
        r is Err ==> !in_tx(*final(c)),
{
    c.execute_batch("BEGIN")
}

/// Relies on rusqlite::Connection::execute_batch running COMMIT: a
/// successful commit ends the open transaction and makes its work
/// durable without changing what the tables hold as seen through this
/// connection; after a failed commit nothing is claimed, since the
/// store may have rolled the transaction back.
#[verifier::external_body]
pub(crate) fn sql_tx_commit(c: &mut rusqlite::Connection) -> (r: Result<(), rusqlite::Error>)
    ensures
        r is Ok ==> ({
            &&& files_of(*final(c)) == files_of(*old(c))
            &&& tags_of(*final(c)) == tags_of(*old(c))
            &&& links_of(*final(c)) == links_of(*old(c))
            &&& file_stamps_of(*final(c)) == file_stamps_of(*old(c))
            &&& tag_stamps_of(*final(c)) == tag_stamps_of(*old(c))
            &&& !in_tx(*final(c))
        }),
{
    c.execute_batch("COMMIT")
}

/// Relies on rusqlite::Connection::execute_batch running ROLLBACK: the
/// open transaction's work is undone. No view is pinned afterwards; the
/// caller reports a storage fault and claims nothing.
#[verifier::external_body]
pub(crate) fn sql_tx_rollback(c: &mut rusqlite::Connection) -> (r: Result<(), rusqlite::Error>) {
    c.execute_batch("ROLLBACK")
}

} // verus!
