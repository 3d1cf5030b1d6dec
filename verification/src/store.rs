//! The persistent catalog store: two tables in a local SQLite database,
//! reached through rusqlite.
//!
//! The `menu` table maps a menu name to an optional parent name; the
//! `entries` table maps a stored URL to its display name, host label and
//! menu name. The tables' contents are named by the spec functions
//! `menu_rows` and `entry_rows`, and every operation states what it does
//! to them.

use vstd::prelude::*;
use crate::entry::Entry;

verus! {

/// Why a store operation fails.
#[derive(Clone, Copy, Debug, PartialEq, Eq, Structural)]
pub enum StoreError {
    /// The key of the inserted row is already present.
    DuplicateKey,
    /// The store could not be reached, initialized or changed.
    Unavailable,
}

#[verifier::external_type_specification]
#[verifier::external_body]
pub struct ExConnection(rusqlite::Connection);

/// The rows of the `menu` table: each menu name maps to the optional
/// parent name recorded for it. A table that does not exist yet has no
/// rows.
pub uninterp spec fn menu_rows(c: rusqlite::Connection) -> Map<Seq<char>, Option<Seq<char>>>;

/// The rows of the `entries` table: each stored URL maps to the display
/// name, host label and menu name recorded for it. A table that does not
/// exist yet has no rows.
pub uninterp spec fn entry_rows(c: rusqlite::Connection) -> Map<
    Seq<char>,
    (Seq<char>, Seq<char>, Seq<char>),
>;

/// The view of an optional owned string.
pub open spec fn opt_view(p: Option<String>) -> Option<Seq<char>> {
    match p {
        None => None,
        Some(t) => Some(t@),
    }
}

/// The view of an optional borrowed string.
pub open spec fn opt_ref_view(p: Option<&String>) -> Option<Seq<char>> {
    match p {
        None => None,
        Some(t) => Some(t@),
    }
}

/// Relies on rusqlite's `Connection::execute` running two `CREATE TABLE
/// IF NOT EXISTS` statements: they create missing tables and touch no
/// existing row.
#[verifier::external_body]
fn exec_init_schema(conn: &mut rusqlite::Connection) -> (r: Result<(), StoreError>)
    ensures
        r matches Err(e) ==> e == StoreError::Unavailable,
        menu_rows(*final(conn)) == menu_rows(*old(conn)),
        entry_rows(*final(conn)) == entry_rows(*old(conn)),
{
    let menu = "CREATE TABLE IF NOT EXISTS menu(menu_name TEXT PRIMARY KEY NOT NULL, parent_name TEXT)";
    let entries = "CREATE TABLE IF NOT EXISTS entries(entry_url TEXT PRIMARY KEY NOT NULL, entry_name TEXT NOT NULL, entry_shorturl TEXT NOT NULL, menu_name TEXT NOT NULL)";
    match conn.execute(menu, ()).and(conn.execute(entries, ())) {
        Ok(_) => Ok(()),
        Err(_) => Err(StoreError::Unavailable),
    }
}

/// Relies on rusqlite's `Connection::execute` running a one-row INSERT
/// into `menu`, whose only constraint is the primary key on `menu_name`:
/// on success the row is added as given; a constraint violation means the
/// key was present; a failed statement changes nothing.
#[verifier::external_body]
fn exec_insert_menu(conn: &mut rusqlite::Connection, name: &String, parent: Option<&String>) -> (r:
    Result<(), StoreError>)
    ensures
        r is Ok ==> !menu_rows(*old(conn)).contains_key(name@) && menu_rows(*final(conn))
            == menu_rows(*old(conn)).insert(name@, opt_ref_view(parent)),
        r matches Err(e) && e == StoreError::DuplicateKey ==> menu_rows(*old(conn)).contains_key(name@),
        r is Err ==> menu_rows(*final(conn)) == menu_rows(*old(conn)),
        entry_rows(*final(conn)) == entry_rows(*old(conn)),
{
    let r = match parent {
        None => conn.execute("INSERT INTO menu (menu_name) VALUES (?1)", (name,)),
        Some(p) => conn.execute(
            "INSERT INTO menu (menu_name, parent_name) VALUES (?1, ?2)",
            (name, p),
        ),
    };
    match r {
        Ok(_) => Ok(()),
        Err(rusqlite::Error::SqliteFailure(e, _)) if e.code
            == rusqlite::ErrorCode::ConstraintViolation => Err(StoreError::DuplicateKey),
        Err(_) => Err(StoreError::Unavailable),
    }
}

/// Relies on rusqlite's `Connection::execute` running a one-row INSERT
/// into `entries`, whose only violable constraint for non-null bindings is
/// the primary key on `entry_url`: on success the row is added as given; a
/// constraint violation means the key was present; a failed statement
/// changes nothing.
#[verifier::external_body]
fn exec_insert_entry(conn: &mut rusqlite::Connection, e: &Entry) -> (r: Result<(), StoreError>)
    ensures
        r is Ok ==> !entry_rows(*old(conn)).contains_key(e.entry_url@) && entry_rows(*final(conn))
            == entry_rows(*old(conn)).insert(
            e.entry_url@,
            (e.entry_name@, e.entry_shorturl@, e.menu_name@),
        ),
        r matches Err(err) && err == StoreError::DuplicateKey ==> entry_rows(*old(conn)).contains_key(e.entry_url@),
        r is Err ==> entry_rows(*final(conn)) == entry_rows(*old(conn)),
        menu_rows(*final(conn)) == menu_rows(*old(conn)),
{
    let r = conn.execute(
        "INSERT INTO entries (entry_url, entry_name, entry_shorturl, menu_name) VALUES (?1, ?2, ?3, ?4)",
        (&e.entry_url, &e.entry_name, &e.entry_shorturl, &e.menu_name),
    );
    match r {
        Ok(_) => Ok(()),
        Err(rusqlite::Error::SqliteFailure(err, _)) if err.code
            == rusqlite::ErrorCode::ConstraintViolation => Err(StoreError::DuplicateKey),
        Err(_) => Err(StoreError::Unavailable),
    }
}

/// Relies on rusqlite's `Connection::query_row` running a SELECT by
/// primary key on `menu`: it hands back the row's parent column when the
/// key is present and reports no rows when it is absent.
#[verifier::external_body]
fn exec_lookup_menu(conn: &rusqlite::Connection, name: &String) -> (r: Result<
    Option<Option<String>>,
    StoreError,
>)
    ensures
        r matches Ok(Some(p)) ==> menu_rows(*conn).contains_key(name@) && menu_rows(*conn)[name@]
            == opt_view(p),
        r matches Ok(None::<Option<String>>) ==> !menu_rows(*conn).contains_key(name@),
        r matches Err(e) ==> e == StoreError::Unavailable,
{
    let q = conn.query_row(
        "SELECT parent_name FROM menu WHERE menu_name = ?1",
        (name,),
        |row| row.get::<_, Option<String>>(0),
    );
    match q {
        Ok(p) => Ok(Some(p)),
        Err(rusqlite::Error::QueryReturnedNoRows) => Ok(None),
        Err(_) => Err(StoreError::Unavailable),
    }
}

/// Relies on rusqlite's `Connection::query_row` running a SELECT by
/// primary key on `entries`: it hands back the row's three non-key columns
/// when the key is present and reports no rows when it is absent.
#[verifier::external_body]
fn exec_lookup_entry(conn: &rusqlite::Connection, url: &String) -> (r: Result<
    Option<(String, String, String)>,
    StoreError,
>)
    ensures
        r matches Ok(Some(t)) ==> entry_rows(*conn).contains_key(url@) && entry_rows(*conn)[url@]
            == (t.0@, t.1@, t.2@),
        r matches Ok(None::<(String, String, String)>) ==> !entry_rows(*conn).contains_key(url@),
        r matches Err(e) ==> e == StoreError::Unavailable,
{
    let q = conn.query_row(
        "SELECT entry_name, entry_shorturl, menu_name FROM entries WHERE entry_url = ?1",
        (url,),
        |row| Ok((row.get::<_, String>(0)?, row.get::<_, String>(1)?, row.get::<_, String>(2)?)),
    );
    match q {
        Ok(t) => Ok(Some(t)),
        Err(rusqlite::Error::QueryReturnedNoRows) => Ok(None),
        Err(_) => Err(StoreError::Unavailable),
    }
}

/// Creates the two tables when they are absent; an existing catalog is
/// left exactly as it is.
pub fn init_catalog(conn: &mut rusqlite::Connection) -> (r: Result<(), StoreError>)
    ensures
        menu_rows(*final(conn)) == menu_rows(*old(conn)),
        entry_rows(*final(conn)) == entry_rows(*old(conn)),
        r matches Err(e) ==> e == StoreError::Unavailable,
{
    exec_init_schema(conn)
}

/// Inserts a menu row with the given name and optional parent, recorded as
/// given. Fails with a duplicate key when the name is already present; a
/// failure leaves the catalog unchanged.
pub fn create_menu(conn: &mut rusqlite::Connection, name: &String, parent: Option<&String>) -> (r:
    Result<(), StoreError>)
    ensures
        r is Ok ==> !menu_rows(*old(conn)).contains_key(name@) && menu_rows(*final(conn))
            == menu_rows(*old(conn)).insert(name@, opt_ref_view(parent)),
        r matches Err(e) && e == StoreError::DuplicateKey ==> menu_rows(*old(conn)).contains_key(name@),
        r is Err ==> menu_rows(*final(conn)) == menu_rows(*old(conn)),
        entry_rows(*final(conn)) == entry_rows(*old(conn)),
{
    exec_insert_menu(conn, name, parent)
}

/// Inserts an entry row keyed by its stored URL. Fails with a duplicate
/// key when that URL is already present; a failure leaves the catalog
/// unchanged.
pub fn create_entry(conn: &mut rusqlite::Connection, e: &Entry) -> (r: Result<(), StoreError>)
    ensures
        r is Ok ==> !entry_rows(*old(conn)).contains_key(e.entry_url@) && entry_rows(*final(conn))
            == entry_rows(*old(conn)).insert(
            e.entry_url@,
            (e.entry_name@, e.entry_shorturl@, e.menu_name@),
        ),
        r matches Err(err) && err == StoreError::DuplicateKey ==> entry_rows(*old(conn)).contains_key(e.entry_url@),
        r is Err ==> entry_rows(*final(conn)) == entry_rows(*old(conn)),
        menu_rows(*final(conn)) == menu_rows(*old(conn)),
{
    exec_insert_entry(conn, e)
}

/// Looks a menu up by name: the recorded parent name when the menu is
/// there, and nothing when it is not.
pub fn menu_parent(conn: &rusqlite::Connection, name: &String) -> (r: Result<
    Option<Option<String>>,
    StoreError,
>)
    ensures
        r matches Ok(Some(p)) ==> menu_rows(*conn).contains_key(name@) && menu_rows(*conn)[name@]
            == opt_view(p),
        r matches Ok(None::<Option<String>>) ==> !menu_rows(*conn).contains_key(name@),
        r matches Err(e) ==> e == StoreError::Unavailable,
{
    exec_lookup_menu(conn, name)
}

/// Looks an entry up by its stored URL: the full record when the entry is
/// there, and nothing when it is not.
pub fn entry_record(conn: &rusqlite::Connection, url: &String) -> (r: Result<
    Option<Entry>,
    StoreError,
>)
    ensures
        r matches Ok(Some(e)) ==> {
            &&& entry_rows(*conn).contains_key(url@)
            &&& e.entry_url@ == url@
            &&& entry_rows(*conn)[url@] == (e.entry_name@, e.entry_shorturl@, e.menu_name@)
        },
        r matches Ok(None::<Entry>) ==> !entry_rows(*conn).contains_key(url@),
        r matches Err(e) ==> e == StoreError::Unavailable,
{
    match exec_lookup_entry(conn, url) {
        Ok(Some(t)) => Ok(
            Some(
                Entry {
                    entry_url: url.clone(),
                    entry_name: t.0,
                    entry_shorturl: t.1,
                    menu_name: t.2,
                },
            ),
        ),
        Ok(None) => Ok(None),
        Err(e) => Err(e),
    }
}

} // verus!
