//! The artifact store: a durable cache-aside key/value table mapping
//! (path, query) to generated content, backed by a relational engine.
//!
//! The engine is trusted, not verified: each operation is a thin wrapper
//! whose contract states what the engine's documentation promises of it.
//! The model assumes a single process owns the store, as the serving design
//! requires, and that a pre-existing store file holds the prescribed layout:
//! a resources table keyed by (path, query).

use vstd::prelude::*;

verus! {

#[verifier::external_type_specification]
#[verifier::external_body]
pub struct ExConnection(rusqlite::Connection);

/// The rows of the resources table reachable through a connection, as a map
/// from (path, query) to content.
pub uninterp spec fn db_contents(conn: &rusqlite::Connection) -> Map<
    (Seq<char>, Seq<char>),
    Seq<char>,
>;

/// Database wrapper for storing content.
pub struct Database {
    pub conn: rusqlite::Connection,
}

impl View for Database {
    type V = Map<(Seq<char>, Seq<char>), Seq<char>>;

    open spec fn view(&self) -> Map<(Seq<char>, Seq<char>), Seq<char>> {
        db_contents(&self.conn)
    }
}

impl Database {
    /// Create a new database (in-memory or file-based).
    ///
    /// Relies on rusqlite::Connection::open_in_memory and Connection::open:
    /// a fresh in-memory database holds no rows at all, and the CREATE TABLE
    /// IF NOT EXISTS statement only ensures the resources table exists, so
    /// an in-memory store starts empty.  A file-backed store keeps whatever
    /// rows the file already held, of which nothing is claimed.
    #[verifier::external_body]
    pub fn new(db_path: Option<&str>) -> (r: Result<Database, String>)
        ensures
            match r {
                Ok(db) => db_path is None ==> db_contents(&db.conn) == Map::<
                    (Seq<char>, Seq<char>),
                    Seq<char>,
                >::empty(),
                Err(_) => true,
            },
    {
        let opened = match db_path {
            Some(path) => rusqlite::Connection::open(path),
            None => rusqlite::Connection::open_in_memory(),
        };
        let conn = opened.map_err(|e| format!("{}", e))?;
        conn.execute("CREATE TABLE IF NOT EXISTS resources (path TEXT NOT NULL, query TEXT NOT NULL, content TEXT NOT NULL, PRIMARY KEY (path, query))", ()).map_err(|e| format!("{}", e))?;
        Ok(Database { conn })
    }

    /// Look up content by path and query.
    ///
    /// Relies on rusqlite::Connection::query_row over the resources table:
    /// a returned row holds the content stored under the key, and a
    /// QueryReturnedNoRows error means no row has the key.  Any other
    /// failure is a read error, of which nothing is claimed; callers treat
    /// it as a miss.
    #[verifier::external_body]
    pub fn get(&self, path: &str, query: &str) -> (r: Result<Option<String>, String>)
        ensures
            match r {
                Ok(Some(content)) => db_contents(&self.conn).contains_key((path@, query@))
                    && content@ == db_contents(&self.conn)[(path@, query@)],
                Ok(None) => !db_contents(&self.conn).contains_key((path@, query@)),
                Err(_) => true,
            },
    {
        let looked: Result<String, rusqlite::Error> = self.conn.query_row(
            "SELECT content FROM resources WHERE path = ?1 AND query = ?2",
            (path, query),
            |row| row.get(0),
        );
        match looked {
            Ok(content) => Ok(Some(content)),
            Err(rusqlite::Error::QueryReturnedNoRows) => Ok(None),
            Err(e) => Err(format!("{}", e)),
        }
    }

    /// Store content in database.
    ///
    /// Relies on rusqlite::Connection::execute with INSERT OR REPLACE: on
    /// success the key now maps to the content and no other row changed; a
    /// statement that fails is rolled back by the engine and changes no row.
    #[verifier::external_body]
    pub fn set(&mut self, path: &str, query: &str, content: &str) -> (r: Result<(), String>)
        ensures
            match r {
                Ok(_) => db_contents(&final(self).conn) == db_contents(&old(self).conn).insert(
                    (path@, query@),
                    content@,
                ),
                Err(_) => db_contents(&final(self).conn) == db_contents(&old(self).conn),
            },
    {
        let stored = self.conn.execute(
            "INSERT OR REPLACE INTO resources (path, query, content) VALUES (?1, ?2, ?3)",
            (path, query, content),
        );
        match stored {
            Ok(_) => Ok(()),
            Err(e) => Err(format!("{}", e)),
        }
    }
}

} // verus!
