//! Handle to the networked SQL backend.  Its queries run over the network,
//! so they live with the I/O shell; the relay core models their semantics
//! in the event store, and this module only owns the connection pool.

use vstd::prelude::*;

verus! {

/// A connection pool to the networked store.  The pool's type is bounded by
/// sqlx's own traits, which the verifier cannot name, so it lives in a
/// private field of an opaque holder.
#[verifier::external_body]
pub struct PostgresPool {
    pool: sqlx::PgPool,
}

/// Whether sqlx accepts a connection URL: lazy pool construction parses the
/// URL and can fail on nothing else, so the outcome is a function of the
/// URL alone.
pub uninterp spec fn pg_url_ok(url: Seq<char>) -> bool;

impl PostgresPool {
    /// Relies on sqlx's `PgPoolOptions::connect_lazy`: a pool over the given
    /// URL whose connections open on first use; the call fails exactly on a
    /// URL sqlx cannot parse.  The pool spawns its maintenance task on
    /// creation, so the call must run inside an async runtime.
    #[verifier::external_body]
    pub(crate) fn connect_lazy(url: &str) -> (r: Option<PostgresPool>)
        ensures
            r is Some <==> pg_url_ok(url@),
    {
        sqlx::postgres::PgPoolOptions::new().connect_lazy(url).ok().map(
            |pool| PostgresPool { pool },
        )
    }
}

/// The networked SQL store's handle.
pub struct PostgresRepo {
    conn: PostgresPool,
}

impl PostgresRepo {
    /// Wrap an established pool.
    pub fn new(c: PostgresPool) -> PostgresRepo {
        PostgresRepo { conn: c }
    }

    /// A handle over a lazily-connecting pool for the given URL, if sqlx
    /// accepts the URL.  Must run inside an async runtime; connections open
    /// on first use.
    pub fn connect(url: &str) -> (r: Option<PostgresRepo>)
        ensures
            r is Some <==> pg_url_ok(url@),
    {
        match PostgresPool::connect_lazy(url) {
            Some(pool) => Some(PostgresRepo::new(pool)),
            None => None,
        }
    }

    /// The pool, for the I/O shell that runs the SQL.
    pub fn pool(&self) -> &PostgresPool {
        &self.conn
    }
}

} // verus!
