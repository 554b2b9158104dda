//! The counter store client.
//!
//! The store is an external atomic-integer service keyed by string, reached
//! over pooled connections. Every call into the store crate goes through a
//! trusted wrapper here; what is decided around the calls — in particular
//! when a freshly created counter receives its time-to-live — is verified.

use vstd::prelude::*;
use vstd::string::StringExecFns;

use crate::decision::{effective_interval, expire_action, spec_effective_interval, spec_expire_plan};

verus! {

#[verifier::external_type_specification]
#[verifier::external_body]
pub struct ExRedisClient(redis::Client);

#[verifier::external_type_specification]
#[verifier::external_body]
pub struct ExRedisConnection(redis::Connection);

/// A pool of store connections. The pool type of the pool crate cannot be
/// named in verified signatures (its type parameter carries an outside trait
/// bound), so it lives in a field Verus does not look into.
#[verifier::external_body]
pub struct ConnectionPool {
    pool: r2d2::Pool<redis::Client>,
}

/// One connection checked out of the pool; returned to it when dropped.
#[verifier::external_body]
pub struct PooledStoreConnection {
    conn: r2d2::PooledConnection<redis::Client>,
}

/// Relies on redis::Client::open: parses the connection URL and returns a
/// client handle without connecting; nothing on a malformed URL.
#[verifier::external_body]
pub(crate) fn open_redis_client(url: &str) -> (r: Option<redis::Client>) {
    match redis::Client::open(url) {
        Ok(c) => Some(c),
        Err(_) => None,
    }
}

/// Relies on redis::Client::get_connection: opens one connection to the
/// store; nothing when the store cannot be reached.
#[verifier::external_body]
pub(crate) fn client_connect(client: &redis::Client) -> (r: Option<redis::Connection>) {
    match client.get_connection() {
        Ok(c) => Some(c),
        Err(_) => None,
    }
}

/// Relies on r2d2::Pool::builder / Builder::build: a pool of at most `size`
/// connections managed by the client; nothing when the first connection
/// cannot be established. Building a pool of size 0 panics in the pool crate,
/// so that size is excluded.
#[verifier::external_body]
pub(crate) fn build_pool(client: redis::Client, size: u32) -> (r: Option<ConnectionPool>)
    requires
        size >= 1,
{
    match r2d2::Pool::builder().max_size(size).build(client) {
        Ok(pool) => Some(ConnectionPool { pool }),
        Err(_) => None,
    }
}

/// Relies on r2d2::Pool::get: checks one connection out of the pool, waiting
/// up to the pool's timeout; nothing when the pool is exhausted or the store
/// unreachable.
#[verifier::external_body]
pub(crate) fn pool_get(pool: &ConnectionPool) -> (r: Option<PooledStoreConnection>) {
    match pool.pool.get() {
        Ok(conn) => Some(PooledStoreConnection { conn }),
        Err(_) => None,
    }
}

/// Relies on r2d2::PooledConnection's DerefMut impl: a checked-out pooled
/// connection hands out the store connection it wraps.
#[verifier::external_body]
pub(crate) fn pooled_connection<'a>(conn: &'a mut PooledStoreConnection) -> (r: &'a mut redis::Connection) {
    &mut *conn.conn
}

/// Relies on redis's `INCRBY` through Commands::incr: atomically adds `delta`
/// to the counter under `key` (an absent key counts as 0) and returns the
/// value after the addition; nothing on a connection or protocol error. The
/// returned value depends on the store's shared state, so nothing is promised
/// of it.
#[verifier::external_body]
pub(crate) fn redis_incr(conn: &mut redis::Connection, key: &str, delta: u32) -> (r: Option<i64>) {
    match redis::Commands::incr::<&str, u32, i64>(conn, key, delta) {
        Ok(n) => Some(n),
        Err(_) => None,
    }
}

/// Relies on redis's `EXPIRE` through Commands::expire: sets the TTL of `key`
/// to `seconds` and reports whether the call went through.
#[verifier::external_body]
pub(crate) fn redis_expire(conn: &mut redis::Connection, key: &str, seconds: u32) -> (r: bool) {
    match redis::Commands::expire::<&str, bool>(conn, key, seconds as i64) {
        Ok(_) => true,
        Err(_) => false,
    }
}

/// A store client over a single dedicated connection.
pub struct RedisClient {
    db: redis::Connection,
    interval: u32,
}

impl RedisClient {
    /// The default counter TTL this client was built with.
    pub closed spec fn spec_interval(&self) -> u32 {
        self.interval
    }

    /// Opens a client against `addr` with a default counter TTL. A client
    /// whose store cannot be reached is an error, not a panic.
    pub fn new(addr: &str, interval: u32) -> (r: Option<RedisClient>)
        ensures
            r matches Some(c) ==> c.spec_interval() == interval,
    {
        match Self::connect(addr) {
            Option::Some(db) => Option::Some(RedisClient { db, interval }),
            Option::None => Option::None,
        }
    }

    /// Connects to the store at `redis://<addr>/`.
    fn connect(addr: &str) -> (r: Option<redis::Connection>) {
        proof {
            reveal_strlit("redis://");
            reveal_strlit("/");
        }
        let mut url = String::from_str("redis://");
        url.append(addr);
        url.append("/");
        match open_redis_client(url.as_str()) {
            Option::Some(client) => client_connect(&client),
            Option::None => Option::None,
        }
    }

    /// Adds `hits` to the counter under `key` and returns the counter's new
    /// value, or 0 when the store could not be asked (a failure is
    /// permissive).
    ///
    /// The second component is the TTL action taken for the key: a returned
    /// value of 1 means this increment created the counter, so exactly then
    /// its TTL is set — to `interval` when one is given, else to the
    /// client's default.
    pub fn increment_entry(&mut self, key: &str, hits: &u32, interval: Option<u32>) -> (r: (
        i64,
        Ghost<Option<u32>>,
    ))
        ensures
            r.1@ == spec_expire_plan(
                r.0,
                spec_effective_interval(interval, old(self).spec_interval()),
            ),
            final(self).spec_interval() == old(self).spec_interval(),
    {
        let mut current_rate: i64 = 0;
        let interval_seconds = effective_interval(interval, self.interval);
        match redis_incr(&mut self.db, key, *hits) {
            Option::Some(n) => {
                current_rate = n;
            },
            Option::None => {},
        }
        match expire_action(current_rate, interval_seconds) {
            Option::Some(seconds) => {
                let _set = redis_expire(&mut self.db, key, seconds);
            },
            Option::None => {},
        }
        (
            current_rate,
            Ghost(spec_expire_plan(current_rate, spec_effective_interval(interval, self.interval))),
        )
    }
}

} // verus!
