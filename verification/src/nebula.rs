//! The settings of the connection pool of the graph store that mirrors the
//! entities, read from a connection string of the form
//! `user:password@host:port/space`.

use vstd::prelude::*;
use vstd::string::StrSliceExecFns;

verus! {

/// The position of the first `sep` in `text` at or after `from`; the length
/// of `text` where there is none.
pub open spec fn index_of(text: Seq<char>, sep: char, from: int) -> int
    decreases text.len() - from,
{
    if from < 0 || from >= text.len() {
        text.len() as int
    } else if text[from] == sep {
        from
    } else {
        index_of(text, sep, from + 1)
    }
}

/// The part of `text` before the first `sep`; all of it where there is
/// none.
pub open spec fn first_piece(text: Seq<char>, sep: char) -> Seq<char> {
    text.subrange(0, index_of(text, sep, 0))
}

/// The part of `text` between the first `sep` and the second one, or the
/// end; nothing where `text` holds no `sep`.
pub open spec fn second_piece(text: Seq<char>, sep: char) -> Option<Seq<char>> {
    let first = index_of(text, sep, 0);
    if first < text.len() {
        Some(text.subrange(first + 1, index_of(text, sep, first + 1)))
    } else {
        None
    }
}

/// The position of the first `sep` in `text` at or after `from`.
pub fn find_char(text: &str, sep: char, from: usize) -> (at: usize)
    requires
        from <= text@.len(),
    ensures
        at == index_of(text@, sep, from as int),
        from <= at <= text@.len(),
{
    let len = text.unicode_len();
    let mut i: usize = from;
    while i < len
        invariant
            from <= i <= len,
            len == text@.len(),
            index_of(text@, sep, from as int) == index_of(text@, sep, i as int),
        decreases len - i,
    {
        if text.get_char(i) == sep {
            return i;
        }
        i = i + 1;
    }
    i
}

/// Who connects to the graph store, and where.
#[derive(Debug)]
pub struct ConnectionInfo {
    pub address: String,
    pub username: String,
    pub password: String,
}

/// What a connection string says: the user and the password stand before
/// the `@`, with a `:` between them, the address after it, up to a `/`.
/// A string without `@`, or without `:` before it, says nothing.
pub open spec fn connection_info(text: Seq<char>) -> Option<(Seq<char>, Seq<char>, Seq<char>)> {
    let credentials = first_piece(text, '@');
    match (second_piece(text, '@'), second_piece(credentials, ':')) {
        (Some(location), Some(password)) => Some(
            (first_piece(location, '/'), first_piece(credentials, ':'), password),
        ),
        _ => None,
    }
}

/// Reads a connection string.
pub fn parse_connection(text: &str) -> (res: Option<ConnectionInfo>)
    ensures
        match res {
            Some(info) => connection_info(text@) == Some(
                (info.address@, info.username@, info.password@),
            ),
            None => connection_info(text@) is None,
        },
{
    let len = text.unicode_len();
    let at = find_char(text, '@', 0);
    if at >= len {
        return None;
    }
    let credentials = text.substring_char(0, at);
    let next_at = find_char(text, '@', at + 1);
    let location = text.substring_char(at + 1, next_at);
    let colon = find_char(credentials, ':', 0);
    if colon >= at {
        return None;
    }
    let next_colon = find_char(credentials, ':', colon + 1);
    let slash = find_char(location, '/', 0);
    let address = location.substring_char(0, slash).to_owned();
    let username = credentials.substring_char(0, colon).to_owned();
    let password = credentials.substring_char(colon + 1, next_colon).to_owned();
    Some(ConnectionInfo { address, username, password })
}

/// The settings of a pool of connections to the graph store.
#[derive(Debug)]
pub struct PoolConfig {
    pub min_connection_pool_size: usize,
    pub max_connection_pool_size: usize,
    pub address: String,
    pub username: String,
    pub password: String,
}

/// The smallest number of connections that a pool of the store keeps.
pub const MIN_CONNECTION_POOL_SIZE: usize = 2;

/// The largest number of connections that a pool of the store keeps.
pub const MAX_CONNECTION_POOL_SIZE: usize = 10;

impl Clone for PoolConfig {
    fn clone(&self) -> (res: Self)
        ensures
            res.min_connection_pool_size == self.min_connection_pool_size,
            res.max_connection_pool_size == self.max_connection_pool_size,
            res.address@ == self.address@,
            res.username@ == self.username@,
            res.password@ == self.password@,
    {
        PoolConfig {
            min_connection_pool_size: self.min_connection_pool_size,
            max_connection_pool_size: self.max_connection_pool_size,
            address: self.address.clone(),
            username: self.username.clone(),
            password: self.password.clone(),
        }
    }
}

/// A pool of connections to the graph store: its settings, and the
/// addresses of the connections that it holds.
#[allow(non_camel_case_types)]
#[derive(Debug)]
pub struct ConnectionPool_nebula {
    /// The connections.
    pub conns: Vec<String>,
    /// The settings; they never change.
    pub config: PoolConfig,
}

impl ConnectionPool_nebula {
    /// A pool with the settings `config` that holds no connection yet.
    pub fn new(config: &PoolConfig) -> (pool: Self)
        ensures
            pool.conns@.len() == 0,
            pool.config.min_connection_pool_size == config.min_connection_pool_size,
            pool.config.max_connection_pool_size == config.max_connection_pool_size,
            pool.config.address@ == config.address@,
            pool.config.username@ == config.username@,
            pool.config.password@ == config.password@,
    {
        ConnectionPool_nebula { conns: Vec::new(), config: config.clone() }
    }
}

/// The pool of connections to the graph store that a node starts with.
#[allow(non_camel_case_types)]
#[derive(Debug)]
pub struct StoreBuilder_nebula {
    pub connection_pool: ConnectionPool_nebula,
}

impl StoreBuilder_nebula {
    /// Sets up the pool for the graph store that the connection string
    /// `connection` names, with between two and ten connections. The string
    /// must name a user, a password and an address.
    pub fn new(connection: &str) -> (builder: Self)
        requires
            connection_info(connection@) is Some,
        ensures
            builder.connection_pool.conns@.len() == 0,
            builder.connection_pool.config.min_connection_pool_size == MIN_CONNECTION_POOL_SIZE,
            builder.connection_pool.config.max_connection_pool_size == MAX_CONNECTION_POOL_SIZE,
            connection_info(connection@) == Some(
                (
                    builder.connection_pool.config.address@,
                    builder.connection_pool.config.username@,
                    builder.connection_pool.config.password@,
                ),
            ),
    {
        let info = match parse_connection(connection) {
            Some(info) => info,
            None => ConnectionInfo {
                address: String::new(),
                username: String::new(),
                password: String::new(),
            },
        };
        let config = PoolConfig {
            min_connection_pool_size: MIN_CONNECTION_POOL_SIZE,
            max_connection_pool_size: MAX_CONNECTION_POOL_SIZE,
            address: info.address,
            username: info.username,
            password: info.password,
        };
        StoreBuilder_nebula { connection_pool: ConnectionPool_nebula::new(&config) }
    }
}

} // verus!
