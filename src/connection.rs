//! The connection: its handle, its statement cache and its transaction
//! bookkeeping.

use vstd::prelude::*;
use vstd::string::*;

use crate::error::Error;
use crate::statement::{Statement, StatementModel, StatementState};

verus! {

/// One cached statement: the SQL text it was prepared from and its handle.
pub struct CacheEntry {
    pub sql: String,
    pub statement_id: u64,
}

/// Prepared statements kept for reuse, keyed by their exact SQL text.
pub struct StatementCache {
    entries: Vec<CacheEntry>,
}

/// Whether `entries` holds `(sql, id)`.
pub open spec fn has_entry(entries: Seq<(Seq<char>, u64)>, sql: Seq<char>, id: u64) -> bool {
    exists|i: int| 0 <= i < entries.len() && #[trigger] entries[i] == (sql, id)
}

/// Whether some entry is cached under `sql`.
pub open spec fn has_key(entries: Seq<(Seq<char>, u64)>, sql: Seq<char>) -> bool {
    exists|i: int| 0 <= i < entries.len() && #[trigger] entries[i].0 == sql
}

/// No SQL text is cached twice.
pub open spec fn keys_unique(entries: Seq<(Seq<char>, u64)>) -> bool {
    forall|i: int, j: int|
        0 <= i < entries.len() && 0 <= j < entries.len() && i != j ==> #[trigger] entries[i].0
            != #[trigger] entries[j].0
}

impl StatementCache {
    /// The cached entries, in the order they were added.
    pub closed spec fn entries(&self) -> Seq<(Seq<char>, u64)> {
        self.entries@.map_values(|e: CacheEntry| (e.sql@, e.statement_id))
    }

    /// No SQL text is cached twice.
    pub open spec fn wf(&self) -> bool {
        keys_unique(self.entries())
    }

    pub fn new() -> (r: StatementCache)
        ensures
            r.entries().len() == 0,
            r.wf(),
    {
        StatementCache { entries: Vec::new() }
    }

    pub fn len(&self) -> (r: usize)
        ensures
            r == self.entries().len(),
    {
        self.entries.len()
    }

    /// The handle cached under exactly this SQL text.
    pub fn lookup(&self, sql: &String) -> (r: Option<u64>)
        ensures
            match r {
                Some(id) => has_entry(self.entries(), sql@, id) && has_key(self.entries(), sql@),
                None => !has_key(self.entries(), sql@),
            },
    {
        let ghost es = self.entries();
        let mut i: usize = 0;
        while i < self.entries.len()
            invariant
                i <= self.entries@.len(),
                es == self.entries(),
                forall|j: int| 0 <= j < i ==> es[j].0 != sql@,
            decreases self.entries@.len() - i,
        {
            if self.entries[i].sql == *sql {
                assert(es[i as int] == (sql@, self.entries@[i as int].statement_id));
                assert(es[i as int].0 == sql@);
                return Some(self.entries[i].statement_id);
            }
            i = i + 1;
        }
        None
    }

    /// Adds a statement under a SQL text that is not cached yet.
    pub fn insert(&mut self, sql: String, statement_id: u64)
        requires
            old(self).wf(),
            !has_key(old(self).entries(), sql@),
        ensures
            final(self).entries() == old(self).entries().push((sql@, statement_id)),
            final(self).wf(),
    {
        let ghost s = sql@;
        self.entries.push(CacheEntry { sql, statement_id });
        assert(self.entries() =~= old(self).entries().push((s, statement_id)));
        let ghost es = self.entries();
        assert forall|i: int, j: int|
            0 <= i < es.len() && 0 <= j < es.len() && i != j implies #[trigger] es[i].0
            != #[trigger] es[j].0 by {
            if i == es.len() - 1 {
                assert(old(self).entries()[j].0 != s);
            } else if j == es.len() - 1 {
                assert(old(self).entries()[i].0 != s);
            }
        }
    }

    /// Empties the cache; returns the handles of the statements it held, each
    /// to be finalized.
    pub fn drain(&mut self) -> (r: Vec<u64>)
        ensures
            r@ == old(self).entries().map_values(|e: (Seq<char>, u64)| e.1),
            final(self).entries().len() == 0,
            final(self).wf(),
    {
        let mut r: Vec<u64> = Vec::new();
        let mut i: usize = 0;
        let ghost ids = old(self).entries().map_values(|e: (Seq<char>, u64)| e.1);
        while i < self.entries.len()
            invariant
                i <= self.entries@.len(),
                self.entries() == old(self).entries(),
                ids == old(self).entries().map_values(|e: (Seq<char>, u64)| e.1),
                r@ == ids.take(i as int),
            decreases self.entries@.len() - i,
        {
            r.push(self.entries[i].statement_id);
            assert(ids.take(i + 1) =~= ids.take(i as int).push(ids[i as int]));
            i = i + 1;
        }
        assert(ids.take(i as int) =~= ids);
        self.entries = Vec::new();
        assert(self.entries() =~= Seq::empty());
        r
    }
}

/// Whether a query is served from the cache: only a cacheable query can hit,
/// and only a statement cached under exactly its SQL text.
pub open spec fn cache_hit(cache: Seq<(Seq<char>, u64)>, sql: Seq<char>, is_cacheable: bool) -> bool {
    is_cacheable && has_key(cache, sql)
}

/// The cache after a query missed it and the host prepared `id` for it.
pub open spec fn cache_after_prepare(
    cache: Seq<(Seq<char>, u64)>,
    sql: Seq<char>,
    is_cacheable: bool,
    id: u64,
) -> Seq<(Seq<char>, u64)> {
    if is_cacheable && !has_key(cache, sql) {
        cache.push((sql, id))
    } else {
        cache
    }
}

/// A query whose SQL text embeds literal values never touches the cache: it
/// misses even when a cacheable query with the same text is cached, and
/// running it twice prepares twice and leaves the cache as it was.
pub proof fn lemma_uncacheable_queries_bypass_cache(
    cache: Seq<(Seq<char>, u64)>,
    sql: Seq<char>,
    first: u64,
    second: u64,
)
    ensures
        !cache_hit(cache, sql, false),
        cache_after_prepare(cache, sql, false, first) == cache,
        !cache_hit(cache_after_prepare(cache, sql, false, first), sql, false),
        cache_after_prepare(cache_after_prepare(cache, sql, false, first), sql, false, second)
            == cache,
{
}

/// A cacheable query that missed is cached under its SQL text, and the same
/// text then hits with that statement.
pub proof fn lemma_cacheable_query_is_reused(
    cache: Seq<(Seq<char>, u64)>,
    sql: Seq<char>,
    id: u64,
)
    requires
        keys_unique(cache),
        !has_key(cache, sql),
    ensures
        cache_after_prepare(cache, sql, true, id).len() == cache.len() + 1,
        keys_unique(cache_after_prepare(cache, sql, true, id)),
        cache_hit(cache_after_prepare(cache, sql, true, id), sql, true),
        has_entry(cache_after_prepare(cache, sql, true, id), sql, id),
        forall|other: u64|
            has_entry(cache_after_prepare(cache, sql, true, id), sql, other) ==> other == id,
{
    let c = cache_after_prepare(cache, sql, true, id);
    assert(c[cache.len() as int] == (sql, id));
    assert(c[cache.len() as int].0 == sql);
    assert forall|i: int, j: int|
        0 <= i < c.len() && 0 <= j < c.len() && i != j implies #[trigger] c[i].0
        != #[trigger] c[j].0 by {
        if i == cache.len() {
            assert(c[j] == cache[j]);
        } else if j == cache.len() {
            assert(c[i] == cache[i]);
        } else {
            assert(c[i] == cache[i] && c[j] == cache[j]);
        }
    }
    assert forall|other: u64| has_entry(c, sql, other) implies other == id by {
        let j = choose|j: int| 0 <= j < c.len() && #[trigger] c[j] == (sql, other);
        if j < cache.len() {
            assert(c[j] == cache[j]);
            assert(cache[j].0 == sql);
        }
    }
}

/// The host-side connection handle.
pub struct RawConnection {
    pub connection_id: u64,
}

impl RawConnection {
    /// The connection that the host opened under `connection_id`. Opening
    /// never fails at the protocol level: a bad path shows on first use.
    pub fn establish(connection_id: u64) -> (r: RawConnection)
        ensures
            r.connection_id == connection_id,
    {
        RawConnection { connection_id }
    }
}

/// What to do with a statement once it has been used.
#[derive(PartialEq, Eq, Structural, Clone, Copy, Debug)]
pub enum Release {
    /// Reset it on the host; it stays cached for reuse.
    Reset(u64),
    /// Finalize it on the host; it was never cached.
    Finalize(u64),
}

/// The character of a decimal digit.
pub open spec fn digit_char(d: u32) -> char {
    if d == 0 {
        '0'
    } else if d == 1 {
        '1'
    } else if d == 2 {
        '2'
    } else if d == 3 {
        '3'
    } else if d == 4 {
        '4'
    } else if d == 5 {
        '5'
    } else if d == 6 {
        '6'
    } else if d == 7 {
        '7'
    } else if d == 8 {
        '8'
    } else {
        '9'
    }
}

/// The decimal digits of a number, most significant first, with no leading
/// zero.
pub open spec fn decimal_of(n: u32) -> Seq<char>
    decreases n,
{
    if n < 10 {
        seq![digit_char(n)]
    } else {
        decimal_of(n / 10).push(digit_char(n % 10))
    }
}

fn digit_str(d: u32) -> (r: &'static str)
    requires
        d < 10,
    ensures
        r@ == seq![digit_char(d)],
{
    if d == 0 {
        proof {
            reveal_strlit("0");
        }
        "0"
    } else if d == 1 {
        proof {
            reveal_strlit("1");
        }
        "1"
    } else if d == 2 {
        proof {
            reveal_strlit("2");
        }
        "2"
    } else if d == 3 {
        proof {
            reveal_strlit("3");
        }
        "3"
    } else if d == 4 {
        proof {
            reveal_strlit("4");
        }
        "4"
    } else if d == 5 {
        proof {
            reveal_strlit("5");
        }
        "5"
    } else if d == 6 {
        proof {
            reveal_strlit("6");
        }
        "6"
    } else if d == 7 {
        proof {
            reveal_strlit("7");
        }
        "7"
    } else if d == 8 {
        proof {
            reveal_strlit("8");
        }
        "8"
    } else {
        proof {
            reveal_strlit("9");
        }
        "9"
    }
}

/// Writes a number in decimal.
pub fn decimal(n: u32) -> (r: String)
    ensures
        r@ == decimal_of(n),
    decreases n,
{
    if n < 10 {
        String::from_str(digit_str(n))
    } else {
        let r = decimal(n / 10).concat(digit_str(n % 10));
        assert(r@ =~= decimal_of(n / 10).push(digit_char(n % 10)));
        r
    }
}

/// The name of the savepoint opened at nesting depth `depth`.
pub open spec fn savepoint_name(depth: u32) -> Seq<char> {
    "diesel_savepoint_"@ + decimal_of(depth)
}

fn savepoint(prefix: &str, depth: u32) -> (r: String)
    ensures
        r@ == prefix@ + savepoint_name(depth),
{
    let name = String::from_str("diesel_savepoint_").concat(decimal(depth).as_str());
    String::from_str(prefix).concat(name.as_str())
}

/// The SQL that opens a transaction at the given depth: the given `BEGIN`
/// statement outside any transaction, a savepoint inside one.
pub open spec fn begin_sql_of(depth: u32, begin: Seq<char>) -> Seq<char> {
    if depth == 0 {
        begin
    } else {
        "SAVEPOINT "@ + savepoint_name(depth)
    }
}

/// The SQL that ends the innermost transaction of the given depth, by
/// committing it or by rolling it back.
pub open spec fn end_sql_of(depth: u32, commit: bool) -> Seq<char> {
    if depth == 1 {
        if commit {
            "COMMIT"@
        } else {
            "ROLLBACK"@
        }
    } else if commit {
        "RELEASE SAVEPOINT "@ + savepoint_name((depth - 1) as u32)
    } else {
        "ROLLBACK TO SAVEPOINT "@ + savepoint_name((depth - 1) as u32)
    }
}

/// A connection: the handle, the statement cache and the depth of nested
/// transactions.
pub struct SqliteConnection {
    statement_cache: StatementCache,
    raw_connection: RawConnection,
    transaction_depth: u32,
}

impl SqliteConnection {
    pub closed spec fn cache(&self) -> Seq<(Seq<char>, u64)> {
        self.statement_cache.entries()
    }

    pub closed spec fn handle(&self) -> u64 {
        self.raw_connection.connection_id
    }

    pub closed spec fn depth(&self) -> u32 {
        self.transaction_depth
    }

    /// The cache holds each SQL text at most once. Every constructor
    /// establishes it and every method keeps it.
    pub open spec fn wf(&self) -> bool {
        keys_unique(self.cache())
    }

    /// A connection over the handle that the host's open call returned, with
    /// an empty cache and no transaction.
    pub fn establish(connection_id: u64) -> (r: SqliteConnection)
        ensures
            r.wf(),
            r.handle() == connection_id,
            r.cache().len() == 0,
            r.depth() == 0,
    {
        SqliteConnection {
            statement_cache: StatementCache::new(),
            raw_connection: RawConnection::establish(connection_id),
            transaction_depth: 0,
        }
    }

    pub fn connection_id(&self) -> (r: u64)
        ensures
            r == self.handle(),
    {
        self.raw_connection.connection_id
    }

    /// The number of cached statements.
    pub fn cache_len(&self) -> (r: usize)
        ensures
            r == self.cache().len(),
    {
        self.statement_cache.len()
    }

    /// Looks a query up in the cache. A query that may not be cached (its SQL
    /// text embeds literal values) never hits; a cacheable one hits exactly
    /// when a statement is cached under its SQL text.
    pub fn cached_statement(&self, sql: &String, is_cacheable: bool) -> (r: Option<Statement>)
        requires
            self.wf(),
        ensures
            r is Some == cache_hit(self.cache(), sql@, is_cacheable),
            match r {
                Some(s) => s@.state == StatementState::Prepared && s@.is_cached && s@.bound.len()
                    == 0 && has_entry(self.cache(), sql@, s@.statement_id) && forall|id: u64|
                    has_entry(self.cache(), sql@, id) ==> id == s@.statement_id,
                None => true,
            },
    {
        if !is_cacheable {
            return None;
        }
        match self.statement_cache.lookup(sql) {
            Some(id) => {
                proof {
                    let es = self.cache();
                    assert forall|other: u64| has_entry(es, sql@, other) implies other == id by {
                        let i = choose|i: int| 0 <= i < es.len() && #[trigger] es[i] == (sql@, id);
                        let j = choose|j: int| 0 <= j < es.len() && #[trigger] es[j] == (sql@, other);
                        assert(es[i].0 == es[j].0);
                    }
                }
                Some(Statement::new(id, true))
            },
            None => None,
        }
    }

    /// Records a statement that the host has just prepared for a query that
    /// missed the cache. It enters the cache when the query is cacheable and
    /// its SQL text is not cached yet; otherwise it is used once and then
    /// finalized.
    pub fn on_prepared(&mut self, sql: String, is_cacheable: bool, statement_id: u64) -> (r:
        Statement)
        requires
            old(self).wf(),
        ensures
            final(self).wf(),
            final(self).handle() == old(self).handle(),
            final(self).depth() == old(self).depth(),
            r@.statement_id == statement_id,
            r@.state == StatementState::Prepared,
            r@.bound.len() == 0,
            r@.is_cached == (is_cacheable && !has_key(old(self).cache(), sql@)),
            final(self).cache() == cache_after_prepare(
                old(self).cache(),
                sql@,
                is_cacheable,
                statement_id,
            ),
    {
        if is_cacheable {
            match self.statement_cache.lookup(&sql) {
                Some(id) => {
                    proof {
                        let es = old(self).cache();
                        let i = choose|i: int| 0 <= i < es.len() && #[trigger] es[i] == (sql@, id);
                        assert(es[i].0 == sql@);
                    }
                    Statement::new(statement_id, false)
                },
                None => {
                    self.statement_cache.insert(sql, statement_id);
                    Statement::new(statement_id, true)
                },
            }
        } else {
            Statement::new(statement_id, false)
        }
    }

    /// Decides what happens to a statement after use: a cached one is reset
    /// and stays in the cache, any other one is finalized.
    pub fn release(&self, statement: Statement) -> (r: Release)
        ensures
            r == if statement@.is_cached {
                Release::Reset(statement@.statement_id)
            } else {
                Release::Finalize(statement@.statement_id)
            },
    {
        if statement.is_cached() {
            Release::Reset(statement.statement_id())
        } else {
            Release::Finalize(statement.finalize())
        }
    }

    /// Empties the cache before the connection closes; returns the handles
    /// to finalize.
    pub fn close(&mut self) -> (r: Vec<u64>)
        ensures
            r@ == old(self).cache().map_values(|e: (Seq<char>, u64)| e.1),
            final(self).cache().len() == 0,
            final(self).wf(),
    {
        self.statement_cache.drain()
    }

    pub fn transaction_depth(&self) -> (r: u32)
        ensures
            r == self.depth(),
    {
        self.transaction_depth
    }

    /// The SQL that opens a transaction with the given `BEGIN` statement, or
    /// a savepoint inside an open transaction.
    pub fn begin_transaction_sql(&self, begin: &str) -> (r: String)
        ensures
            r@ == begin_sql_of(self.depth(), begin@),
    {
        if self.transaction_depth == 0 {
            String::from_str(begin)
        } else {
            savepoint("SAVEPOINT ", self.transaction_depth)
        }
    }

    /// The SQL that opens an immediate transaction; refused inside an open
    /// transaction.
    pub fn immediate_transaction(&self) -> (r: Result<String, Error>)
        ensures
            self.depth() > 0 ==> r == Err::<String, Error>(Error::AlreadyInTransaction),
            self.depth() == 0 ==> (r matches Ok(s) && s@ == "BEGIN IMMEDIATE"@),
    {
        if self.transaction_depth > 0 {
            Err(Error::AlreadyInTransaction)
        } else {
            Ok(String::from_str("BEGIN IMMEDIATE"))
        }
    }

    /// The SQL that opens an exclusive transaction; refused inside an open
    /// transaction.
    pub fn exclusive_transaction(&self) -> (r: Result<String, Error>)
        ensures
            self.depth() > 0 ==> r == Err::<String, Error>(Error::AlreadyInTransaction),
            self.depth() == 0 ==> (r matches Ok(s) && s@ == "BEGIN EXCLUSIVE"@),
    {
        if self.transaction_depth > 0 {
            Err(Error::AlreadyInTransaction)
        } else {
            Ok(String::from_str("BEGIN EXCLUSIVE"))
        }
    }

    /// Records that the host executed the opening SQL successfully.
    pub fn on_transaction_begun(&mut self)
        requires
            old(self).depth() < u32::MAX,
        ensures
            final(self).depth() == old(self).depth() + 1,
            final(self).cache() == old(self).cache(),
            final(self).handle() == old(self).handle(),
            final(self).wf() == old(self).wf(),
    {
        self.transaction_depth = self.transaction_depth + 1;
    }

    /// The SQL that ends the innermost transaction once its body has run:
    /// it commits when the body succeeded and rolls back when it failed, so
    /// that no failed work is left in place when the error reaches the caller.
    pub fn transaction_sql(&self, body_succeeded: bool) -> (r: Option<String>)
        ensures
            self.depth() == 0 ==> r is None,
            self.depth() > 0 ==> (r matches Some(s) && s@ == end_sql_of(
                self.depth(),
                body_succeeded,
            )),
    {
        let depth = self.transaction_depth;
        if depth == 0 {
            None
        } else if depth == 1 {
            if body_succeeded {
                Some(String::from_str("COMMIT"))
            } else {
                Some(String::from_str("ROLLBACK"))
            }
        } else if body_succeeded {
            Some(savepoint("RELEASE SAVEPOINT ", depth - 1))
        } else {
            Some(savepoint("ROLLBACK TO SAVEPOINT ", depth - 1))
        }
    }

    /// Records that the innermost transaction has ended, whether its end SQL
    /// succeeded or not.
    pub fn on_transaction_ended(&mut self)
        ensures
            final(self).depth() == if old(self).depth() == 0 {
                0
            } else {
                old(self).depth() - 1
            },
            final(self).cache() == old(self).cache(),
            final(self).handle() == old(self).handle(),
            final(self).wf() == old(self).wf(),
    {
        if self.transaction_depth > 0 {
            self.transaction_depth = self.transaction_depth - 1;
        }
    }
}

} // verus!
