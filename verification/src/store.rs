use vstd::prelude::*;

verus! {

/// A fault of the backing store. The sweep cannot guarantee resumability
/// without its store, so callers treat such a fault as fatal.
#[derive(Debug)]
pub enum StoreError {
    /// The storage engine refused the operation; the message is its own.
    Backend(String),
    /// A stored checkpoint does not fit a 32-bit address.
    CorruptValue,
}

#[verifier::external_type_specification]
#[verifier::external_body]
pub struct ExConnection(sqlite::Connection);

/// The set of addresses durably committed as checked in the store behind
/// the connection.
pub uninterp spec fn committed_addrs(conn: sqlite::Connection) -> Set<u32>;

/// The set of addresses durably recorded as reachable in the store behind
/// the connection.
pub uninterp spec fn reachable_addrs(conn: sqlite::Connection) -> Set<u32>;

/// What `load` owes: `c` bounds everything committed, and is itself
/// committed unless nothing is, in which case it is zero.
pub open spec fn checkpoint_ok(s: Set<u32>, c: u32) -> bool {
    (forall|a: u32| s.contains(a) ==> a <= c)
    && (s.contains(c) || (c == 0 && (forall|a: u32| !s.contains(a))))
}

/// Relies on sqlite::open: opens or creates the database file read-write.
#[verifier::external_body]
fn db_open(path: &str) -> (r: Result<sqlite::Connection, StoreError>)
{
    sqlite::open(path).map_err(|e| StoreError::Backend(match e.message {
        Some(m) => m,
        None => String::new(),
    }))
}

/// Relies on sqlite::Connection::execute running CREATE TABLE IF NOT EXISTS
/// for the two tables: it never adds, drops or changes a row.
#[verifier::external_body]
fn db_create_tables(conn: &mut sqlite::Connection) -> (r: Result<(), StoreError>)
    ensures
        committed_addrs(*final(conn)) == committed_addrs(*old(conn)),
        reachable_addrs(*final(conn)) == reachable_addrs(*old(conn)),
{
    conn.execute(
        "CREATE TABLE IF NOT EXISTS checked(addr, UNIQUE(addr));
         CREATE TABLE IF NOT EXISTS ip(addr, UNIQUE(addr))",
    ).map_err(|e| StoreError::Backend(match e.message {
        Some(m) => m,
        None => String::new(),
    }))
}

/// Relies on sqlite::Connection::execute running INSERT OR IGNORE on the
/// `checked` table: afterwards the rows are the old rows plus the address,
/// stored in decimal form; a failed single statement changes nothing.
#[verifier::external_body]
fn db_insert_checked(conn: &mut sqlite::Connection, addr: u32) -> (r: Result<(), StoreError>)
    ensures
        r is Ok ==> committed_addrs(*final(conn)) == committed_addrs(*old(conn)).insert(addr),
        r is Err ==> committed_addrs(*final(conn)) == committed_addrs(*old(conn)),
        reachable_addrs(*final(conn)) == reachable_addrs(*old(conn)),
{
    conn.execute(format!("INSERT OR IGNORE INTO checked VALUES ('{}')", addr))
        .map_err(|e| StoreError::Backend(match e.message {
            Some(m) => m,
            None => String::new(),
        }))
}

/// Relies on sqlite::Connection::execute running INSERT OR IGNORE on the
/// `ip` table: afterwards the rows are the old rows plus the address,
/// stored in decimal form; a failed single statement changes nothing.
#[verifier::external_body]
fn db_insert_reachable(conn: &mut sqlite::Connection, addr: u32) -> (r: Result<(), StoreError>)
    ensures
        r is Ok ==> reachable_addrs(*final(conn)) == reachable_addrs(*old(conn)).insert(addr),
        r is Err ==> reachable_addrs(*final(conn)) == reachable_addrs(*old(conn)),
        committed_addrs(*final(conn)) == committed_addrs(*old(conn)),
{
    conn.execute(format!("INSERT OR IGNORE INTO ip VALUES ('{}')", addr))
        .map_err(|e| StoreError::Backend(match e.message {
            Some(m) => m,
            None => String::new(),
        }))
}

/// Relies on sqlite::Connection::prepare and Statement::next and read
/// running SELECT max over the `checked` table read numerically: the
/// numeric maximum of the stored addresses, and zero when none are stored.
#[verifier::external_body]
fn db_max_checked(conn: &sqlite::Connection) -> (r: Result<u32, StoreError>)
    ensures
        r matches Ok(c) ==> checkpoint_ok(committed_addrs(*conn), c),
{
    let mut stmt = match conn.prepare("SELECT max(CAST(addr AS INTEGER)) FROM checked") {
        Ok(s) => s,
        Err(e) => return Err(StoreError::Backend(e.message.unwrap_or_default())),
    };
    match stmt.next() {
        Ok(sqlite::State::Row) => match stmt.read::<i64, _>(0) {
            Ok(v) => u32::try_from(v).map_err(|_| StoreError::CorruptValue),
            Err(e) => Err(StoreError::Backend(e.message.unwrap_or_default())),
        },
        Ok(sqlite::State::Done) => Ok(0),
        Err(e) => Err(StoreError::Backend(e.message.unwrap_or_default())),
    }
}

/// Relies on sqlite::Connection::prepare and Statement::next running SELECT
/// over the `ip` table: whether a row for the address, in decimal form, is
/// stored.
#[verifier::external_body]
fn db_has_reachable(conn: &sqlite::Connection, addr: u32) -> (r: Result<bool, StoreError>)
    ensures
        r matches Ok(b) ==> b == reachable_addrs(*conn).contains(addr),
{
    let query = format!("SELECT 1 FROM ip WHERE addr = '{}'", addr);
    let mut stmt = match conn.prepare(query) {
        Ok(s) => s,
        Err(e) => return Err(StoreError::Backend(e.message.unwrap_or_default())),
    };
    match stmt.next() {
        Ok(sqlite::State::Row) => Ok(true),
        Ok(sqlite::State::Done) => Ok(false),
        Err(e) => Err(StoreError::Backend(e.message.unwrap_or_default())),
    }
}

/// The durable side of the sweep: the checkpoint table `checked`, whose
/// maximum is the resume point, and the results table `ip`, which records
/// the addresses confirmed reachable.
pub struct CheckpointStore {
    conn: sqlite::Connection,
}

impl CheckpointStore {
    /// The set of committed checkpoint addresses this store holds.
    pub closed spec fn committed(self) -> Set<u32> {
        committed_addrs(self.conn)
    }

    /// The set of addresses this store records as reachable.
    pub closed spec fn reachable(self) -> Set<u32> {
        reachable_addrs(self.conn)
    }

    /// Opens the store at `path`, creating its two tables when missing.
    /// What it holds is whatever earlier runs committed there.
    pub fn open(path: &str) -> (r: Result<CheckpointStore, StoreError>)
    {
        let mut conn = match db_open(path) {
            Ok(c) => c,
            Err(e) => return Err(e),
        };
        match db_create_tables(&mut conn) {
            Ok(()) => Ok(CheckpointStore { conn }),
            Err(e) => Err(e),
        }
    }

    /// Returns the checkpoint: the highest committed address, regardless of
    /// the order in which addresses were committed, and zero when nothing
    /// has been committed yet.
    pub fn load(&self) -> (r: Result<u32, StoreError>)
        ensures
            r matches Ok(c) ==> checkpoint_ok(self.committed(), c),
    {
        db_max_checked(&self.conn)
    }

    /// Commits one address: afterwards the committed set holds it, and
    /// committing an already-committed address changes nothing. A failed
    /// commit leaves the store as it was.
    pub fn commit(&mut self, address: u32) -> (r: Result<(), StoreError>)
        ensures
            r is Ok ==> final(self).committed() == old(self).committed().insert(address),
            r is Err ==> final(self).committed() == old(self).committed(),
            final(self).reachable() == old(self).reachable(),
    {
        db_insert_checked(&mut self.conn, address)
    }

    /// Records one address as confirmed reachable; recording it twice
    /// changes nothing. A failed write leaves the store as it was.
    pub fn record_reachable(&mut self, address: u32) -> (r: Result<(), StoreError>)
        ensures
            r is Ok ==> final(self).reachable() == old(self).reachable().insert(address),
            r is Err ==> final(self).reachable() == old(self).reachable(),
            final(self).committed() == old(self).committed(),
    {
        db_insert_reachable(&mut self.conn, address)
    }

    /// Returns whether the address stands in the reachable results.
    pub fn is_reachable_recorded(&self, address: u32) -> (r: Result<bool, StoreError>)
        ensures
            r matches Ok(b) ==> b == self.reachable().contains(address),
    {
        db_has_reachable(&self.conn, address)
    }
}

/// Law: committing an address twice is the same as committing it once, and
/// when the address is at least everything committed before, the checkpoint
/// read back afterwards is exactly that address — neither doubled nor
/// incremented.
pub proof fn lemma_commit_idempotent(s: Set<u32>, x: u32, c: u32)
    requires
        forall|a: u32| s.contains(a) ==> a <= x,
        checkpoint_ok(s.insert(x).insert(x), c),
    ensures
        s.insert(x).insert(x) =~= s.insert(x),
        c == x,
{
    assert(s.insert(x).insert(x).contains(x));
    assert(s.insert(x).insert(x).contains(c));
}

/// Law: the checkpoint never decreases as the committed set grows, so the
/// values read back across a run are non-decreasing.
pub proof fn lemma_checkpoint_monotone(s1: Set<u32>, s2: Set<u32>, c1: u32, c2: u32)
    requires
        s1.subset_of(s2),
        checkpoint_ok(s1, c1),
        checkpoint_ok(s2, c2),
    ensures
        c1 <= c2,
{
    if s1.contains(c1) {
        assert(s2.contains(c1));
    }
}

} // verus!
