//! Relational storage rules: the statements of the SQL CQRS bridge for each
//! database, how stored rows become events, the column synchronisation plan
//! of entity schemas, and the in-memory query cache.

use vstd::prelude::*;
use vstd::string::*;
use crate::cqrs::{CqrsError, StoredEvent, StoredEventView, slot_of, find_slot, lemma_slot_of_bound};
use crate::json::{JsonValue, JsonView};
use crate::json_text::{json_parse, json_render, parse_json_text, parse_view};
use crate::cqrs::json_text_of;
use crate::keyed::{keyed_value, keyed_put, keyed_remove};
use crate::discovery::same_text;
use crate::resilience::{elapsed_ns, instant_now};

verus! {

/// The database a connection talks to.
#[derive(Debug, Clone, Copy, PartialEq, Eq, Structural)]
pub enum SqlBackend {
    Sqlite,
    Postgres,
    MySql,
}

/// A bound statement parameter.
#[derive(Debug)]
pub enum SqlValue {
    Text(String),
    Int(i64),
}

/// Abstract statement parameter.
pub enum SqlValueView {
    Text(Seq<char>),
    Int(i64),
}

impl SqlValue {
    /// The abstract value.
    pub open spec fn view(&self) -> SqlValueView {
        match *self {
            SqlValue::Text(s) => SqlValueView::Text(s@),
            SqlValue::Int(i) => SqlValueView::Int(i),
        }
    }
}

/// The statement creating the events table.
pub open spec fn create_events_text(b: SqlBackend) -> Seq<char> {
    match b {
        SqlBackend::Sqlite => "CREATE TABLE IF NOT EXISTS nova_events (\
                id INTEGER PRIMARY KEY AUTOINCREMENT,\
                aggregate_id TEXT NOT NULL,\
                event_type  TEXT NOT NULL,\
                payload     TEXT NOT NULL,\
                version     INTEGER NOT NULL,\
                timestamp_ms INTEGER NOT NULL\
            )"@,
        SqlBackend::Postgres => "CREATE TABLE IF NOT EXISTS nova_events (\
                id SERIAL PRIMARY KEY,\
                aggregate_id VARCHAR(255) NOT NULL,\
                event_type  VARCHAR(255) NOT NULL,\
                payload     JSONB NOT NULL,\
                version     INTEGER NOT NULL,\
                timestamp_ms BIGINT NOT NULL\
            )"@,
        SqlBackend::MySql => "CREATE TABLE IF NOT EXISTS nova_events (\
                id BIGINT AUTO_INCREMENT PRIMARY KEY,\
                aggregate_id VARCHAR(255) NOT NULL,\
                event_type  VARCHAR(255) NOT NULL,\
                payload     JSON NOT NULL,\
                version     INTEGER NOT NULL,\
                timestamp_ms BIGINT NOT NULL\
            )"@,
    }
}

/// The statement creating the projections table.
pub open spec fn create_projections_text(b: SqlBackend) -> Seq<char> {
    match b {
        SqlBackend::Sqlite => "CREATE TABLE IF NOT EXISTS nova_projections (\
                pkey TEXT PRIMARY KEY,\
                value TEXT NOT NULL\
            )"@,
        SqlBackend::Postgres => "CREATE TABLE IF NOT EXISTS nova_projections (\
                pkey VARCHAR(255) PRIMARY KEY,\
                value JSONB NOT NULL\
            )"@,
        SqlBackend::MySql => "CREATE TABLE IF NOT EXISTS nova_projections (\
                pkey VARCHAR(255) PRIMARY KEY,\
                value JSON NOT NULL\
            )"@,
    }
}

/// The statement inserting one event.
pub open spec fn insert_event_text(b: SqlBackend) -> Seq<char> {
    if b == SqlBackend::Sqlite {
        "INSERT INTO nova_events (aggregate_id, event_type, payload, version, timestamp_ms) VALUES (?1, ?2, ?3, ?4, ?5)"@
    } else {
        "INSERT INTO nova_events (aggregate_id, event_type, payload, version, timestamp_ms) VALUES ($1, $2, $3, $4, $5)"@
    }
}

/// The query reading an aggregate's events in version order.
pub open spec fn select_events_text(b: SqlBackend) -> Seq<char> {
    if b == SqlBackend::Sqlite {
        "SELECT aggregate_id, event_type, payload, version, timestamp_ms FROM nova_events WHERE aggregate_id = ?1 ORDER BY version ASC"@
    } else {
        "SELECT aggregate_id, event_type, payload, version, timestamp_ms FROM nova_events WHERE aggregate_id = $1 ORDER BY version ASC"@
    }
}

/// The query reading one projection.
pub open spec fn select_projection_text(b: SqlBackend) -> Seq<char> {
    if b == SqlBackend::Sqlite {
        "SELECT value FROM nova_projections WHERE pkey = ?1"@
    } else {
        "SELECT value FROM nova_projections WHERE pkey = $1"@
    }
}

/// The statement inserting or replacing one projection.
pub open spec fn upsert_projection_text(b: SqlBackend) -> Seq<char> {
    match b {
        SqlBackend::Sqlite => "INSERT OR REPLACE INTO nova_projections (pkey, value) VALUES (?1, ?2)"@,
        SqlBackend::Postgres => "INSERT INTO nova_projections (pkey, value) VALUES ($1, $2::jsonb) ON CONFLICT (pkey) DO UPDATE SET value = EXCLUDED.value"@,
        SqlBackend::MySql => "REPLACE INTO nova_projections (pkey, value) VALUES (?, ?)"@,
    }
}

/// The SQL side of the CQRS bridge: which database it writes to and
/// whether its tables were created.
pub struct SqlCqrsBridge {
    pub backend: SqlBackend,
    pub initialized: bool,
}

impl SqlCqrsBridge {
    /// Whether the tables were created.
    pub open spec fn is_ready(&self) -> bool {
        self.initialized
    }

    /// A bridge for `backend` whose tables are not created yet.
    pub fn new(backend: SqlBackend) -> (r: Self)
        ensures
            r.backend == backend,
            !r.is_ready(),
    {
        SqlCqrsBridge { backend, initialized: false }
    }

    /// Whether the tables were created.
    pub fn is_initialized(&self) -> (r: bool)
        ensures
            r == self.is_ready(),
    {
        self.initialized
    }

    /// The statements that create the tables, in order; none once they
    /// were created (initialisation is idempotent).
    pub fn init_statements(&self) -> (r: Vec<&'static str>)
        ensures
            self.is_ready() ==> r@.len() == 0,
            !self.is_ready() ==> r@.len() == 2 && r@[0]@ == create_events_text(self.backend) && r@[1]@
                == create_projections_text(self.backend),
    {
        let mut v: Vec<&'static str> = Vec::new();
        if !self.initialized {
            v.push(Self::create_events_sql(self.backend));
            v.push(Self::create_projections_sql(self.backend));
        }
        v
    }

    /// Records that the tables exist.
    pub fn mark_initialized(&mut self)
        ensures
            final(self).is_ready(),
            final(self).backend == old(self).backend,
    {
        self.initialized = true;
    }

    /// The statement creating the events table.
    pub fn create_events_sql(backend: SqlBackend) -> (r: &'static str)
        ensures
            r@ == create_events_text(backend),
    {
        match backend {
            SqlBackend::Sqlite => "CREATE TABLE IF NOT EXISTS nova_events (\
                id INTEGER PRIMARY KEY AUTOINCREMENT,\
                aggregate_id TEXT NOT NULL,\
                event_type  TEXT NOT NULL,\
                payload     TEXT NOT NULL,\
                version     INTEGER NOT NULL,\
                timestamp_ms INTEGER NOT NULL\
            )",
            SqlBackend::Postgres => "CREATE TABLE IF NOT EXISTS nova_events (\
                id SERIAL PRIMARY KEY,\
                aggregate_id VARCHAR(255) NOT NULL,\
                event_type  VARCHAR(255) NOT NULL,\
                payload     JSONB NOT NULL,\
                version     INTEGER NOT NULL,\
                timestamp_ms BIGINT NOT NULL\
            )",
            SqlBackend::MySql => "CREATE TABLE IF NOT EXISTS nova_events (\
                id BIGINT AUTO_INCREMENT PRIMARY KEY,\
                aggregate_id VARCHAR(255) NOT NULL,\
                event_type  VARCHAR(255) NOT NULL,\
                payload     JSON NOT NULL,\
                version     INTEGER NOT NULL,\
                timestamp_ms BIGINT NOT NULL\
            )",
        }
    }

    /// The statement creating the projections table.
    pub fn create_projections_sql(backend: SqlBackend) -> (r: &'static str)
        ensures
            r@ == create_projections_text(backend),
    {
        match backend {
            SqlBackend::Sqlite => "CREATE TABLE IF NOT EXISTS nova_projections (\
                pkey TEXT PRIMARY KEY,\
                value TEXT NOT NULL\
            )",
            SqlBackend::Postgres => "CREATE TABLE IF NOT EXISTS nova_projections (\
                pkey VARCHAR(255) PRIMARY KEY,\
                value JSONB NOT NULL\
            )",
            SqlBackend::MySql => "CREATE TABLE IF NOT EXISTS nova_projections (\
                pkey VARCHAR(255) PRIMARY KEY,\
                value JSON NOT NULL\
            )",
        }
    }

    /// The statement inserting one event.
    pub fn insert_event_sql(&self) -> (r: &'static str)
        ensures
            r@ == insert_event_text(self.backend),
    {
        if self.backend == SqlBackend::Sqlite {
            "INSERT INTO nova_events (aggregate_id, event_type, payload, version, timestamp_ms) VALUES (?1, ?2, ?3, ?4, ?5)"
        } else {
            "INSERT INTO nova_events (aggregate_id, event_type, payload, version, timestamp_ms) VALUES ($1, $2, $3, $4, $5)"
        }
    }

    /// The query reading an aggregate's events in version order.
    pub fn select_events_sql(&self) -> (r: &'static str)
        ensures
            r@ == select_events_text(self.backend),
    {
        if self.backend == SqlBackend::Sqlite {
            "SELECT aggregate_id, event_type, payload, version, timestamp_ms FROM nova_events WHERE aggregate_id = ?1 ORDER BY version ASC"
        } else {
            "SELECT aggregate_id, event_type, payload, version, timestamp_ms FROM nova_events WHERE aggregate_id = $1 ORDER BY version ASC"
        }
    }

    /// The query reading one projection.
    pub fn select_projection_sql(&self) -> (r: &'static str)
        ensures
            r@ == select_projection_text(self.backend),
    {
        if self.backend == SqlBackend::Sqlite {
            "SELECT value FROM nova_projections WHERE pkey = ?1"
        } else {
            "SELECT value FROM nova_projections WHERE pkey = $1"
        }
    }

    /// The statement inserting or replacing one projection.
    pub fn upsert_projection_sql(&self) -> (r: &'static str)
        ensures
            r@ == upsert_projection_text(self.backend),
    {
        match self.backend {
            SqlBackend::Sqlite => "INSERT OR REPLACE INTO nova_projections (pkey, value) VALUES (?1, ?2)",
            SqlBackend::Postgres => "INSERT INTO nova_projections (pkey, value) VALUES ($1, $2::jsonb) ON CONFLICT (pkey) DO UPDATE SET value = EXCLUDED.value",
            SqlBackend::MySql => "REPLACE INTO nova_projections (pkey, value) VALUES (?, ?)",
        }
    }

    /// The parameters of the event insert: id, type, the payload's JSON
    /// text, and version and timestamp as signed 64-bit integers.
    pub fn insert_event_params(event: &StoredEvent, payload_json: String) -> (r: Vec<SqlValue>)
        ensures
            r@.len() == 5,
            r@[0]@ == SqlValueView::Text(event.aggregate_id@),
            r@[1]@ == SqlValueView::Text(event.event_type@),
            r@[2]@ == SqlValueView::Text(payload_json@),
            r@[3]@ == SqlValueView::Int(event.version as i64),
            r@[4]@ == SqlValueView::Int(event.timestamp_ms as i64),
    {
        let mut v: Vec<SqlValue> = Vec::new();
        v.push(SqlValue::Text(event.aggregate_id.clone()));
        v.push(SqlValue::Text(event.event_type.clone()));
        v.push(SqlValue::Text(payload_json));
        v.push(SqlValue::Int(event.version as i64));
        v.push(SqlValue::Int(event.timestamp_ms as i64));
        v
    }

    /// The event a stored row describes; version and timestamp are read
    /// back from their signed columns.
    pub fn event_from_row(
        aggregate_id: String,
        event_type: String,
        payload: JsonValue,
        version: i64,
        timestamp_ms: i64,
    ) -> (r: StoredEvent)
        ensures
            r.aggregate_id == aggregate_id,
            r.event_type == event_type,
            r.payload == payload,
            r.version == version as u32,
            r.timestamp_ms == timestamp_ms as u64,
    {
        StoredEvent {
            aggregate_id,
            event_type,
            payload,
            version: version as u32,
            timestamp_ms: timestamp_ms as u64,
        }
    }

    /// The event a stored row describes, its payload given as the JSON text
    /// of its column: a payload that does not parse is a `Serialization`
    /// error carrying the parser's complaint; otherwise the event is the
    /// one `event_from_row` builds.
    pub fn event_from_columns(
        aggregate_id: String,
        event_type: String,
        payload_text: &str,
        version: i64,
        timestamp_ms: i64,
    ) -> (r: Result<StoredEvent, CqrsError>)
        ensures
            row_event_outcome(r, aggregate_id@, event_type@, json_parse(payload_text@), version, timestamp_ms),
    {
        let parsed = parse_json_text(payload_text);
        SqlCqrsBridge::event_from_parsed(aggregate_id, event_type, parsed, version, timestamp_ms)
    }

    /// The event a stored row describes, given what parsing its payload
    /// column gave.
    pub fn event_from_parsed(
        aggregate_id: String,
        event_type: String,
        parsed: Result<JsonValue, String>,
        version: i64,
        timestamp_ms: i64,
    ) -> (r: Result<StoredEvent, CqrsError>)
        ensures
            row_event_outcome(r, aggregate_id@, event_type@, parse_view(parsed), version, timestamp_ms),
    {
        match parsed {
            Ok(payload) => Ok(SqlCqrsBridge::event_from_row(aggregate_id, event_type, payload, version, timestamp_ms)),
            Err(e) => Err(CqrsError::Serialization(e)),
        }
    }

    /// The error for a column that could not be read: the payload and the
    /// projection value have their own wording.
    pub fn column_error(column: &str, detail: &str) -> (r: CqrsError)
        ensures
            r matches CqrsError::Backend(m) && m@ == (if column@ == "payload"@ {
                "failed to read payload column: "@ + detail@
            } else if column@ == "value"@ {
                "failed to read projection value: "@ + detail@
            } else {
                "failed to read "@ + column@ + ": "@ + detail@
            }),
    {
        if same_text(column, "payload") {
            CqrsError::Backend(String::from_str("failed to read payload column: ").concat(detail))
        } else if same_text(column, "value") {
            CqrsError::Backend(String::from_str("failed to read projection value: ").concat(detail))
        } else {
            CqrsError::Backend(String::from_str("failed to read ").concat(column).concat(": ").concat(detail))
        }
    }
}

/// `r` is what a row with these columns gives, for the outcome `parsed` of
/// reading its payload text.
pub open spec fn row_event_outcome(
    r: Result<StoredEvent, CqrsError>,
    aggregate_id: Seq<char>,
    event_type: Seq<char>,
    parsed: Result<JsonView, Seq<char>>,
    version: i64,
    timestamp_ms: i64,
) -> bool {
    match parsed {
        Ok(payload) => r matches Ok(e) && e@ == (StoredEventView {
            aggregate_id,
            event_type,
            payload,
            version: version as u32,
            timestamp_ms: timestamp_ms as u64,
        }),
        Err(m) => r matches Err(CqrsError::Serialization(s)) && s@ == m,
    }
}

/// The round trip of an event through its row: what is read back from what
/// was written. Version survives exactly; a timestamp survives when it fits
/// in a signed 64-bit column.
pub proof fn law_event_row_round_trip(e: StoredEventView)
    requires
        e.timestamp_ms <= i64::MAX,
    ensures
        ((e.version as i64) as u32) == e.version,
        ((e.timestamp_ms as i64) as u64) == e.timestamp_ms,
{
}

/// `xs` without the entries that occur in `ys`, in order.
pub open spec fn absent_from(xs: Seq<Seq<char>>, ys: Seq<Seq<char>>) -> Seq<Seq<char>>
    decreases xs.len(),
{
    if xs.len() == 0 {
        xs
    } else {
        let rest = absent_from(xs.drop_last(), ys);
        if ys.contains(xs.last()) { rest } else { rest.push(xs.last()) }
    }
}

/// The views of a list of strings.
pub open spec fn texts(v: Seq<String>) -> Seq<Seq<char>> {
    v.map_values(|s: String| s@)
}

/// Column changes that bring a table in line with its entity.
#[derive(Debug)]
pub struct ColumnSyncPlan {
    /// Model columns the table lacks, in model order.
    pub add: Vec<String>,
    /// Table columns the model lacks, in table order (only when dropping is
    /// allowed).
    pub drop: Vec<String>,
}

fn contains_text(v: &Vec<String>, s: &str) -> (r: bool)
    ensures
        r == texts(v@).contains(s@),
{
    let mut i: usize = 0;
    while i < v.len()
        invariant
            i <= v@.len(),
            forall|j: int| 0 <= j < i ==> v@[j]@ != s@,
        decreases v.len() - i,
    {
        if same_text(v[i].as_str(), s) {
            assert(texts(v@)[i as int] == s@);
            return true;
        }
        i = i + 1;
    }
    assert forall|j: int| 0 <= j < texts(v@).len() implies texts(v@)[j] != s@ by {
        assert(texts(v@)[j] == v@[j]@);
    }
    false
}

fn missing_from(xs: &Vec<String>, ys: &Vec<String>) -> (r: Vec<String>)
    ensures
        texts(r@) == absent_from(texts(xs@), texts(ys@)),
{
    let ghost xv = texts(xs@);
    let ghost yv = texts(ys@);
    let mut out: Vec<String> = Vec::new();
    let mut i: usize = 0;
    assert(texts(out@) =~= absent_from(xv.take(0), yv));
    while i < xs.len()
        invariant
            i <= xs@.len(),
            xv == texts(xs@),
            yv == texts(ys@),
            texts(out@) == absent_from(xv.take(i as int), yv),
        decreases xs.len() - i,
    {
        assert(xv.take(i + 1).drop_last() =~= xv.take(i as int));
        assert(xv.take(i + 1).last() == xs@[i as int]@);
        if !contains_text(ys, xs[i].as_str()) {
            let ghost before = out@;
            out.push(xs[i].clone());
            assert(texts(out@) =~= texts(before).push(xs@[i as int]@));
        }
        i = i + 1;
    }
    assert(xv.take(i as int) =~= xv);
    out
}

/// The column changes for an entity whose model has `model` columns and
/// whose table has `existing` ones. A table without columns (not created
/// yet) gets none; columns are dropped only when `allow_drop` is set.
pub fn column_sync_plan(model: &Vec<String>, existing: &Vec<String>, allow_drop: bool) -> (r: ColumnSyncPlan)
    ensures
        existing@.len() == 0 ==> r.add@.len() == 0 && r.drop@.len() == 0,
        existing@.len() > 0 ==> texts(r.add@) == absent_from(texts(model@), texts(existing@)),
        existing@.len() > 0 && allow_drop ==> texts(r.drop@) == absent_from(texts(existing@), texts(model@)),
        !allow_drop ==> r.drop@.len() == 0,
{
    if existing.len() == 0 {
        return ColumnSyncPlan { add: Vec::new(), drop: Vec::new() };
    }
    let add = missing_from(model, existing);
    let drop = if allow_drop { missing_from(existing, model) } else { Vec::new() };
    ColumnSyncPlan { add, drop }
}

/// How to list a table's columns on a database.
#[derive(Debug)]
pub struct ColumnQuery {
    pub sql: String,
    /// Whether the table name is bound as the query's one parameter.
    pub bind_table: bool,
    /// The result column that holds each column's name.
    pub name_field: &'static str,
}

/// The query listing `table`'s columns, or `None` for a database whose
/// schema is not synchronised.
pub fn table_columns_query(backend: SqlBackend, table: &str) -> (r: Option<ColumnQuery>)
    ensures
        backend == SqlBackend::Sqlite ==> (r matches Some(q) && q.sql@ == "PRAGMA table_info('"@ + table@ + "')"@
            && !q.bind_table && q.name_field@ == "name"@),
        backend == SqlBackend::Postgres ==> (r matches Some(q) && q.sql@
            == "SELECT column_name FROM information_schema.columns WHERE table_name = $1"@ && q.bind_table
            && q.name_field@ == "column_name"@),
        backend == SqlBackend::MySql ==> r is None,
{
    match backend {
        SqlBackend::Sqlite => Some(
            ColumnQuery {
                sql: String::from_str("PRAGMA table_info('").concat(table).concat("')"),
                bind_table: false,
                name_field: "name",
            },
        ),
        SqlBackend::Postgres => Some(
            ColumnQuery {
                sql: String::from_str("SELECT column_name FROM information_schema.columns WHERE table_name = $1"),
                bind_table: true,
                name_field: "column_name",
            },
        ),
        SqlBackend::MySql => None,
    }
}

/// What a read at `now` answers for an entry (value and expiry).
pub open spec fn cache_read(e: Option<(Seq<char>, u64)>, now: u64) -> Option<Seq<char>> {
    match e {
        Some(x) => if now <= x.1 { Some(x.0) } else { None },
        None => None,
    }
}

/// The text an optional string holds.
pub open spec fn text_of(r: Option<String>) -> Option<Seq<char>> {
    match r {
        Some(v) => Some(v@),
        None => None,
    }
}

/// When an entry written at `now` with time-to-live `ttl_ns` expires: the
/// sum, saturating at the largest time.
pub open spec fn saturating_expiry(now: u64, ttl_ns: u64) -> u64 {
    if now + ttl_ns <= u64::MAX { (now + ttl_ns) as u64 } else { u64::MAX }
}

/// A query cache held in memory; each entry expires at a time in
/// nanoseconds on the monotonic clock, counted from the moment the cache
/// was made.
pub struct InMemoryQueryCache {
    entries: Vec<(String, (String, u64))>,
    origin: std::time::Instant,
}

impl InMemoryQueryCache {
    /// The value stored for `key` and when it expires.
    pub closed spec fn entry(&self, key: Seq<char>) -> Option<(Seq<char>, u64)> {
        match keyed_value(self.entries@, key) {
            Some(e) => Some((e.0@, e.1)),
            None => None,
        }
    }

    /// An empty cache.
    pub fn new() -> (r: Self)
        ensures
            forall|k: Seq<char>| #[trigger] r.entry(k) is None,
    {
        InMemoryQueryCache { entries: Vec::new(), origin: instant_now() }
    }

    /// The value of `key` at time `now`: kept while `now` has not passed its
    /// expiry; an expired or missing entry is dropped and `None` returned.
    pub fn get_at(&mut self, key: &str, now: u64) -> (r: Option<String>)
        ensures
            text_of(r) == cache_read(old(self).entry(key@), now),
            r is Some ==> *final(self) == *old(self),
            r is None ==> final(self).entry(key@) is None,
            forall|k: Seq<char>| k != key@ ==> #[trigger] final(self).entry(k) == old(self).entry(k),
    {
        proof {
            lemma_slot_of_bound(self.entries@, key@);
        }
        match find_slot(&self.entries, key) {
            Some(i) => {
                if now <= self.entries[i].1.1 {
                    return Some(self.entries[i].1.0.clone());
                }
            },
            None => {},
        }
        keyed_remove(&mut self.entries, key);
        None
    }

    /// Stores `value` for `key`, expiring `ttl_ns` after `now`.
    pub fn set_at(&mut self, key: &str, value: String, ttl_ns: u64, now: u64)
        requires
            now + ttl_ns <= u64::MAX,
        ensures
            final(self).entry(key@) == Some((value@, (now + ttl_ns) as u64)),
            forall|k: Seq<char>| k != key@ ==> #[trigger] final(self).entry(k) == old(self).entry(k),
    {
        keyed_put(&mut self.entries, key, (value, now + ttl_ns));
    }

    /// Drops the entry of `key`.
    pub fn del(&mut self, key: &str)
        ensures
            final(self).entry(key@) is None,
            forall|k: Seq<char>| k != key@ ==> #[trigger] final(self).entry(k) == old(self).entry(k),
    {
        keyed_remove(&mut self.entries, key);
    }

    /// The value of `key` now, by the monotonic clock: what `get_at`
    /// answers at the time the clock reads.
    pub fn get(&mut self, key: &str) -> (r: Option<String>)
        ensures
            exists|now: u64| #[trigger] cache_read(old(self).entry(key@), now) == text_of(r),
            r is Some ==> *final(self) == *old(self),
            r is None ==> final(self).entry(key@) is None,
            forall|k: Seq<char>| k != key@ ==> #[trigger] final(self).entry(k) == old(self).entry(k),
    {
        let now = elapsed_ns(&self.origin);
        self.get_at(key, now)
    }

    /// Stores `value` for `key`, expiring `ttl_ns` from now by the
    /// monotonic clock (the expiry saturates at the largest time).
    pub fn set(&mut self, key: &str, value: String, ttl_ns: u64)
        ensures
            exists|now: u64| #[trigger] final(self).entry(key@) == Some((value@, saturating_expiry(now, ttl_ns))),
            forall|k: Seq<char>| k != key@ ==> #[trigger] final(self).entry(k) == old(self).entry(k),
    {
        let now = elapsed_ns(&self.origin);
        let ttl = if ttl_ns <= u64::MAX - now { ttl_ns } else { u64::MAX - now };
        self.set_at(key, value, ttl, now);
        assert(self.entry(key@) == Some((value@, saturating_expiry(now, ttl_ns))));
    }
}

/// What a cache lookup gives a cached query: the value when the cache held
/// text that reads as JSON; a miss when it held nothing or other text.
pub fn cached_hit(raw: Option<String>) -> (r: Option<JsonValue>)
    ensures
        raw is None ==> r is None,
        raw matches Some(t) ==> hit_outcome(r, json_parse(t@)),
{
    match raw {
        None => None,
        Some(t) => {
            let parsed = parse_json_text(t.as_str());
            hit_from_parsed(parsed)
        },
    }
}

/// What cached text gives a cached query, given what parsing it gave.
pub fn hit_from_parsed(parsed: Result<JsonValue, String>) -> (r: Option<JsonValue>)
    ensures
        hit_outcome(r, parse_view(parsed)),
{
    match parsed {
        Ok(v) => Some(v),
        Err(_) => None,
    }
}

/// `r` is the hit that cached text gives for the outcome `parsed` of
/// reading it.
pub open spec fn hit_outcome(r: Option<JsonValue>, parsed: Result<JsonView, Seq<char>>) -> bool {
    match parsed {
        Ok(v) => r matches Some(x) && x@ == v,
        Err(_) => r is None,
    }
}

/// The text a freshly read query result is cached as: its JSON text
/// (`null` should writing it fail).
pub fn cache_entry_text(value: &JsonValue) -> (r: String)
    ensures
        r@ == json_render(value@),
{
    match json_text_of(value) {
        Ok(t) => t,
        Err(_) => String::from_str("null"),
    }
}

/// A value written with a time-to-live is read back exactly until it
/// expires: after `set_at(key, value, ttl, now)`, `get_at(key, t)` gives
/// `value` when `t <= now + ttl` and nothing afterwards.
pub proof fn law_cache_read_after_write(value: Seq<char>, now: u64, ttl: u64, t: u64)
    requires
        now + ttl <= u64::MAX,
    ensures
        t <= now + ttl ==> cache_read(Some((value, (now + ttl) as u64)), t) == Some(value),
        t > now + ttl ==> cache_read(Some((value, (now + ttl) as u64)), t) is None,
{
}


proof fn lemma_absent_from(xs: Seq<Seq<char>>, ys: Seq<Seq<char>>)
    ensures
        forall|c: Seq<char>| #[trigger] xs.contains(c) ==> ys.contains(c) || absent_from(xs, ys).contains(c),
        forall|c: Seq<char>| #[trigger] absent_from(xs, ys).contains(c) ==> xs.contains(c) && !ys.contains(c),
    decreases xs.len(),
{
    if xs.len() > 0 {
        let init = xs.drop_last();
        lemma_absent_from(init, ys);
        let rest = absent_from(init, ys);
        assert forall|c: Seq<char>| #[trigger] xs.contains(c) implies ys.contains(c) || absent_from(xs, ys).contains(c) by {
            let k = choose|k: int| 0 <= k < xs.len() && xs[k] == c;
            if k < xs.len() - 1 {
                assert(init[k] == c);
                assert(init.contains(c));
                if rest.contains(c) {
                    let m = choose|m: int| 0 <= m < rest.len() && rest[m] == c;
                    if !ys.contains(xs.last()) {
                        assert(rest.push(xs.last())[m] == c);
                    }
                }
            } else {
                if !ys.contains(c) {
                    assert(rest.push(xs.last())[rest.len() as int] == c);
                }
            }
        }
        assert forall|c: Seq<char>| #[trigger] absent_from(xs, ys).contains(c) implies xs.contains(c) && !ys.contains(c) by {
            let m = choose|m: int| 0 <= m < absent_from(xs, ys).len() && absent_from(xs, ys)[m] == c;
            if m < rest.len() {
                assert(rest[m] == c);
                assert(rest.contains(c));
                let k = choose|k: int| 0 <= k < init.len() && init[k] == c;
                assert(xs[k] == c);
            } else {
                assert(c == xs.last());
                assert(xs[xs.len() - 1] == c);
            }
        }
    }
}

/// The synchronisation plan completes the table and adds nothing it has: a
/// model column is either in the table already or among the added ones, and
/// every added column belongs to the model and is missing from the table;
/// likewise every dropped column is in the table and not in the model.
pub proof fn law_sync_plan_completes_table(model: Seq<Seq<char>>, existing: Seq<Seq<char>>)
    ensures
        forall|c: Seq<char>| #[trigger] model.contains(c) ==> existing.contains(c) || absent_from(model, existing).contains(c),
        forall|c: Seq<char>| #[trigger] absent_from(model, existing).contains(c) ==> model.contains(c) && !existing.contains(c),
        forall|c: Seq<char>| #[trigger] absent_from(existing, model).contains(c) ==> existing.contains(c) && !model.contains(c),
{
    lemma_absent_from(model, existing);
    lemma_absent_from(existing, model);
}

} // verus!
