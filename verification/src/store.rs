//! In-memory model of the persistence boundary for canonical events.
//!
//! Rows live in insertion order and each carries a store-assigned
//! sequence number that grows strictly, so persistence order is visible
//! in the data itself.  Reads never mutate.

use vstd::prelude::*;

use crate::codec::parse_payload;
use crate::events::{EventSeverity, EventType, PayloadEntryView};

verus! {

/// Optional query filters for reading events back.
#[derive(Debug, Clone, Copy)]
pub struct EventFilters {
    /// Keep only events of this category.
    pub event_type: Option<EventType>,
    /// Keep only events of this severity.
    pub severity: Option<EventSeverity>,
}

/// What a caller hands to the store: a canonical event before it has a
/// place in the persistence order.
#[derive(Debug)]
pub struct CreateEvent {
    pub id: String,
    pub account_id: String,
    pub user_id: String,
    pub node_id: String,
    pub node_alias: String,
    pub event_type: EventType,
    pub severity: EventSeverity,
    pub title: String,
    pub description: String,
    /// Serialized payload bytes.
    pub data: Vec<u8>,
    /// When the event occurred (milliseconds).
    pub timestamp: i64,
}

/// Model of a `CreateEvent`.
pub struct CreateEventView {
    pub id: Seq<char>,
    pub account_id: Seq<char>,
    pub user_id: Seq<char>,
    pub node_id: Seq<char>,
    pub node_alias: Seq<char>,
    pub event_type: EventType,
    pub severity: EventSeverity,
    pub title: Seq<char>,
    pub description: Seq<char>,
    pub data: Seq<u8>,
    pub timestamp: i64,
}

impl View for CreateEvent {
    type V = CreateEventView;

    open spec fn view(&self) -> CreateEventView {
        CreateEventView {
            id: self.id@,
            account_id: self.account_id@,
            user_id: self.user_id@,
            node_id: self.node_id@,
            node_alias: self.node_alias@,
            event_type: self.event_type,
            severity: self.severity,
            title: self.title@,
            description: self.description@,
            data: self.data@,
            timestamp: self.timestamp,
        }
    }
}

/// A persisted canonical event, immutable once written.
#[derive(Debug)]
pub struct StoredEvent {
    /// Store-assigned position in the persistence order.
    pub seq: u64,
    pub id: String,
    pub account_id: String,
    pub user_id: String,
    pub node_id: String,
    pub node_alias: String,
    pub event_type: EventType,
    pub severity: EventSeverity,
    pub title: String,
    pub description: String,
    /// Serialized payload bytes, exactly as written.
    pub data: Vec<u8>,
    /// When the event occurred (milliseconds).
    pub timestamp: i64,
    /// When the event was persisted (milliseconds).
    pub created_at: i64,
}

/// Model of a stored event.
pub struct StoredEventView {
    pub seq: u64,
    pub id: Seq<char>,
    pub account_id: Seq<char>,
    pub user_id: Seq<char>,
    pub node_id: Seq<char>,
    pub node_alias: Seq<char>,
    pub event_type: EventType,
    pub severity: EventSeverity,
    pub title: Seq<char>,
    pub description: Seq<char>,
    pub data: Seq<u8>,
    pub timestamp: i64,
    pub created_at: i64,
}

impl View for StoredEvent {
    type V = StoredEventView;

    open spec fn view(&self) -> StoredEventView {
        StoredEventView {
            seq: self.seq,
            id: self.id@,
            account_id: self.account_id@,
            user_id: self.user_id@,
            node_id: self.node_id@,
            node_alias: self.node_alias@,
            event_type: self.event_type,
            severity: self.severity,
            title: self.title@,
            description: self.description@,
            data: self.data@,
            timestamp: self.timestamp,
            created_at: self.created_at,
        }
    }
}

/// The stored row a `CreateEvent` becomes under a given sequence number
/// and persistence time.
pub open spec fn row_of(e: CreateEventView, seq: u64, created_at: i64) -> StoredEventView {
    StoredEventView {
        seq: seq,
        id: e.id,
        account_id: e.account_id,
        user_id: e.user_id,
        node_id: e.node_id,
        node_alias: e.node_alias,
        event_type: e.event_type,
        severity: e.severity,
        title: e.title,
        description: e.description,
        data: e.data,
        timestamp: e.timestamp,
        created_at: created_at,
    }
}

/// Whether a row belongs to the account and passes the optional filters.
pub open spec fn row_matches(
    row: StoredEventView,
    account_id: Seq<char>,
    filters: Option<EventFilters>,
) -> bool {
    &&& row.account_id == account_id
    &&& match filters {
        None => true,
        Some(f) => {
            &&& match f.event_type {
                None => true,
                Some(t) => row.event_type == t,
            }
            &&& match f.severity {
                None => true,
                Some(s) => row.severity == s,
            }
        },
    }
}

/// The only way this store fails to persist: its sequence numbers are
/// exhausted.
#[derive(Debug, Clone, Copy, PartialEq, Eq, Structural)]
pub enum PersistenceError {
    Exhausted,
}

/// In-memory event store: rows in persistence order.
#[derive(Debug)]
pub struct EventStore {
    rows: Vec<StoredEvent>,
    next_seq: u64,
}

impl EventStore {
    /// The persisted rows, in persistence order.
    pub closed spec fn view(&self) -> Seq<StoredEventView> {
        self.rows@.map_values(|r: StoredEvent| r@)
    }

    /// The sequence number the next persisted event will get.
    pub closed spec fn next_seq_spec(&self) -> u64 {
        self.next_seq
    }

    /// Sequence numbers grow strictly with persistence order and stay
    /// below the next one to be handed out.
    pub open spec fn wf(&self) -> bool {
        &&& forall|i: int, j: int| 0 <= i < j < self@.len() ==> self@[i].seq < self@[j].seq
        &&& forall|i: int| 0 <= i < self@.len() ==> (#[trigger] self@[i].seq) < self.next_seq_spec()
    }

    /// An empty store.
    pub fn new() -> (r: Self)
        ensures
            r.wf(),
            r@ == Seq::<StoredEventView>::empty(),
            r.next_seq_spec() == 0,
    {
        let r = EventStore { rows: Vec::new(), next_seq: 0 };
        proof {
            assert(r@ =~= Seq::<StoredEventView>::empty());
        }
        r
    }

    /// Persist one event synchronously.  On success the new row is
    /// appended, carrying the fields it was given, the next sequence
    /// number, and the persistence time; the returned copy is that row.
    pub fn create_event(&mut self, e: CreateEvent, created_at: i64) -> (r: Result<
        StoredEvent,
        PersistenceError,
    >)
        requires
            old(self).wf(),
        ensures
            final(self).wf(),
            r is Ok <==> old(self).next_seq_spec() < u64::MAX,
            r is Err ==> *final(self) == *old(self),
            r is Ok ==> {
                &&& r->Ok_0@ == row_of(e@, old(self).next_seq_spec(), created_at)
                &&& final(self)@ == old(self)@.push(r->Ok_0@)
                &&& final(self).next_seq_spec() == old(self).next_seq_spec() + 1
            },
    {
        if self.next_seq == u64::MAX {
            return Err(PersistenceError::Exhausted);
        }
        let seq: u64 = self.next_seq;
        let row = StoredEvent {
            seq,
            id: e.id,
            account_id: e.account_id,
            user_id: e.user_id,
            node_id: e.node_id,
            node_alias: e.node_alias,
            event_type: e.event_type,
            severity: e.severity,
            title: e.title,
            description: e.description,
            data: e.data,
            timestamp: e.timestamp,
            created_at,
        };
        let copy = clone_row(&row);
        let ghost pre = self.rows@;
        self.rows.push(row);
        self.next_seq = seq + 1;
        proof {
            assert(self@ =~= pre.map_values(|r: StoredEvent| r@).push(copy@));
        }
        Ok(copy)
    }

    /// All events of one account that pass the filters, oldest first,
    /// as copies of the stored rows.
    pub fn get_events_by_account_id(&self, account_id: &String, filters: Option<&EventFilters>)
        -> (r: Vec<StoredEvent>)
        ensures
            r@.map_values(|x: StoredEvent| x@) == self@.filter(
                |row: StoredEventView| row_matches(row, account_id@, flatten_filters(filters)),
            ),
    {
        let ghost pred = |row: StoredEventView| row_matches(row, account_id@, flatten_filters(
            filters,
        ));
        let mut out: Vec<StoredEvent> = Vec::new();
        let n: usize = self.rows.len();
        let mut i: usize = 0;
        proof {
            assert(self@.take(0).filter(pred) =~= Seq::<StoredEventView>::empty());
            assert(out@.map_values(|x: StoredEvent| x@) =~= Seq::<StoredEventView>::empty());
        }
        while i < n
            invariant
                0 <= i <= n,
                n == self.rows@.len(),
                pred == (|row: StoredEventView| row_matches(row, account_id@, flatten_filters(
                    filters,
                ))),
                out@.map_values(|x: StoredEvent| x@) == self@.take(i as int).filter(pred),
            decreases n - i,
        {
            let row = &self.rows[i];
            proof {
                assert(self@[i as int] == row@);
                assert(self@.take(i + 1).drop_last() =~= self@.take(i as int));
                reveal_with_fuel(Seq::filter, 1);
            }
            if row_passes(row, account_id, filters) {
                let ghost pre_out = out@;
                out.push(clone_row(row));
                proof {
                    assert(out@.map_values(|x: StoredEvent| x@) =~= pre_out.map_values(
                        |x: StoredEvent| x@).push(row@));
                }
            }
            i = i + 1;
        }
        proof {
            assert(self@.take(n as int) =~= self@);
        }
        out
    }

    /// How many events of the account pass the filters.
    pub fn count_events_by_account_id(&self, account_id: &String, filters: Option<&EventFilters>)
        -> (r: usize)
        ensures
            r == self@.filter(
                |row: StoredEventView| row_matches(row, account_id@, flatten_filters(filters)),
            ).len(),
    {
        let found = self.get_events_by_account_id(account_id, filters);
        proof {
            assert(found@.map_values(|x: StoredEvent| x@).len() == found@.len());
        }
        found.len()
    }

    /// How many events of the account carry the given severity.
    pub fn count_events_by_account_and_severity(
        &self,
        account_id: &String,
        severity: EventSeverity,
    ) -> (r: usize)
        ensures
            r == self@.filter(
                |row: StoredEventView| row.account_id == account_id@ && row.severity == severity,
            ).len(),
    {
        let ghost pred = |row: StoredEventView| row.account_id == account_id@ && row.severity
            == severity;
        let mut count: usize = 0;
        let n: usize = self.rows.len();
        let mut i: usize = 0;
        proof {
            assert(self@.take(0).filter(pred) =~= Seq::<StoredEventView>::empty());
        }
        while i < n
            invariant
                0 <= i <= n,
                n == self.rows@.len(),
                pred == (|row: StoredEventView| row.account_id == account_id@ && row.severity
                    == severity),
                count == self@.take(i as int).filter(pred).len(),
                count <= i,
            decreases n - i,
        {
            let row = &self.rows[i];
            proof {
                assert(self@[i as int] == row@);
                assert(self@.take(i + 1).drop_last() =~= self@.take(i as int));
                reveal_with_fuel(Seq::filter, 1);
            }
            if row.account_id == *account_id && severity_eq(row.severity, severity) {
                count = count + 1;
            }
            i = i + 1;
        }
        proof {
            assert(self@.take(n as int) =~= self@);
        }
        count
    }
}

/// Persistence preserves order: of any two rows the earlier one carries
/// the strictly smaller store sequence number, and rows keep the id and
/// occurrence timestamp they were given, so two events of one source
/// stay in emission order.
pub proof fn lemma_persisted_order(s: EventStore, i: int, j: int)
    requires
        s.wf(),
        0 <= i < j < s@.len(),
    ensures
        s@[i].seq < s@[j].seq,
{
}

/// Borrowed optional filters, as a value for specifications.
pub open spec fn flatten_filters(filters: Option<&EventFilters>) -> Option<EventFilters> {
    match filters {
        None => None,
        Some(f) => Some(*f),
    }
}

/// Whether a row belongs to the account and passes the filters.
fn row_passes(row: &StoredEvent, account_id: &String, filters: Option<&EventFilters>) -> (r: bool)
    ensures
        r == row_matches(row@, account_id@, flatten_filters(filters)),
{
    if !(row.account_id == *account_id) {
        return false;
    }
    match filters {
        None => true,
        Some(f) => {
            let type_ok = match f.event_type {
                None => true,
                Some(t) => type_eq(row.event_type, t),
            };
            let severity_ok = match f.severity {
                None => true,
                Some(s) => severity_eq(row.severity, s),
            };
            type_ok && severity_ok
        },
    }
}

/// Category equality (fieldless enum, compared structurally).
fn type_eq(a: EventType, b: EventType) -> (r: bool)
    ensures
        r == (a == b),
{
    a == b
}

/// Severity equality (fieldless enum, compared structurally).
fn severity_eq(a: EventSeverity, b: EventSeverity) -> (r: bool)
    ensures
        r == (a == b),
{
    a == b
}

/// An exact copy of a byte vector.
fn copy_bytes(v: &Vec<u8>) -> (r: Vec<u8>)
    ensures
        r@ == v@,
{
    let mut out: Vec<u8> = Vec::new();
    let n: usize = v.len();
    let mut i: usize = 0;
    while i < n
        invariant
            0 <= i <= n,
            n == v@.len(),
            out@ == v@.take(i as int),
        decreases n - i,
    {
        out.push(v[i]);
        proof {
            assert(out@ =~= v@.take(i + 1));
        }
        i = i + 1;
    }
    proof {
        assert(v@.take(n as int) =~= v@);
    }
    out
}

/// An exact copy of a stored row.
pub fn clone_row(row: &StoredEvent) -> (r: StoredEvent)
    ensures
        r@ == row@,
{
    StoredEvent {
        seq: row.seq,
        id: row.id.clone(),
        account_id: row.account_id.clone(),
        user_id: row.user_id.clone(),
        node_id: row.node_id.clone(),
        node_alias: row.node_alias.clone(),
        event_type: row.event_type,
        severity: row.severity,
        title: row.title.clone(),
        description: row.description.clone(),
        data: copy_bytes(&row.data),
        timestamp: row.timestamp,
        created_at: row.created_at,
    }
}

/// A canonical event as queries return it: the payload re-parsed from
/// storage.
#[derive(Debug)]
pub struct EventRecord {
    pub id: String,
    pub account_id: String,
    pub user_id: String,
    pub node_id: String,
    pub node_alias: String,
    pub event_type: EventType,
    pub severity: EventSeverity,
    pub title: String,
    pub description: String,
    pub payload: Vec<crate::events::PayloadEntry>,
    pub timestamp: i64,
    pub created_at: i64,
}

/// Model of a query result record.
pub struct EventRecordView {
    pub id: Seq<char>,
    pub account_id: Seq<char>,
    pub user_id: Seq<char>,
    pub node_id: Seq<char>,
    pub node_alias: Seq<char>,
    pub event_type: EventType,
    pub severity: EventSeverity,
    pub title: Seq<char>,
    pub description: Seq<char>,
    pub payload: Seq<PayloadEntryView>,
    pub timestamp: i64,
    pub created_at: i64,
}

impl View for EventRecord {
    type V = EventRecordView;

    open spec fn view(&self) -> EventRecordView {
        EventRecordView {
            id: self.id@,
            account_id: self.account_id@,
            user_id: self.user_id@,
            node_id: self.node_id@,
            node_alias: self.node_alias@,
            event_type: self.event_type,
            severity: self.severity,
            title: self.title@,
            description: self.description@,
            payload: crate::events::payload_view(self.payload@),
            timestamp: self.timestamp,
            created_at: self.created_at,
        }
    }
}

/// The record a stored row becomes when it is read back: its payload is
/// re-parsed, and a row whose bytes fit no encoding yields an empty
/// payload rather than failing the query.
pub open spec fn record_of(row: StoredEventView) -> EventRecordView {
    EventRecordView {
        id: row.id,
        account_id: row.account_id,
        user_id: row.user_id,
        node_id: row.node_id,
        node_alias: row.node_alias,
        event_type: row.event_type,
        severity: row.severity,
        title: row.title,
        description: row.description,
        payload: match parse_payload(row.data) {
            Some(p) => p,
            None => Seq::empty(),
        },
        timestamp: row.timestamp,
        created_at: row.created_at,
    }
}

} // verus!
