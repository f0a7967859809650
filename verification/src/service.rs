//! Orchestration: normalize a raw event, persist it, and hand the
//! persisted record out for asynchronous notification dispatch.
//!
//! Persistence failures surface to the caller of `dispatch`; dispatch
//! failures never do — the application logs them and moves on, and they
//! never touch the already-persisted event.

use vstd::prelude::*;
use vstd::string::StringExecFns;

use crate::codec::{
    enc_payload, encode_payload, lemma_payload_round_trip, parse_payload, parse_payload_bytes,
    wf_payload,
};
use crate::collector::EventHandler;
use crate::errors::ServiceError;
use crate::events::{
    payload_view, EventSeverity, EventType, NodeSpecificEvent, PayloadEntry, PayloadEntryView,
};
use crate::normalize::{
    normalize_cln_event, normalize_lnd_event, spec_normalize, spec_normalize_cln,
    spec_normalize_lnd, NormalizedEvent,
};
use crate::store::{
    record_of, row_matches, CreateEvent, EventFilters, EventRecord, EventStore, EventRecordView,
    StoredEvent, StoredEventView,
};

verus! {

/// Relies on uuid::Uuid::now_v7 and its Display form: a fresh
/// time-ordered id rendered as 36 lowercase hyphenated hex characters.
/// The value depends on the clock and on randomness, so nothing beyond
/// its length is assumed.
#[verifier::external_body]
pub(crate) fn fresh_uuid() -> (r: String)
    ensures
        r@.len() == 36,
{
    uuid::Uuid::now_v7().to_string()
}

/// Relies on chrono::Utc::now: the current wall-clock time in
/// milliseconds.  Nothing is assumed of the value.
#[verifier::external_body]
fn now_millis() -> (r: i64) {
    chrono::Utc::now().timestamp_millis()
}

/// What a query returns for every row that passes the filters.
pub open spec fn spec_query(
    rows: Seq<StoredEventView>,
    account_id: Seq<char>,
    filters: Option<EventFilters>,
) -> Seq<EventRecordView> {
    rows.filter(|row: StoredEventView| row_matches(row, account_id, filters)).map_values(
        |row: StoredEventView| record_of(row),
    )
}

/// Service layer for event operations.
pub struct EventService {
}

impl EventService {
    /// Creates a new EventService instance.  The notification
    /// dispatcher it forwards persisted events to lives outside the
    /// library.
    pub fn new() -> (r: Self) {
        EventService {  }
    }

    /// Normalize, then persist synchronously.  On success the stored
    /// row carries the given identity context, the canonical fields,
    /// and a serialized payload that parses back to exactly the payload
    /// that was handed in; the caller dispatches the returned event
    /// asynchronously, and dispatch failures are logged, never
    /// surfaced, and never retried against the store.  On persistence
    /// failure the event is lost and the error goes to the caller.
    #[verifier::rlimit(30)]
    pub fn create_and_dispatch_event(
        &self,
        store: &mut EventStore,
        account_id: String,
        user_id: String,
        node_id: String,
        node_alias: String,
        event_type: EventType,
        severity: EventSeverity,
        title: String,
        description: String,
        data: Vec<PayloadEntry>,
    ) -> (r: Result<StoredEvent, ServiceError>)
        requires
            old(store).wf(),
        ensures
            final(store).wf(),
            r is Ok <==> old(store).next_seq_spec() < u64::MAX,
            r is Err ==> *final(store) == *old(store) && r->Err_0 is Database,
            r is Ok ==> {
                let row = r->Ok_0@;
                &&& final(store)@ == old(store)@.push(row)
                &&& final(store).next_seq_spec() == old(store).next_seq_spec() + 1
                &&& row.seq == old(store).next_seq_spec()
                &&& row.id.len() == 36
                &&& row.account_id == account_id@
                &&& row.user_id == user_id@
                &&& row.node_id == node_id@
                &&& row.node_alias == node_alias@
                &&& row.event_type == event_type
                &&& row.severity == severity
                &&& row.title == title@
                &&& row.description == description@
                &&& row.data == enc_payload(payload_view(data@))
                &&& parse_payload(row.data) == Some(payload_view(data@))
            },
    {
        let ghost payload = payload_view(data@);
        let bytes = encode_payload(&data);
        proof {
            lemma_payload_round_trip(payload);
        }
        let id = fresh_uuid();
        let timestamp = now_millis();
        let create_event = CreateEvent {
            id,
            account_id,
            user_id,
            node_id,
            node_alias,
            event_type,
            severity,
            title,
            description,
            data: bytes,
            timestamp,
        };
        let created_at = now_millis();
        match store.create_event(create_event, created_at) {
            Ok(event) => Ok(event),
            Err(_) => Err(
                ServiceError::Database { message: "failed to persist event".to_owned() },
            ),
        }
    }

    /// Retrieves events for an account with optional filters, payloads
    /// re-parsed from storage.  A single record whose bytes fit no
    /// encoding comes back with an empty payload; it never fails the
    /// whole query.
    pub fn get_events_for_account(
        &self,
        store: &EventStore,
        account_id: &String,
        filters: Option<&EventFilters>,
    ) -> (r: Result<Vec<EventRecord>, ServiceError>)
        ensures
            r is Ok,
            r->Ok_0@.map_values(|x: EventRecord| x@) == spec_query(
                store@,
                account_id@,
                crate::store::flatten_filters(filters),
            ),
    {
        let rows = store.get_events_by_account_id(account_id, filters);
        let ghost row_views = rows@.map_values(|x: StoredEvent| x@);
        let mut out: Vec<EventRecord> = Vec::new();
        let n: usize = rows.len();
        let mut i: usize = 0;
        proof {
            assert(out@.map_values(|x: EventRecord| x@) =~= row_views.take(0).map_values(
                |row: StoredEventView| record_of(row),
            ));
        }
        while i < n
            invariant
                0 <= i <= n,
                n == rows@.len(),
                row_views == rows@.map_values(|x: StoredEvent| x@),
                out@.map_values(|x: EventRecord| x@) == row_views.take(i as int).map_values(
                    |row: StoredEventView| record_of(row),
                ),
            decreases n - i,
        {
            let row = crate::store::clone_row(&rows[i]);
            let ghost pre_out = out@;
            proof {
                assert(row@ == row_views[i as int]);
            }
            let record = build_event_record(row);
            out.push(record);
            proof {
                assert(out@.map_values(|x: EventRecord| x@) =~= pre_out.map_values(
                    |x: EventRecord| x@).push(record_of(row_views[i as int])));
                assert(row_views.take(i as int + 1).map_values(
                    |row: StoredEventView| record_of(row),
                ) =~= row_views.take(i as int).map_values(
                    |row: StoredEventView| record_of(row),
                ).push(record_of(row_views[i as int])));
            }
            i = i + 1;
        }
        proof {
            assert(row_views.take(n as int) =~= row_views);
        }
        Ok(out)
    }

    /// Gets the event count for an account under the same filters as a
    /// query; a read-only aggregate with no side effects.
    pub fn count_events_for_account(
        &self,
        store: &EventStore,
        account_id: &String,
        filters: Option<&EventFilters>,
    ) -> (r: Result<usize, ServiceError>)
        ensures
            r is Ok,
            r->Ok_0 == spec_query(
                store@,
                account_id@,
                crate::store::flatten_filters(filters),
            ).len(),
    {
        Ok(store.count_events_by_account_id(account_id, filters))
    }

    /// Event counts by severity: (info, warning, critical); read-only.
    pub fn get_event_stats_by_severity(&self, store: &EventStore, account_id: &String) -> (r:
        Result<(usize, usize, usize), ServiceError>)
        ensures
            r is Ok,
            r->Ok_0.0 == store@.filter(
                |row: StoredEventView| row.account_id == account_id@ && row.severity
                    == EventSeverity::Info,
            ).len(),
            r->Ok_0.1 == store@.filter(
                |row: StoredEventView| row.account_id == account_id@ && row.severity
                    == EventSeverity::Warning,
            ).len(),
            r->Ok_0.2 == store@.filter(
                |row: StoredEventView| row.account_id == account_id@ && row.severity
                    == EventSeverity::Critical,
            ).len(),
    {
        let info_count = store.count_events_by_account_and_severity(
            account_id,
            EventSeverity::Info,
        );
        let warning_count = store.count_events_by_account_and_severity(
            account_id,
            EventSeverity::Warning,
        );
        let critical_count = store.count_events_by_account_and_severity(
            account_id,
            EventSeverity::Critical,
        );
        Ok((info_count, warning_count, critical_count))
    }

    /// Normalizes an event of the first backend.
    pub fn process_lnd_event(&self, lnd_event: &crate::events::LNDEvent) -> (r: NormalizedEvent)
        ensures
            r@ == spec_normalize_lnd(*lnd_event),
    {
        normalize_lnd_event(lnd_event)
    }

    /// Normalizes an event of the second backend.
    pub fn process_cln_event(&self, cln_event: &crate::events::CLNEvent) -> (r: NormalizedEvent)
        ensures
            r@ == spec_normalize_cln(*cln_event),
    {
        normalize_cln_event(cln_event)
    }

    /// Processes a raw node event: normalize, persist, and hand the
    /// stored row out for dispatch.
    pub fn process_lightning_event(
        &self,
        store: &mut EventStore,
        account_id: String,
        user_id: String,
        node_id: String,
        node_alias: String,
        lightning_event: &NodeSpecificEvent,
    ) -> (r: Result<StoredEvent, ServiceError>)
        requires
            old(store).wf(),
        ensures
            final(store).wf(),
            r is Ok <==> old(store).next_seq_spec() < u64::MAX,
            r is Err ==> *final(store) == *old(store) && r->Err_0 is Database,
            r is Ok ==> {
                let row = r->Ok_0@;
                let canonical = spec_normalize(*lightning_event);
                &&& final(store)@ == old(store)@.push(row)
                &&& row.account_id == account_id@
                &&& row.user_id == user_id@
                &&& row.node_id == node_id@
                &&& row.node_alias == node_alias@
                &&& row.event_type == canonical.event_type
                &&& row.severity == canonical.severity
                &&& row.title == canonical.title
                &&& row.description == canonical.description
                &&& parse_payload(row.data) == Some(canonical.payload)
            },
    {
        let normalized = match lightning_event {
            NodeSpecificEvent::LND(lnd_event) => self.process_lnd_event(lnd_event),
            NodeSpecificEvent::CLN(cln_event) => self.process_cln_event(cln_event),
        };
        let NormalizedEvent { event_type, severity, title, description, payload } = normalized;
        self.create_and_dispatch_event(
            store,
            account_id,
            user_id,
            node_id,
            node_alias,
            event_type,
            severity,
            title,
            description,
            payload,
        )
    }
}

impl EventHandler {
    /// Consume one raw event off the queue.  Without full identity
    /// context nothing is persisted and `None` comes back; with it, the
    /// event is processed and the outcome returned, so the consumer
    /// loop can log a failure and continue with later events.
    pub fn dispatch_event(&self, store: &mut EventStore, raw_event: &NodeSpecificEvent) -> (r:
        Option<Result<StoredEvent, ServiceError>>)
        requires
            old(store).wf(),
        ensures
            final(store).wf(),
            !self.has_context() ==> r is None && *final(store) == *old(store),
            self.has_context() ==> r is Some && (r->0 is Ok <==> old(store).next_seq_spec()
                < u64::MAX),
            r matches Some(Ok(ev)) ==> {
                let row = ev@;
                let canonical = spec_normalize(*raw_event);
                &&& final(store)@ == old(store)@.push(row)
                &&& row.account_id == self.account_id->0@
                &&& row.user_id == self.user_id->0@
                &&& row.event_type == canonical.event_type
                &&& row.severity == canonical.severity
                &&& row.title == canonical.title
                &&& row.description == canonical.description
                &&& parse_payload(row.data) == Some(canonical.payload)
            },
            r matches Some(Err(e)) ==> *final(store) == *old(store),
    {
        match (&self.account_id, &self.user_id, &self.node_id, &self.node_alias) {
            (Some(account_id), Some(user_id), Some(node_id), Some(node_alias)) => {
                let event_service = EventService::new();
                Some(
                    event_service.process_lightning_event(
                        store,
                        account_id.clone(),
                        user_id.clone(),
                        node_id.clone(),
                        node_alias.clone(),
                        raw_event,
                    ),
                )
            },
            _ => None,
        }
    }
}

/// One stored row as a query returns it: the payload re-parsed from
/// the serialized bytes, an undecodable payload replaced by an empty
/// one.
fn build_event_record(row: StoredEvent) -> (r: EventRecord)
    ensures
        r@ == record_of(row@),
{
    let StoredEvent {
        seq: _,
        id,
        account_id,
        user_id,
        node_id,
        node_alias,
        event_type,
        severity,
        title,
        description,
        data,
        timestamp,
        created_at,
    } = row;
    let payload = match parse_payload_bytes(&data) {
        Some(p) => p,
        None => {
            let empty: Vec<PayloadEntry> = Vec::new();
            proof {
                assert(payload_view(empty@) =~= Seq::<PayloadEntryView>::empty());
            }
            empty
        },
    };
    EventRecord {
        id,
        account_id,
        user_id,
        node_id,
        node_alias,
        event_type,
        severity,
        title,
        description,
        payload,
        timestamp,
        created_at,
    }
}

/// Round-trip law: an event written to the store and queried back for
/// its account reproduces id, category, severity, title, description,
/// and payload exactly, the payload after re-parse from its serialized
/// bytes.
pub proof fn lemma_written_event_reads_back(
    rows: Seq<StoredEventView>,
    row: StoredEventView,
    payload: Seq<PayloadEntryView>,
)
    requires
        row.data == enc_payload(payload),
        wf_payload(payload),
    ensures
        ({
            let results = spec_query(rows.push(row), row.account_id, None);
            &&& results.len() > 0
            &&& results.last().id == row.id
            &&& results.last().event_type == row.event_type
            &&& results.last().severity == row.severity
            &&& results.last().title == row.title
            &&& results.last().description == row.description
            &&& results.last().payload == payload
            &&& results.last().timestamp == row.timestamp
        }),
{
    lemma_payload_round_trip(payload);
    let pred = |r: StoredEventView| row_matches(r, row.account_id, None);
    assert(pred(row));
    Seq::<StoredEventView>::filter_distributes_over_add(rows, seq![row], pred);
    assert(rows.push(row) =~= rows + seq![row]);
    assert(seq![row].filter(pred) =~= seq![row]) by {
        reveal_with_fuel(Seq::filter, 2);
        assert(seq![row].drop_last() =~= Seq::<StoredEventView>::empty());
    }
    let filtered = (rows + seq![row]).filter(pred);
    assert(filtered =~= rows.filter(pred) + seq![row]);
    assert(filtered.len() > 0);
    assert(filtered.last() == row);
    let results = spec_query(rows.push(row), row.account_id, None);
    assert(results.last() == record_of(row));
}

} // verus!
