//! The event pipeline end to end: registration, filtering,
//! normalization, persistence, and queries.

use node_events::collector::{EventCollector, EventHandler};
use node_events::events::{
    EventSeverity, EventType, LNDEvent, NodeSpecificEvent, PayloadEntry, PayloadValue,
};
use node_events::filter::EventFilter;
use node_events::registry::StreamRegistry;
use node_events::service::EventService;
use node_events::store::{EventFilters, EventStore};

fn channel_opened(remote: &str, capacity: i64) -> NodeSpecificEvent {
    NodeSpecificEvent::LND(LNDEvent::ChannelOpened {
        active: true,
        remote_pubkey: remote.to_owned(),
        channel_point: "abcd:0".to_owned(),
        chan_id: 7,
        capacity,
        local_balance: 1,
        remote_balance: 2,
        total_satoshis_sent: 3,
        total_satoshis_received: 4,
    })
}

fn invoice_settled(value_msat: i64) -> NodeSpecificEvent {
    NodeSpecificEvent::LND(LNDEvent::InvoiceSettled {
        preimage: vec![0xab, 0x01],
        hash: vec![0xff, 0x00],
        value_msat,
        state: 1,
        memo: "coffee".to_owned(),
        creation_date: 1700000000,
        payment_request: "lnbc1...".to_owned(),
    })
}

#[test]
fn registry_allows_exactly_one_feed_per_node() {
    let mut registry = StreamRegistry::new();
    let node = "02aa".to_owned();
    assert!(registry.register(&node));
    assert!(!registry.register(&node));
    assert!(registry.contains_node(&node));
    assert_eq!(registry.active_count(), 1);
    registry.deregister(&node);
    assert!(!registry.contains_node(&node));
    registry.deregister(&node);
    assert_eq!(registry.active_count(), 0);
}

#[test]
fn two_starts_leave_one_active_feed() {
    let mut collector = EventCollector::new();
    let node = "02ab".to_owned();
    let first = collector.start_sending(&node);
    let second = collector.start_sending(&node);
    assert!(first.is_some());
    assert!(second.is_none());
    assert!(collector.is_stream_active(&node));
    assert_eq!(collector.get_active_streams().len(), 1);
}

#[test]
fn stop_requires_registry_removal_and_cancellation() {
    let mut collector = EventCollector::new();
    let node = "02ac".to_owned();
    assert!(collector.start_sending(&node).is_some());
    let was_active = collector.stop_event_stream(&node);
    assert!(was_active);
    assert!(!collector.is_stream_active(&node));
    assert!(collector.should_stop(&node));
    // An immediate resubscribe wins and clears the stale flag.
    assert!(collector.begin_stream(&node));
    assert!(!collector.should_stop(&node));
    // Stopping a node with no feed reports it.
    assert!(!collector.stop_event_stream(&"03zz".to_owned()));
}

#[test]
fn feed_open_failure_releases_the_node() {
    let mut collector = EventCollector::new();
    let node = "02ad".to_owned();
    assert!(collector.start_sending(&node).is_some());
    collector.feed_open_failed(&node);
    assert!(!collector.is_stream_active(&node));
    // The caller may retry explicitly.
    assert!(collector.start_sending(&node).is_some());
}

#[test]
fn filter_forwards_exactly_the_matching_subset() {
    let filter = EventFilter::channels_only();
    let events = vec![
        channel_opened("02aa", 1),
        invoice_settled(10),
        channel_opened("02bb", 2),
        invoice_settled(20),
    ];
    let forwarded = EventCollector::run_feed(&filter, events);
    assert_eq!(forwarded.len(), 2);
    for event in &forwarded {
        assert!(filter.matches_event(event));
    }
    let all = EventFilter::all();
    let events = vec![channel_opened("02aa", 1), invoice_settled(10)];
    let forwarded = EventCollector::run_feed(&all, events);
    assert_eq!(forwarded.len(), 2);
}

#[test]
fn filter_category_rules() {
    let filter = EventFilter::for_types(vec![EventType::Invoice, EventType::Payment]);
    assert!(filter.should_include(&EventType::Invoice));
    assert!(filter.should_include(&EventType::Payment));
    assert!(!filter.should_include(&EventType::Channel));
    assert!(!filter.matches_event(&channel_opened("02aa", 1)));
    assert!(filter.matches_event(&invoice_settled(5)));

    let invoices = EventFilter::invoices_only();
    assert!(invoices.should_include(&EventType::Invoice));
    assert!(!invoices.should_include(&EventType::All));

    let all = EventFilter::default();
    assert!(all.include_all);
    assert!(all.matches_event(&channel_opened("02aa", 1)));
}

#[test]
fn normalizer_maps_every_lnd_variant() {
    let service = EventService::new();
    let opened = match channel_opened("02ab", 100000) {
        NodeSpecificEvent::LND(e) => e,
        _ => unreachable!(),
    };
    let n = service.process_lnd_event(&opened);
    assert_eq!(n.event_type, EventType::Channel);
    assert_eq!(n.severity, EventSeverity::Info);
    assert_eq!(n.title, "Channel Opened");
    assert_eq!(n.description, "New channel opened with 02ab");
    assert_eq!(n.payload.len(), 9);
    assert_eq!(n.payload[0].key, "active");
    assert_eq!(n.payload[0].value, PayloadValue::Bool(true));
    assert_eq!(n.payload[4].key, "capacity");
    assert_eq!(n.payload[4].value, PayloadValue::Int(100000));

    let settled = match invoice_settled(50000) {
        NodeSpecificEvent::LND(e) => e,
        _ => unreachable!(),
    };
    let n = service.process_lnd_event(&settled);
    assert_eq!(n.event_type, EventType::Invoice);
    assert_eq!(n.severity, EventSeverity::Info);
    assert_eq!(n.title, "Invoice Settled");
    assert_eq!(n.description, "Invoice settled for 50000 msat");
    // Binary fields are hex-encoded before storage.
    assert_eq!(n.payload[0].key, "preimage");
    assert_eq!(n.payload[0].value, PayloadValue::Text("ab01".to_owned()));
    assert_eq!(n.payload[1].value, PayloadValue::Text("ff00".to_owned()));

    let cancelled = LNDEvent::InvoiceCancelled {
        preimage: vec![],
        hash: vec![],
        value_msat: -7,
        state: 3,
        memo: String::new(),
        creation_date: 0,
        payment_request: String::new(),
    };
    let n = service.process_lnd_event(&cancelled);
    assert_eq!(n.severity, EventSeverity::Warning);
    assert_eq!(n.description, "Invoice cancelled for -7 msat");
}

#[test]
fn scenario_two_events_all_filter_persist_in_order() {
    // Node "lnd-1" emits a channel opening and then a settled invoice;
    // with the all-pass filter both are persisted, Channel then
    // Invoice, both Info, in that order.
    let filter = EventFilter::all();
    let events = vec![channel_opened("02ab", 100000), invoice_settled(50000)];
    let forwarded = EventCollector::run_feed(&filter, events);
    assert_eq!(forwarded.len(), 2);

    let service = EventService::new();
    let mut store = EventStore::new();
    let mut persisted = Vec::new();
    for event in &forwarded {
        let stored = service
            .process_lightning_event(
                &mut store,
                "acct-1".to_owned(),
                "user-1".to_owned(),
                "lnd-1".to_owned(),
                "alias".to_owned(),
                event,
            )
            .expect("persistence succeeds");
        persisted.push(stored);
    }
    assert_eq!(persisted.len(), 2);
    assert_eq!(persisted[0].event_type, EventType::Channel);
    assert_eq!(persisted[1].event_type, EventType::Invoice);
    assert_eq!(persisted[0].severity, EventSeverity::Info);
    assert_eq!(persisted[1].severity, EventSeverity::Info);
    // Persistence order is preserved and visible in the data.
    assert!(persisted[0].seq < persisted[1].seq);

    let records = service
        .get_events_for_account(&store, &"acct-1".to_owned(), None)
        .unwrap();
    assert_eq!(records.len(), 2);
    assert_eq!(records[0].event_type, EventType::Channel);
    assert_eq!(records[1].event_type, EventType::Invoice);
    assert_eq!(records[0].title, "Channel Opened");
    assert_eq!(records[1].title, "Invoice Settled");
}

#[test]
fn scenario_channels_only_filter_drops_the_invoice() {
    // One channel event and one invoice event through a channels-only
    // feed: exactly one canonical event is persisted, the channel one.
    let filter = EventFilter::channels_only();
    let events = vec![channel_opened("02ab", 100000), invoice_settled(50000)];
    let forwarded = EventCollector::run_feed(&filter, events);
    assert_eq!(forwarded.len(), 1);

    let service = EventService::new();
    let mut store = EventStore::new();
    for event in &forwarded {
        service
            .process_lightning_event(
                &mut store,
                "acct-1".to_owned(),
                "user-1".to_owned(),
                "lnd-1".to_owned(),
                "alias".to_owned(),
                event,
            )
            .expect("persistence succeeds");
    }
    let records = service
        .get_events_for_account(&store, &"acct-1".to_owned(), None)
        .unwrap();
    assert_eq!(records.len(), 1);
    assert_eq!(records[0].event_type, EventType::Channel);
    let count = service
        .count_events_for_account(&store, &"acct-1".to_owned(), None)
        .unwrap();
    assert_eq!(count, 1);
}

#[test]
fn written_event_reads_back_exactly() {
    let service = EventService::new();
    let mut store = EventStore::new();
    let payload = vec![
        PayloadEntry { key: "active".to_owned(), value: PayloadValue::Bool(false) },
        PayloadEntry { key: "value_msat".to_owned(), value: PayloadValue::Int(-99) },
        PayloadEntry { key: "chan_id".to_owned(), value: PayloadValue::UInt(u64::MAX) },
        PayloadEntry { key: "memo".to_owned(), value: PayloadValue::Text("tea ☕".to_owned()) },
    ];
    let stored = service
        .create_and_dispatch_event(
            &mut store,
            "acct-9".to_owned(),
            "user-9".to_owned(),
            "node-9".to_owned(),
            "alias-9".to_owned(),
            EventType::Invoice,
            EventSeverity::Critical,
            "Invoice Cancelled".to_owned(),
            "gone".to_owned(),
            payload.clone(),
        )
        .expect("persistence succeeds");
    assert_eq!(stored.id.len(), 36);

    let records = service
        .get_events_for_account(&store, &"acct-9".to_owned(), None)
        .unwrap();
    assert_eq!(records.len(), 1);
    let record = &records[0];
    assert_eq!(record.id, stored.id);
    assert_eq!(record.event_type, EventType::Invoice);
    assert_eq!(record.severity, EventSeverity::Critical);
    assert_eq!(record.title, "Invoice Cancelled");
    assert_eq!(record.description, "gone");
    assert_eq!(record.payload, payload);
    assert_eq!(record.timestamp, stored.timestamp);
}

#[test]
fn query_filters_and_severity_stats() {
    let service = EventService::new();
    let mut store = EventStore::new();
    let events = vec![
        (EventType::Channel, EventSeverity::Info),
        (EventType::Invoice, EventSeverity::Warning),
        (EventType::Channel, EventSeverity::Warning),
        (EventType::Payment, EventSeverity::Critical),
    ];
    for (t, s) in events {
        service
            .create_and_dispatch_event(
                &mut store,
                "acct-1".to_owned(),
                "user-1".to_owned(),
                "node-1".to_owned(),
                "alias".to_owned(),
                t,
                s,
                "t".to_owned(),
                "d".to_owned(),
                Vec::new(),
            )
            .unwrap();
    }
    // An event of another account never shows up.
    service
        .create_and_dispatch_event(
            &mut store,
            "acct-2".to_owned(),
            "user-2".to_owned(),
            "node-2".to_owned(),
            "alias".to_owned(),
            EventType::Channel,
            EventSeverity::Info,
            "t".to_owned(),
            "d".to_owned(),
            Vec::new(),
        )
        .unwrap();

    let account = "acct-1".to_owned();
    let all = service.get_events_for_account(&store, &account, None).unwrap();
    assert_eq!(all.len(), 4);

    let channels = EventFilters { event_type: Some(EventType::Channel), severity: None };
    let found = service
        .get_events_for_account(&store, &account, Some(&channels))
        .unwrap();
    assert_eq!(found.len(), 2);

    let warnings_on_channels = EventFilters {
        event_type: Some(EventType::Channel),
        severity: Some(EventSeverity::Warning),
    };
    let count = service
        .count_events_for_account(&store, &account, Some(&warnings_on_channels))
        .unwrap();
    assert_eq!(count, 1);

    let (info, warning, critical) = service
        .get_event_stats_by_severity(&store, &account)
        .unwrap();
    assert_eq!(info, 1);
    assert_eq!(warning, 2);
    assert_eq!(critical, 1);
}

#[test]
fn handler_without_context_never_persists() {
    let handler = EventHandler::new();
    let mut store = EventStore::new();
    let outcome = handler.dispatch_event(&mut store, &invoice_settled(1));
    assert!(outcome.is_none());
    let service = EventService::new();
    let records = service
        .get_events_for_account(&store, &"acct-1".to_owned(), None)
        .unwrap();
    assert!(records.is_empty());
}

#[test]
fn handler_with_context_persists_under_it() {
    let handler = EventHandler::with_context(
        "acct-7".to_owned(),
        "user-7".to_owned(),
        "node-7".to_owned(),
        "alias-7".to_owned(),
    );
    let mut store = EventStore::new();
    let outcome = handler.dispatch_event(&mut store, &channel_opened("02ff", 5));
    let stored = outcome.expect("context present").expect("persisted");
    assert_eq!(stored.account_id, "acct-7");
    assert_eq!(stored.user_id, "user-7");
    assert_eq!(stored.event_type, EventType::Channel);
}

#[test]
fn stream_config_default_is_all_events_buffered() {
    let config = node_events::filter::StreamConfig::default();
    assert!(config.filter.include_all);
    assert_eq!(config.buffer_size, Some(1000));
    assert_eq!(config.node_id.len(), 68);
}

#[test]
fn persistence_keeps_emission_order_per_source() {
    // Events of one (node, category) pair arrive in source order; the
    // persisted rows keep that order, visible in their sequence
    // numbers and in query results.
    let service = EventService::new();
    let mut store = EventStore::new();
    let mut stored = Vec::new();
    for value_msat in [1i64, 2, 3, 4, 5] {
        let event = invoice_settled(value_msat);
        stored.push(
            service
                .process_lightning_event(
                    &mut store,
                    "acct-1".to_owned(),
                    "user-1".to_owned(),
                    "lnd-1".to_owned(),
                    "alias".to_owned(),
                    &event,
                )
                .unwrap(),
        );
    }
    for pair in stored.windows(2) {
        assert!(pair[0].seq < pair[1].seq);
        assert!(pair[0].timestamp <= pair[1].timestamp);
    }
    let records = service
        .get_events_for_account(&store, &"acct-1".to_owned(), None)
        .unwrap();
    let descriptions: Vec<&str> = records.iter().map(|r| r.description.as_str()).collect();
    assert_eq!(
        descriptions,
        vec![
            "Invoice settled for 1 msat",
            "Invoice settled for 2 msat",
            "Invoice settled for 3 msat",
            "Invoice settled for 4 msat",
            "Invoice settled for 5 msat",
        ]
    );
}
