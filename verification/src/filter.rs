//! Pure predicate selecting which event categories pass through a feed.

use vstd::prelude::*;

use crate::events::{category_of, EventType, NodeSpecificEvent};

verus! {

/// Configuration for filtering events during streaming.
#[derive(Debug, Clone)]
pub struct EventFilter {
    /// Event categories to include in the stream.
    pub event_types: Vec<EventType>,
    /// Whether to include all events (overrides `event_types` if true).
    pub include_all: bool,
}

impl EventFilter {
    /// Whether this filter lets a given category through.
    pub open spec fn accepts(self, event_type: EventType) -> bool {
        self.include_all || self.event_types@.contains(event_type)
    }

    /// Whether this filter lets a given raw event through.
    pub open spec fn accepts_event(self, event: NodeSpecificEvent) -> bool {
        self.accepts(category_of(event))
    }

    /// Create a filter that includes all event categories.
    pub fn all() -> (r: Self)
        ensures
            r.include_all,
            forall|t: EventType| r.accepts(t),
    {
        Self { event_types: Vec::new(), include_all: true }
    }

    /// Create a filter for specific event categories.
    pub fn for_types(types: Vec<EventType>) -> (r: Self)
        ensures
            !r.include_all,
            r.event_types@ == types@,
            forall|t: EventType| r.accepts(t) == types@.contains(t),
    {
        Self { event_types: types, include_all: false }
    }

    /// Create a filter for only channel events.
    pub fn channels_only() -> (r: Self)
        ensures
            forall|t: EventType| r.accepts(t) == (t == EventType::Channel),
    {
        let mut types: Vec<EventType> = Vec::new();
        types.push(EventType::Channel);
        let r = Self::for_types(types);
        proof {
            assert forall|t: EventType| r.accepts(t) == (t == EventType::Channel) by {
                if t == EventType::Channel {
                    assert(r.event_types@[0] == EventType::Channel);
                }
            }
        }
        r
    }

    /// Create a filter for only invoice events.
    pub fn invoices_only() -> (r: Self)
        ensures
            forall|t: EventType| r.accepts(t) == (t == EventType::Invoice),
    {
        let mut types: Vec<EventType> = Vec::new();
        types.push(EventType::Invoice);
        let r = Self::for_types(types);
        proof {
            assert forall|t: EventType| r.accepts(t) == (t == EventType::Invoice) by {
                if t == EventType::Invoice {
                    assert(r.event_types@[0] == EventType::Invoice);
                }
            }
        }
        r
    }

    /// Check if the filter should include a specific event category.
    pub fn should_include(&self, event_type: &EventType) -> (r: bool)
        ensures
            r == self.accepts(*event_type),
    {
        if self.include_all {
            return true;
        }
        let n: usize = self.event_types.len();
        let mut i: usize = 0;
        while i < n
            invariant
                n == self.event_types@.len(),
                0 <= i <= n,
                forall|j: int| 0 <= j < i ==> self.event_types@[j] != *event_type,
            decreases n - i,
        {
            if self.event_types[i] == *event_type {
                return true;
            }
            i = i + 1;
        }
        false
    }

    /// Check if a raw event should be included based on this filter.
    pub fn matches_event(&self, event: &NodeSpecificEvent) -> (r: bool)
        ensures
            r == self.accepts_event(*event),
    {
        if self.include_all {
            return true;
        }
        match event {
            NodeSpecificEvent::LND(lnd_event) => match lnd_event {
                crate::events::LNDEvent::ChannelOpened { .. }
                | crate::events::LNDEvent::ChannelClosed { .. } => {
                    self.should_include(&EventType::Channel)
                },
                crate::events::LNDEvent::InvoiceCreated { .. }
                | crate::events::LNDEvent::InvoiceSettled { .. }
                | crate::events::LNDEvent::InvoiceCancelled { .. }
                | crate::events::LNDEvent::InvoiceAccepted { .. } => {
                    self.should_include(&EventType::Invoice)
                },
            },
            NodeSpecificEvent::CLN(cln_event) => match cln_event {
                crate::events::CLNEvent::ChannelOpened { .. } => {
                    self.should_include(&EventType::Channel)
                },
            },
        }
    }
}

impl Default for EventFilter {
    /// The default filter includes every event category.
    fn default() -> (r: Self)
        ensures
            r.include_all,
            forall|t: EventType| r.accepts(t),
    {
        Self::all()
    }
}

/// Configuration for starting event streams.
#[derive(Debug, Clone)]
pub struct StreamConfig {
    /// Node identifier (public key rendered as a hex string).
    pub node_id: String,
    /// Event filter configuration.
    pub filter: EventFilter,
    /// Buffer size for the event stream.
    pub buffer_size: Option<usize>,
}

impl Default for StreamConfig {
    /// A placeholder configuration: zeroed node key, all categories, a
    /// buffer of 1000 events.
    fn default() -> (r: Self)
        ensures
            r.filter.include_all,
            r.buffer_size == Some(1000usize),
    {
        Self {
            node_id: (
            "02000000000000000000000000000000000000000000000000000000000000000000").to_owned(),
            filter: EventFilter::default(),
            buffer_size: Some(1000),
        }
    }
}

} // verus!
