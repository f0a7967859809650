//! Raw node events and the building blocks of canonical events.
//!
//! Two node backends produce protocol-specific raw events; the pipeline
//! classifies them by category, attaches a severity, and carries a
//! structured payload of typed values under string keys.

use vstd::prelude::*;

verus! {

/// Category of a node event, used for filtering and subscription scoping.
#[derive(Debug, Clone, Copy, PartialEq, Eq, Hash, Structural)]
pub enum EventType {
    /// Channel-related events (open, close, etc.)
    Channel,
    /// Invoice-related events (created, settled, etc.)
    Invoice,
    /// Payment-related events (sent, failed, etc.)
    Payment,
    /// Peer connection events
    Peer,
    /// Forward events (htlc forwarding)
    Forward,
    /// All event types
    All,
}

/// Severity attached to a canonical event.
#[derive(Debug, Clone, Copy, PartialEq, Eq, Hash, Structural)]
pub enum EventSeverity {
    Info,
    Warning,
    Critical,
}

/// Raw event of the first node backend, at native precision.
#[derive(Debug, Clone)]
pub enum LNDEvent {
    ChannelOpened {
        active: bool,
        remote_pubkey: String,
        channel_point: String,
        chan_id: u64,
        capacity: i64,
        local_balance: i64,
        remote_balance: i64,
        total_satoshis_sent: i64,
        total_satoshis_received: i64,
    },
    ChannelClosed {
        channel_point: String,
        chan_id: u64,
        chain_hash: String,
        closing_tx_hash: String,
        remote_pubkey: String,
        capacity: i64,
        close_height: u32,
        settled_balance: i64,
        time_locked_balance: i64,
        close_type: i32,
        open_initiator: i32,
        close_initiator: i32,
    },
    InvoiceCreated {
        preimage: Vec<u8>,
        hash: Vec<u8>,
        value_msat: i64,
        state: i32,
        memo: String,
        creation_date: i64,
        payment_request: String,
    },
    InvoiceSettled {
        preimage: Vec<u8>,
        hash: Vec<u8>,
        value_msat: i64,
        state: i32,
        memo: String,
        creation_date: i64,
        payment_request: String,
    },
    InvoiceCancelled {
        preimage: Vec<u8>,
        hash: Vec<u8>,
        value_msat: i64,
        state: i32,
        memo: String,
        creation_date: i64,
        payment_request: String,
    },
    InvoiceAccepted {
        preimage: Vec<u8>,
        hash: Vec<u8>,
        value_msat: i64,
        state: i32,
        memo: String,
        creation_date: i64,
        payment_request: String,
    },
}

/// Raw event of the second node backend.
#[derive(Debug, Clone)]
pub enum CLNEvent {
    ChannelOpened {},
}

/// A raw event tagged with the backend it came from.
#[derive(Debug, Clone)]
pub enum NodeSpecificEvent {
    LND(LNDEvent),
    CLN(CLNEvent),
}

/// The category a raw event belongs to, as used by filtering and
/// normalization alike.
pub open spec fn category_of(event: NodeSpecificEvent) -> EventType {
    match event {
        NodeSpecificEvent::LND(lnd_event) => match lnd_event {
            LNDEvent::ChannelOpened { .. } => EventType::Channel,
            LNDEvent::ChannelClosed { .. } => EventType::Channel,
            LNDEvent::InvoiceCreated { .. } => EventType::Invoice,
            LNDEvent::InvoiceSettled { .. } => EventType::Invoice,
            LNDEvent::InvoiceCancelled { .. } => EventType::Invoice,
            LNDEvent::InvoiceAccepted { .. } => EventType::Invoice,
        },
        NodeSpecificEvent::CLN(cln_event) => match cln_event {
            CLNEvent::ChannelOpened { .. } => EventType::Channel,
        },
    }
}

/// One typed value inside a canonical event's payload.
#[derive(Debug, Clone, PartialEq)]
pub enum PayloadValue {
    Bool(bool),
    Int(i64),
    UInt(u64),
    Text(String),
}

/// Mathematical model of a payload value.
pub enum PayloadValueView {
    Bool(bool),
    Int(i64),
    UInt(u64),
    Text(Seq<char>),
}

impl View for PayloadValue {
    type V = PayloadValueView;

    open spec fn view(&self) -> PayloadValueView {
        match self {
            PayloadValue::Bool(b) => PayloadValueView::Bool(*b),
            PayloadValue::Int(i) => PayloadValueView::Int(*i),
            PayloadValue::UInt(u) => PayloadValueView::UInt(*u),
            PayloadValue::Text(s) => PayloadValueView::Text(s@),
        }
    }
}

/// One key/value pair of a canonical event's payload; entries keep the
/// order in which the normalizer produced them.
#[derive(Debug, Clone, PartialEq)]
pub struct PayloadEntry {
    pub key: String,
    pub value: PayloadValue,
}

/// Mathematical model of a payload entry.
pub struct PayloadEntryView {
    pub key: Seq<char>,
    pub value: PayloadValueView,
}

impl View for PayloadEntry {
    type V = PayloadEntryView;

    open spec fn view(&self) -> PayloadEntryView {
        PayloadEntryView { key: self.key@, value: self.value@ }
    }
}

/// Model of a whole payload: the entries in order.
pub open spec fn payload_view(entries: Seq<PayloadEntry>) -> Seq<PayloadEntryView> {
    entries.map_values(|e: PayloadEntry| e@)
}

} // verus!
