//! Normalization of raw node events into one canonical shape.
//!
//! Every raw variant maps to a category, a severity, a title, a
//! description, and a structured payload.  The mapping is exhaustive by
//! construction: a new raw variant fails the build until it is mapped
//! here.  Binary fields (preimages, hashes) are hex-encoded before they
//! enter a payload.

use vstd::prelude::*;
use vstd::string::StringExecFns;

use crate::events::{
    category_of, payload_view, CLNEvent, EventSeverity, EventType, LNDEvent, NodeSpecificEvent,
    PayloadEntry, PayloadEntryView, PayloadValue, PayloadValueView,
};
use crate::text::{dec_int, i64_to_dec};

verus! {

/// A raw event after normalization, ready to be persisted.
#[derive(Debug, Clone)]
pub struct NormalizedEvent {
    pub event_type: EventType,
    pub severity: EventSeverity,
    pub title: String,
    pub description: String,
    pub payload: Vec<PayloadEntry>,
}

/// Mathematical model of a normalized event.
pub struct NormalizedEventView {
    pub event_type: EventType,
    pub severity: EventSeverity,
    pub title: Seq<char>,
    pub description: Seq<char>,
    pub payload: Seq<PayloadEntryView>,
}

impl View for NormalizedEvent {
    type V = NormalizedEventView;

    open spec fn view(&self) -> NormalizedEventView {
        NormalizedEventView {
            event_type: self.event_type,
            severity: self.severity,
            title: self.title@,
            description: self.description@,
            payload: payload_view(self.payload@),
        }
    }
}

/// The character for one lowercase hex digit.
pub open spec fn hex_digit(d: nat) -> char
    recommends
        d < 16,
{
    if d < 10 {
        ((48 + d) as u8) as char
    } else {
        ((87 + d) as u8) as char
    }
}

/// Lowercase hex text of a byte sequence: for each byte the high nibble's
/// digit, then the low nibble's digit.
pub open spec fn hex_lower_of(bytes: Seq<u8>) -> Seq<char> {
    Seq::new(
        bytes.len() * 2,
        |i: int|
            if i % 2 == 0 {
                hex_digit((bytes[i / 2] >> 4) as nat)
            } else {
                hex_digit((bytes[i / 2] & 0x0f) as nat)
            },
    )
}

/// Relies on hex::encode: each input byte becomes two lowercase hex
/// digits, high nibble first, from the alphabet 0-9 a-f.
#[verifier::external_body]
fn to_hex_text(bytes: &Vec<u8>) -> (r: String)
    ensures
        r@ == hex_lower_of(bytes@),
{
    hex::encode(bytes)
}

/// Shorthand for a payload entry model.
pub open spec fn pev(key: Seq<char>, value: PayloadValueView) -> PayloadEntryView {
    PayloadEntryView { key: key, value: value }
}

/// Model of the payload shared by all invoice variants.
pub open spec fn spec_invoice_payload(
    preimage: Seq<u8>,
    hash: Seq<u8>,
    value_msat: i64,
    state: i32,
    memo: Seq<char>,
    creation_date: i64,
    payment_request: Seq<char>,
) -> Seq<PayloadEntryView> {
    seq![
        pev("preimage"@, PayloadValueView::Text(hex_lower_of(preimage))),
        pev("hash"@, PayloadValueView::Text(hex_lower_of(hash))),
        pev("value_msat"@, PayloadValueView::Int(value_msat)),
        pev("state"@, PayloadValueView::Int(state as i64)),
        pev("memo"@, PayloadValueView::Text(memo)),
        pev("creation_date"@, PayloadValueView::Int(creation_date)),
        pev("payment_request"@, PayloadValueView::Text(payment_request)),
    ]
}

/// Model of the whole normalization mapping for the first backend.
pub open spec fn spec_normalize_lnd(e: LNDEvent) -> NormalizedEventView {
    match e {
        LNDEvent::ChannelOpened {
            active,
            remote_pubkey,
            channel_point,
            chan_id,
            capacity,
            local_balance,
            remote_balance,
            total_satoshis_sent,
            total_satoshis_received,
        } => NormalizedEventView {
            event_type: EventType::Channel,
            severity: EventSeverity::Info,
            title: "Channel Opened"@,
            description: "New channel opened with "@ + remote_pubkey@,
            payload: seq![
                pev("active"@, PayloadValueView::Bool(active)),
                pev("channel_id"@, PayloadValueView::UInt(chan_id)),
                pev("counterparty_node_id"@, PayloadValueView::Text(remote_pubkey@)),
                pev("channel_point"@, PayloadValueView::Text(channel_point@)),
                pev("capacity"@, PayloadValueView::Int(capacity)),
                pev("local_balance"@, PayloadValueView::Int(local_balance)),
                pev("remote_balance"@, PayloadValueView::Int(remote_balance)),
                pev("total_satoshis_sent"@, PayloadValueView::Int(total_satoshis_sent)),
                pev("total_satoshis_received"@, PayloadValueView::Int(total_satoshis_received)),
            ],
        },
        LNDEvent::ChannelClosed {
            channel_point,
            chan_id,
            chain_hash,
            closing_tx_hash,
            remote_pubkey,
            capacity,
            close_height,
            settled_balance,
            time_locked_balance,
            close_type,
            open_initiator,
            close_initiator,
        } => NormalizedEventView {
            event_type: EventType::Channel,
            severity: EventSeverity::Warning,
            title: "Channel Closed"@,
            description: "Channel closed with "@ + remote_pubkey@,
            payload: seq![
                pev("chan_id"@, PayloadValueView::UInt(chan_id)),
                pev("remote_pubkey"@, PayloadValueView::Text(remote_pubkey@)),
                pev("channel_point"@, PayloadValueView::Text(channel_point@)),
                pev("chain_hash"@, PayloadValueView::Text(chain_hash@)),
                pev("closing_tx_hash"@, PayloadValueView::Text(closing_tx_hash@)),
                pev("capacity"@, PayloadValueView::Int(capacity)),
                pev("close_height"@, PayloadValueView::UInt(close_height as u64)),
                pev("settled_balance"@, PayloadValueView::Int(settled_balance)),
                pev("time_locked_balance"@, PayloadValueView::Int(time_locked_balance)),
                pev("close_type"@, PayloadValueView::Int(close_type as i64)),
                pev("open_initiator"@, PayloadValueView::Int(open_initiator as i64)),
                pev("close_initiator"@, PayloadValueView::Int(close_initiator as i64)),
            ],
        },
        LNDEvent::InvoiceCreated {
            preimage,
            hash,
            value_msat,
            state,
            memo,
            creation_date,
            payment_request,
        } => NormalizedEventView {
            event_type: EventType::Invoice,
            severity: EventSeverity::Info,
            title: "Invoice Created"@,
            description: "New invoice created for "@ + dec_int(value_msat as int) + " msat"@,
            payload: spec_invoice_payload(
                preimage@,
                hash@,
                value_msat,
                state,
                memo@,
                creation_date,
                payment_request@,
            ),
        },
        LNDEvent::InvoiceSettled {
            preimage,
            hash,
            value_msat,
            state,
            memo,
            creation_date,
            payment_request,
        } => NormalizedEventView {
            event_type: EventType::Invoice,
            severity: EventSeverity::Info,
            title: "Invoice Settled"@,
            description: "Invoice settled for "@ + dec_int(value_msat as int) + " msat"@,
            payload: spec_invoice_payload(
                preimage@,
                hash@,
                value_msat,
                state,
                memo@,
                creation_date,
                payment_request@,
            ),
        },
        LNDEvent::InvoiceCancelled {
            preimage,
            hash,
            value_msat,
            state,
            memo,
            creation_date,
            payment_request,
        } => NormalizedEventView {
            event_type: EventType::Invoice,
            severity: EventSeverity::Warning,
            title: "Invoice Cancelled"@,
            description: "Invoice cancelled for "@ + dec_int(value_msat as int) + " msat"@,
            payload: spec_invoice_payload(
                preimage@,
                hash@,
                value_msat,
                state,
                memo@,
                creation_date,
                payment_request@,
            ),
        },
        LNDEvent::InvoiceAccepted {
            preimage,
            hash,
            value_msat,
            state,
            memo,
            creation_date,
            payment_request,
        } => NormalizedEventView {
            event_type: EventType::Invoice,
            severity: EventSeverity::Info,
            title: "Invoice Accepted"@,
            description: "Invoice accepted for "@ + dec_int(value_msat as int) + " msat"@,
            payload: spec_invoice_payload(
                preimage@,
                hash@,
                value_msat,
                state,
                memo@,
                creation_date,
                payment_request@,
            ),
        },
    }
}

/// Model of the normalization mapping for the second backend.
pub open spec fn spec_normalize_cln(e: CLNEvent) -> NormalizedEventView {
    match e {
        CLNEvent::ChannelOpened { .. } => NormalizedEventView {
            event_type: EventType::Channel,
            severity: EventSeverity::Info,
            title: "Channel Opened"@,
            description: "New channel opened"@,
            payload: Seq::empty(),
        },
    }
}

/// Model of the normalization mapping for any raw event.
pub open spec fn spec_normalize(e: NodeSpecificEvent) -> NormalizedEventView {
    match e {
        NodeSpecificEvent::LND(lnd) => spec_normalize_lnd(lnd),
        NodeSpecificEvent::CLN(cln) => spec_normalize_cln(cln),
    }
}

/// The category a normalized event carries is the category of the raw
/// event it came from, so filtering before and after normalization agree.
pub proof fn lemma_normalize_keeps_category(e: NodeSpecificEvent)
    ensures
        spec_normalize(e).event_type == category_of(e),
{
}

/// One payload entry from a literal key and a value.
fn make_entry(key: &str, value: PayloadValue) -> (r: PayloadEntry)
    ensures
        r@ == pev(key@, value@),
{
    PayloadEntry { key: key.to_owned(), value }
}

/// The payload shared by all invoice variants.
fn invoice_payload(
    preimage: &Vec<u8>,
    hash: &Vec<u8>,
    value_msat: i64,
    state: i32,
    memo: &String,
    creation_date: i64,
    payment_request: &String,
) -> (r: Vec<PayloadEntry>)
    ensures
        payload_view(r@) == spec_invoice_payload(
            preimage@,
            hash@,
            value_msat,
            state,
            memo@,
            creation_date,
            payment_request@,
        ),
{
    let mut entries: Vec<PayloadEntry> = Vec::new();
    entries.push(make_entry("preimage", PayloadValue::Text(to_hex_text(preimage))));
    entries.push(make_entry("hash", PayloadValue::Text(to_hex_text(hash))));
    entries.push(make_entry("value_msat", PayloadValue::Int(value_msat)));
    entries.push(make_entry("state", PayloadValue::Int(state as i64)));
    entries.push(make_entry("memo", PayloadValue::Text(memo.clone())));
    entries.push(make_entry("creation_date", PayloadValue::Int(creation_date)));
    entries.push(make_entry("payment_request", PayloadValue::Text(payment_request.clone())));
    proof {
        assert(payload_view(entries@) =~= spec_invoice_payload(
            preimage@,
            hash@,
            value_msat,
            state,
            memo@,
            creation_date,
            payment_request@,
        ));
    }
    entries
}

/// A description made of a prefix, a decimal amount, and " msat".
fn msat_description(prefix: &str, value_msat: i64) -> (r: String)
    ensures
        r@ == prefix@ + dec_int(value_msat as int) + " msat"@,
{
    let mut d = prefix.to_owned();
    let amount = i64_to_dec(value_msat);
    d.append(amount.as_str());
    d.append(" msat");
    d
}

/// Normalize a raw event of the first backend.
pub fn normalize_lnd_event(e: &LNDEvent) -> (r: NormalizedEvent)
    ensures
        r@ == spec_normalize_lnd(*e),
{
    match e {
        LNDEvent::ChannelOpened {
            active,
            remote_pubkey,
            channel_point,
            chan_id,
            capacity,
            local_balance,
            remote_balance,
            total_satoshis_sent,
            total_satoshis_received,
        } => {
            let mut description = "New channel opened with ".to_owned();
            description.append(remote_pubkey.as_str());
            let mut entries: Vec<PayloadEntry> = Vec::new();
            entries.push(make_entry("active", PayloadValue::Bool(*active)));
            entries.push(make_entry("channel_id", PayloadValue::UInt(*chan_id)));
            entries.push(
                make_entry("counterparty_node_id", PayloadValue::Text(remote_pubkey.clone())),
            );
            entries.push(make_entry("channel_point", PayloadValue::Text(channel_point.clone())));
            entries.push(make_entry("capacity", PayloadValue::Int(*capacity)));
            entries.push(make_entry("local_balance", PayloadValue::Int(*local_balance)));
            entries.push(make_entry("remote_balance", PayloadValue::Int(*remote_balance)));
            entries.push(
                make_entry("total_satoshis_sent", PayloadValue::Int(*total_satoshis_sent)),
            );
            entries.push(
                make_entry("total_satoshis_received", PayloadValue::Int(*total_satoshis_received)),
            );
            let r = NormalizedEvent {
                event_type: EventType::Channel,
                severity: EventSeverity::Info,
                title: "Channel Opened".to_owned(),
                description,
                payload: entries,
            };
            proof {
                assert(r@.payload =~= spec_normalize_lnd(*e).payload);
            }
            r
        },
        LNDEvent::ChannelClosed {
            channel_point,
            chan_id,
            chain_hash,
            closing_tx_hash,
            remote_pubkey,
            capacity,
            close_height,
            settled_balance,
            time_locked_balance,
            close_type,
            open_initiator,
            close_initiator,
        } => {
            let mut description = "Channel closed with ".to_owned();
            description.append(remote_pubkey.as_str());
            let mut entries: Vec<PayloadEntry> = Vec::new();
            entries.push(make_entry("chan_id", PayloadValue::UInt(*chan_id)));
            entries.push(make_entry("remote_pubkey", PayloadValue::Text(remote_pubkey.clone())));
            entries.push(make_entry("channel_point", PayloadValue::Text(channel_point.clone())));
            entries.push(make_entry("chain_hash", PayloadValue::Text(chain_hash.clone())));
            entries.push(
                make_entry("closing_tx_hash", PayloadValue::Text(closing_tx_hash.clone())),
            );
            entries.push(make_entry("capacity", PayloadValue::Int(*capacity)));
            entries.push(make_entry("close_height", PayloadValue::UInt(*close_height as u64)));
            entries.push(make_entry("settled_balance", PayloadValue::Int(*settled_balance)));
            entries.push(
                make_entry("time_locked_balance", PayloadValue::Int(*time_locked_balance)),
            );
            entries.push(make_entry("close_type", PayloadValue::Int(*close_type as i64)));
            entries.push(make_entry("open_initiator", PayloadValue::Int(*open_initiator as i64)));
            entries.push(
                make_entry("close_initiator", PayloadValue::Int(*close_initiator as i64)),
            );
            let r = NormalizedEvent {
                event_type: EventType::Channel,
                severity: EventSeverity::Warning,
                title: "Channel Closed".to_owned(),
                description,
                payload: entries,
            };
            proof {
                assert(r@.payload =~= spec_normalize_lnd(*e).payload);
            }
            r
        },
        LNDEvent::InvoiceCreated {
            preimage,
            hash,
            value_msat,
            state,
            memo,
            creation_date,
            payment_request,
        } => {
            let r = NormalizedEvent {
                event_type: EventType::Invoice,
                severity: EventSeverity::Info,
                title: "Invoice Created".to_owned(),
                description: msat_description("New invoice created for ", *value_msat),
                payload: invoice_payload(
                    preimage,
                    hash,
                    *value_msat,
                    *state,
                    memo,
                    *creation_date,
                    payment_request,
                ),
            };
            r
        },
        LNDEvent::InvoiceSettled {
            preimage,
            hash,
            value_msat,
            state,
            memo,
            creation_date,
            payment_request,
        } => {
            let r = NormalizedEvent {
                event_type: EventType::Invoice,
                severity: EventSeverity::Info,
                title: "Invoice Settled".to_owned(),
                description: msat_description("Invoice settled for ", *value_msat),
                payload: invoice_payload(
                    preimage,
                    hash,
                    *value_msat,
                    *state,
                    memo,
                    *creation_date,
                    payment_request,
                ),
            };
            r
        },
        LNDEvent::InvoiceCancelled {
            preimage,
            hash,
            value_msat,
            state,
            memo,
            creation_date,
            payment_request,
        } => {
            let r = NormalizedEvent {
                event_type: EventType::Invoice,
                severity: EventSeverity::Warning,
                title: "Invoice Cancelled".to_owned(),
                description: msat_description("Invoice cancelled for ", *value_msat),
                payload: invoice_payload(
                    preimage,
                    hash,
                    *value_msat,
                    *state,
                    memo,
                    *creation_date,
                    payment_request,
                ),
            };
            r
        },
        LNDEvent::InvoiceAccepted {
            preimage,
            hash,
            value_msat,
            state,
            memo,
            creation_date,
            payment_request,
        } => {
            let r = NormalizedEvent {
                event_type: EventType::Invoice,
                severity: EventSeverity::Info,
                title: "Invoice Accepted".to_owned(),
                description: msat_description("Invoice accepted for ", *value_msat),
                payload: invoice_payload(
                    preimage,
                    hash,
                    *value_msat,
                    *state,
                    memo,
                    *creation_date,
                    payment_request,
                ),
            };
            r
        },
    }
}

/// Normalize a raw event of the second backend.
pub fn normalize_cln_event(e: &CLNEvent) -> (r: NormalizedEvent)
    ensures
        r@ == spec_normalize_cln(*e),
{
    match e {
        CLNEvent::ChannelOpened {} => {
            let r = NormalizedEvent {
                event_type: EventType::Channel,
                severity: EventSeverity::Info,
                title: "Channel Opened".to_owned(),
                description: "New channel opened".to_owned(),
                payload: Vec::new(),
            };
            proof {
                assert(r@.payload =~= spec_normalize_cln(*e).payload);
            }
            r
        },
    }
}

/// Normalize any raw event.
pub fn normalize_event(e: &NodeSpecificEvent) -> (r: NormalizedEvent)
    ensures
        r@ == spec_normalize(*e),
{
    match e {
        NodeSpecificEvent::LND(lnd) => normalize_lnd_event(lnd),
        NodeSpecificEvent::CLN(cln) => normalize_cln_event(cln),
    }
}

} // verus!
