//! Feed lifecycle: open a node's raw-event feed at most once, filter what
//! it yields, forward the matches, and deregister on every way out.
//!
//! The collector owns the registration and filtering decisions; the
//! surrounding application performs the waiting (receiving from the node,
//! enqueueing downstream) and calls back in at each step.

use vstd::prelude::*;

use crate::events::NodeSpecificEvent;
use crate::filter::EventFilter;
use crate::events::EventType;
use crate::registry::StreamRegistry;

verus! {

/// The predicate a feed applies to every received raw event.
pub open spec fn feed_filter(f: EventFilter) -> spec_fn(NodeSpecificEvent) -> bool {
    |e: NodeSpecificEvent| f.accepts_event(e)
}

/// Applying a feed's predicate is asking the filter itself.
pub broadcast proof fn lemma_feed_filter_applies(f: EventFilter, e: NodeSpecificEvent)
    ensures
        #[trigger] feed_filter(f)(e) == f.accepts_event(e),
{
}

/// Collects and streams node events while preventing concurrent feed
/// conflicts: one unified feed per node, filtered client-side.
pub struct EventCollector {
    active_streams: StreamRegistry,
    cancel_requests: StreamRegistry,
}

impl EventCollector {
    /// The nodes that currently own a live feed.
    pub closed spec fn active(&self) -> Set<Seq<char>> {
        self.active_streams@
    }

    /// The nodes whose owning task has been asked to stop at its next
    /// receive.
    pub closed spec fn cancelled(&self) -> Set<Seq<char>> {
        self.cancel_requests@
    }

    /// Both internal sets are well-formed.
    pub closed spec fn wf(&self) -> bool {
        self.active_streams.wf() && self.cancel_requests.wf()
    }

    /// A fresh collector: no live feeds, no pending cancellations.
    pub fn new() -> (r: Self)
        ensures
            r.wf(),
            r.active() == Set::<Seq<char>>::empty(),
            r.cancelled() == Set::<Seq<char>>::empty(),
    {
        EventCollector { active_streams: StreamRegistry::new(), cancel_requests: StreamRegistry::new() }
    }

    /// Register the node before its feed is opened.  Returns `false`, and
    /// changes nothing else, when a feed is already live for the node:
    /// that duplicate `start` is an intentional idempotent skip.  A
    /// winning start also clears any stale cancellation, so a stopped
    /// node can be resubscribed at once.
    pub fn begin_stream(&mut self, node: &String) -> (started: bool)
        requires
            old(self).wf(),
        ensures
            final(self).wf(),
            started == !old(self).active().contains(node@),
            final(self).active() == old(self).active().insert(node@),
            started ==> final(self).cancelled() == old(self).cancelled().remove(node@),
            !started ==> final(self).cancelled() == old(self).cancelled(),
    {
        let won = self.active_streams.register(node);
        if won {
            self.cancel_requests.deregister(node);
        }
        won
    }

    /// Start streaming all event categories for the node.  The returned
    /// filter is `Some` exactly when a feed must now be opened.
    pub fn start_sending(&mut self, node: &String) -> (r: Option<EventFilter>)
        requires
            old(self).wf(),
        ensures
            final(self).wf(),
            r is Some == !old(self).active().contains(node@),
            final(self).active() == old(self).active().insert(node@),
            r is Some ==> forall|t: EventType| r->0.accepts(t),
    {
        if self.begin_stream(node) {
            Some(EventFilter::all())
        } else {
            None
        }
    }

    /// Start streaming only channel events for the node.
    pub fn start_channel_events(&mut self, node: &String) -> (r: Option<EventFilter>)
        requires
            old(self).wf(),
        ensures
            final(self).wf(),
            r is Some == !old(self).active().contains(node@),
            final(self).active() == old(self).active().insert(node@),
            r is Some ==> forall|t: EventType| r->0.accepts(t) == (t == EventType::Channel),
    {
        if self.begin_stream(node) {
            Some(EventFilter::channels_only())
        } else {
            None
        }
    }

    /// Start streaming only invoice events for the node.
    pub fn start_invoice_events(&mut self, node: &String) -> (r: Option<EventFilter>)
        requires
            old(self).wf(),
        ensures
            final(self).wf(),
            r is Some == !old(self).active().contains(node@),
            final(self).active() == old(self).active().insert(node@),
            r is Some ==> forall|t: EventType| r->0.accepts(t) == (t == EventType::Invoice),
    {
        if self.begin_stream(node) {
            Some(EventFilter::invoices_only())
        } else {
            None
        }
    }

    /// Start streaming only payment events for the node.
    pub fn start_payment_events(&mut self, node: &String) -> (r: Option<EventFilter>)
        requires
            old(self).wf(),
        ensures
            final(self).wf(),
            r is Some == !old(self).active().contains(node@),
            final(self).active() == old(self).active().insert(node@),
            r is Some ==> forall|t: EventType| r->0.accepts(t) == (t == EventType::Payment),
    {
        if self.begin_stream(node) {
            let mut types: Vec<EventType> = Vec::new();
            types.push(EventType::Payment);
            let f = EventFilter::for_types(types);
            proof {
                assert forall|t: EventType| f.accepts(t) == (t == EventType::Payment) by {
                    if t == EventType::Payment {
                        assert(f.event_types@[0] == EventType::Payment);
                    }
                }
            }
            Some(f)
        } else {
            None
        }
    }

    /// Start streaming the given event categories for the node.
    pub fn start_filtered_events(&mut self, node: &String, event_types: Vec<EventType>) -> (r:
        Option<EventFilter>)
        requires
            old(self).wf(),
        ensures
            final(self).wf(),
            r is Some == !old(self).active().contains(node@),
            final(self).active() == old(self).active().insert(node@),
            r is Some ==> forall|t: EventType|
                r->0.accepts(t) == event_types@.contains(t),
    {
        if self.begin_stream(node) {
            Some(EventFilter::for_types(event_types))
        } else {
            None
        }
    }

    /// The feed could not be opened: release the node so that the caller
    /// may retry explicitly.  There is no internal retry.
    pub fn feed_open_failed(&mut self, node: &String)
        requires
            old(self).wf(),
        ensures
            final(self).wf(),
            final(self).active() == old(self).active().remove(node@),
            final(self).cancelled() == old(self).cancelled(),
    {
        self.active_streams.deregister(node);
    }

    /// The feed ended (natural termination, or the downstream consumer
    /// went away): release the node.
    pub fn feed_ended(&mut self, node: &String)
        requires
            old(self).wf(),
        ensures
            final(self).wf(),
            final(self).active() == old(self).active().remove(node@),
            final(self).cancelled() == old(self).cancelled(),
    {
        self.active_streams.deregister(node);
    }

    /// Stop the feed for a node: remove it from the registry **and**
    /// raise the cooperative cancellation flag that the owning task polls
    /// at each receive; registry removal alone would leave a stale task
    /// delivering events.  Returns whether a feed was live.
    pub fn stop_event_stream(&mut self, node: &String) -> (was_active: bool)
        requires
            old(self).wf(),
        ensures
            final(self).wf(),
            was_active == old(self).active().contains(node@),
            final(self).active() == old(self).active().remove(node@),
            final(self).cancelled() == old(self).cancelled().insert(node@),
    {
        let was_active = self.active_streams.contains_node(node);
        self.active_streams.deregister(node);
        let ghost c = self.cancel_requests@;
        let won = self.cancel_requests.register(node);
        proof {
            if !won {
                assert(final(self).cancelled() =~= old(self).cancelled().insert(node@));
            }
        }
        was_active
    }

    /// The cooperative cancellation flag for a node's owning task; the
    /// task must poll this at every receive.
    pub fn should_stop(&self, node: &String) -> (r: bool)
        ensures
            r == self.cancelled().contains(node@),
    {
        self.cancel_requests.contains_node(node)
    }

    /// Check if an event feed is live for a specific node.
    pub fn is_stream_active(&self, node: &String) -> (r: bool)
        ensures
            r == self.active().contains(node@),
    {
        self.active_streams.contains_node(node)
    }

    /// The nodes with live event feeds, one entry each.
    pub fn get_active_streams(&self) -> (r: Vec<String>)
        requires
            self.wf(),
        ensures
            r@.map_values(|s: String| s@).to_set() == self.active(),
            forall|i: int, j: int| 0 <= i < j < r@.len() ==> r@[i]@ != r@[j]@,
    {
        self.active_streams.active_nodes()
    }

    /// One feed pass: everything the node delivered, filtered.  What
    /// comes back is exactly the subsequence of matching events, in
    /// source order, which the owning task forwards downstream.
    pub fn run_feed(filter: &EventFilter, events: Vec<NodeSpecificEvent>) -> (r: Vec<
        NodeSpecificEvent,
    >)
        ensures
            r@ == events@.filter(feed_filter(*filter)),
    {
        let ghost orig = events@;
        let ghost pred = feed_filter(*filter);
        let mut remaining = events;
        let mut out: Vec<NodeSpecificEvent> = Vec::new();
        let ghost i: int = 0;
        proof {
            assert(orig.take(0).filter(pred) =~= Seq::<NodeSpecificEvent>::empty()) by {
                reveal_with_fuel(Seq::filter, 1);
                assert(orig.take(0) =~= Seq::<NodeSpecificEvent>::empty());
            }
        }
        while remaining.len() > 0
            invariant
                pred == feed_filter(*filter),
                0 <= i <= orig.len(),
                remaining@ == orig.skip(i),
                out@ == orig.take(i).filter(pred),
            decreases remaining@.len(),
        {
            let e = remaining.remove(0);
            proof {
                assert(orig.skip(i).len() > 0);
                assert(e == orig[i]);
                assert(remaining@ =~= orig.skip(i + 1));
                let taken = orig.take(i + 1);
                assert(taken.drop_last() =~= orig.take(i));
                assert(taken.last() == orig[i]);
                reveal_with_fuel(Seq::filter, 1);
                assert(taken.filter(pred) == if pred(orig[i]) {
                    orig.take(i).filter(pred).push(orig[i])
                } else {
                    orig.take(i).filter(pred)
                });
            }
            if filter.matches_event(&e) {
                proof {
                    lemma_feed_filter_applies(*filter, orig[i]);
                    assert(pred(orig[i]));
                }
                out.push(e);
                proof {
                    assert(out@ == orig.take(i).filter(pred).push(orig[i]));
                    assert(out@ == orig.take(i + 1).filter(pred));
                }
            } else {
                proof {
                    lemma_feed_filter_applies(*filter, orig[i]);
                    assert(!pred(orig[i]));
                    assert(out@ == orig.take(i + 1).filter(pred));
                }
            }
            proof {
                i = i + 1;
            }
        }
        proof {
            assert(orig.take(i) =~= orig);
        }
        out
    }
}

/// The collector forwards exactly the subset that matches the filter:
/// nothing that fails the filter gets through (soundness), and every
/// matching event does (completeness), each taken from the feed itself.
pub proof fn lemma_forwarding_exact(f: EventFilter, events: Seq<NodeSpecificEvent>)
    ensures
        forall|i: int|
            0 <= i < events.filter(feed_filter(f)).len() ==> f.accepts_event(
                #[trigger] events.filter(feed_filter(f))[i],
            ) && events.contains(events.filter(feed_filter(f))[i]),
        forall|i: int|
            0 <= i < events.len() && f.accepts_event(#[trigger] events[i]) ==> events.filter(
                feed_filter(f),
            ).contains(events[i]),
{
    broadcast use vstd::seq_lib::group_filter_ensures;

    let pred = feed_filter(f);
    assert forall|i: int| 0 <= i < events.filter(pred).len() implies f.accepts_event(
        #[trigger] events.filter(pred)[i],
    ) && events.contains(events.filter(pred)[i]) by {
        events.lemma_filter_pred(pred, i);
        events.lemma_filter_contains_rev(pred, events.filter(pred)[i]);
    }
    assert forall|i: int| 0 <= i < events.len() && f.accepts_event(
        #[trigger] events[i],
    ) implies events.filter(pred).contains(events[i]) by {
        events.lemma_filter_contains(pred, i);
    }
}

/// Holds per-node identity context for events received off a feed; only
/// a handler with full context may persist events.
#[derive(Debug, Clone)]
pub struct EventHandler {
    pub account_id: Option<String>,
    pub user_id: Option<String>,
    pub node_id: Option<String>,
    pub node_alias: Option<String>,
}

impl EventHandler {
    /// Full identity context: without it no event is ever persisted.
    pub open spec fn has_context(self) -> bool {
        &&& self.account_id is Some
        &&& self.user_id is Some
        &&& self.node_id is Some
        &&& self.node_alias is Some
    }

    /// A handler with no context; it skips every event.
    pub fn new() -> (r: Self)
        ensures
            !r.has_context(),
            r.account_id is None,
            r.user_id is None,
            r.node_id is None,
            r.node_alias is None,
    {
        EventHandler { account_id: None, user_id: None, node_id: None, node_alias: None }
    }

    /// A handler bound to one account, user, and node.
    pub fn with_context(account_id: String, user_id: String, node_id: String, node_alias: String)
        -> (r: Self)
        ensures
            r.has_context(),
            r.account_id == Some(account_id),
            r.user_id == Some(user_id),
            r.node_id == Some(node_id),
            r.node_alias == Some(node_alias),
    {
        EventHandler {
            account_id: Some(account_id),
            user_id: Some(user_id),
            node_id: Some(node_id),
            node_alias: Some(node_alias),
        }
    }
}

} // verus!
