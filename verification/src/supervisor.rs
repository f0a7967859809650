//! Per-node, per-category subscription lifecycle.
//!
//! Each (node, category) pair has at most one subscription, moving
//! through Starting, Active, and Error or Stopped until it is removed.
//! Credentials are cached at node authentication so subscriptions can
//! (re)start without re-deriving them.  The supervisor decides; the
//! application owns the tasks and feeds and reports back what happened.

use core::str::FromStr;
use vstd::prelude::*;
use vstd::string::StringExecFns;

use crate::collector::EventHandler;
use crate::events::EventType;

verus! {

/// Cached per-node connection parameters.
#[derive(Debug, Clone)]
pub struct NodeCredentials {
    pub node_id: String,
    pub node_alias: String,
    pub node_type: String,
    pub address: String,
    pub macaroon: String,
    pub tls_cert: String,
    pub client_cert: Option<String>,
    pub client_key: Option<String>,
    pub ca_cert: Option<String>,
}

/// Model of an optional string.
pub open spec fn opt_view(o: Option<String>) -> Option<Seq<char>> {
    match o {
        Some(s) => Some(s@),
        None => None,
    }
}

/// Model of cached credentials.
pub struct NodeCredentialsView {
    pub node_id: Seq<char>,
    pub node_alias: Seq<char>,
    pub node_type: Seq<char>,
    pub address: Seq<char>,
    pub macaroon: Seq<char>,
    pub tls_cert: Seq<char>,
    pub client_cert: Option<Seq<char>>,
    pub client_key: Option<Seq<char>>,
    pub ca_cert: Option<Seq<char>>,
}

impl View for NodeCredentials {
    type V = NodeCredentialsView;

    open spec fn view(&self) -> NodeCredentialsView {
        NodeCredentialsView {
            node_id: self.node_id@,
            node_alias: self.node_alias@,
            node_type: self.node_type@,
            address: self.address@,
            macaroon: self.macaroon@,
            tls_cert: self.tls_cert@,
            client_cert: opt_view(self.client_cert),
            client_key: opt_view(self.client_key),
            ca_cert: opt_view(self.ca_cert),
        }
    }
}

/// The authenticated caller a subscription works for.
#[derive(Debug, Clone)]
pub struct Claims {
    /// The account the events belong to.
    pub account_id: String,
    /// The user (token subject) that authenticated.
    pub sub: String,
}

/// What is known about a node right after authentication.
#[derive(Debug, Clone)]
pub struct NodeInfo {
    /// The node's public key, rendered as hex.
    pub pubkey: String,
    /// The node's advertised alias.
    pub alias: String,
}

/// Connection parameters for the first backend.
#[derive(Debug, Clone)]
pub struct LndConnection {
    pub address: String,
    pub macaroon: String,
    pub cert: String,
}

/// Connection parameters for the second backend.
#[derive(Debug, Clone)]
pub struct ClnConnection {
    pub address: String,
    pub ca_cert: String,
    pub client_cert: String,
    pub client_key: String,
}

/// A request to connect to one of the two node backends.
#[derive(Debug, Clone)]
pub enum ConnectionRequest {
    Lnd(LndConnection),
    Cln(ClnConnection),
}

/// Lifecycle of one (node, category) subscription.  A pair without an
/// entry is inactive; removal deletes the entry.
#[derive(Debug, Clone, Copy, PartialEq, Eq, Structural)]
pub enum SubscriptionState {
    /// The task exists; its feed is not open yet.
    Starting,
    /// The feed is open and delivering.
    Active,
    /// The feed failed; the caller must explicitly resubscribe.
    Error,
    /// The feed was stopped cooperatively.
    Stopped,
}

/// A subscription entry: the live binding of a (node, category) pair.
#[derive(Debug, Clone)]
pub struct EventSubscription {
    pub node_id: String,
    pub category: EventType,
    pub state: SubscriptionState,
}

/// Model of a subscription entry.
pub struct EventSubscriptionView {
    pub node_id: Seq<char>,
    pub category: EventType,
    pub state: SubscriptionState,
}

impl View for EventSubscription {
    type V = EventSubscriptionView;

    open spec fn view(&self) -> EventSubscriptionView {
        EventSubscriptionView {
            node_id: self.node_id@,
            category: self.category,
            state: self.state,
        }
    }
}

/// Whether an entry binds the given pair.
pub open spec fn sub_matches(e: EventSubscriptionView, node: Seq<char>, category: EventType) -> bool {
    e.node_id == node && e.category == category
}

/// Whether any entry binds the given pair.
pub open spec fn has_subscription(
    subs: Seq<EventSubscriptionView>,
    node: Seq<char>,
    category: EventType,
) -> bool {
    exists|i: int| 0 <= i < subs.len() && sub_matches(#[trigger] subs[i], node, category)
}

/// The state bound to a pair, if any.
pub open spec fn subscription_state(
    subs: Seq<EventSubscriptionView>,
    node: Seq<char>,
    category: EventType,
) -> Option<SubscriptionState> {
    if has_subscription(subs, node, category) {
        let i = choose|i: int|
            0 <= i < subs.len() && sub_matches(#[trigger] subs[i], node, category);
        Some(subs[i].state)
    } else {
        None
    }
}

/// Each pair is bound at most once.
pub open spec fn subs_unique(subs: Seq<EventSubscriptionView>) -> bool {
    forall|i: int, j: int|
        0 <= i < j < subs.len() ==> !sub_matches(
            #[trigger] subs[i],
            (#[trigger] subs[j]).node_id,
            subs[j].category,
        )
}

/// A subscription with a running task: one that has started and neither
/// failed nor stopped.
pub open spec fn is_live(state: Option<SubscriptionState>) -> bool {
    state == Some(SubscriptionState::Starting) || state == Some(SubscriptionState::Active)
}

/// Every pair other than the given one is bound to the same state in
/// both tables.
pub open spec fn others_unchanged(
    pre: Seq<EventSubscriptionView>,
    post: Seq<EventSubscriptionView>,
    node: Seq<char>,
    category: EventType,
) -> bool {
    forall|n: Seq<char>, c: EventType|
        !(n == node && c == category) ==> #[trigger] subscription_state(post, n, c)
            == subscription_state(pre, n, c)
}

/// In a unique table, the entry at a matching index is the binding.
proof fn lemma_sub_at(subs: Seq<EventSubscriptionView>, i: int, node: Seq<char>, category: EventType)
    requires
        subs_unique(subs),
        0 <= i < subs.len(),
        sub_matches(subs[i], node, category),
    ensures
        subscription_state(subs, node, category) == Some(subs[i].state),
{
    assert(has_subscription(subs, node, category));
    let k = choose|k: int| 0 <= k < subs.len() && sub_matches(#[trigger] subs[k], node, category);
    if k < i {
        assert(sub_matches(subs[k], subs[i].node_id, subs[i].category));
    } else if i < k {
        assert(sub_matches(subs[i], subs[k].node_id, subs[k].category));
    }
}

/// Removing the binding of a pair unbinds exactly that pair.
proof fn lemma_sub_remove(
    pre: Seq<EventSubscriptionView>,
    i: int,
    node: Seq<char>,
    category: EventType,
)
    requires
        subs_unique(pre),
        0 <= i < pre.len(),
        sub_matches(pre[i], node, category),
    ensures
        subs_unique(pre.remove(i)),
        subscription_state(pre.remove(i), node, category) is None,
        others_unchanged(pre, pre.remove(i), node, category),
{
    let post = pre.remove(i);
    assert forall|j: int, k: int| 0 <= j < k < post.len() implies !sub_matches(
        #[trigger] post[j],
        (#[trigger] post[k]).node_id,
        post[k].category,
    ) by {
        let j0 = if j < i { j } else { j + 1 };
        let k0 = if k < i { k } else { k + 1 };
        assert(post[j] == pre[j0] && post[k] == pre[k0]);
    }
    assert(!has_subscription(post, node, category)) by {
        if has_subscription(post, node, category) {
            let k = choose|k: int|
                0 <= k < post.len() && sub_matches(#[trigger] post[k], node, category);
            let k0 = if k < i { k } else { k + 1 };
            assert(post[k] == pre[k0]);
            if k0 < i {
                assert(sub_matches(pre[k0], pre[i].node_id, pre[i].category));
            } else {
                assert(sub_matches(pre[i], pre[k0].node_id, pre[k0].category));
            }
        }
    }
    assert forall|n: Seq<char>, c: EventType| !(n == node && c == category) implies
        #[trigger] subscription_state(post, n, c) == subscription_state(pre, n, c) by {
        if has_subscription(pre, n, c) {
            let k0 = choose|k0: int|
                0 <= k0 < pre.len() && sub_matches(#[trigger] pre[k0], n, c);
            assert(k0 != i);
            let k = if k0 < i { k0 } else { k0 - 1 };
            assert(post[k] == pre[k0]);
            lemma_sub_at(pre, k0, n, c);
            lemma_sub_at(post, k, n, c);
        } else {
            if has_subscription(post, n, c) {
                let k = choose|k: int|
                    0 <= k < post.len() && sub_matches(#[trigger] post[k], n, c);
                let k0 = if k < i { k } else { k + 1 };
                assert(post[k] == pre[k0]);
            }
        }
    }
}

/// Binding an unbound pair binds exactly that pair.
proof fn lemma_sub_push(
    pre: Seq<EventSubscriptionView>,
    e: EventSubscriptionView,
    node: Seq<char>,
    category: EventType,
)
    requires
        subs_unique(pre),
        !has_subscription(pre, node, category),
        sub_matches(e, node, category),
    ensures
        subs_unique(pre.push(e)),
        subscription_state(pre.push(e), node, category) == Some(e.state),
        others_unchanged(pre, pre.push(e), node, category),
{
    let post = pre.push(e);
    assert forall|j: int, k: int| 0 <= j < k < post.len() implies !sub_matches(
        #[trigger] post[j],
        (#[trigger] post[k]).node_id,
        post[k].category,
    ) by {
        if k == pre.len() {
            assert(post[j] == pre[j]);
            if sub_matches(post[j], e.node_id, e.category) {
                assert(sub_matches(pre[j], node, category));
            }
        } else {
            assert(post[j] == pre[j] && post[k] == pre[k]);
        }
    }
    assert(post[pre.len() as int] == e);
    lemma_sub_at(post, pre.len() as int, node, category);
    assert forall|n: Seq<char>, c: EventType| !(n == node && c == category) implies
        #[trigger] subscription_state(post, n, c) == subscription_state(pre, n, c) by {
        if has_subscription(pre, n, c) {
            let k = choose|k: int| 0 <= k < pre.len() && sub_matches(#[trigger] pre[k], n, c);
            assert(post[k] == pre[k]);
            lemma_sub_at(pre, k, n, c);
            lemma_sub_at(post, k, n, c);
        } else {
            if has_subscription(post, n, c) {
                let k = choose|k: int|
                    0 <= k < post.len() && sub_matches(#[trigger] post[k], n, c);
                if k < pre.len() {
                    assert(sub_matches(pre[k], n, c));
                } else {
                    assert(post[k] == e);
                }
            }
        }
    }
}

/// The credentials bound to a node in a keyed table, if any.
pub open spec fn cred_lookup(
    creds: Seq<(Seq<char>, NodeCredentialsView)>,
    node: Seq<char>,
) -> Option<NodeCredentialsView> {
    if exists|i: int| 0 <= i < creds.len() && (#[trigger] creds[i]).0 == node {
        let i = choose|i: int| 0 <= i < creds.len() && (#[trigger] creds[i]).0 == node;
        Some(creds[i].1)
    } else {
        None
    }
}

/// Each node is bound at most once.
pub open spec fn creds_unique(creds: Seq<(Seq<char>, NodeCredentialsView)>) -> bool {
    forall|i: int, j: int|
        0 <= i < j < creds.len() ==> (#[trigger] creds[i]).0 != (#[trigger] creds[j]).0
}

/// In a unique table, the entry at a matching index is the binding.
proof fn lemma_cred_at(creds: Seq<(Seq<char>, NodeCredentialsView)>, i: int, node: Seq<char>)
    requires
        creds_unique(creds),
        0 <= i < creds.len(),
        creds[i].0 == node,
    ensures
        cred_lookup(creds, node) == Some(creds[i].1),
{
    assert(exists|k: int| 0 <= k < creds.len() && (#[trigger] creds[k]).0 == node);
}

/// Removing a node's binding unbinds exactly that node.
proof fn lemma_cred_remove(creds: Seq<(Seq<char>, NodeCredentialsView)>, i: int, node: Seq<char>)
    requires
        creds_unique(creds),
        0 <= i < creds.len(),
        creds[i].0 == node,
    ensures
        creds_unique(creds.remove(i)),
        cred_lookup(creds.remove(i), node) is None,
        forall|n: Seq<char>|
            n != node ==> #[trigger] cred_lookup(creds.remove(i), n) == cred_lookup(creds, n),
{
    let post = creds.remove(i);
    assert forall|j: int, k: int| 0 <= j < k < post.len() implies (#[trigger] post[j]).0 != (
    #[trigger] post[k]).0 by {
        let j0 = if j < i { j } else { j + 1 };
        let k0 = if k < i { k } else { k + 1 };
        assert(post[j] == creds[j0] && post[k] == creds[k0]);
    }
    assert(!exists|k: int| 0 <= k < post.len() && (#[trigger] post[k]).0 == node) by {
        if exists|k: int| 0 <= k < post.len() && (#[trigger] post[k]).0 == node {
            let k = choose|k: int| 0 <= k < post.len() && (#[trigger] post[k]).0 == node;
            let k0 = if k < i { k } else { k + 1 };
            assert(post[k] == creds[k0]);
        }
    }
    assert forall|n: Seq<char>| n != node implies #[trigger] cred_lookup(post, n) == cred_lookup(
        creds,
        n,
    ) by {
        if exists|k0: int| 0 <= k0 < creds.len() && (#[trigger] creds[k0]).0 == n {
            let k0 = choose|k0: int| 0 <= k0 < creds.len() && (#[trigger] creds[k0]).0 == n;
            assert(k0 != i);
            let k = if k0 < i { k0 } else { k0 - 1 };
            assert(post[k] == creds[k0]);
            lemma_cred_at(creds, k0, n);
            lemma_cred_at(post, k, n);
        } else {
            if exists|k: int| 0 <= k < post.len() && (#[trigger] post[k]).0 == n {
                let k = choose|k: int| 0 <= k < post.len() && (#[trigger] post[k]).0 == n;
                let k0 = if k < i { k } else { k + 1 };
                assert(post[k] == creds[k0]);
            }
        }
    }
}

/// Binding an unbound node binds exactly that node.
proof fn lemma_cred_push(
    creds: Seq<(Seq<char>, NodeCredentialsView)>,
    e: (Seq<char>, NodeCredentialsView),
)
    requires
        creds_unique(creds),
        cred_lookup(creds, e.0) is None,
    ensures
        creds_unique(creds.push(e)),
        cred_lookup(creds.push(e), e.0) == Some(e.1),
        forall|n: Seq<char>|
            n != e.0 ==> #[trigger] cred_lookup(creds.push(e), n) == cred_lookup(creds, n),
{
    let post = creds.push(e);
    assert forall|j: int, k: int| 0 <= j < k < post.len() implies (#[trigger] post[j]).0 != (
    #[trigger] post[k]).0 by {
        if k == creds.len() {
            assert(post[j] == creds[j]);
        } else {
            assert(post[j] == creds[j] && post[k] == creds[k]);
        }
    }
    assert(post[creds.len() as int] == e);
    lemma_cred_at(post, creds.len() as int, e.0);
    assert forall|n: Seq<char>| n != e.0 implies #[trigger] cred_lookup(post, n) == cred_lookup(
        creds,
        n,
    ) by {
        if exists|k: int| 0 <= k < creds.len() && (#[trigger] creds[k]).0 == n {
            let k = choose|k: int| 0 <= k < creds.len() && (#[trigger] creds[k]).0 == n;
            assert(post[k] == creds[k]);
            lemma_cred_at(creds, k, n);
            lemma_cred_at(post, k, n);
        } else {
            if exists|k: int| 0 <= k < post.len() && (#[trigger] post[k]).0 == n {
                let k = choose|k: int| 0 <= k < post.len() && (#[trigger] post[k]).0 == n;
                if k < creds.len() {
                    assert(creds[k].0 == n);
                } else {
                    assert(post[k] == e);
                }
            }
        }
    }
}

/// Why a subscription step was refused.
#[derive(Debug, Clone, Copy, PartialEq, Eq, Structural)]
pub enum SupervisorError {
    /// No credentials are cached for the node.
    MissingCredentials,
    /// The cached node id is not a valid public key.
    InvalidPubkey,
    /// The cached node type names no known backend.
    UnsupportedNodeType,
    /// `unsubscribe` found no subscription for the pair.
    NotFound,
}

/// What the caller must now do for a subscription that was accepted.
#[derive(Debug)]
pub enum SubscribeAction {
    /// A live subscription already exists; nothing to start.
    AlreadyActive,
    /// Open a feed over this connection and hand events to this handler.
    Start { connection: ConnectionRequest, handler: EventHandler },
}

/// Names the outcome of secp256k1's public-key parse (through
/// bitcoin::secp256k1::PublicKey::from_str), a function of the text
/// alone: hex decoding plus the curve point check.
pub uninterp spec fn is_node_pubkey(s: Seq<char>) -> bool;

/// Relies on bitcoin::secp256k1::PublicKey::from_str: it accepts
/// exactly the hex encodings of valid compressed or uncompressed curve
/// points, depending on the text alone.
#[verifier::external_body]
fn parse_node_pubkey(s: &String) -> (r: bool)
    ensures
        r == is_node_pubkey(s@),
{
    bitcoin::secp256k1::PublicKey::from_str(s.as_str()).is_ok()
}

/// String equality against a literal.
fn str_is(a: &String, b: &str) -> (r: bool)
    ensures
        r == (a@ == b@),
{
    *a == b.to_owned()
}

/// Model of a connection request.
pub enum ConnectionRequestView {
    Lnd { address: Seq<char>, macaroon: Seq<char>, cert: Seq<char> },
    Cln { address: Seq<char>, ca_cert: Seq<char>, client_cert: Seq<char>, client_key: Seq<char> },
}

impl View for ConnectionRequest {
    type V = ConnectionRequestView;

    open spec fn view(&self) -> ConnectionRequestView {
        match self {
            ConnectionRequest::Lnd(c) => ConnectionRequestView::Lnd {
                address: c.address@,
                macaroon: c.macaroon@,
                cert: c.cert@,
            },
            ConnectionRequest::Cln(c) => ConnectionRequestView::Cln {
                address: c.address@,
                ca_cert: c.ca_cert@,
                client_cert: c.client_cert@,
                client_key: c.client_key@,
            },
        }
    }
}

/// The connection parameters the given credentials resolve to, for the
/// backend they name.  An absent certificate resolves to empty text.
pub open spec fn spec_connection_of(c: NodeCredentialsView) -> ConnectionRequestView {
    if c.node_type == "lnd"@ {
        ConnectionRequestView::Lnd { address: c.address, macaroon: c.macaroon, cert: c.tls_cert }
    } else {
        ConnectionRequestView::Cln {
            address: c.address,
            ca_cert: or_empty(c.ca_cert),
            client_cert: or_empty(c.client_cert),
            client_key: or_empty(c.client_key),
        }
    }
}

/// An optional text, or empty.
pub open spec fn or_empty(o: Option<Seq<char>>) -> Seq<char> {
    match o {
        Some(s) => s,
        None => Seq::empty(),
    }
}

/// The connection a subscription must open for the given credentials,
/// or why none can be built: the node type picks the backend, and the
/// cached node id must parse as a public key.
pub open spec fn spec_resolve(c: NodeCredentialsView) -> Result<
    ConnectionRequestView,
    SupervisorError,
> {
    if c.node_type == "lnd"@ || c.node_type == "cln"@ {
        if is_node_pubkey(c.node_id) {
            Ok(spec_connection_of(c))
        } else {
            Err(SupervisorError::InvalidPubkey)
        }
    } else {
        Err(SupervisorError::UnsupportedNodeType)
    }
}


/// Manages event subscriptions per node and category, and the
/// credential cache that lets them (re)start.
pub struct BackgroundEventService {
    subscriptions: Vec<EventSubscription>,
    credentials: Vec<(String, NodeCredentials)>,
}

impl BackgroundEventService {
    /// The subscription entries.
    pub closed spec fn subs(&self) -> Seq<EventSubscriptionView> {
        self.subscriptions@.map_values(|e: EventSubscription| e@)
    }

    /// The credential cache: node to credentials.
    pub closed spec fn creds(&self) -> Seq<(Seq<char>, NodeCredentialsView)> {
        self.credentials@.map_values(|e: (String, NodeCredentials)| (e.0@, e.1@))
    }

    /// The credentials cached for a node, if any.
    pub open spec fn creds_of(&self, node: Seq<char>) -> Option<NodeCredentialsView> {
        cred_lookup(self.creds(), node)
    }

    /// The state of one (node, category) subscription.
    pub open spec fn state_of(&self, node: Seq<char>, category: EventType) -> Option<
        SubscriptionState,
    > {
        subscription_state(self.subs(), node, category)
    }

    /// Each pair and each node is bound at most once.
    pub closed spec fn wf(&self) -> bool {
        subs_unique(self.subs()) && creds_unique(self.creds())
    }

    /// A fresh supervisor: no subscriptions, no credentials.
    pub fn new() -> (r: Self)
        ensures
            r.wf(),
            forall|n: Seq<char>, c: EventType| #[trigger] r.state_of(n, c) is None,
            forall|n: Seq<char>| #[trigger] r.creds_of(n) is None,
    {
        let r = BackgroundEventService { subscriptions: Vec::new(), credentials: Vec::new() };
        proof {
            assert(r.subs() =~= Seq::<EventSubscriptionView>::empty());
            assert(r.creds() =~= Seq::<(Seq<char>, NodeCredentialsView)>::empty());
        }
        r
    }

    /// The index of the entry binding a pair, if one exists.
    fn find_sub(&self, node: &String, category: EventType) -> (r: Option<usize>)
        ensures
            r is Some <==> has_subscription(self.subs(), node@, category),
            r matches Some(i) ==> i < self.subs().len() && sub_matches(
                self.subs()[i as int],
                node@,
                category,
            ),
    {
        let n: usize = self.subscriptions.len();
        let mut i: usize = 0;
        while i < n
            invariant
                0 <= i <= n,
                n == self.subscriptions@.len(),
                forall|j: int| 0 <= j < i ==> !sub_matches(self.subs()[j], node@, category),
            decreases n - i,
        {
            let entry = &self.subscriptions[i];
            let same_node = entry.node_id == *node;
            let same_cat = entry.category == category;
            proof {
                assert(self.subs()[i as int] == entry@);
            }
            if same_node && same_cat {
                return Some(i);
            }
            i = i + 1;
        }
        proof {
            if has_subscription(self.subs(), node@, category) {
                let k = choose|k: int|
                    0 <= k < self.subs().len() && sub_matches(
                        #[trigger] self.subs()[k],
                        node@,
                        category,
                    );
            }
        }
        None
    }

    /// Bind a pair to a state, replacing any earlier binding.
    fn set_state(&mut self, node: &String, category: EventType, state: SubscriptionState)
        requires
            old(self).wf(),
        ensures
            final(self).wf(),
            final(self).state_of(node@, category) == Some(state),
            others_unchanged(old(self).subs(), final(self).subs(), node@, category),
            final(self).creds() == old(self).creds(),
    {
        let ghost pre = self.subs();
        match self.find_sub(node, category) {
            Some(i) => {
                self.subscriptions.remove(i);
                proof {
                    assert(self.subs() =~= pre.remove(i as int));
                    lemma_sub_remove(pre, i as int, node@, category);
                }
            },
            None => {
            },
        }
        let ghost mid = self.subs();
        let entry = EventSubscription { node_id: node.clone(), category, state };
        let ghost ev = entry@;
        self.subscriptions.push(entry);
        proof {
            assert(self.subs() =~= mid.push(ev));
            lemma_sub_push(mid, ev, node@, category);
            assert forall|n: Seq<char>, c: EventType| !(n == node@ && c == category) implies
                #[trigger] subscription_state(self.subs(), n, c) == subscription_state(
                pre,
                n,
                c,
            ) by {
                assert(subscription_state(self.subs(), n, c) == subscription_state(mid, n, c));
            }
        }
    }

    /// Cache (or replace) the credentials for a node.
    pub fn store_node_credentials(&mut self, node_id: String, credentials: NodeCredentials)
        requires
            old(self).wf(),
        ensures
            final(self).wf(),
            final(self).creds_of(node_id@) == Some(credentials@),
            forall|n: Seq<char>|
                n != node_id@ ==> #[trigger] final(self).creds_of(n) == old(self).creds_of(n),
            final(self).subs() == old(self).subs(),
    {
        let ghost pre = self.creds();
        let n: usize = self.credentials.len();
        let mut found: Option<usize> = None;
        let mut i: usize = 0;
        while i < n
            invariant
                0 <= i <= n,
                n == self.credentials@.len(),
                found is Some ==> (found->0 as int) < self.creds().len() && self.creds()[
                    found->0 as int
                ].0 == node_id@,
                found is None ==> forall|j: int| 0 <= j < i ==> self.creds()[j].0 != node_id@,
            decreases n - i,
        {
            if found.is_none() {
                let hit = self.credentials[i].0 == node_id;
                proof {
                    assert(self.creds()[i as int].0 == self.credentials@[i as int].0@);
                }
                if hit {
                    found = Some(i);
                }
            }
            i = i + 1;
        }
        match found {
            Some(idx) => {
                self.credentials.remove(idx);
                proof {
                    assert(self.creds() =~= pre.remove(idx as int));
                    lemma_cred_remove(pre, idx as int, node_id@);
                }
            },
            None => {
                proof {
                    if exists|k: int| 0 <= k < pre.len() && (#[trigger] pre[k]).0 == node_id@ {
                        let k = choose|k: int|
                            0 <= k < pre.len() && (#[trigger] pre[k]).0 == node_id@;
                    }
                }
            },
        }
        let ghost mid = self.creds();
        let ghost cv = credentials@;
        self.credentials.push((node_id, credentials));
        proof {
            assert(self.creds() =~= mid.push((node_id@, cv)));
            lemma_cred_push(mid, (node_id@, cv));
            assert forall|m: Seq<char>| m != node_id@ implies #[trigger] cred_lookup(
                self.creds(),
                m,
            ) == cred_lookup(pre, m) by {
                assert(cred_lookup(self.creds(), m) == cred_lookup(mid, m));
            }
            assert(final(self).subs() =~= old(self).subs());
        }
    }

    /// Build the connection a subscription must open, from cached
    /// credentials: the node type picks the backend and the node id
    /// must be a valid public key.
    fn create_client_instance(&self, credentials: &NodeCredentials) -> (r: Result<
        ConnectionRequest,
        SupervisorError,
    >)
        ensures
            r matches Ok(conn) ==> spec_resolve(credentials@) == Ok::<
                ConnectionRequestView,
                SupervisorError,
            >(conn@),
            r matches Err(e) ==> spec_resolve(credentials@) == Err::<
                ConnectionRequestView,
                SupervisorError,
            >(e),
    {
        if str_is(&credentials.node_type, "lnd") {
            if !parse_node_pubkey(&credentials.node_id) {
                return Err(SupervisorError::InvalidPubkey);
            }
            Ok(ConnectionRequest::Lnd(LndConnection {
                address: credentials.address.clone(),
                macaroon: credentials.macaroon.clone(),
                cert: credentials.tls_cert.clone(),
            }))
        } else if str_is(&credentials.node_type, "cln") {
            if !parse_node_pubkey(&credentials.node_id) {
                return Err(SupervisorError::InvalidPubkey);
            }
            Ok(ConnectionRequest::Cln(ClnConnection {
                address: credentials.address.clone(),
                ca_cert: clone_or_empty(&credentials.ca_cert),
                client_cert: clone_or_empty(&credentials.client_cert),
                client_key: clone_or_empty(&credentials.client_key),
            }))
        } else {
            Err(SupervisorError::UnsupportedNodeType)
        }
    }

    /// Subscribe a (node, category) pair.  Idempotent: a pair whose
    /// subscription is live is left untouched and needs no new task.
    /// Otherwise the pair moves to Starting and the caller gets the
    /// connection to open and the handler to feed.  Refusals (no
    /// cached credentials, unusable credentials) change nothing.
    pub fn subscribe(&mut self, node_id: &String, category: EventType, user_claims: Option<&Claims>)
        -> (r: Result<SubscribeAction, SupervisorError>)
        requires
            old(self).wf(),
        ensures
            final(self).wf(),
            final(self).creds() == old(self).creds(),
            r matches Ok(a) ==> (a is AlreadyActive <==> is_live(
                old(self).state_of(node_id@, category),
            )),
            is_live(old(self).state_of(node_id@, category)) ==> r is Ok && *final(self)
                == *old(self),
            !is_live(old(self).state_of(node_id@, category)) ==> {
                &&& (r is Err <==> old(self).creds_of(node_id@) is None || spec_resolve(
                    old(self).creds_of(node_id@)->0,
                ) is Err)
                &&& r matches Err(e) ==> *final(self) == *old(self) && (if old(self).creds_of(
                    node_id@,
                ) is None {
                    e == SupervisorError::MissingCredentials
                } else {
                    Err::<ConnectionRequestView, SupervisorError>(e) == spec_resolve(
                        old(self).creds_of(node_id@)->0,
                    )
                })
                &&& r matches Ok(a) ==> {
                    &&& a matches SubscribeAction::Start { connection, handler } ==> {
                        &&& Ok::<ConnectionRequestView, SupervisorError>(connection@)
                            == spec_resolve(old(self).creds_of(node_id@)->0)
                        &&& handler.has_context() <==> user_claims is Some
                        &&& user_claims matches Some(claims) ==> handler.account_id
                            == Some(claims.account_id) && handler.user_id == Some(claims.sub)
                            && handler.node_id == Some(*node_id) && handler.node_alias->0@
                            == old(self).creds_of(node_id@)->0.node_alias
                    }
                    &&& final(self).state_of(node_id@, category) == Some(
                        SubscriptionState::Starting,
                    )
                    &&& others_unchanged(old(self).subs(), final(self).subs(), node_id@, category)
                }
            },
    {
        match self.find_sub(node_id, category) {
            Some(i) => {
                let live = match self.subscriptions[i].state {
                    SubscriptionState::Starting => true,
                    SubscriptionState::Active => true,
                    _ => false,
                };
                proof {
                    assert(self.subs()[i as int] == self.subscriptions@[i as int]@);
                    lemma_sub_at(self.subs(), i as int, node_id@, category);
                }
                if live {
                    return Ok(SubscribeAction::AlreadyActive);
                }
            },
            None => {
            },
        }
        let credentials = match self.find_credentials(node_id) {
            Some(c) => c,
            None => {
                return Err(SupervisorError::MissingCredentials);
            },
        };
        let connection = match self.create_client_instance(&credentials) {
            Ok(c) => c,
            Err(e) => {
                return Err(e);
            },
        };
        let handler = match user_claims {
            Some(claims) => EventHandler::with_context(
                claims.account_id.clone(),
                claims.sub.clone(),
                node_id.clone(),
                credentials.node_alias.clone(),
            ),
            None => EventHandler::new(),
        };
        self.set_state(node_id, category, SubscriptionState::Starting);
        Ok(SubscribeAction::Start { connection, handler })
    }

    /// A copy of the credentials cached for a node.
    fn find_credentials(&self, node_id: &String) -> (r: Option<NodeCredentials>)
        requires
            self.wf(),
        ensures
            r is Some <==> self.creds_of(node_id@) is Some,
            r matches Some(c) ==> self.creds_of(node_id@) == Some(c@),
    {
        let n: usize = self.credentials.len();
        let mut i: usize = 0;
        while i < n
            invariant
                0 <= i <= n,
                n == self.credentials@.len(),
                self.wf(),
                forall|j: int| 0 <= j < i ==> self.creds()[j].0 != node_id@,
            decreases n - i,
        {
            let hit = self.credentials[i].0 == *node_id;
            proof {
                assert(self.creds()[i as int] == (
                    self.credentials@[i as int].0@,
                    self.credentials@[i as int].1@,
                ));
            }
            if hit {
                let c = clone_credentials(&self.credentials[i].1);
                proof {
                    lemma_cred_at(self.creds(), i as int, node_id@);
                }
                return Some(c);
            }
            i = i + 1;
        }
        proof {
            if exists|k: int| 0 <= k < self.creds().len() && (#[trigger] self.creds()[k]).0
                == node_id@ {
                let k = choose|k: int|
                    0 <= k < self.creds().len() && (#[trigger] self.creds()[k]).0 == node_id@;
            }
        }
        None
    }

    /// Subscribe to channel events for a node.
    pub fn subscribe_to_channel_events(&mut self, node_id: &String, user_claims: Option<&Claims>)
        -> (r: Result<SubscribeAction, SupervisorError>)
        requires
            old(self).wf(),
        ensures
            final(self).wf(),
            final(self).creds() == old(self).creds(),
            is_live(old(self).state_of(node_id@, EventType::Channel)) ==> r is Ok && *final(self)
                == *old(self),
            !is_live(old(self).state_of(node_id@, EventType::Channel)) ==> (r is Err <==> old(
                self,
            ).creds_of(node_id@) is None || spec_resolve(old(self).creds_of(node_id@)->0) is Err),
            r is Ok && !is_live(old(self).state_of(node_id@, EventType::Channel))
                ==> final(self).state_of(node_id@, EventType::Channel) == Some(
                SubscriptionState::Starting,
            ) && others_unchanged(old(self).subs(), final(self).subs(), node_id@, EventType::Channel),
            r is Err ==> *final(self) == *old(self),
    {
        self.subscribe(node_id, EventType::Channel, user_claims)
    }

    /// Subscribe to invoice events for a node.
    pub fn subscribe_to_invoice_events(&mut self, node_id: &String, user_claims: Option<&Claims>)
        -> (r: Result<SubscribeAction, SupervisorError>)
        requires
            old(self).wf(),
        ensures
            final(self).wf(),
            final(self).creds() == old(self).creds(),
            is_live(old(self).state_of(node_id@, EventType::Invoice)) ==> r is Ok && *final(self)
                == *old(self),
            !is_live(old(self).state_of(node_id@, EventType::Invoice)) ==> (r is Err <==> old(
                self,
            ).creds_of(node_id@) is None || spec_resolve(old(self).creds_of(node_id@)->0) is Err),
            r is Ok && !is_live(old(self).state_of(node_id@, EventType::Invoice))
                ==> final(self).state_of(node_id@, EventType::Invoice) == Some(
                SubscriptionState::Starting,
            ) && others_unchanged(old(self).subs(), final(self).subs(), node_id@, EventType::Invoice),
            r is Err ==> *final(self) == *old(self),
    {
        self.subscribe(node_id, EventType::Invoice, user_claims)
    }

    /// Subscribe to payment events for a node.
    pub fn subscribe_to_payment_events(&mut self, node_id: &String, user_claims: Option<&Claims>)
        -> (r: Result<SubscribeAction, SupervisorError>)
        requires
            old(self).wf(),
        ensures
            final(self).wf(),
            final(self).creds() == old(self).creds(),
            is_live(old(self).state_of(node_id@, EventType::Payment)) ==> r is Ok && *final(self)
                == *old(self),
            !is_live(old(self).state_of(node_id@, EventType::Payment)) ==> (r is Err <==> old(
                self,
            ).creds_of(node_id@) is None || spec_resolve(old(self).creds_of(node_id@)->0) is Err),
            r is Ok && !is_live(old(self).state_of(node_id@, EventType::Payment))
                ==> final(self).state_of(node_id@, EventType::Payment) == Some(
                SubscriptionState::Starting,
            ) && others_unchanged(old(self).subs(), final(self).subs(), node_id@, EventType::Payment),
            r is Err ==> *final(self) == *old(self),
    {
        self.subscribe(node_id, EventType::Payment, user_claims)
    }

    /// The feed of a Starting subscription opened: it becomes Active.
    /// No other pair moves.
    pub fn feed_opened(&mut self, node_id: &String, category: EventType) -> (r: bool)
        requires
            old(self).wf(),
        ensures
            final(self).wf(),
            final(self).creds() == old(self).creds(),
            r == (old(self).state_of(node_id@, category) == Some(SubscriptionState::Starting)),
            r ==> final(self).state_of(node_id@, category) == Some(SubscriptionState::Active)
                && others_unchanged(old(self).subs(), final(self).subs(), node_id@, category),
            !r ==> *final(self) == *old(self),
    {
        self.transition(node_id, category, SubscriptionState::Active)
    }

    /// The feed of a Starting subscription failed to open: it becomes
    /// Error, and the caller must explicitly resubscribe — there is no
    /// internal retry.  No other pair moves.
    pub fn feed_open_failed(&mut self, node_id: &String, category: EventType) -> (r: bool)
        requires
            old(self).wf(),
        ensures
            final(self).wf(),
            final(self).creds() == old(self).creds(),
            r == (old(self).state_of(node_id@, category) == Some(SubscriptionState::Starting)),
            r ==> final(self).state_of(node_id@, category) == Some(SubscriptionState::Error)
                && others_unchanged(old(self).subs(), final(self).subs(), node_id@, category),
            !r ==> *final(self) == *old(self),
    {
        self.transition(node_id, category, SubscriptionState::Error)
    }

    /// Starting to a settled state, when the pair is indeed Starting.
    fn transition(&mut self, node_id: &String, category: EventType, to: SubscriptionState) -> (r:
        bool)
        requires
            old(self).wf(),
        ensures
            final(self).wf(),
            final(self).creds() == old(self).creds(),
            r == (old(self).state_of(node_id@, category) == Some(SubscriptionState::Starting)),
            r ==> final(self).state_of(node_id@, category) == Some(to) && others_unchanged(
                old(self).subs(),
                final(self).subs(),
                node_id@,
                category,
            ),
            !r ==> *final(self) == *old(self),
    {
        match self.find_sub(node_id, category) {
            Some(i) => {
                let starting = match self.subscriptions[i].state {
                    SubscriptionState::Starting => true,
                    _ => false,
                };
                proof {
                    assert(self.subs()[i as int] == self.subscriptions@[i as int]@);
                    lemma_sub_at(self.subs(), i as int, node_id@, category);
                }
                if starting {
                    self.set_state(node_id, category, to);
                    true
                } else {
                    false
                }
            },
            None => false,
        }
    }

    /// Cancel the subscription of a pair and remove it.  Returns a
    /// not-found error, changing nothing, when the pair has none; no
    /// other subscription is affected either way.
    pub fn unsubscribe_from_events(&mut self, node_id: &String, category: EventType) -> (r: Result<
        (),
        SupervisorError,
    >)
        requires
            old(self).wf(),
        ensures
            final(self).wf(),
            final(self).creds() == old(self).creds(),
            r is Ok <==> old(self).state_of(node_id@, category) is Some,
            r matches Err(e) ==> e == SupervisorError::NotFound && *final(self) == *old(self),
            r is Ok ==> final(self).state_of(node_id@, category) is None && others_unchanged(
                old(self).subs(),
                final(self).subs(),
                node_id@,
                category,
            ),
    {
        let ghost pre = self.subs();
        match self.find_sub(node_id, category) {
            Some(i) => {
                self.subscriptions.remove(i);
                proof {
                    assert(self.subs() =~= pre.remove(i as int));
                    lemma_sub_remove(pre, i as int, node_id@, category);
                }
                Ok(())
            },
            None => Err(SupervisorError::NotFound),
        }
    }

    /// The categories of this node whose subscriptions are live.
    pub fn get_active_subscriptions(&self, node_id: &String) -> (r: Vec<EventType>)
        requires
            self.wf(),
        ensures
            forall|k: int|
                0 <= k < r@.len() ==> is_live(
                    self.state_of(node_id@, #[trigger] r@[k]),
                ),
            forall|c: EventType|
                is_live(#[trigger] self.state_of(node_id@, c)) ==> r@.contains(c),
    {
        let mut out: Vec<EventType> = Vec::new();
        let n: usize = self.subscriptions.len();
        let mut i: usize = 0;
        while i < n
            invariant
                0 <= i <= n,
                n == self.subscriptions@.len(),
                self.wf(),
                forall|k: int|
                    0 <= k < out@.len() ==> is_live(
                        self.state_of(node_id@, #[trigger] out@[k]),
                    ),
                forall|j: int|
                    0 <= j < i && self.subs()[j].node_id == node_id@ && is_live(
                        Some((#[trigger] self.subs()[j]).state),
                    ) ==> out@.contains(self.subs()[j].category),
            decreases n - i,
        {
            let entry = &self.subscriptions[i];
            let same_node = entry.node_id == *node_id;
            let live = match entry.state {
                SubscriptionState::Starting => true,
                SubscriptionState::Active => true,
                _ => false,
            };
            proof {
                assert(self.subs()[i as int] == entry@);
            }
            if same_node && live {
                let ghost pre_out = out@;
                out.push(entry.category);
                proof {
                    lemma_sub_at(self.subs(), i as int, node_id@, entry.category);
                    assert(out@.contains(self.subs()[i as int].category)) by {
                        assert(out@[pre_out.len() as int] == entry.category);
                    }
                    assert forall|k: int| 0 <= k < out@.len() implies is_live(
                        self.state_of(node_id@, #[trigger] out@[k]),
                    ) by {
                        if k < pre_out.len() {
                            assert(out@[k] == pre_out[k]);
                        }
                    }
                    assert forall|j: int|
                        0 <= j < i + 1 && self.subs()[j].node_id == node_id@ && is_live(
                            Some((#[trigger] self.subs()[j]).state),
                        ) implies out@.contains(self.subs()[j].category) by {
                        if j < i {
                            assert(pre_out.contains(self.subs()[j].category));
                            let k = choose|k: int|
                                0 <= k < pre_out.len() && pre_out[k] == self.subs()[j].category;
                            assert(out@[k] == self.subs()[j].category);
                        }
                    }
                }
            } else {
                proof {
                    if same_node {
                        lemma_sub_at(self.subs(), i as int, node_id@, entry.category);
                    }
                }
            }
            i = i + 1;
        }
        proof {
            assert forall|c: EventType| is_live(
                #[trigger] self.state_of(node_id@, c),
            ) implies out@.contains(c) by {
                assert(has_subscription(self.subs(), node_id@, c));
                let k = choose|k: int|
                    0 <= k < self.subs().len() && sub_matches(#[trigger] self.subs()[k], node_id@, c);
                lemma_sub_at(self.subs(), k, node_id@, c);
            }
        }
        out
    }

    /// Extract cacheable credentials from a connection request.
    pub fn extract_credentials(
        &self,
        connection_request: &ConnectionRequest,
        node_info: &NodeInfo,
    ) -> (r: NodeCredentials)
        ensures
            r@ == spec_extract_credentials(connection_request@, node_info.pubkey@, node_info.alias@),
    {
        match connection_request {
            ConnectionRequest::Lnd(lnd_conn) => NodeCredentials {
                node_id: node_info.pubkey.clone(),
                node_alias: node_info.alias.clone(),
                node_type: "lnd".to_owned(),
                address: lnd_conn.address.clone(),
                macaroon: lnd_conn.macaroon.clone(),
                tls_cert: lnd_conn.cert.clone(),
                client_cert: None,
                client_key: None,
                ca_cert: None,
            },
            ConnectionRequest::Cln(cln_conn) => NodeCredentials {
                node_id: node_info.pubkey.clone(),
                node_alias: node_info.alias.clone(),
                node_type: "cln".to_owned(),
                address: cln_conn.address.clone(),
                macaroon: String::new(),
                tls_cert: String::new(),
                client_cert: Some(cln_conn.client_cert.clone()),
                client_key: Some(cln_conn.client_key.clone()),
                ca_cert: Some(cln_conn.ca_cert.clone()),
            },
        }
    }

    /// Initialize after node authentication: cache the credentials,
    /// then start the Channel, Invoice, and Payment subscriptions
    /// independently — each category's outcome is its own, and one
    /// failure neither blocks nor cancels the other two.
    pub fn initialize_for_node(
        &mut self,
        node_info: &NodeInfo,
        connection_request: &ConnectionRequest,
        user_claims: Option<&Claims>,
    ) -> (r: InitOutcome)
        requires
            old(self).wf(),
        ensures
            final(self).wf(),
            final(self).creds_of(node_info.pubkey@) == Some(
                spec_extract_credentials(connection_request@, node_info.pubkey@, node_info.alias@),
            ),
            r.channels is Ok ==> is_live(final(self).state_of(node_info.pubkey@, EventType::Channel)),
            r.invoices is Ok ==> is_live(final(self).state_of(node_info.pubkey@, EventType::Invoice)),
            r.payments is Ok ==> is_live(final(self).state_of(node_info.pubkey@, EventType::Payment)),
            ({
                let resolvable = spec_resolve(
                    spec_extract_credentials(
                        connection_request@,
                        node_info.pubkey@,
                        node_info.alias@,
                    ),
                ) is Ok;
                &&& r.channels is Ok <==> is_live(
                    old(self).state_of(node_info.pubkey@, EventType::Channel),
                ) || resolvable
                &&& r.invoices is Ok <==> is_live(
                    old(self).state_of(node_info.pubkey@, EventType::Invoice),
                ) || resolvable
                &&& r.payments is Ok <==> is_live(
                    old(self).state_of(node_info.pubkey@, EventType::Payment),
                ) || resolvable
            }),
            forall|n: Seq<char>, c: EventType|
                !(n == node_info.pubkey@ && (c == EventType::Channel || c == EventType::Invoice
                    || c == EventType::Payment)) ==> #[trigger] final(self).state_of(n, c)
                    == old(self).state_of(n, c),
    {
        let node_id = node_info.pubkey.clone();
        let credentials = self.extract_credentials(connection_request, node_info);
        self.store_node_credentials(node_id.clone(), credentials);
        let ghost s0 = self.subs();
        let channels = self.subscribe_to_channel_events(&node_id, user_claims);
        let ghost s1 = self.subs();
        let invoices = self.subscribe_to_invoice_events(&node_id, user_claims);
        let ghost s2 = self.subs();
        let payments = self.subscribe_to_payment_events(&node_id, user_claims);
        proof {
            assert forall|n: Seq<char>, c: EventType|
                !(n == node_info.pubkey@ && (c == EventType::Channel || c == EventType::Invoice
                    || c == EventType::Payment)) implies #[trigger] subscription_state(
                self.subs(),
                n,
                c,
            ) == subscription_state(s0, n, c) by {
                assert(subscription_state(s2, n, c) == subscription_state(s1, n, c));
                assert(subscription_state(s1, n, c) == subscription_state(s0, n, c));
            }
            if channels is Ok {
                assert(is_live(subscription_state(s1, node_id@, EventType::Channel)));
                assert(subscription_state(s2, node_id@, EventType::Channel) == subscription_state(
                    s1,
                    node_id@,
                    EventType::Channel,
                ));
                assert(subscription_state(self.subs(), node_id@, EventType::Channel)
                    == subscription_state(s2, node_id@, EventType::Channel));
            }
            if invoices is Ok {
                assert(is_live(subscription_state(s2, node_id@, EventType::Invoice)));
                assert(subscription_state(self.subs(), node_id@, EventType::Invoice)
                    == subscription_state(s2, node_id@, EventType::Invoice));
            }
            if payments is Ok {
                assert(is_live(subscription_state(self.subs(), node_id@, EventType::Payment)));
            }
        }
        InitOutcome { channels, invoices, payments }
    }

    /// Best-effort cleanup for a node: unsubscribe every known
    /// category, then drop the cached credentials.  Partial failures
    /// (categories that had no subscription) are skipped, never
    /// propagated, and the call always succeeds.
    pub fn cleanup_node_subscriptions(&mut self, node_id: &String) -> (r: Result<
        (),
        SupervisorError,
    >)
        requires
            old(self).wf(),
        ensures
            final(self).wf(),
            r is Ok,
            final(self).state_of(node_id@, EventType::Channel) is None,
            final(self).state_of(node_id@, EventType::Invoice) is None,
            final(self).state_of(node_id@, EventType::Payment) is None,
            final(self).creds_of(node_id@) is None,
            forall|n: Seq<char>, c: EventType|
                !(n == node_id@ && (c == EventType::Channel || c == EventType::Invoice || c
                    == EventType::Payment)) ==> #[trigger] final(self).state_of(n, c) == old(
                    self,
                ).state_of(n, c),
            forall|n: Seq<char>|
                n != node_id@ ==> #[trigger] final(self).creds_of(n) == old(self).creds_of(n),
    {
        let ghost s0 = self.subs();
        let _ = self.unsubscribe_from_events(node_id, EventType::Channel);
        let ghost s1 = self.subs();
        let _ = self.unsubscribe_from_events(node_id, EventType::Invoice);
        let ghost s2 = self.subs();
        let _ = self.unsubscribe_from_events(node_id, EventType::Payment);
        self.drop_credentials(node_id);
        proof {
            assert forall|n: Seq<char>, c: EventType|
                !(n == node_id@ && (c == EventType::Channel || c == EventType::Invoice || c
                    == EventType::Payment)) implies #[trigger] subscription_state(
                self.subs(),
                n,
                c,
            ) == subscription_state(s0, n, c) by {
                assert(subscription_state(self.subs(), n, c) == subscription_state(s2, n, c));
                assert(subscription_state(s2, n, c) == subscription_state(s1, n, c));
                assert(subscription_state(s1, n, c) == subscription_state(s0, n, c));
            }
            assert(subscription_state(self.subs(), node_id@, EventType::Channel)
                == subscription_state(s2, node_id@, EventType::Channel));
            assert(subscription_state(s2, node_id@, EventType::Channel) == subscription_state(
                s1,
                node_id@,
                EventType::Channel,
            ));
            assert(subscription_state(self.subs(), node_id@, EventType::Invoice)
                == subscription_state(s2, node_id@, EventType::Invoice));
        }
        Ok(())
    }

    /// Remove a node's cached credentials, if any.
    fn drop_credentials(&mut self, node_id: &String)
        requires
            old(self).wf(),
        ensures
            final(self).wf(),
            final(self).subs() == old(self).subs(),
            final(self).creds_of(node_id@) is None,
            forall|n: Seq<char>|
                n != node_id@ ==> #[trigger] final(self).creds_of(n) == old(self).creds_of(n),
    {
        let ghost pre = self.creds();
        let n: usize = self.credentials.len();
        let mut i: usize = 0;
        while i < n
            invariant
                0 <= i <= n,
                n == self.credentials@.len(),
                self.creds() == pre,
                old(self).creds() == pre,
                old(self).subs() == self.subs(),
                self.wf(),
                forall|j: int| 0 <= j < i ==> pre[j].0 != node_id@,
            decreases n - i,
        {
            let hit = self.credentials[i].0 == *node_id;
            proof {
                assert(self.creds()[i as int].0 == self.credentials@[i as int].0@);
            }
            if hit {
                self.credentials.remove(i);
                proof {
                    assert(self.creds() =~= pre.remove(i as int));
                    lemma_cred_remove(pre, i as int, node_id@);
                    assert(final(self).subs() =~= old(self).subs());
                }
                return ;
            }
            i = i + 1;
        }
        proof {
            if exists|k: int| 0 <= k < pre.len() && (#[trigger] pre[k]).0 == node_id@ {
                let k = choose|k: int| 0 <= k < pre.len() && (#[trigger] pre[k]).0 == node_id@;
            }
        }
    }
}

/// The per-category outcomes of `initialize_for_node`.
pub struct InitOutcome {
    pub channels: Result<SubscribeAction, SupervisorError>,
    pub invoices: Result<SubscribeAction, SupervisorError>,
    pub payments: Result<SubscribeAction, SupervisorError>,
}

/// The credentials `extract_credentials` builds for each backend.
pub open spec fn spec_extract_credentials(
    conn: ConnectionRequestView,
    pubkey: Seq<char>,
    alias: Seq<char>,
) -> NodeCredentialsView {
    match conn {
        ConnectionRequestView::Lnd { address, macaroon, cert } => NodeCredentialsView {
            node_id: pubkey,
            node_alias: alias,
            node_type: "lnd"@,
            address: address,
            macaroon: macaroon,
            tls_cert: cert,
            client_cert: None,
            client_key: None,
            ca_cert: None,
        },
        ConnectionRequestView::Cln { address, ca_cert, client_cert, client_key } => NodeCredentialsView {
            node_id: pubkey,
            node_alias: alias,
            node_type: "cln"@,
            address: address,
            macaroon: Seq::empty(),
            tls_cert: Seq::empty(),
            client_cert: Some(client_cert),
            client_key: Some(client_key),
            ca_cert: Some(ca_cert),
        },
    }
}

/// An exact copy of cached credentials.
fn clone_credentials(c: &NodeCredentials) -> (r: NodeCredentials)
    ensures
        r@ == c@,
{
    NodeCredentials {
        node_id: c.node_id.clone(),
        node_alias: c.node_alias.clone(),
        node_type: c.node_type.clone(),
        address: c.address.clone(),
        macaroon: c.macaroon.clone(),
        tls_cert: c.tls_cert.clone(),
        client_cert: clone_opt(&c.client_cert),
        client_key: clone_opt(&c.client_key),
        ca_cert: clone_opt(&c.ca_cert),
    }
}

/// An exact copy of an optional string.
fn clone_opt(o: &Option<String>) -> (r: Option<String>)
    ensures
        opt_view(r) == opt_view(*o),
{
    match o {
        Some(s) => Some(s.clone()),
        None => None,
    }
}

/// An optional string's text, or empty.
fn clone_or_empty(o: &Option<String>) -> (r: String)
    ensures
        r@ == or_empty(opt_view(*o)),
{
    match o {
        Some(s) => s.clone(),
        None => String::new(),
    }
}

/// Unsubscribing one pair leaves every other subscription untouched —
/// whether it succeeds or reports that the pair had none.
pub proof fn lemma_unsubscribe_isolated(
    pre: Seq<EventSubscriptionView>,
    post: Seq<EventSubscriptionView>,
    node: Seq<char>,
    category: EventType,
    n: Seq<char>,
    c: EventType,
)
    requires
        others_unchanged(pre, post, node, category),
        !(n == node && c == category),
    ensures
        subscription_state(post, n, c) == subscription_state(pre, n, c),
{
}

/// Failure isolation: three categories started together, then each
/// feed reported its own fate.  The category whose feed failed sits in
/// Error; the other two reach Active regardless of it.
pub proof fn lemma_initialize_failure_isolated(
    s0: Seq<EventSubscriptionView>,
    s1: Seq<EventSubscriptionView>,
    s2: Seq<EventSubscriptionView>,
    s3: Seq<EventSubscriptionView>,
    node: Seq<char>,
)
    requires
        subscription_state(s0, node, EventType::Channel) == Some(SubscriptionState::Starting),
        subscription_state(s0, node, EventType::Invoice) == Some(SubscriptionState::Starting),
        subscription_state(s0, node, EventType::Payment) == Some(SubscriptionState::Starting),
        subscription_state(s1, node, EventType::Channel) == Some(SubscriptionState::Active),
        others_unchanged(s0, s1, node, EventType::Channel),
        subscription_state(s2, node, EventType::Invoice) == Some(SubscriptionState::Error),
        others_unchanged(s1, s2, node, EventType::Invoice),
        subscription_state(s3, node, EventType::Payment) == Some(SubscriptionState::Active),
        others_unchanged(s2, s3, node, EventType::Payment),
    ensures
        subscription_state(s3, node, EventType::Channel) == Some(SubscriptionState::Active),
        subscription_state(s3, node, EventType::Invoice) == Some(SubscriptionState::Error),
        subscription_state(s3, node, EventType::Payment) == Some(SubscriptionState::Active),
{
    assert(subscription_state(s3, node, EventType::Channel) == subscription_state(
        s2,
        node,
        EventType::Channel,
    ));
    assert(subscription_state(s2, node, EventType::Channel) == subscription_state(
        s1,
        node,
        EventType::Channel,
    ));
    assert(subscription_state(s3, node, EventType::Invoice) == subscription_state(
        s2,
        node,
        EventType::Invoice,
    ));
}

} // verus!
