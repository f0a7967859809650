//! Subscription lifecycle: idempotence, isolation, cleanup.

use node_events::events::EventType;
use node_events::supervisor::{
    BackgroundEventService, Claims, ConnectionRequest, LndConnection, NodeCredentials, NodeInfo,
    SubscribeAction, SupervisorError,
};

// The generator point of the curve: a valid compressed public key.
const NODE_KEY: &str = "0279be667ef9dcbbac55a06295ce870b07029bfcdb2dce28d959f2815b16f81798";

fn lnd_credentials(node_id: &str) -> NodeCredentials {
    NodeCredentials {
        node_id: node_id.to_owned(),
        node_alias: "alias-1".to_owned(),
        node_type: "lnd".to_owned(),
        address: "https://localhost:10009".to_owned(),
        macaroon: "SECRET-REDACTED".to_owned(),
        tls_cert: "cert".to_owned(),
        client_cert: None,
        client_key: None,
        ca_cert: None,
    }
}

fn claims() -> Claims {
    Claims { account_id: "acct-1".to_owned(), sub: "user-1".to_owned() }
}

#[test]
fn subscribe_without_credentials_is_refused() {
    let mut supervisor = BackgroundEventService::new();
    let node = NODE_KEY.to_owned();
    let r = supervisor.subscribe_to_channel_events(&node, Some(&claims()));
    assert_eq!(r.unwrap_err(), SupervisorError::MissingCredentials);
}

#[test]
fn subscribe_is_idempotent_per_category() {
    let mut supervisor = BackgroundEventService::new();
    let node = NODE_KEY.to_owned();
    supervisor.store_node_credentials(node.clone(), lnd_credentials(NODE_KEY));

    let first = supervisor.subscribe_to_channel_events(&node, Some(&claims())).unwrap();
    match first {
        SubscribeAction::Start { connection, handler } => {
            match connection {
                ConnectionRequest::Lnd(c) => {
                    assert_eq!(c.address, "https://localhost:10009");
                    assert_eq!(c.macaroon, "SECRET-REDACTED");
                },
                _ => panic!("wrong backend"),
            }
            assert_eq!(handler.account_id, Some("acct-1".to_owned()));
            assert_eq!(handler.user_id, Some("user-1".to_owned()));
            assert_eq!(handler.node_alias, Some("alias-1".to_owned()));
        },
        SubscribeAction::AlreadyActive => panic!("nothing was live yet"),
    }

    // A second subscribe for the pair starts no new task.
    let second = supervisor.subscribe_to_channel_events(&node, Some(&claims())).unwrap();
    assert!(matches!(second, SubscribeAction::AlreadyActive));

    // A different category still starts on its own.
    let invoices = supervisor.subscribe_to_invoice_events(&node, Some(&claims())).unwrap();
    assert!(matches!(invoices, SubscribeAction::Start { .. }));
}

#[test]
fn bad_credentials_are_reported_precisely() {
    let mut supervisor = BackgroundEventService::new();
    let node = "not-a-key".to_owned();
    let mut creds = lnd_credentials("not-a-key");
    supervisor.store_node_credentials(node.clone(), creds.clone());
    let r = supervisor.subscribe_to_payment_events(&node, None);
    assert_eq!(r.unwrap_err(), SupervisorError::InvalidPubkey);

    let node2 = NODE_KEY.to_owned();
    creds.node_id = NODE_KEY.to_owned();
    creds.node_type = "eclair".to_owned();
    supervisor.store_node_credentials(node2.clone(), creds);
    let r = supervisor.subscribe_to_payment_events(&node2, None);
    assert_eq!(r.unwrap_err(), SupervisorError::UnsupportedNodeType);
}

#[test]
fn unsubscribe_missing_pair_is_not_found_and_harmless() {
    let mut supervisor = BackgroundEventService::new();
    let node = NODE_KEY.to_owned();
    supervisor.store_node_credentials(node.clone(), lnd_credentials(NODE_KEY));
    supervisor.subscribe_to_channel_events(&node, Some(&claims())).unwrap();

    // No invoice subscription exists: a not-found error, and the
    // channel subscription is untouched.
    let r = supervisor.unsubscribe_from_events(&node, EventType::Invoice);
    assert_eq!(r.unwrap_err(), SupervisorError::NotFound);
    let active = supervisor.get_active_subscriptions(&node);
    assert_eq!(active, vec![EventType::Channel]);

    let r = supervisor.unsubscribe_from_events(&node, EventType::Channel);
    assert!(r.is_ok());
    assert!(supervisor.get_active_subscriptions(&node).is_empty());
}

#[test]
fn scenario_invoice_feed_failure_leaves_others_active() {
    // initializeForNode starts all three categories; the invoice feed
    // fails to open immediately; channels and payments still reach
    // Active.
    let mut supervisor = BackgroundEventService::new();
    let node_info = NodeInfo { pubkey: NODE_KEY.to_owned(), alias: "lnd-1".to_owned() };
    let request = ConnectionRequest::Lnd(LndConnection {
        address: "https://localhost:10009".to_owned(),
        macaroon: "SECRET-REDACTED".to_owned(),
        cert: "cert".to_owned(),
    });
    let user_claims = claims();
    let outcome = supervisor.initialize_for_node(&node_info, &request, Some(&user_claims));
    assert!(outcome.channels.is_ok());
    assert!(outcome.invoices.is_ok());
    assert!(outcome.payments.is_ok());

    let node = NODE_KEY.to_owned();
    assert!(supervisor.feed_opened(&node, EventType::Channel));
    assert!(supervisor.feed_open_failed(&node, EventType::Invoice));
    assert!(supervisor.feed_opened(&node, EventType::Payment));

    let active = supervisor.get_active_subscriptions(&node);
    assert!(active.contains(&EventType::Channel));
    assert!(active.contains(&EventType::Payment));
    assert!(!active.contains(&EventType::Invoice));
    assert_eq!(active.len(), 2);
}

#[test]
fn cleanup_unsubscribes_everything_and_drops_credentials() {
    let mut supervisor = BackgroundEventService::new();
    let node = NODE_KEY.to_owned();
    supervisor.store_node_credentials(node.clone(), lnd_credentials(NODE_KEY));
    supervisor.subscribe_to_channel_events(&node, None).unwrap();
    supervisor.subscribe_to_invoice_events(&node, None).unwrap();

    // Cleanup succeeds even though payments were never subscribed.
    assert!(supervisor.cleanup_node_subscriptions(&node).is_ok());
    assert!(supervisor.get_active_subscriptions(&node).is_empty());
    // Credentials are gone: a new subscribe is refused.
    let r = supervisor.subscribe_to_channel_events(&node, None);
    assert_eq!(r.unwrap_err(), SupervisorError::MissingCredentials);
}

#[test]
fn extract_credentials_per_backend() {
    let supervisor = BackgroundEventService::new();
    let node_info = NodeInfo { pubkey: NODE_KEY.to_owned(), alias: "lnd-1".to_owned() };
    let lnd = ConnectionRequest::Lnd(LndConnection {
        address: "https://a".to_owned(),
        macaroon: "m".to_owned(),
        cert: "c".to_owned(),
    });
    let creds = supervisor.extract_credentials(&lnd, &node_info);
    assert_eq!(creds.node_id, NODE_KEY);
    assert_eq!(creds.node_alias, "lnd-1");
    assert_eq!(creds.node_type, "lnd");
    assert_eq!(creds.address, "https://a");
    assert_eq!(creds.macaroon, "m");
    assert_eq!(creds.tls_cert, "c");
    assert!(creds.ca_cert.is_none());

    let cln = ConnectionRequest::Cln(node_events::supervisor::ClnConnection {
        address: "https://b".to_owned(),
        ca_cert: "ca".to_owned(),
        client_cert: "cc".to_owned(),
        client_key: "ck".to_owned(),
    });
    let creds = supervisor.extract_credentials(&cln, &node_info);
    assert_eq!(creds.node_type, "cln");
    assert_eq!(creds.macaroon, "");
    assert_eq!(creds.ca_cert, Some("ca".to_owned()));
    assert_eq!(creds.client_cert, Some("cc".to_owned()));
    assert_eq!(creds.client_key, Some("ck".to_owned()));
}
