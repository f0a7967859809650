//! Error mapping, endpoint validation, and price conversion.

use node_events::api::{validation_error_response, validation_errors_to_field_errors};
use node_events::errors::{service_error_to_http, ServiceError};
use node_events::notify::{
    map_test_result, CreateNotificationRequest, Notification, NotificationService,
    NotificationType, UpdateNotificationRequest, User,
};
use node_events::price::{fallback_price, price_cache_action, sats_to_usd_with_price, PriceCache, PriceStep};

#[test]
fn every_error_variant_maps_to_its_response() {
    let r = service_error_to_http(ServiceError::Validation { message: "bad".to_owned() });
    assert_eq!((r.status, r.error_type.as_str(), r.message.as_str()), (400, "validation_error", "bad"));

    let r = service_error_to_http(ServiceError::NotFound {
        entity: "Notification".to_owned(),
        identifier: "abc".to_owned(),
    });
    assert_eq!(r.status, 404);
    assert_eq!(r.error_type, "not_found");
    assert_eq!(r.message, "Notification 'abc' not found");

    let r = service_error_to_http(ServiceError::AlreadyExists {
        entity: "Account".to_owned(),
        identifier: "a1".to_owned(),
    });
    assert_eq!(r.status, 409);
    assert_eq!(r.message, "Account 'a1' already exists");

    let r = service_error_to_http(ServiceError::PermissionDenied { message: "no".to_owned() });
    assert_eq!((r.status, r.error_type.as_str()), (403, "permission_denied"));

    let r = service_error_to_http(ServiceError::InvalidOperation { message: "nope".to_owned() });
    assert_eq!((r.status, r.error_type.as_str()), (400, "invalid_operation"));

    // Storage details are masked.
    let r = service_error_to_http(ServiceError::Database { message: "secret detail".to_owned() });
    assert_eq!((r.status, r.error_type.as_str(), r.message.as_str()), (500, "database_error", "Internal server error"));

    let r = service_error_to_http(ServiceError::ExternalService { message: "down".to_owned() });
    assert_eq!((r.status, r.error_type.as_str()), (502, "external_service_error"));
}

#[test]
fn field_errors_keep_order_and_default_message() {
    let issues = vec![
        ("name".to_owned(), Some("too long".to_owned())),
        ("url".to_owned(), None),
    ];
    let errors = validation_errors_to_field_errors(issues);
    assert_eq!(errors.len(), 2);
    assert_eq!(errors[0].field, "name");
    assert_eq!(errors[0].message, "too long");
    assert_eq!(errors[1].field, "url");
    assert_eq!(errors[1].message, "Invalid value");

    let (status, response) = validation_error_response(vec![("x".to_owned(), None)]);
    assert_eq!(status, 400);
    assert!(!response.success);
    assert_eq!(response.message, "Validation failed");
    assert_eq!(response.error.as_ref().unwrap().error_type, "validation_error");
    assert_eq!(response.error.as_ref().unwrap().details.as_ref().unwrap().len(), 1);
}

#[test]
fn discord_urls_must_point_at_the_webhook_api() {
    let service = NotificationService::new();
    let good = "https://discord.com/api/webhooks/123/token".to_owned();
    let bad = "https://example.com/hook".to_owned();
    assert!(service.validate_url(&good, &NotificationType::Discord).is_ok());
    let err = service.validate_url(&bad, &NotificationType::Discord).unwrap_err();
    assert_eq!(
        err,
        ServiceError::Validation {
            message: "Discord URLs must be valid Discord webhook URLs".to_owned()
        }
    );
    // Plain webhooks take any URL that passed request validation.
    assert!(service.validate_url(&bad, &NotificationType::Webhook).is_ok());
}

#[test]
fn create_notification_validates_and_fills_context() {
    let service = NotificationService::new();
    let user = User { id: "user-3".to_owned(), account_id: "acct-3".to_owned() };
    let ok = service
        .create_notification(
            CreateNotificationRequest {
                name: "ops".to_owned(),
                notification_type: NotificationType::Discord,
                url: "https://discord.com/api/webhooks/1/t".to_owned(),
            },
            &user,
        )
        .unwrap();
    assert_eq!(ok.id.len(), 36);
    assert_eq!(ok.account_id, "acct-3");
    assert_eq!(ok.user_id, "user-3");
    assert_eq!(ok.name, "ops");

    let rejected = service.create_notification(
        CreateNotificationRequest {
            name: "ops".to_owned(),
            notification_type: NotificationType::Discord,
            url: "https://example.com".to_owned(),
        },
        &user,
    );
    assert!(rejected.is_err());
}

fn sample_notification(account: &str) -> Notification {
    Notification {
        id: "n-1".to_owned(),
        account_id: account.to_owned(),
        user_id: "user-1".to_owned(),
        name: "ops".to_owned(),
        notification_type: NotificationType::Discord,
        url: "https://discord.com/api/webhooks/1/t".to_owned(),
        is_active: true,
    }
}

#[test]
fn foreign_and_missing_endpoints_read_as_not_found() {
    let service = NotificationService::new();
    let id = "n-1".to_owned();
    let mine = "acct-1".to_owned();

    let missing = service.get_notification_required(None, &id, &mine);
    assert_eq!(
        missing.unwrap_err(),
        ServiceError::NotFound { entity: "Notification".to_owned(), identifier: "n-1".to_owned() }
    );

    let foreign = service.get_notification_required(Some(sample_notification("acct-2")), &id, &mine);
    assert!(foreign.is_err());

    let own = service.get_notification_required(Some(sample_notification("acct-1")), &id, &mine);
    assert_eq!(own.unwrap().account_id, "acct-1");
}

#[test]
fn updates_check_the_new_url_against_the_stored_type() {
    let service = NotificationService::new();
    let existing = sample_notification("acct-1");
    let no_url = UpdateNotificationRequest { name: Some("x".to_owned()), url: None, is_active: None };
    assert!(service.check_update(&existing, &no_url).is_ok());
    let bad_url = UpdateNotificationRequest {
        name: None,
        url: Some("https://example.com".to_owned()),
        is_active: Some(false),
    };
    assert!(service.check_update(&existing, &bad_url).is_err());
    let good_url = UpdateNotificationRequest {
        name: None,
        url: Some("https://discord.com/api/webhooks/2/u".to_owned()),
        is_active: None,
    };
    assert!(service.check_update(&existing, &good_url).is_ok());
}

#[test]
fn dispatcher_test_outcomes_map_to_service_results() {
    assert_eq!(map_test_result(Ok(true)).unwrap(), true);
    assert_eq!(map_test_result(Ok(false)).unwrap(), false);
    let err = map_test_result(Err("connection refused".to_owned())).unwrap_err();
    assert_eq!(
        err,
        ServiceError::Validation { message: "Test failed: connection refused".to_owned() }
    );
}

#[test]
fn sats_convert_to_whole_cents_with_rounding() {
    // One whole coin at $95,432.10 is exactly that many cents.
    assert_eq!(sats_to_usd_with_price(100_000_000, 9_543_210), 9_543_210);
    // 1234 sats at a rate of $100,000.00: round(123.4) cents.
    assert_eq!(sats_to_usd_with_price(1234, 10_000_000), 123);
    // Halves round away from zero: 1 sat at $1,500,000.00 is 1.5 cents.
    assert_eq!(sats_to_usd_with_price(1, 150_000_000), 2);
    assert_eq!(sats_to_usd_with_price(0, 9_543_210), 0);
}

#[test]
fn price_cache_is_used_only_while_fresh() {
    let cache = Some(PriceCache { price_cents: 9_543_210, last_updated: 1_000_000 });
    assert_eq!(price_cache_action(&cache, 1_000_299), PriceStep::UseCached(9_543_210));
    assert_eq!(price_cache_action(&cache, 1_000_300), PriceStep::Refresh);
    // A clock that ran backwards refreshes.
    assert_eq!(price_cache_action(&cache, 999_999), PriceStep::Refresh);
    assert_eq!(price_cache_action(&None, 1_000_000), PriceStep::Refresh);

    // A failed refresh falls back to the stale cache.
    assert_eq!(fallback_price(&cache).unwrap(), 9_543_210);
    assert!(fallback_price(&None).is_err());
}
