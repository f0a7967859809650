//! Outbound notification endpoints: validation and access rules.
//!
//! Endpoints are configured per account; every operation checks the
//! endpoint belongs to the caller's account, and endpoint URLs must fit
//! the endpoint's type before anything is stored.

use vstd::prelude::*;
use vstd::string::StringExecFns;
use vstd::utf8::encode_utf8;

use crate::errors::ServiceError;

verus! {

/// The kinds of outbound endpoints.
#[derive(Debug, Clone, Copy, PartialEq, Eq, Structural)]
pub enum NotificationType {
    /// A chat webhook; its URL must point at the chat service's
    /// webhook API.
    Discord,
    /// A plain HTTP webhook.
    Webhook,
}

/// A configured outbound endpoint.
#[derive(Debug, Clone)]
pub struct Notification {
    pub id: String,
    pub account_id: String,
    pub user_id: String,
    pub name: String,
    pub notification_type: NotificationType,
    pub url: String,
    pub is_active: bool,
}

/// A request to create an endpoint.
#[derive(Debug, Clone)]
pub struct CreateNotificationRequest {
    pub name: String,
    pub notification_type: NotificationType,
    pub url: String,
}

/// A request to change an endpoint; absent fields stay as they are.
#[derive(Debug, Clone)]
pub struct UpdateNotificationRequest {
    pub name: Option<String>,
    pub url: Option<String>,
    pub is_active: Option<bool>,
}

/// A validated endpoint, ready to persist.
#[derive(Debug, Clone)]
pub struct CreateNotification {
    pub id: String,
    pub account_id: String,
    pub user_id: String,
    pub name: String,
    pub notification_type: NotificationType,
    pub url: String,
}

/// The caller a request runs for.
#[derive(Debug, Clone)]
pub struct User {
    pub id: String,
    pub account_id: String,
}

/// The UTF-8 bytes of "discord.com/api/webhooks/", the path every
/// chat-webhook URL must contain.
pub open spec fn webhook_marker() -> Seq<u8> {
    seq![
        100u8, 105u8, 115u8, 99u8, 111u8, 114u8, 100u8, 46u8, 99u8, 111u8, 109u8, 47u8, 97u8,
        112u8, 105u8, 47u8, 119u8, 101u8, 98u8, 104u8, 111u8, 111u8, 107u8, 115u8, 47u8,
    ]
}

/// Whether `needle` sits at position `i` of `haystack`.
pub open spec fn bytes_at(haystack: Seq<u8>, needle: Seq<u8>, i: int) -> bool {
    haystack.subrange(i, i + needle.len()) == needle
}

/// Whether the marker occurs anywhere in the bytes.
pub open spec fn contains_marker(b: Seq<u8>) -> bool {
    exists|i: int|
        0 <= i <= b.len() - webhook_marker().len() && #[trigger] bytes_at(b, webhook_marker(), i)
}

/// Whether a URL is acceptable for an endpoint type: a chat webhook
/// must contain the webhook marker in its UTF-8 form; a plain webhook
/// is accepted as given (its shape was checked by request validation).
pub open spec fn spec_url_ok(url: Seq<char>, notification_type: NotificationType) -> bool {
    match notification_type {
        NotificationType::Discord => contains_marker(encode_utf8(url)),
        NotificationType::Webhook => true,
    }
}

/// Whether `needle` occurs as a contiguous run inside `haystack`.
fn contains_bytes(haystack: &[u8], needle: &Vec<u8>) -> (r: bool)
    requires
        needle@.len() >= 1,
    ensures
        r == exists|i: int|
            0 <= i <= haystack@.len() - needle@.len() && #[trigger] bytes_at(
                haystack@,
                needle@,
                i,
            ),
{
    let m: usize = needle.len();
    let n: usize = haystack.len();
    if m > n {
        return false;
    }
    let mut i: usize = 0;
    while i <= n - m
        invariant
            0 <= i <= n - m + 1,
            m == needle@.len(),
            n == haystack@.len(),
            m <= n,
            forall|k: int| 0 <= k < i ==> !bytes_at(haystack@, needle@, k),
        decreases n - i,
    {
        let mut j: usize = 0;
        let mut matches = true;
        while j < m
            invariant
                0 <= j <= m,
                i + m <= n,
                m == needle@.len(),
                n == haystack@.len(),
                matches == (forall|t: int| 0 <= t < j ==> haystack@[i + t] == needle@[t]),
            decreases m - j,
        {
            if haystack[i + j] != needle[j] {
                matches = false;
                proof {
                    assert(!(forall|t: int| 0 <= t < j + 1 ==> haystack@[i + t] == needle@[t]))
                        by {
                        assert(haystack@[i + j] != needle@[j as int]);
                    }
                }
                j = m;
            } else {
                proof {
                    if forall|t: int| 0 <= t < j ==> haystack@[i + t] == needle@[t] {
                        assert forall|t: int| 0 <= t < j + 1 implies haystack@[i + t]
                            == needle@[t] by {
                            if t == j {
                                assert(haystack@[i + j] == needle@[j as int]);
                            }
                        }
                    }
                }
                j = j + 1;
            }
        }
        if matches {
            proof {
                assert(haystack@.subrange(i as int, i + m) =~= needle@);
                assert(bytes_at(haystack@, needle@, i as int));
            }
            return true;
        }
        proof {
            if bytes_at(haystack@, needle@, i as int) {
                assert forall|t: int| 0 <= t < m implies haystack@[i + t] == needle@[t] by {
                    assert(needle@[t] == haystack@.subrange(i as int, i + m)[t]);
                }
                assert(false);
            }
        }
        i = i + 1;
    }
    false
}

/// Service layer for endpoint configuration.
pub struct NotificationService {
}

impl NotificationService {
    /// Creates a new NotificationService instance; storage lives with
    /// the caller.
    pub fn new() -> (r: Self) {
        NotificationService {  }
    }

    /// Validates a URL for an endpoint type: rejected exactly when a
    /// chat-webhook URL lacks the webhook marker.
    pub fn validate_url(&self, url: &String, notification_type: &NotificationType) -> (r: Result<
        (),
        ServiceError,
    >)
        ensures
            r is Ok <==> spec_url_ok(url@, *notification_type),
            r matches Err(e) ==> e matches ServiceError::Validation { message } && message@
                == "Discord URLs must be valid Discord webhook URLs"@,
    {
        match notification_type {
            NotificationType::Discord => {
                let needle: Vec<u8> = vec![
                    100u8, 105u8, 115u8, 99u8, 111u8, 114u8, 100u8, 46u8, 99u8, 111u8, 109u8,
                    47u8, 97u8, 112u8, 105u8, 47u8, 119u8, 101u8, 98u8, 104u8, 111u8, 111u8,
                    107u8, 115u8, 47u8,
                ];
                proof {
                    assert(needle@ =~= webhook_marker());
                }
                if contains_bytes(url.as_str().as_bytes(), &needle) {
                    Ok(())
                } else {
                    Err(
                        ServiceError::validation(
                            "Discord URLs must be valid Discord webhook URLs".to_owned(),
                        ),
                    )
                }
            },
            NotificationType::Webhook => Ok(()),
        }
    }

    /// Builds the endpoint a create request describes, under a fresh
    /// id and the caller's account: accepted exactly when the URL fits
    /// the endpoint type.
    pub fn create_notification(&self, create_request: CreateNotificationRequest, user: &User)
        -> (r: Result<CreateNotification, ServiceError>)
        ensures
            r is Ok <==> spec_url_ok(create_request.url@, create_request.notification_type),
            r matches Ok(n) ==> {
                &&& n.id@.len() == 36
                &&& n.account_id@ == user.account_id@
                &&& n.user_id@ == user.id@
                &&& n.name == create_request.name
                &&& n.notification_type == create_request.notification_type
                &&& n.url == create_request.url
            },
    {
        match self.validate_url(&create_request.url, &create_request.notification_type) {
            Ok(_) => {
            },
            Err(e) => {
                return Err(e);
            },
        }
        let CreateNotificationRequest { name, notification_type, url } = create_request;
        Ok(
            CreateNotification {
                id: crate::service::fresh_uuid(),
                account_id: user.account_id.clone(),
                user_id: user.id.clone(),
                name,
                notification_type,
                url,
            },
        )
    }

    /// The account check every read passes through: an endpoint that
    /// does not exist, or belongs to another account, is reported as
    /// not found — never as belonging to someone else.
    pub fn get_notification_required(
        &self,
        fetched: Option<Notification>,
        id: &String,
        account_id: &String,
    ) -> (r: Result<Notification, ServiceError>)
        ensures
            r is Ok <==> (fetched matches Some(n) && n.account_id@ == account_id@),
            r matches Ok(n) ==> fetched == Some(n),
            r matches Err(e) ==> e matches ServiceError::NotFound { entity, identifier }
                && entity@ == "Notification"@ && identifier@ == id@,
    {
        match fetched {
            Some(n) => {
                if n.account_id == *account_id {
                    Ok(n)
                } else {
                    Err(ServiceError::not_found("Notification".to_owned(), id.clone()))
                }
            },
            None => Err(ServiceError::not_found("Notification".to_owned(), id.clone())),
        }
    }

    /// Validates a change against the stored endpoint: a new URL must
    /// fit the endpoint's existing type; absent fields change nothing
    /// and need no checks.
    pub fn check_update(&self, existing: &Notification, update_request: &UpdateNotificationRequest)
        -> (r: Result<(), ServiceError>)
        ensures
            r is Ok <==> match update_request.url {
                Some(ref url) => spec_url_ok(url@, existing.notification_type),
                None => true,
            },
    {
        match &update_request.url {
            Some(url) => self.validate_url(url, &existing.notification_type),
            None => Ok(()),
        }
    }
}

/// Maps a dispatcher test outcome to the service's result: a delivery
/// report passes through; a dispatcher error becomes a validation
/// error that names the failure.
pub fn map_test_result(outcome: Result<bool, String>) -> (r: Result<bool, ServiceError>)
    ensures
        r is Ok <==> outcome is Ok,
        r matches Ok(b) ==> outcome == Ok::<bool, String>(b),
        r matches Err(e) ==> e matches ServiceError::Validation { message } && message@
            == "Test failed: "@ + outcome->Err_0@,
{
    match outcome {
        Ok(b) => Ok(b),
        Err(m) => {
            let mut message = "Test failed: ".to_owned();
            message.append(m.as_str());
            Err(ServiceError::validation(message))
        },
    }
}

} // verus!
