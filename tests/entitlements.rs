use qrgate::errors::{ApiError, GateError};
use qrgate::gate::{
    apply_acknowledged_update, authorize, checkout_customer, checkout_price_key, create_qrcodes,
    create_user, delete_qrcodes, has_scope, read_qrcodes, record_checkout, scan,
    subscription_for_change, update_qrcodes, Scope,
};
use qrgate::models::{
    DynamicQr, PaymentSession, SubscriptionAction, SubscriptionState, SubscriptionTier, User,
    UserSubscription,
};
use qrgate::store::Database;
use qrgate::token::Claims;
use qrgate::webhook::{reconcile, WebhookEvent, WebhookOutcome};

const ALL: [&str; 3] = ["read:qrcodes", "write:qrcodes", "delete:qrcodes"];

fn claims(sub: &str) -> Claims {
    Claims {
        sub: sub.to_string(),
        exp: 4_000_000_000,
        permissions: ALL.iter().map(|p| p.to_string()).collect(),
    }
}

fn user(id: &str) -> User {
    User { id: id.to_string(), username: format!("{id}-name"), email: format!("{id}@example.com") }
}

fn checkout(db: &mut Database, acct: &str, tier: &str, session: &str, sub: &str) {
    db.insert_user(user(acct), 1);
    db.insert_session(
        acct,
        PaymentSession { session_id: session.to_string(), tier: tier.to_string() },
    )
    .unwrap();
    let out = reconcile(
        db,
        WebhookEvent::CheckoutCompleted {
            session_id: session.to_string(),
            subscription_id: sub.to_string(),
        },
        2,
    )
    .unwrap();
    assert!(matches!(out, WebhookOutcome::Subscribed(_)));
}

fn account_at(tier: &str, usage: u32) -> Database {
    let mut db = Database::new();
    checkout(&mut db, "acct_123", tier, "cs_1", "sub_1");
    for _ in 0..usage {
        db.increment_usage("acct_123").unwrap();
    }
    db
}

fn qr(target: &str) -> DynamicQr {
    DynamicQr { target_url: target.to_string() }
}

#[test]
fn lite_at_ceiling_is_refused_and_below_is_allowed() {
    let mut full = account_at("Lite", 5);
    assert_eq!(full.check_and_reserve("acct_123", 3).err(), Some(GateError::QuotaExceeded));
    assert_eq!(full.get_subscription("acct_123").unwrap().usage, 5);

    let mut almost = account_at("Lite", 4);
    let s = almost.check_and_reserve("acct_123", 3).unwrap();
    assert_eq!(s.usage, 5);
    assert_eq!(almost.get_subscription("acct_123").unwrap().usage, 5);
}

#[test]
fn sequential_reserves_stop_at_the_ceiling() {
    for n in 0..9u32 {
        let mut db = account_at("Lite", 0);
        let mut allowed = 0u32;
        for _ in 0..n {
            if db.check_and_reserve("acct_123", 3).is_ok() {
                allowed += 1;
            }
        }
        assert_eq!(allowed, n.min(5));
        assert_eq!(db.get_subscription("acct_123").unwrap().usage, n.min(5));
    }
}

#[test]
fn deleting_another_accounts_resource_is_not_found() {
    let mut db = Database::new();
    checkout(&mut db, "acct_123", "Pro", "cs_1", "sub_1");
    checkout(&mut db, "acct_456", "Pro", "cs_2", "sub_2");
    create_qrcodes(
        &mut db,
        &claims("acct_456"),
        "acct_456",
        qr("example.com"),
        "r1".to_string(),
        "short1".to_string(),
        3,
    )
    .unwrap();
    let r = delete_qrcodes(&mut db, &claims("acct_123"), "acct_123", "short1");
    assert_eq!(r, Err(GateError::NotFound));
    assert_eq!(ApiError::from_gate(GateError::NotFound), ApiError::NotFound);
    assert_eq!(db.list_user_urls("acct_456").len(), 1);
    assert_eq!(db.get_subscription("acct_456").unwrap().usage, 1);
}

#[test]
fn pro_account_reaches_its_ceiling_end_to_end() {
    let mut db = account_at("Pro", 24);
    let c = claims("acct_123");
    let made = create_qrcodes(
        &mut db,
        &c,
        "acct_123",
        qr("https://example.com"),
        "r25".to_string(),
        "s25".to_string(),
        5,
    )
    .unwrap();
    assert_eq!(made.owner, "acct_123");
    assert_eq!(db.get_subscription("acct_123").unwrap().usage, 25);
    let next = create_qrcodes(
        &mut db,
        &c,
        "acct_123",
        qr("https://example.org"),
        "r26".to_string(),
        "s26".to_string(),
        6,
    );
    assert_eq!(next.err(), Some(GateError::QuotaExceeded));
    assert_eq!(db.list_user_urls("acct_123").len(), 1);
}

#[test]
fn checkout_replay_is_a_no_op() {
    let mut db = Database::new();
    checkout(&mut db, "acct_123", "Lite", "cs_1", "sub_1");
    let again = reconcile(
        &mut db,
        WebhookEvent::CheckoutCompleted {
            session_id: "cs_1".to_string(),
            subscription_id: "sub_1".to_string(),
        },
        9,
    );
    assert!(matches!(again, Ok(WebhookOutcome::AlreadyApplied)));
    let s = db.get_subscription("acct_123").unwrap();
    assert_eq!(s.subscription_status, SubscriptionState::Active);
    assert_eq!(s.start_date, 2);
    assert_eq!(s.subscription_id, "sub_1");
}

#[test]
fn deleted_subscription_is_not_resurrected() {
    let mut db = Database::new();
    checkout(&mut db, "acct_123", "Lite", "cs_1", "sub_1");
    let del = || WebhookEvent::SubscriptionDeleted { subscription_id: "sub_1".to_string() };
    assert!(matches!(reconcile(&mut db, del(), 3), Ok(WebhookOutcome::Terminated)));
    assert!(matches!(reconcile(&mut db, del(), 4), Ok(WebhookOutcome::AlreadyApplied)));
    let late = reconcile(
        &mut db,
        WebhookEvent::CheckoutCompleted {
            session_id: "cs_1".to_string(),
            subscription_id: "sub_1".to_string(),
        },
        5,
    );
    assert!(matches!(late, Ok(WebhookOutcome::Stale)));
    assert!(db.get_subscription("acct_123").is_none());
    assert!(db.is_terminated("sub_1"));
    assert_eq!(
        db.transition_subscription("sub_1", SubscriptionState::Active, 9).err(),
        Some(GateError::Conflict)
    );
}

#[test]
fn termination_removes_the_accounts_resources() {
    let mut db = account_at("Pro", 0);
    create_qrcodes(
        &mut db,
        &claims("acct_123"),
        "acct_123",
        qr("a.example"),
        "r1".to_string(),
        "s1".to_string(),
        3,
    )
    .unwrap();
    assert!(db.delete_user_data("acct_123"));
    assert!(db.list_user_urls("acct_123").is_empty());
    assert!(db.get_subscription("acct_123").is_none());
    assert!(db.select_user("acct_123").is_some());
}

#[test]
fn unresolved_checkout_is_rejected_and_other_events_acknowledged() {
    let mut db = Database::new();
    let r = reconcile(
        &mut db,
        WebhookEvent::CheckoutCompleted {
            session_id: "missing".to_string(),
            subscription_id: "sub_9".to_string(),
        },
        1,
    );
    assert!(matches!(r, Err(GateError::NotFound)));
    let other = reconcile(&mut db, WebhookEvent::Other { kind: "invoice.paid".to_string() }, 1);
    assert!(matches!(other, Ok(WebhookOutcome::Acknowledged)));
    let unknown = reconcile(
        &mut db,
        WebhookEvent::SubscriptionDeleted { subscription_id: "sub_9".to_string() },
        1,
    );
    assert!(matches!(unknown, Err(GateError::NotFound)));
}

#[test]
fn second_subscription_for_an_account_conflicts() {
    let mut db = account_at("Lite", 0);
    let r = db.create_subscription("acct_123".to_string(), "sub_2".to_string(), SubscriptionTier::Pro, 3);
    assert_eq!(r.err(), Some(GateError::Conflict));
    let bad = db.insert_subscription(
        "acct_123",
        UserSubscription { sub_id: "sub_3".to_string(), tier: "Gold".to_string(), status: "complete".to_string() },
        3,
    );
    assert_eq!(bad.err(), Some(GateError::BadRequest));
    let nobody = db.create_subscription("ghost".to_string(), "sub_4".to_string(), SubscriptionTier::Pro, 3);
    assert_eq!(nobody.err(), Some(GateError::NotFound));
}

#[test]
fn cancel_and_resume_after_acknowledgement() {
    let mut db = account_at("Pro", 3);
    let c = apply_acknowledged_update(&mut db, "acct_123", SubscriptionAction::Cancel, 100).unwrap().unwrap();
    assert_eq!(c.subscription_status, SubscriptionState::Cancelling);
    assert_eq!(c.end_date, 100);
    assert!(db.validate_subscription_status("acct_123", 99));
    assert!(!db.validate_subscription_status("acct_123", 100));
    let r = apply_acknowledged_update(&mut db, "acct_123", SubscriptionAction::Resume, 200).unwrap().unwrap();
    assert_eq!(r.subscription_status, SubscriptionState::Active);
    assert!(db.validate_subscription_status("acct_123", 500));
    let up = apply_acknowledged_update(&mut db, "acct_123", SubscriptionAction::Upgrade, 300);
    assert_eq!(up.err(), Some(GateError::BadRequest));
    let down = apply_acknowledged_update(&mut db, "acct_123", SubscriptionAction::Downgrade, 300);
    assert_eq!(down.err(), Some(GateError::BadRequest));
    let s = db.get_subscription("acct_123").unwrap();
    assert_eq!(s.tier, SubscriptionTier::Pro);
    assert_eq!(s.end_date, 200);
}

#[test]
fn downgrade_below_usage_conflicts() {
    let mut db = account_at("Pro", 7);
    let r = db.override_subscription("acct_123", "sub_1", "Lite", 3);
    assert_eq!(r.err(), Some(GateError::Conflict));
    assert_eq!(db.get_subscription("acct_123").unwrap().tier, SubscriptionTier::Pro);
}

#[test]
fn decrement_clamps_at_zero() {
    let mut db = account_at("Lite", 1);
    assert_eq!(db.decrement_usage("acct_123").unwrap().usage, 0);
    assert_eq!(db.decrement_usage("acct_123").unwrap().usage, 0);
    assert_eq!(db.decrement_usage("nobody").err(), Some(GateError::NotFound));
}

#[test]
fn no_subscription_means_no_gated_create() {
    let mut db = Database::new();
    db.insert_user(user("acct_123"), 1);
    let r = create_qrcodes(
        &mut db,
        &claims("acct_123"),
        "acct_123",
        qr("x"),
        "r".to_string(),
        "s".to_string(),
        1,
    );
    assert_eq!(r.err(), Some(GateError::NoActiveSubscription));
    let read = read_qrcodes(&db, &claims("acct_123"), "acct_123", 1);
    assert_eq!(read.err(), Some(GateError::NoActiveSubscription));
}

#[test]
fn identity_and_scope_are_checked_first() {
    let mut db = account_at("Pro", 0);
    let r = create_qrcodes(
        &mut db,
        &claims("acct_456"),
        "acct_123",
        qr("x"),
        "r".to_string(),
        "s".to_string(),
        1,
    );
    assert_eq!(r.err(), Some(GateError::OwnerMismatch));
    let read_only = Claims { sub: "acct_123".to_string(), exp: 1, permissions: vec!["read:qrcodes".to_string()] };
    assert_eq!(authorize(&read_only, "acct_123", Scope::Write), Err(GateError::InsufficientScope));
    assert_eq!(authorize(&read_only, "acct_123", Scope::Read), Ok(()));
    assert!(!has_scope(&vec!["write:qrcodes2".to_string()], Scope::Write));
    let provider = Claims { sub: "google-oauth2|42".to_string(), exp: 1, permissions: vec![] };
    assert_eq!(authorize(&provider, "google_oauth2_42", Scope::Read), Err(GateError::InsufficientScope));
    assert_eq!(db.get_subscription("acct_123").unwrap().usage, 0);
    assert_eq!(ApiError::from_gate(GateError::OwnerMismatch), ApiError::Unauthorized);
}

#[test]
fn signing_up_normalizes_and_is_idempotent() {
    let mut db = Database::new();
    let c = claims("auth0|abc-1");
    let u = create_user(&mut db, &c, user("auth0_abc_1"), 7).unwrap();
    assert_eq!(u.id, "auth0_abc_1");
    assert_eq!(u.created_at, 7);
    let again = create_user(&mut db, &c, user("auth0_abc_1"), 9).unwrap();
    assert_eq!(again.created_at, 7);
    let wrong = create_user(&mut db, &c, user("someone_else"), 9);
    assert_eq!(wrong.err(), Some(GateError::OwnerMismatch));
}

#[test]
fn update_read_and_scan_links() {
    let mut db = account_at("Pro", 0);
    let c = claims("acct_123");
    create_qrcodes(&mut db, &c, "acct_123", qr("example.com"), "r1".to_string(), "s1".to_string(), 1).unwrap();
    assert_eq!(scan(&mut db, "s1", 2).unwrap(), "http://example.com");
    let u = update_qrcodes(&mut db, &c, "acct_123", "s1", qr("https://b.example"), 3).unwrap();
    assert_eq!(u.updated_at, 3);
    assert_eq!(scan(&mut db, "s1", 4).unwrap(), "https://b.example");
    assert_eq!(scan(&mut db, "nope", 4).err(), Some(GateError::NotFound));
    let list = read_qrcodes(&db, &c, "acct_123", 4).unwrap();
    assert_eq!(list.len(), 1);
    assert_eq!(list[0].access_count, 2);
    assert_eq!(list[0].last_accessed, 4);
    let dup = create_qrcodes(&mut db, &c, "acct_123", qr("x"), "r2".to_string(), "s1".to_string(), 1);
    assert_eq!(dup.err(), Some(GateError::Conflict));
    assert_eq!(delete_qrcodes(&mut db, &c, "acct_123", "s1"), Ok(true));
    assert_eq!(db.get_subscription("acct_123").unwrap().usage, 0);
}

#[test]
fn tiers_and_price_keys() {
    assert_eq!(SubscriptionTier::Lite.max_usage(), 5);
    assert_eq!(SubscriptionTier::Pro.max_usage(), 25);
    assert_eq!(SubscriptionTier::from_str("Pro"), Some(SubscriptionTier::Pro));
    assert_eq!(SubscriptionTier::from_str("pro"), None);
    assert_eq!(checkout_price_key("Lite").unwrap(), "STRIPE_PRODUCT_LITE");
    assert_eq!(checkout_price_key("Gold").err(), Some(GateError::BadRequest));
}

#[test]
fn sessions_are_checked() {
    let mut db = Database::new();
    let s = |id: &str, tier: &str| PaymentSession { session_id: id.to_string(), tier: tier.to_string() };
    assert_eq!(db.insert_session("acct_1", s("cs", "Lite")).err(), Some(GateError::NotFound));
    db.insert_user(user("acct_1"), 1);
    assert_eq!(db.insert_session("acct_1", s("cs", "Gold")).err(), Some(GateError::BadRequest));
    assert!(db.insert_session("acct_1", s("cs", "Lite")).is_ok());
    assert_eq!(db.insert_session("acct_1", s("cs", "Pro")).err(), Some(GateError::Conflict));
    assert_eq!(db.get_user_from_session("cs").unwrap().id, "acct_1");
}

#[test]
fn errors_are_reported_by_kind() {
    assert_eq!(ApiError::from_gate(GateError::ExpiredCredential), ApiError::Unauthorized);
    assert_eq!(ApiError::from_gate(GateError::UnknownSigningKey), ApiError::Unauthorized);
    assert_eq!(
        ApiError::from_gate(GateError::QuotaExceeded),
        ApiError::Forbidden("usage limit reached".to_string())
    );
    assert_eq!(ApiError::from_gate(GateError::Conflict).status_code(), 409);
    assert_eq!(ApiError::from_gate(GateError::StorageFailure).status_code(), 500);
    assert_eq!(ApiError::NotFound.message(), "Not Found");
    assert_eq!(ApiError::from_gate(GateError::UpstreamBillingFailure).status_code(), 500);
    assert_eq!(ApiError::from_gate(GateError::InvalidWebhookSignature).status_code(), 401);
    assert_eq!(ApiError::from_gate(GateError::BadRequest).status_code(), 400);
    assert_eq!(ApiError::from_gate(GateError::NoActiveSubscription).status_code(), 403);
    assert_eq!(ApiError::from_gate(GateError::NotFound).status_code(), 404);
    assert_eq!(
        ApiError::from_gate(GateError::NoActiveSubscription).message(),
        "Forbidden: no active subscription"
    );
    assert_eq!(
        ApiError::InternalServerError("boom".to_string()).message(),
        "Internal Server Error: boom"
    );
}

#[test]
fn refused_or_malformed_webhooks_change_nothing() {
    let mut db = account_at("Lite", 2);
    let r = qrgate::webhook::stripe_webhook(&mut db, None, 3);
    assert!(matches!(r, Err(GateError::InvalidWebhookSignature)));
    let m = qrgate::webhook::stripe_webhook(&mut db, Some(WebhookEvent::Malformed), 3);
    assert!(matches!(m, Err(GateError::BadRequest)));
    let s = db.get_subscription("acct_123").unwrap();
    assert_eq!(s.usage, 2);
    assert_eq!(s.subscription_status, SubscriptionState::Active);
}

#[test]
fn cancelling_subscription_entitles_only_until_its_period_end() {
    let mut db = account_at("Lite", 0);
    apply_acknowledged_update(&mut db, "acct_123", SubscriptionAction::Cancel, 50).unwrap();
    let c = claims("acct_123");
    let early = create_qrcodes(&mut db, &c, "acct_123", qr("x"), "r1".to_string(), "s1".to_string(), 49);
    assert!(early.is_ok());
    let late = create_qrcodes(&mut db, &c, "acct_123", qr("y"), "r2".to_string(), "s2".to_string(), 50);
    assert_eq!(late.err(), Some(GateError::NoActiveSubscription));
    assert_eq!(db.get_subscription("acct_123").unwrap().usage, 1);
    assert_eq!(read_qrcodes(&db, &c, "acct_123", 60).err(), Some(GateError::NoActiveSubscription));
}

#[test]
fn recorded_checkout_resolves_to_its_account() {
    let mut db = Database::new();
    db.insert_user(user("acct_123"), 1);
    let no_scope = Claims { sub: "acct_123".to_string(), exp: 1, permissions: vec![] };
    assert_eq!(checkout_customer(&db, &no_scope, "acct_123").unwrap().id, "acct_123");
    let s = record_checkout(
        &mut db,
        &no_scope,
        "acct_123",
        PaymentSession { session_id: "cs_7".to_string(), tier: "Pro".to_string() },
    )
    .unwrap();
    assert_eq!(s.session_id, "cs_7");
    assert_eq!(db.get_user_from_session("cs_7").unwrap().id, "acct_123");
    let entry = db.get_session("cs_7").unwrap();
    assert_eq!(entry.tier, SubscriptionTier::Pro);
    let other = record_checkout(
        &mut db,
        &claims("acct_456"),
        "acct_123",
        PaymentSession { session_id: "cs_8".to_string(), tier: "Pro".to_string() },
    );
    assert_eq!(other.err(), Some(GateError::OwnerMismatch));
    assert!(db.get_session("cs_8").is_none());
    assert_eq!(subscription_for_change(&db, &no_scope, "acct_123").err(), Some(GateError::NotFound));
}

#[test]
fn oversized_webhook_body_is_too_large() {
    let r = qrgate::guard::Payload::from_data("{}".to_string(), false);
    assert_eq!(r.err(), Some(ApiError::PayloadTooLarge));
    assert_eq!(ApiError::PayloadTooLarge.status_code(), 413);
    let p = qrgate::guard::Payload::from_data("{\"a\":1}".to_string(), true).ok().unwrap();
    assert_eq!(p.contents, "{\"a\":1}");
}
