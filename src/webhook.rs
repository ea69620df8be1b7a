//! The subscription state machine driven by billing-provider events. Events
//! arrive at least once and possibly out of order; every transition here is
//! safe to apply again, and a terminated subscription never comes back.

use vstd::prelude::*;

use crate::errors::GateError;
use crate::models::{SubscriptionAction, SubscriptionState, UserSubscriptionResult};
use crate::store::{first_where, is_retired, session_is, sub_of_account, sub_with_id, Database, StoreModel};

verus! {

/// An inbound billing event, after its signature was checked and its body decoded.
pub enum WebhookEvent {
    /// A checkout flow finished and the provider created a subscription.
    CheckoutCompleted { session_id: String, subscription_id: String },
    /// The provider ended a subscription.
    SubscriptionDeleted { subscription_id: String },
    /// A checkout or deletion event whose body lacks what that type needs.
    Malformed,
    /// Any other event type.
    Other { kind: String },
}

/// What applying an event did.
pub enum WebhookOutcome {
    /// A subscription was created and is active.
    Subscribed(UserSubscriptionResult),
    /// The event had been applied before; nothing changed.
    AlreadyApplied,
    /// The event refers to a terminated subscription; it was ignored.
    Stale,
    /// The subscription was terminated and its account's records removed.
    Terminated,
    /// The event type needs no change; it is acknowledged.
    Acknowledged,
}

impl StoreModel {
    /// The effect of one inbound event on the store.
    pub open spec fn reconcile(self, e: WebhookEvent, now: i64) -> (StoreModel, Result<WebhookOutcome, GateError>) {
        match e {
            WebhookEvent::CheckoutCompleted { session_id, subscription_id } => {
                if is_retired(self.retired, subscription_id@) {
                    (self, Ok(WebhookOutcome::Stale))
                } else {
                    match first_where(self.sessions, session_is(session_id@)) {
                        None => (self, Err(GateError::NotFound)),
                        Some(k) => {
                            let entry = self.sessions[k];
                            match self.subscription_of(entry.user_id@) {
                                Some(s) if s.subscription_id@ == subscription_id@ => (
                                    self,
                                    Ok(WebhookOutcome::AlreadyApplied),
                                ),
                                _ => {
                                    let (m, r) = self.create(
                                        entry.user_id,
                                        subscription_id,
                                        entry.tier,
                                        now,
                                    );
                                    match r {
                                        Ok(t) => (m, Ok(WebhookOutcome::Subscribed(t))),
                                        Err(err) => (m, Err(err)),
                                    }
                                },
                            }
                        },
                    }
                }
            },
            WebhookEvent::SubscriptionDeleted { subscription_id } => {
                if is_retired(self.retired, subscription_id@) {
                    (self, Ok(WebhookOutcome::AlreadyApplied))
                } else {
                    match first_where(self.subs, sub_with_id(subscription_id@)) {
                        None => (self, Err(GateError::NotFound)),
                        Some(i) => (self.purge(self.subs[i].id@), Ok(WebhookOutcome::Terminated)),
                    }
                }
            },
            WebhookEvent::Malformed => (self, Err(GateError::BadRequest)),
            WebhookEvent::Other { kind } => (self, Ok(WebhookOutcome::Acknowledged)),
        }
    }
}

/// Applies one inbound billing event to the store. A checkout whose session
/// cannot be resolved is rejected (`NotFound`) so that the provider delivers
/// it again; events for terminated subscriptions are ignored.
pub fn reconcile(db: &mut Database, event: WebhookEvent, now: i64) -> (r: Result<WebhookOutcome, GateError>)
    requires
        old(db)@.wf(),
    ensures
        final(db)@.wf(),
        (final(db)@, r) == old(db)@.reconcile(event, now),
{
    match event {
        WebhookEvent::CheckoutCompleted { session_id, subscription_id } => {
            if db.is_terminated(subscription_id.as_str()) {
                return Ok(WebhookOutcome::Stale);
            }
            match db.get_session(session_id.as_str()) {
                None => Err(GateError::NotFound),
                Some(entry) => {
                    match db.get_subscription(entry.user_id.as_str()) {
                        Some(s) => {
                            if s.subscription_id == subscription_id {
                                return Ok(WebhookOutcome::AlreadyApplied);
                            }
                        },
                        None => {},
                    }
                    match db.create_subscription(entry.user_id, subscription_id, entry.tier, now) {
                        Ok(t) => Ok(WebhookOutcome::Subscribed(t)),
                        Err(err) => Err(err),
                    }
                },
            }
        },
        WebhookEvent::SubscriptionDeleted { subscription_id } => {
            if db.is_terminated(subscription_id.as_str()) {
                return Ok(WebhookOutcome::AlreadyApplied);
            }
            let r = db.transition_subscription(subscription_id.as_str(), SubscriptionState::Terminated, now);
            match r {
                Ok(_) => Ok(WebhookOutcome::Terminated),
                Err(err) => Err(err),
            }
        },
        WebhookEvent::Malformed => Err(GateError::BadRequest),
        WebhookEvent::Other { kind } => Ok(WebhookOutcome::Acknowledged),
    }
}

/// Handles an inbound billing webhook once its signature over the raw body
/// has been checked: `None` stands for a body whose signature, timestamp or
/// shape was refused, which is rejected without saying which check failed.
pub fn stripe_webhook(db: &mut Database, event: Option<WebhookEvent>, now: i64) -> (r: Result<WebhookOutcome, GateError>)
    requires
        old(db)@.wf(),
    ensures
        final(db)@.wf(),
        match event {
            None => r == Err::<WebhookOutcome, GateError>(GateError::InvalidWebhookSignature)
                && final(db)@ == old(db)@,
            Some(e) => (final(db)@, r) == old(db)@.reconcile(e, now),
        },
{
    match event {
        None => Err(GateError::InvalidWebhookSignature),
        Some(e) => reconcile(db, e, now),
    }
}


/// Replaying a checkout-completion event that created a subscription is a
/// no-op, and the account is left with exactly one subscription, active.
pub proof fn lemma_checkout_replay(m: StoreModel, session_id: String, subscription_id: String, now: i64)
    requires
        m.wf(),
        m.reconcile(
            WebhookEvent::CheckoutCompleted { session_id, subscription_id },
            now,
        ).1 is Ok,
        m.reconcile(
            WebhookEvent::CheckoutCompleted { session_id, subscription_id },
            now,
        ).1->Ok_0 is Subscribed,
    ensures
        ({
            let e = WebhookEvent::CheckoutCompleted { session_id, subscription_id };
            let m1 = m.reconcile(e, now).0;
            let t = m.reconcile(e, now).1->Ok_0->Subscribed_0;
            let m2 = m1.reconcile(e, now).0;
            &&& m1.reconcile(e, now).1 == Ok::<WebhookOutcome, GateError>(
                WebhookOutcome::AlreadyApplied,
            )
            &&& m2 == m1
            &&& m2.wf()
            &&& t.subscription_id == subscription_id
            &&& t.subscription_status == SubscriptionState::Active
            &&& m2.subscription_of(t.id@) == Some(t)
            &&& forall|j: int|
                0 <= j < m2.subs.len() && (#[trigger] m2.subs[j]).id@ == t.id@ ==> m2.subs[j] == t
        }),
{
    let e = WebhookEvent::CheckoutCompleted { session_id, subscription_id };
    let k = first_where(m.sessions, session_is(session_id@))->0;
    let entry = m.sessions[k];
    let m1 = m.reconcile(e, now).0;
    let t = m.reconcile(e, now).1->Ok_0->Subscribed_0;
    assert(m1 == StoreModel { subs: m.subs.push(t), ..m });
    assert(m1.sessions == m.sessions);
    assert(t.id == entry.user_id);
    crate::store::lemma_first_none(m.subs, sub_of_account(t.id@));
    assert(crate::store::is_first(m1.subs, sub_of_account(t.id@), m.subs.len() as int)) by {
        assert forall|j: int| 0 <= j < m.subs.len() implies !sub_of_account(t.id@)(
            #[trigger] m1.subs[j],
        ) by {
            assert(m1.subs[j] == m.subs[j]);
        }
    }
    crate::store::lemma_first_unique(m1.subs, sub_of_account(t.id@), m.subs.len() as int);
    assert(m1.wf()) by {
        lemma_create_wf(m, entry.user_id, subscription_id, entry.tier, now);
    }
    assert forall|j: int|
        0 <= j < m1.subs.len() && (#[trigger] m1.subs[j]).id@ == t.id@ implies m1.subs[j] == t by {
        assert(m1.subs[m.subs.len() as int] == t);
    }
    if is_retired(m1.retired, subscription_id@) {
        assert(m1.retired == m.retired);
    }
}

/// Creating a subscription keeps the store's invariant.
pub proof fn lemma_create_wf(m: StoreModel, acct: String, sid: String, tier: crate::models::SubscriptionTier, now: i64)
    requires
        m.wf(),
    ensures
        m.create(acct, sid, tier, now).0.wf(),
{
    if m.create(acct, sid, tier, now).1 is Ok {
        let n = m.create(acct, sid, tier, now).0;
        let t = m.create(acct, sid, tier, now).1->Ok_0;
        assert(n.subs == m.subs.push(t));
        crate::store::lemma_first_none(m.subs, sub_of_account(acct@));
        crate::store::lemma_first_none(m.subs, sub_with_id(sid@));
        assert forall|a: int, b: int|
            0 <= a < n.subs.len() && 0 <= b < n.subs.len() && (#[trigger] n.subs[a]).id@ == (
            #[trigger] n.subs[b]).id@ implies a == b by {
            if a < m.subs.len() && b == m.subs.len() {
                assert(!sub_of_account(acct@)(m.subs[a]));
            }
            if b < m.subs.len() && a == m.subs.len() {
                assert(!sub_of_account(acct@)(m.subs[b]));
            }
        }
        assert forall|a: int, b: int|
            0 <= a < n.subs.len() && 0 <= b < n.subs.len()
                && (#[trigger] n.subs[a]).subscription_id@
                == (#[trigger] n.subs[b]).subscription_id@ implies a == b by {
            if a < m.subs.len() && b == m.subs.len() {
                assert(!sub_with_id(sid@)(m.subs[a]));
            }
            if b < m.subs.len() && a == m.subs.len() {
                assert(!sub_with_id(sid@)(m.subs[b]));
            }
        }
    }
}

/// Once a subscription-deletion event has been applied, a late
/// checkout-completion for the same subscription id changes nothing and no
/// subscription with that id exists.
pub proof fn lemma_no_resurrection(m: StoreModel, subscription_id: String, session_id: String, now: i64)
    requires
        m.wf(),
        m.reconcile(WebhookEvent::SubscriptionDeleted { subscription_id }, now).1 is Ok,
    ensures
        ({
            let m1 = m.reconcile(WebhookEvent::SubscriptionDeleted { subscription_id }, now).0;
            let late = WebhookEvent::CheckoutCompleted { session_id, subscription_id };
            &&& m1.wf()
            &&& m1.reconcile(late, now) == (m1, Ok::<WebhookOutcome, GateError>(WebhookOutcome::Stale))
            &&& forall|j: int|
                0 <= j < m1.subs.len() ==> (#[trigger] m1.subs[j]).subscription_id@ != subscription_id@
        }),
{
    let m1 = m.reconcile(WebhookEvent::SubscriptionDeleted { subscription_id }, now).0;
    if !is_retired(m.retired, subscription_id@) {
        let i = first_where(m.subs, sub_with_id(subscription_id@))->0;
        assert(crate::store::is_first(m.subs, sub_with_id(subscription_id@), i));
        let owner = m.subs[i].id@;
        assert(crate::store::is_first(m.subs, sub_of_account(owner), i)) by {
            assert forall|j: int| 0 <= j < i implies !sub_of_account(owner)(#[trigger] m.subs[j]) by {
                if m.subs[j].id@ == owner {
                    assert(j == i);
                }
            }
        }
        crate::store::lemma_first_unique(m.subs, sub_of_account(owner), i);
        crate::store::lemma_purge_wf(m, owner);
        assert(m1.retired == m.retired.push(m.subs[i].subscription_id));
        assert(m1.retired[m.retired.len() as int]@ == subscription_id@);
        assert(is_retired(m1.retired, subscription_id@));
    }
    assert(is_retired(m1.retired, subscription_id@));
    assert(m1.wf());
}


/// Applying a checkout-completion event a second time, after it was
/// applied successfully once, changes nothing and creates nothing.
pub proof fn lemma_checkout_idempotent(m: StoreModel, session_id: String, subscription_id: String, now: i64)
    requires
        m.wf(),
        m.reconcile(
            WebhookEvent::CheckoutCompleted { session_id, subscription_id },
            now,
        ).1 is Ok,
    ensures
        ({
            let e = WebhookEvent::CheckoutCompleted { session_id, subscription_id };
            let m1 = m.reconcile(e, now).0;
            &&& m1.reconcile(e, now).0 == m1
            &&& m1.reconcile(e, now).1 is Ok
            &&& !(m1.reconcile(e, now).1->Ok_0 is Subscribed)
        }),
{
    let e = WebhookEvent::CheckoutCompleted { session_id, subscription_id };
    if m.reconcile(e, now).1->Ok_0 is Subscribed {
        lemma_checkout_replay(m, session_id, subscription_id, now);
    }
}

} // verus!
