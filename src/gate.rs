//! The authorization mediator and the gated resource operations. Every
//! operation first binds the verified identity to the account named in the
//! path and checks the scope the operation needs, before the store is
//! touched; creation and deletion then pass through the quota gate.

use vstd::prelude::*;

use crate::errors::GateError;
use crate::models::{
    entitled_at, normalized_id, tier_named, DynamicQr, DynamicQrResult, PaymentSession, PaymentSessionResult,
    SubscriptionAction, SubscriptionState, SubscriptionTier, User, UserResult,
    UserSubscriptionResult,
};
use crate::store::{
    first_where, owned_by, session_added, session_is, upserted, url_at, user_is, Database,
    StoreModel,
};
use crate::text::{contains_text, has_infix};
use crate::token::Claims;

verus! {

/// The capabilities that a credential may grant.
#[derive(Debug, Clone, Copy, PartialEq, Eq, Structural)]
pub enum Scope {
    Read,
    Write,
    Delete,
}

/// The permission string that grants each capability.
pub open spec fn scope_name(s: Scope) -> Seq<char> {
    match s {
        Scope::Read => "read:qrcodes"@,
        Scope::Write => "write:qrcodes"@,
        Scope::Delete => "delete:qrcodes"@,
    }
}

impl Scope {
    /// The permission string that grants the capability.
    pub fn name(&self) -> (r: String)
        ensures
            r@ == scope_name(*self),
    {
        match self {
            Scope::Read => crate::text::owned("read:qrcodes"),
            Scope::Write => crate::text::owned("write:qrcodes"),
            Scope::Delete => crate::text::owned("delete:qrcodes"),
        }
    }
}

/// Whether a permission list grants a capability.
pub open spec fn grants(perms: Seq<String>, s: Scope) -> bool {
    exists|i: int| 0 <= i < perms.len() && (#[trigger] perms[i])@ == scope_name(s)
}

/// Whether a permission list grants a capability; only exact matches count.
pub fn has_scope(perms: &Vec<String>, scope: Scope) -> (r: bool)
    ensures
        r == grants(perms@, scope),
{
    let wanted = scope.name();
    let mut i: usize = 0;
    while i < perms.len()
        invariant
            i <= perms@.len(),
            wanted@ == scope_name(scope),
            forall|j: int| 0 <= j < i ==> (#[trigger] perms@[j])@ != scope_name(scope),
        decreases perms.len() - i,
    {
        if perms[i] == wanted {
            return true;
        }
        i = i + 1;
    }
    false
}

/// The mediator's decision: the verified subject must be the account named
/// in the path, and the credential must grant the operation's capability.
pub open spec fn authorization(sub: Seq<char>, user_id: Seq<char>, perms: Seq<String>, scope: Scope) -> Result<(), GateError> {
    if normalized_id(sub) != user_id {
        Err(GateError::OwnerMismatch)
    } else if !grants(perms, scope) {
        Err(GateError::InsufficientScope)
    } else {
        Ok(())
    }
}

/// Binds a verified identity to the account named in the path and checks
/// the capability an operation needs.
pub fn authorize(claims: &Claims, user_id: &str, scope: Scope) -> (r: Result<(), GateError>)
    ensures
        r == authorization(claims.sub@, user_id@, claims.permissions@, scope),
{
    let subject = crate::models::format_user_id(claims.sub.clone());
    if !crate::text::same_text(subject.as_str(), user_id) {
        return Err(GateError::OwnerMismatch);
    }
    if !has_scope(&claims.permissions, scope) {
        return Err(GateError::InsufficientScope);
    }
    Ok(())
}

/// The billing operations bind the verified subject to the account named
/// in the path; they ask for no capability.
pub open spec fn owner_check(sub: Seq<char>, user_id: Seq<char>) -> Result<(), GateError> {
    if normalized_id(sub) != user_id {
        Err(GateError::OwnerMismatch)
    } else {
        Ok(())
    }
}

/// Binds a verified identity to the account named in the path.
pub fn authorize_owner(claims: &Claims, user_id: &str) -> (r: Result<(), GateError>)
    ensures
        r == owner_check(claims.sub@, user_id@),
{
    let subject = crate::models::format_user_id(claims.sub.clone());
    if !crate::text::same_text(subject.as_str(), user_id) {
        return Err(GateError::OwnerMismatch);
    }
    Ok(())
}

/// Signs up the caller's own account; the stored id is the normalized form
/// of the user's identity, which must be the caller's.
pub fn create_user(db: &mut Database, claims: &Claims, user: User, now: i64) -> (r: Result<UserResult, GateError>)
    requires
        old(db)@.wf(),
    ensures
        final(db)@.wf(),
        user.id@ != normalized_id(claims.sub@) ==> r == Err::<UserResult, GateError>(
            GateError::OwnerMismatch,
        ) && final(db)@ == old(db)@,
        user.id@ == normalized_id(claims.sub@) ==> (r matches Ok(u) && upserted(
            old(db)@,
            user,
            now,
            final(db)@,
            u,
        )),
{
    let subject = crate::models::format_user_id(claims.sub.clone());
    if !(user.id == subject) {
        return Err(GateError::OwnerMismatch);
    }
    Ok(db.insert_user(user, now))
}

/// Creates a gated resource for the caller: authorization, a fresh short
/// link, and a reserved unit of quota come first, in that order.
pub fn create_qrcodes(db: &mut Database, claims: &Claims, user_id: &str, qrcode: DynamicQr, id: String, server_url: String, now: i64) -> (r: Result<DynamicQrResult, GateError>)
    requires
        old(db)@.wf(),
    ensures
        final(db)@.wf(),
        ({
            let m = old(db)@;
            let a = authorization(claims.sub@, user_id@, claims.permissions@, Scope::Write);
            let free = first_where(m.urls, url_at(server_url@)) is None;
            &&& a matches Err(e) ==> r == Err::<DynamicQrResult, GateError>(e) && final(db)@ == m
            &&& a is Ok && !free ==> r == Err::<DynamicQrResult, GateError>(GateError::Conflict)
                && final(db)@ == m
            &&& a is Ok && free && m.reserve(user_id@, now).1 is Err ==> r == Err::<
                DynamicQrResult,
                GateError,
            >(m.reserve(user_id@, now).1->Err_0) && final(db)@ == m
            &&& a is Ok && free && m.reserve(user_id@, now).1 is Ok ==> (r matches Ok(q) && {
                &&& q.id == id
                &&& q.owner@ == user_id@
                &&& q.server_url == server_url
                &&& q.target_url == qrcode.target_url
                &&& q.access_count == 0
                &&& q.created_at == now
                &&& final(db)@ == StoreModel {
                    urls: m.urls.push(q),
                    ..m.reserve(user_id@, now).0
                }
            })
        }),
{
    match authorize(claims, user_id, Scope::Write) {
        Err(e) => {
            return Err(e);
        },
        Ok(()) => {},
    }
    if db.resource_owner(server_url.as_str()).is_some() {
        return Err(GateError::Conflict);
    }
    match db.check_and_reserve(user_id, now) {
        Err(e) => {
            return Err(e);
        },
        Ok(_) => {},
    }
    db.insert_dynamic_url(user_id, qrcode, id, server_url, now)
}

/// The caller's subscription, provided it entitles the caller to gated
/// operations at time `now`; otherwise `NoActiveSubscription`.
pub fn validate_and_get_subscription(db: &Database, user_id: &str, now: i64) -> (r: Result<UserSubscriptionResult, GateError>)
    ensures
        r == match db@.subscription_of(user_id@) {
            Some(s) => if entitled_at(s, now) {
                Ok::<UserSubscriptionResult, GateError>(s)
            } else {
                Err(GateError::NoActiveSubscription)
            },
            None => Err(GateError::NoActiveSubscription),
        },
{
    match db.get_subscription(user_id) {
        Some(s) => if s.entitles_at(now) {
            Ok(s)
        } else {
            Err(GateError::NoActiveSubscription)
        },
        None => Err(GateError::NoActiveSubscription),
    }
}

/// Lists the caller's gated resources; the caller needs an entitling subscription.
pub fn read_qrcodes(db: &Database, claims: &Claims, user_id: &str, now: i64) -> (r: Result<Vec<DynamicQrResult>, GateError>)
    ensures
        ({
            let a = authorization(claims.sub@, user_id@, claims.permissions@, Scope::Read);
            let entitled = match db@.subscription_of(user_id@) {
                Some(s) => entitled_at(s, now),
                None => false,
            };
            &&& a matches Err(e) ==> r == Err::<Vec<DynamicQrResult>, GateError>(e)
            &&& a is Ok && !entitled ==> r == Err::<Vec<DynamicQrResult>, GateError>(
                GateError::NoActiveSubscription,
            )
            &&& a is Ok && entitled ==> (r matches Ok(v) && v@ == db@.urls.filter(
                owned_by(user_id@),
            ))
        }),
{
    match authorize(claims, user_id, Scope::Read) {
        Err(e) => {
            return Err(e);
        },
        Ok(()) => {},
    }
    match validate_and_get_subscription(db, user_id, now) {
        Err(e) => {
            return Err(e);
        },
        Ok(_) => {},
    }
    Ok(db.list_user_urls(user_id))
}

/// Points one of the caller's resources at a new target. A resource of
/// another account is reported `NotFound`, as a missing one is.
pub fn update_qrcodes(db: &mut Database, claims: &Claims, user_id: &str, qrcode_id: &str, qrcode: DynamicQr, now: i64) -> (r: Result<DynamicQrResult, GateError>)
    requires
        old(db)@.wf(),
    ensures
        final(db)@.wf(),
        ({
            let m = old(db)@;
            let a = authorization(claims.sub@, user_id@, claims.permissions@, Scope::Write);
            &&& a matches Err(e) ==> r == Err::<DynamicQrResult, GateError>(e) && final(db)@ == m
            &&& a is Ok ==> match first_where(m.urls, url_at(qrcode_id@)) {
                None => r == Err::<DynamicQrResult, GateError>(GateError::NotFound) && final(db)@
                    == m,
                Some(i) => if m.urls[i].owner@ != user_id@ {
                    r == Err::<DynamicQrResult, GateError>(GateError::NotFound) && final(db)@ == m
                } else {
                    let u = DynamicQrResult {
                        target_url: qrcode.target_url,
                        updated_at: now,
                        ..m.urls[i]
                    };
                    r == Ok::<DynamicQrResult, GateError>(u) && final(db)@ == StoreModel {
                        urls: m.urls.update(i, u),
                        ..m
                    }
                },
            }
        }),
{
    match authorize(claims, user_id, Scope::Write) {
        Err(e) => {
            return Err(e);
        },
        Ok(()) => {},
    }
    db.update_dynamic_url(user_id, qrcode_id, qrcode.target_url, now)
}

/// Deletes one of the caller's resources and gives its unit of quota back.
/// A resource of another account is reported `NotFound`, never
/// `Unauthorized`, so that its existence is not revealed.
pub fn delete_qrcodes(db: &mut Database, claims: &Claims, user_id: &str, qrcode_id: &str) -> (r: Result<bool, GateError>)
    requires
        old(db)@.wf(),
    ensures
        final(db)@.wf(),
        ({
            let m = old(db)@;
            let a = authorization(claims.sub@, user_id@, claims.permissions@, Scope::Delete);
            &&& a matches Err(e) ==> r == Err::<bool, GateError>(e) && final(db)@ == m
            &&& a is Ok ==> match first_where(m.urls, url_at(qrcode_id@)) {
                None => r == Err::<bool, GateError>(GateError::NotFound) && final(db)@ == m,
                Some(i) => if m.urls[i].owner@ != user_id@ {
                    r == Err::<bool, GateError>(GateError::NotFound) && final(db)@ == m
                } else {
                    r == Ok::<bool, GateError>(true) && final(db)@ == (StoreModel {
                        urls: m.urls.remove(i),
                        ..m
                    }).release(user_id@).0
                },
            }
        }),
{
    match authorize(claims, user_id, Scope::Delete) {
        Err(e) => {
            return Err(e);
        },
        Ok(()) => {},
    }
    match db.delete_dynamic_url(user_id, qrcode_id) {
        Err(e) => {
            return Err(e);
        },
        Ok(_) => {},
    }
    let _ = db.decrement_usage(user_id);
    Ok(true)
}


/// The configuration key that holds the provider's price for a tier.
pub open spec fn price_key(t: SubscriptionTier) -> Seq<char> {
    match t {
        SubscriptionTier::Lite => "STRIPE_PRODUCT_LITE"@,
        SubscriptionTier::Pro => "STRIPE_PRODUCT_PRO"@,
    }
}

/// The configuration key of the price to check out for a tier name; an
/// unknown tier fails `BadRequest`.
pub fn checkout_price_key(tier: &str) -> (r: Result<String, GateError>)
    ensures
        match tier_named(tier@) {
            Some(t) => r matches Ok(k) && k@ == price_key(t),
            None => r == Err::<String, GateError>(GateError::BadRequest),
        },
{
    match SubscriptionTier::from_str(tier) {
        Some(SubscriptionTier::Lite) => Ok(crate::text::owned("STRIPE_PRODUCT_LITE")),
        Some(SubscriptionTier::Pro) => Ok(crate::text::owned("STRIPE_PRODUCT_PRO")),
        None => Err(GateError::BadRequest),
    }
}

/// The caller's account, before a checkout flow is begun for it.
pub fn checkout_customer(db: &Database, claims: &Claims, user_id: &str) -> (r: Result<UserResult, GateError>)
    ensures
        ({
            let a = owner_check(claims.sub@, user_id@);
            &&& a matches Err(e) ==> r == Err::<UserResult, GateError>(e)
            &&& a is Ok ==> r == match first_where(db@.users, user_is(user_id@)) {
                Some(i) => Ok::<UserResult, GateError>(db@.users[i]),
                None => Err(GateError::NotFound),
            }
        }),
{
    match authorize_owner(claims, user_id) {
        Err(e) => {
            return Err(e);
        },
        Ok(()) => {},
    }
    match db.select_user(user_id) {
        Some(u) => Ok(u),
        None => Err(GateError::NotFound),
    }
}

/// Records the checkout session that the provider opened for the caller.
pub fn record_checkout(db: &mut Database, claims: &Claims, user_id: &str, session: PaymentSession) -> (r: Result<PaymentSessionResult, GateError>)
    requires
        old(db)@.wf(),
    ensures
        final(db)@.wf(),
        r is Err ==> final(db)@ == old(db)@,
        ({
            let a = owner_check(claims.sub@, user_id@);
            &&& a matches Err(e) ==> r == Err::<PaymentSessionResult, GateError>(e)
            &&& a is Ok ==> (r is Ok <==> (first_where(old(db)@.users, user_is(user_id@)) is Some
                && tier_named(session.tier@) is Some && first_where(
                old(db)@.sessions,
                session_is(session.session_id@),
            ) is None))
            &&& r matches Ok(p) ==> p.session_id == session.session_id && p.tier == session.tier
                && session_added(old(db)@, final(db)@, user_id@, session)
        }),
{
    match authorize_owner(claims, user_id) {
        Err(e) => {
            return Err(e);
        },
        Ok(()) => {},
    }
    db.insert_session(user_id, session)
}

/// The provider id of the caller's subscription, before a change is asked
/// of the provider.
pub fn subscription_for_change(db: &Database, claims: &Claims, user_id: &str) -> (r: Result<String, GateError>)
    ensures
        ({
            let a = owner_check(claims.sub@, user_id@);
            &&& a matches Err(e) ==> r == Err::<String, GateError>(e)
            &&& a is Ok ==> r == match db@.subscription_of(user_id@) {
                Some(s) => Ok::<String, GateError>(s.subscription_id),
                None => Err(GateError::NotFound),
            }
        }),
{
    match authorize_owner(claims, user_id) {
        Err(e) => {
            return Err(e);
        },
        Ok(()) => {},
    }
    match db.get_subscription_id(user_id) {
        Some(id) => Ok(id),
        None => Err(GateError::NotFound),
    }
}

/// Applies a subscription change locally once the billing provider has
/// acknowledged it, with the period end the provider reported: cancel
/// moves an active subscription to cancelling, resume moves it back. A tier
/// change reaches this service only through the provider's events, so
/// upgrade and downgrade are refused with `BadRequest` and change nothing.
pub fn apply_acknowledged_update(db: &mut Database, user_id: &str, action: SubscriptionAction, period_end: i64) -> (r: Result<Option<UserSubscriptionResult>, GateError>)
    requires
        old(db)@.wf(),
    ensures
        final(db)@.wf(),
        r is Err ==> final(db)@ == old(db)@,
        (action is Cancel || action is Resume) ==> match old(db)@.subscription_of(user_id@) {
            None => r == Err::<Option<UserSubscriptionResult>, GateError>(GateError::NotFound),
            Some(s) => (final(db)@, r) == old(db)@.transition(
                s.subscription_id@,
                if action is Cancel {
                    SubscriptionState::Cancelling
                } else {
                    SubscriptionState::Active
                },
                period_end,
            ),
        },
        (action is Upgrade || action is Downgrade) ==> r == Err::<
            Option<UserSubscriptionResult>,
            GateError,
        >(GateError::BadRequest),
{
    match action {
        SubscriptionAction::Cancel => db.set_subscription_status(
            user_id,
            SubscriptionState::Cancelling,
            period_end,
        ),
        SubscriptionAction::Resume => db.set_subscription_status(
            user_id,
            SubscriptionState::Active,
            period_end,
        ),
        SubscriptionAction::Upgrade | SubscriptionAction::Downgrade => Err(GateError::BadRequest),
    }
}

/// Where a short link sends its visitor: the target as stored when it names
/// a scheme, else the target under `http://`.
pub open spec fn redirect_of(target: Seq<char>) -> Seq<char> {
    if has_infix(target, "https://"@) || has_infix(target, "http://"@) {
        target
    } else {
        "http://"@ + target
    }
}

/// Resolves a short link, counting the visit, to the address to redirect to.
pub fn scan(db: &mut Database, server_url: &str, now: i64) -> (r: Result<String, GateError>)
    requires
        old(db)@.wf(),
    ensures
        final(db)@.wf(),
        match first_where(old(db)@.urls, url_at(server_url@)) {
            None => r == Err::<String, GateError>(GateError::NotFound) && final(db)@ == old(db)@,
            Some(i) => r matches Ok(t) && t@ == redirect_of(old(db)@.urls[i].target_url@),
        },
{
    let target = match db.lookup_dynamic_url(server_url, now) {
        Ok(t) => t,
        Err(e) => {
            return Err(e);
        },
    };
    if contains_text(target.as_str(), "https://") || contains_text(target.as_str(), "http://") {
        Ok(target)
    } else {
        let mut out = crate::text::owned("http://");
        out.append(target.as_str());
        Ok(out)
    }
}

} // verus!
