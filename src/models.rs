//! The data model: tiers and their ceilings, subscription states, and the
//! records that the entitlement store keeps.

use vstd::prelude::*;

use crate::text::push_char;

verus! {

/// A named subscription level with a fixed usage ceiling.
#[derive(Debug, Clone, Copy, PartialEq, Eq, Structural)]
pub enum SubscriptionTier {
    Lite,
    Pro,
}

/// The usage ceiling of each tier.
pub open spec fn tier_ceiling(t: SubscriptionTier) -> int {
    match t {
        SubscriptionTier::Lite => 5,
        SubscriptionTier::Pro => 25,
    }
}

/// The tier that a tier name denotes, if any.
pub open spec fn tier_named(s: Seq<char>) -> Option<SubscriptionTier> {
    if s == "Lite"@ {
        Some(SubscriptionTier::Lite)
    } else if s == "Pro"@ {
        Some(SubscriptionTier::Pro)
    } else {
        None
    }
}

/// The canonical name of a tier.
pub open spec fn tier_name(t: SubscriptionTier) -> Seq<char> {
    match t {
        SubscriptionTier::Lite => "Lite"@,
        SubscriptionTier::Pro => "Pro"@,
    }
}

impl SubscriptionTier {
    /// The maximum number of gated resources an account on this tier may hold.
    pub fn max_usage(&self) -> (r: i32)
        ensures
            r as int == tier_ceiling(*self),
    {
        match self {
            SubscriptionTier::Lite => 5,
            SubscriptionTier::Pro => 25,
        }
    }

    /// Parses a tier name; names are case-sensitive.
    pub fn from_str(tier_str: &str) -> (r: Option<Self>)
        ensures
            r == tier_named(tier_str@),
    {
        let lite = "Lite";
        let pro = "Pro";
        if crate::text::same_text(tier_str, lite) {
            Some(SubscriptionTier::Lite)
        } else if crate::text::same_text(tier_str, pro) {
            Some(SubscriptionTier::Pro)
        } else {
            None
        }
    }

    /// The canonical name of the tier.
    pub fn name(&self) -> (r: String)
        ensures
            r@ == tier_name(*self),
    {
        match self {
            SubscriptionTier::Lite => crate::text::owned("Lite"),
            SubscriptionTier::Pro => crate::text::owned("Pro"),
        }
    }
}


/// Where a subscription stands in its life cycle.
#[derive(Debug, Clone, Copy, PartialEq, Eq, Structural)]
pub enum SubscriptionState {
    PendingCheckout,
    Active,
    Cancelling,
    Terminated,
}

/// The status text of a subscription state.
pub open spec fn state_name(s: SubscriptionState) -> Seq<char> {
    match s {
        SubscriptionState::PendingCheckout => "pending_checkout"@,
        SubscriptionState::Active => "active"@,
        SubscriptionState::Cancelling => "cancelling"@,
        SubscriptionState::Terminated => "terminated"@,
    }
}

impl SubscriptionState {
    /// The status text of the state.
    pub fn name(&self) -> (r: String)
        ensures
            r@ == state_name(*self),
    {
        match self {
            SubscriptionState::PendingCheckout => crate::text::owned("pending_checkout"),
            SubscriptionState::Active => crate::text::owned("active"),
            SubscriptionState::Cancelling => crate::text::owned("cancelling"),
            SubscriptionState::Terminated => crate::text::owned("terminated"),
        }
    }
}

/// Status text of a subscription, as reported to clients.
pub struct SubscriptionStatus {
    pub subscription_status: String,
}

/// Sign-up details of an account, keyed by its external identity.
pub struct User {
    pub id: String,
    pub username: String,
    pub email: String,
}

/// A stored account; `id` is the normalized identity, `created_at` seconds since the epoch.
pub struct UserResult {
    pub id: String,
    pub username: String,
    pub email: String,
    pub created_at: i64,
}

impl UserResult {
    /// A field-by-field copy.
    pub fn duplicate(&self) -> (r: UserResult)
        ensures
            r == *self,
    {
        UserResult {
            id: self.id.clone(),
            username: self.username.clone(),
            email: self.email.clone(),
            created_at: self.created_at,
        }
    }
}

/// An account together with its subscription.
pub struct UserDetails {
    pub user: UserResult,
    pub subscription: UserSubscriptionResult,
}

/// A billing-provider subscription id.
pub struct SubscriptionId {
    pub subscription_id: String,
}

/// What an account asks of its subscription.
#[derive(Debug, Clone, Copy, PartialEq, Eq, Structural)]
pub enum SubscriptionAction {
    Cancel,
    Upgrade,
    Downgrade,
    Resume,
}

/// A request to change a subscription.
pub struct UpdateRequest {
    pub action: SubscriptionAction,
    pub subscription_id: String,
    pub new_tier: String,
}

/// A checkout flow that an account began, with the tier it asked for.
pub struct PaymentSession {
    pub session_id: String,
    pub tier: String,
}

/// A stored checkout session.
pub struct PaymentSessionResult {
    pub session_id: String,
    pub tier: String,
}

/// A tier change together with the provider's price for it.
pub struct NewSubscription {
    pub new_tier: String,
    pub new_price_id: String,
}

/// A subscription as the billing provider reports it.
pub struct UserSubscription {
    pub sub_id: String,
    pub tier: String,
    pub status: String,
}

/// A stored subscription; `id` is the owning account.
pub struct UserSubscriptionResult {
    pub id: String,
    pub subscription_id: String,
    pub tier: SubscriptionTier,
    pub usage: u32,
    pub start_date: i64,
    pub end_date: i64,
    pub subscription_status: SubscriptionState,
}

/// Whether a subscription entitles its account to gated operations at time
/// `now`: an active one does, and a cancelling one does until the end of
/// the period the provider reported.
pub open spec fn entitled_at(s: UserSubscriptionResult, now: i64) -> bool {
    s.subscription_status == SubscriptionState::Active || (s.subscription_status
        == SubscriptionState::Cancelling && now < s.end_date)
}

impl UserSubscriptionResult {
    /// Whether the subscription entitles its account at time `now`.
    pub fn entitles_at(&self, now: i64) -> (r: bool)
        ensures
            r == entitled_at(*self, now),
    {
        match self.subscription_status {
            SubscriptionState::Active => true,
            SubscriptionState::Cancelling => now < self.end_date,
            _ => false,
        }
    }

    /// A field-by-field copy.
    pub fn duplicate(&self) -> (r: UserSubscriptionResult)
        ensures
            r == *self,
    {
        UserSubscriptionResult {
            id: self.id.clone(),
            subscription_id: self.subscription_id.clone(),
            tier: self.tier,
            usage: self.usage,
            start_date: self.start_date,
            end_date: self.end_date,
            subscription_status: self.subscription_status,
        }
    }
}

/// The payload of a gated resource: where its short link leads.
pub struct DynamicQr {
    pub target_url: String,
}

/// A stored gated resource: a short link owned by an account.
pub struct DynamicQrResult {
    pub id: String,
    pub owner: String,
    pub server_url: String,
    pub target_url: String,
    pub access_count: u64,
    pub last_accessed: i64,
    pub created_at: i64,
    pub updated_at: i64,
}

impl DynamicQrResult {
    /// A field-by-field copy.
    pub fn duplicate(&self) -> (r: DynamicQrResult)
        ensures
            r == *self,
    {
        DynamicQrResult {
            id: self.id.clone(),
            owner: self.owner.clone(),
            server_url: self.server_url.clone(),
            target_url: self.target_url.clone(),
            access_count: self.access_count,
            last_accessed: self.last_accessed,
            created_at: self.created_at,
            updated_at: self.updated_at,
        }
    }
}

/// Where a short link leads.
pub struct LinkResult {
    pub target_url: String,
}

/// The tier that a client asks to check out.
pub struct PaymentRequest {
    pub tier: String,
}

/// The characters that an external identity may carry but a stored account id may not.
pub open spec fn is_id_separator(c: char) -> bool {
    c == '|' || c == '-'
}

/// An external identity with every separator replaced by an underscore.
pub open spec fn normalized_id(s: Seq<char>) -> Seq<char> {
    s.map_values(|c: char| if is_id_separator(c) { '_' } else { c })
}

/// Normalizes an external identity (`provider|id`) into a stable account id.
pub fn format_user_id(auth0_id: String) -> (r: String)
    ensures
        r@ == normalized_id(auth0_id@),
{
    let mut out = String::new();
    for c in it: auth0_id.as_str().chars()
        invariant
            it.seq() == auth0_id@,
            out@ == normalized_id(auth0_id@.take(it.index() as int)),
    {
        proof {
            assert(auth0_id@.take(it.index() + 1) == auth0_id@.take(it.index() as int).push(c));
        }
        if c == '|' || c == '-' {
            push_char(&mut out, '_');
        } else {
            push_char(&mut out, c);
        }
        proof {
            assert(normalized_id(auth0_id@.take(it.index() + 1)) =~= out@);
        }
    }
    proof {
        assert(auth0_id@.take(auth0_id@.len() as int) =~= auth0_id@);
    }
    out
}

} // verus!
