//! The entitlement store: accounts, checkout sessions, subscriptions with
//! their usage counters, and the gated resources that accounts own. It is
//! the only mutator of this state; each operation takes `&mut self`, so a
//! caller that shares the store serialises them and every check-then-update
//! below is applied as one step.

use vstd::prelude::*;

use crate::errors::GateError;
use crate::models::{
    entitled_at, normalized_id, tier_ceiling, DynamicQrResult, SubscriptionState, SubscriptionTier, User,
    UserResult, UserSubscriptionResult,
};
use crate::text::same_text;

verus! {

/// The position of the first element that satisfies `p`, if one does.
pub open spec fn is_first<T>(s: Seq<T>, p: spec_fn(T) -> bool, i: int) -> bool {
    &&& 0 <= i < s.len()
    &&& p(s[i])
    &&& forall|j: int| 0 <= j < i ==> !p(#[trigger] s[j])
}

/// The position of the first element that satisfies `p`, if one does.
pub open spec fn first_where<T>(s: Seq<T>, p: spec_fn(T) -> bool) -> Option<int> {
    if exists|i: int| is_first(s, p, i) {
        Some(choose|i: int| is_first(s, p, i))
    } else {
        None
    }
}

/// Two first positions are the same position.
pub proof fn lemma_first_unique<T>(s: Seq<T>, p: spec_fn(T) -> bool, i: int)
    requires
        is_first(s, p, i),
    ensures
        first_where(s, p) == Some(i),
{
    let k = choose|k: int| is_first(s, p, k);
    assert(is_first(s, p, k));
    if k < i {
        assert(!p(s[k]));
    } else if i < k {
        assert(!p(s[i]));
    }
}

/// No element satisfies `p` exactly when there is no first one.
pub proof fn lemma_first_none<T>(s: Seq<T>, p: spec_fn(T) -> bool)
    ensures
        first_where(s, p) is None <==> forall|j: int| 0 <= j < s.len() ==> !p(#[trigger] s[j]),
    decreases s.len(),
{
    if exists|j: int| 0 <= j < s.len() && p(#[trigger] s[j]) {
        if s.len() > 0 {
            let t = s.drop_last();
            lemma_first_none(t, p);
            if exists|j: int| 0 <= j < t.len() && p(#[trigger] t[j]) {
                let k = choose|k: int| is_first(t, p, k);
                assert(is_first(s, p, k)) by {
                    assert forall|j: int| 0 <= j < k implies !p(#[trigger] s[j]) by {
                        assert(s[j] == t[j]);
                    }
                }
            } else {
                let w = choose|j: int| 0 <= j < s.len() && p(#[trigger] s[j]);
                if w < t.len() {
                    assert(t[w] == s[w]);
                }
                assert(is_first(s, p, s.len() - 1)) by {
                    assert forall|j: int| 0 <= j < s.len() - 1 implies !p(#[trigger] s[j]) by {
                        assert(s[j] == t[j]);
                    }
                }
            }
        }
    }
}

/// Replacing an element by one that `p` judges alike keeps the first position.
pub proof fn lemma_first_update<T>(s: Seq<T>, p: spec_fn(T) -> bool, i: int, x: T)
    requires
        0 <= i < s.len(),
        p(x) == p(s[i]),
    ensures
        first_where(s.update(i, x), p) == first_where(s, p),
{
    let u = s.update(i, x);
    lemma_first_none(s, p);
    lemma_first_none(u, p);
    if let Some(k) = first_where(s, p) {
        assert(is_first(s, p, k));
        assert(is_first(u, p, k)) by {
            assert forall|j: int| 0 <= j < k implies !p(#[trigger] u[j]) by {
                assert(!p(s[j]));
            }
        }
        lemma_first_unique(u, p, k);
    } else {
        assert forall|j: int| 0 <= j < u.len() implies !p(#[trigger] u[j]) by {
            assert(!p(s[j]));
        }
    }
}

/// Selects the account with the given id.
pub open spec fn user_is(id: Seq<char>) -> spec_fn(UserResult) -> bool {
    |u: UserResult| u.id@ == id
}

/// Selects the subscription that an account owns.
pub open spec fn sub_of_account(acct: Seq<char>) -> spec_fn(UserSubscriptionResult) -> bool {
    |s: UserSubscriptionResult| s.id@ == acct
}

/// Selects the subscription with the given provider id.
pub open spec fn sub_with_id(sid: Seq<char>) -> spec_fn(UserSubscriptionResult) -> bool {
    |s: UserSubscriptionResult| s.subscription_id@ == sid
}

/// Selects the checkout session with the given id.
pub open spec fn session_is(sid: Seq<char>) -> spec_fn(SessionEntry) -> bool {
    |s: SessionEntry| s.session_id@ == sid
}

/// Selects the resource reachable under the given short link.
pub open spec fn url_at(server_url: Seq<char>) -> spec_fn(DynamicQrResult) -> bool {
    |q: DynamicQrResult| q.server_url@ == server_url
}

/// Selects the resources that an account does not own.
pub open spec fn not_owned_by(acct: Seq<char>) -> spec_fn(DynamicQrResult) -> bool {
    |q: DynamicQrResult| q.owner@ != acct
}

/// Selects the resources that an account owns.
pub open spec fn owned_by(acct: Seq<char>) -> spec_fn(DynamicQrResult) -> bool {
    |q: DynamicQrResult| q.owner@ == acct
}

/// A checkout session: the account that began it and the tier it asked for.
pub struct SessionEntry {
    pub session_id: String,
    pub user_id: String,
    pub tier: SubscriptionTier,
}

/// What the store holds, as sequences in insertion order.
pub struct StoreModel {
    pub users: Seq<UserResult>,
    pub sessions: Seq<SessionEntry>,
    pub subs: Seq<UserSubscriptionResult>,
    pub retired: Seq<String>,
    pub urls: Seq<DynamicQrResult>,
}

/// Whether no two resources share a short link.
pub open spec fn links_unique(urls: Seq<DynamicQrResult>) -> bool {
    forall|i: int, j: int|
        0 <= i < urls.len() && 0 <= j < urls.len() && (#[trigger] urls[i]).server_url@ == (
        #[trigger] urls[j]).server_url@ ==> i == j
}

/// Keeping some resources keeps their short links unique.
pub proof fn lemma_filter_links_unique(s: Seq<DynamicQrResult>, p: spec_fn(DynamicQrResult) -> bool)
    requires
        links_unique(s),
    ensures
        links_unique(s.filter(p)),
    decreases s.len(),
{
    reveal(Seq::filter);
    if s.len() > 0 {
        let t = s.drop_last();
        assert(links_unique(t)) by {
            assert forall|i: int, j: int|
                0 <= i < t.len() && 0 <= j < t.len() && (#[trigger] t[i]).server_url@ == (
                #[trigger] t[j]).server_url@ implies i == j by {
                assert(s[i] == t[i] && s[j] == t[j]);
            }
        }
        lemma_filter_links_unique(t, p);
        let ft = t.filter(p);
        if p(s.last()) {
            let f = ft.push(s.last());
            assert forall|i: int, j: int|
                0 <= i < f.len() && 0 <= j < f.len() && (#[trigger] f[i]).server_url@ == (
                #[trigger] f[j]).server_url@ implies i == j by {
                if i < ft.len() && j == ft.len() {
                    assert(ft.contains(ft[i]));
                    t.lemma_filter_contains_rev(p, ft[i]);
                    let k = choose|k: int| 0 <= k < t.len() && t[k] == ft[i];
                    assert(s[k] == t[k]);
                    assert(s[k].server_url@ == s[s.len() - 1].server_url@);
                }
                if j < ft.len() && i == ft.len() {
                    assert(ft.contains(ft[j]));
                    t.lemma_filter_contains_rev(p, ft[j]);
                    let k = choose|k: int| 0 <= k < t.len() && t[k] == ft[j];
                    assert(s[k] == t[k]);
                    assert(s[k].server_url@ == s[s.len() - 1].server_url@);
                }
            }
        }
    }
}

/// Whether a subscription id has reached its absorbing terminated state.
pub open spec fn is_retired(retired: Seq<String>, sid: Seq<char>) -> bool {
    exists|k: int| 0 <= k < retired.len() && (#[trigger] retired[k])@ == sid
}

/// A subscription with another usage count.
pub open spec fn with_usage(s: UserSubscriptionResult, usage: u32) -> UserSubscriptionResult {
    UserSubscriptionResult { usage, ..s }
}

/// A subscription in another state, with the period end the provider reported.
pub open spec fn with_state(s: UserSubscriptionResult, st: SubscriptionState, period_end: i64) -> UserSubscriptionResult {
    UserSubscriptionResult { subscription_status: st, end_date: period_end, ..s }
}

/// The allowed moves between live states; staying put is always allowed.
pub open spec fn next_state(cur: SubscriptionState, target: SubscriptionState) -> Option<SubscriptionState> {
    if cur == target {
        Some(cur)
    } else {
        match (cur, target) {
            (SubscriptionState::PendingCheckout, SubscriptionState::Active) => Some(target),
            (SubscriptionState::Active, SubscriptionState::Cancelling) => Some(target),
            (SubscriptionState::Cancelling, SubscriptionState::Active) => Some(target),
            _ => None,
        }
    }
}

impl StoreModel {
    /// The store's invariant: one subscription per account and per provider
    /// id, usage within the tier's ceiling, no terminated subscription kept
    /// or revived, and one resource per short link.
    pub open spec fn wf(self) -> bool {
        &&& links_unique(self.urls)
        &&& forall|i: int, j: int|
            0 <= i < self.subs.len() && 0 <= j < self.subs.len() && (#[trigger] self.subs[i]).id@
                == (#[trigger] self.subs[j]).id@ ==> i == j
        &&& forall|i: int, j: int|
            0 <= i < self.subs.len() && 0 <= j < self.subs.len()
                && (#[trigger] self.subs[i]).subscription_id@
                == (#[trigger] self.subs[j]).subscription_id@ ==> i == j
        &&& forall|i: int|
            0 <= i < self.subs.len() ==> (#[trigger] self.subs[i]).usage as int <= tier_ceiling(
                self.subs[i].tier,
            )
        &&& forall|i: int|
            0 <= i < self.subs.len() ==> (#[trigger] self.subs[i]).subscription_status
                != SubscriptionState::Terminated
        &&& forall|i: int|
            0 <= i < self.subs.len() ==> !is_retired(
                self.retired,
                (#[trigger] self.subs[i]).subscription_id@,
            )
    }

    /// The subscription that an account owns, if any.
    pub open spec fn subscription_of(self, acct: Seq<char>) -> Option<UserSubscriptionResult> {
        match first_where(self.subs, sub_of_account(acct)) {
            Some(i) => Some(self.subs[i]),
            None => None,
        }
    }

    /// Adds one unit of usage unless the tier's ceiling is reached; the
    /// check and the update are one step.
    pub open spec fn increment(self, acct: Seq<char>) -> (StoreModel, Result<UserSubscriptionResult, GateError>) {
        match first_where(self.subs, sub_of_account(acct)) {
            None => (self, Err(GateError::NotFound)),
            Some(i) => {
                let s = self.subs[i];
                if s.usage as int >= tier_ceiling(s.tier) {
                    (self, Err(GateError::QuotaExceeded))
                } else {
                    let t = with_usage(s, (s.usage + 1) as u32);
                    (StoreModel { subs: self.subs.update(i, t), ..self }, Ok(t))
                }
            },
        }
    }

    /// The quota gate at time `now`: the account needs a subscription that
    /// entitles it then, and one unit is reserved as `increment` does.
    pub open spec fn reserve(self, acct: Seq<char>, now: i64) -> (StoreModel, Result<UserSubscriptionResult, GateError>) {
        match self.subscription_of(acct) {
            None => (self, Err(GateError::NoActiveSubscription)),
            Some(s) => if !entitled_at(s, now) {
                (self, Err(GateError::NoActiveSubscription))
            } else {
                self.increment(acct)
            },
        }
    }

    /// Creates the one subscription of an account, active from `now`.
    pub open spec fn create(self, acct: String, sid: String, tier: SubscriptionTier, now: i64) -> (StoreModel, Result<UserSubscriptionResult, GateError>) {
        if first_where(self.users, user_is(acct@)) is None {
            (self, Err(GateError::NotFound))
        } else if self.subscription_of(acct@) is Some || first_where(
            self.subs,
            sub_with_id(sid@),
        ) is Some || is_retired(self.retired, sid@) {
            (self, Err(GateError::Conflict))
        } else {
            let t = UserSubscriptionResult {
                id: acct,
                subscription_id: sid,
                tier,
                usage: 0,
                start_date: now,
                end_date: now,
                subscription_status: SubscriptionState::Active,
            };
            (StoreModel { subs: self.subs.push(t), ..self }, Ok(t))
        }
    }

    /// Removes an account's dependent records: its subscription, whose id is
    /// retired for good, and every resource it owns.
    pub open spec fn purge(self, acct: Seq<char>) -> StoreModel {
        match first_where(self.subs, sub_of_account(acct)) {
            Some(i) => StoreModel {
                subs: self.subs.remove(i),
                retired: self.retired.push(self.subs[i].subscription_id),
                urls: self.urls.filter(not_owned_by(acct)),
                ..self
            },
            None => StoreModel { urls: self.urls.filter(not_owned_by(acct)), ..self },
        }
    }

    /// Moves the subscription with a provider id toward a target state,
    /// recording the period end the provider reported with the change.
    /// Termination purges the owner's records; a terminated id accepts only
    /// termination again, as a no-op.
    pub open spec fn transition(self, sid: Seq<char>, target: SubscriptionState, period_end: i64) -> (StoreModel, Result<Option<UserSubscriptionResult>, GateError>) {
        if is_retired(self.retired, sid) {
            if target == SubscriptionState::Terminated {
                (self, Ok(None))
            } else {
                (self, Err(GateError::Conflict))
            }
        } else {
            match first_where(self.subs, sub_with_id(sid)) {
                None => (self, Err(GateError::NotFound)),
                Some(i) => {
                    let s = self.subs[i];
                    if target == SubscriptionState::Terminated {
                        (self.purge(s.id@), Ok(None))
                    } else {
                        match next_state(s.subscription_status, target) {
                            None => (self, Err(GateError::Conflict)),
                            Some(st) => {
                                let t = with_state(s, st, period_end);
                                (StoreModel { subs: self.subs.update(i, t), ..self }, Ok(Some(t)))
                            },
                        }
                    }
                },
            }
        }
    }

    /// Gives back one unit of usage, never going below zero.
    pub open spec fn release(self, acct: Seq<char>) -> (StoreModel, Result<UserSubscriptionResult, GateError>) {
        match first_where(self.subs, sub_of_account(acct)) {
            None => (self, Err(GateError::NotFound)),
            Some(i) => {
                let s = self.subs[i];
                let t = with_usage(s, if s.usage == 0 { 0u32 } else { (s.usage - 1) as u32 });
                (StoreModel { subs: self.subs.update(i, t), ..self }, Ok(t))
            },
        }
    }
}

/// The effect of signing a user up: the account under the normalized
/// identity is returned, created first if it was missing.
pub open spec fn upserted(m: StoreModel, user: User, now: i64, n: StoreModel, r: UserResult) -> bool {
    match first_where(m.users, user_is(normalized_id(user.id@))) {
        Some(i) => r == m.users[i] && n == m,
        None => {
            &&& r.id@ == normalized_id(user.id@)
            &&& r.username == user.username
            &&& r.email == user.email
            &&& r.created_at == now
            &&& n == StoreModel { users: m.users.push(r), ..m }
        },
    }
}

/// The effect of recording a checkout session: one entry is appended,
/// naming the session, the account and the tier asked for.
pub open spec fn session_added(m: StoreModel, n: StoreModel, user_id: Seq<char>, session: crate::models::PaymentSession) -> bool {
    exists|e: SessionEntry|
        n == StoreModel { sessions: m.sessions.push(e), ..m } && e.session_id == session.session_id
            && e.user_id@ == user_id && Some(e.tier) == crate::models::tier_named(session.tier@)
}

/// The entitlement store.
pub struct Database {
    users: Vec<UserResult>,
    sessions: Vec<SessionEntry>,
    subscriptions: Vec<UserSubscriptionResult>,
    retired: Vec<String>,
    urls: Vec<DynamicQrResult>,
}

impl View for Database {
    type V = StoreModel;

    closed spec fn view(&self) -> StoreModel {
        StoreModel {
            users: self.users@,
            sessions: self.sessions@,
            subs: self.subscriptions@,
            retired: self.retired@,
            urls: self.urls@,
        }
    }
}

fn find_user(v: &Vec<UserResult>, id: &str) -> (r: Option<usize>)
    ensures
        r matches Some(i) ==> first_where(v@, user_is(id@)) == Some(i as int),
        r is None ==> first_where(v@, user_is(id@)) is None,
{
    let mut i: usize = 0;
    while i < v.len()
        invariant
            i <= v@.len(),
            forall|j: int| 0 <= j < i ==> !user_is(id@)(#[trigger] v@[j]),
        decreases v.len() - i,
    {
        if same_text(v[i].id.as_str(), id) {
            proof {
                lemma_first_unique(v@, user_is(id@), i as int);
            }
            return Some(i);
        }
        i = i + 1;
    }
    proof {
        lemma_first_none(v@, user_is(id@));
    }
    None
}

fn find_sub_of_account(v: &Vec<UserSubscriptionResult>, acct: &str) -> (r: Option<usize>)
    ensures
        r matches Some(i) ==> first_where(v@, sub_of_account(acct@)) == Some(i as int),
        r is None ==> first_where(v@, sub_of_account(acct@)) is None,
{
    let mut i: usize = 0;
    while i < v.len()
        invariant
            i <= v@.len(),
            forall|j: int| 0 <= j < i ==> !sub_of_account(acct@)(#[trigger] v@[j]),
        decreases v.len() - i,
    {
        if same_text(v[i].id.as_str(), acct) {
            proof {
                lemma_first_unique(v@, sub_of_account(acct@), i as int);
            }
            return Some(i);
        }
        i = i + 1;
    }
    proof {
        lemma_first_none(v@, sub_of_account(acct@));
    }
    None
}

fn find_sub_with_id(v: &Vec<UserSubscriptionResult>, sid: &str) -> (r: Option<usize>)
    ensures
        r matches Some(i) ==> first_where(v@, sub_with_id(sid@)) == Some(i as int),
        r is None ==> first_where(v@, sub_with_id(sid@)) is None,
{
    let mut i: usize = 0;
    while i < v.len()
        invariant
            i <= v@.len(),
            forall|j: int| 0 <= j < i ==> !sub_with_id(sid@)(#[trigger] v@[j]),
        decreases v.len() - i,
    {
        if same_text(v[i].subscription_id.as_str(), sid) {
            proof {
                lemma_first_unique(v@, sub_with_id(sid@), i as int);
            }
            return Some(i);
        }
        i = i + 1;
    }
    proof {
        lemma_first_none(v@, sub_with_id(sid@));
    }
    None
}

fn find_session(v: &Vec<SessionEntry>, sid: &str) -> (r: Option<usize>)
    ensures
        r matches Some(i) ==> first_where(v@, session_is(sid@)) == Some(i as int),
        r is None ==> first_where(v@, session_is(sid@)) is None,
{
    let mut i: usize = 0;
    while i < v.len()
        invariant
            i <= v@.len(),
            forall|j: int| 0 <= j < i ==> !session_is(sid@)(#[trigger] v@[j]),
        decreases v.len() - i,
    {
        if same_text(v[i].session_id.as_str(), sid) {
            proof {
                lemma_first_unique(v@, session_is(sid@), i as int);
            }
            return Some(i);
        }
        i = i + 1;
    }
    proof {
        lemma_first_none(v@, session_is(sid@));
    }
    None
}

fn find_url(v: &Vec<DynamicQrResult>, server_url: &str) -> (r: Option<usize>)
    ensures
        r matches Some(i) ==> first_where(v@, url_at(server_url@)) == Some(i as int),
        r is None ==> first_where(v@, url_at(server_url@)) is None,
{
    let mut i: usize = 0;
    while i < v.len()
        invariant
            i <= v@.len(),
            forall|j: int| 0 <= j < i ==> !url_at(server_url@)(#[trigger] v@[j]),
        decreases v.len() - i,
    {
        if same_text(v[i].server_url.as_str(), server_url) {
            proof {
                lemma_first_unique(v@, url_at(server_url@), i as int);
            }
            return Some(i);
        }
        i = i + 1;
    }
    proof {
        lemma_first_none(v@, url_at(server_url@));
    }
    None
}

fn is_retired_id(v: &Vec<String>, sid: &str) -> (r: bool)
    ensures
        r == is_retired(v@, sid@),
{
    let mut i: usize = 0;
    while i < v.len()
        invariant
            i <= v@.len(),
            forall|j: int| 0 <= j < i ==> (#[trigger] v@[j])@ != sid@,
        decreases v.len() - i,
    {
        if same_text(v[i].as_str(), sid) {
            return true;
        }
        i = i + 1;
    }
    false
}


impl Database {
    /// An empty store.
    pub fn new() -> (r: Database)
        ensures
            r@.wf(),
            r@.users.len() == 0,
            r@.sessions.len() == 0,
            r@.subs.len() == 0,
            r@.retired.len() == 0,
            r@.urls.len() == 0,
    {
        Database {
            users: Vec::new(),
            sessions: Vec::new(),
            subscriptions: Vec::new(),
            retired: Vec::new(),
            urls: Vec::new(),
        }
    }

    /// Creates an account under the normalized form of the user's identity,
    /// or returns the account that already has that id.
    pub fn insert_user(&mut self, user: User, now: i64) -> (r: UserResult)
        requires
            old(self)@.wf(),
        ensures
            final(self)@.wf(),
            upserted(old(self)@, user, now, final(self)@, r),
    {
        let id = crate::models::format_user_id(user.id);
        match find_user(&self.users, id.as_str()) {
            Some(i) => self.users[i].duplicate(),
            None => {
                let created = UserResult {
                    id,
                    username: user.username,
                    email: user.email,
                    created_at: now,
                };
                let r = created.duplicate();
                self.users.push(created);
                proof {
                    assert(self@ =~= StoreModel { users: old(self)@.users.push(r), ..old(self)@ });
                }
                r
            },
        }
    }

    /// The account with the given id, if any.
    pub fn select_user(&self, user_id: &str) -> (r: Option<UserResult>)
        ensures
            r == match first_where(self@.users, user_is(user_id@)) {
                Some(i) => Some(self@.users[i]),
                None => None,
            },
    {
        match find_user(&self.users, user_id) {
            Some(i) => Some(self.users[i].duplicate()),
            None => None,
        }
    }

    /// Records a checkout session that an account began for a tier.
    /// Fails `NotFound` without such an account, `BadRequest` for an unknown
    /// tier and `Conflict` when the session id is taken.
    pub fn insert_session(&mut self, user_id: &str, session: crate::models::PaymentSession) -> (r:
        Result<crate::models::PaymentSessionResult, GateError>)
        requires
            old(self)@.wf(),
        ensures
            final(self)@.wf(),
            first_where(old(self)@.users, user_is(user_id@)) is None ==> r == Err::<
                crate::models::PaymentSessionResult,
                GateError,
            >(GateError::NotFound),
            first_where(old(self)@.users, user_is(user_id@)) is Some && crate::models::tier_named(
                session.tier@,
            ) is None ==> r == Err::<crate::models::PaymentSessionResult, GateError>(
                GateError::BadRequest,
            ),
            first_where(old(self)@.users, user_is(user_id@)) is Some && crate::models::tier_named(
                session.tier@,
            ) is Some && first_where(old(self)@.sessions, session_is(session.session_id@))
                is Some ==> r == Err::<crate::models::PaymentSessionResult, GateError>(
                GateError::Conflict,
            ),
            r is Err ==> final(self)@ == old(self)@,
            first_where(old(self)@.users, user_is(user_id@)) is Some && crate::models::tier_named(
                session.tier@,
            ) is Some && first_where(old(self)@.sessions, session_is(session.session_id@))
                is None ==> r is Ok,
            r matches Ok(p) ==> {
                &&& first_where(old(self)@.users, user_is(user_id@)) is Some
                &&& first_where(old(self)@.sessions, session_is(session.session_id@)) is None
                &&& p.session_id == session.session_id
                &&& p.tier == session.tier
                &&& final(self)@.users == old(self)@.users
                &&& final(self)@.subs == old(self)@.subs
                &&& final(self)@.retired == old(self)@.retired
                &&& final(self)@.urls == old(self)@.urls
                &&& final(self)@.sessions.len() == old(self)@.sessions.len() + 1
                &&& final(self)@.sessions.drop_last() == old(self)@.sessions
                &&& final(self)@.sessions.last().session_id == session.session_id
                &&& final(self)@.sessions.last().user_id@ == user_id@
                &&& Some(final(self)@.sessions.last().tier) == crate::models::tier_named(
                    session.tier@,
                )
                &&& session_added(old(self)@, final(self)@, user_id@, session)
            },
    {
        let u = find_user(&self.users, user_id);
        if u.is_none() {
            return Err(GateError::NotFound);
        }
        let tier = match SubscriptionTier::from_str(session.tier.as_str()) {
            Some(t) => t,
            None => {
                return Err(GateError::BadRequest);
            },
        };
        if find_session(&self.sessions, session.session_id.as_str()).is_some() {
            return Err(GateError::Conflict);
        }
        let entry = SessionEntry {
            session_id: session.session_id.clone(),
            user_id: crate::text::owned(user_id),
            tier,
        };
        let ghost e = entry;
        self.sessions.push(entry);
        proof {
            assert(self@.sessions.drop_last() =~= old(self)@.sessions);
            assert(self@ =~= StoreModel { sessions: old(self)@.sessions.push(e), ..old(self)@ });
            assert(e.session_id == session.session_id && e.user_id@ == user_id@);
            assert(session_added(old(self)@, self@, user_id@, session));
        }
        Ok(crate::models::PaymentSessionResult { session_id: session.session_id, tier: session.tier })
    }

    /// The account that began a checkout session.
    pub fn get_user_from_session(&self, session_id: &str) -> (r: Result<UserResult, GateError>)
        ensures
            r == match first_where(self@.sessions, session_is(session_id@)) {
                None => Err(GateError::NotFound),
                Some(k) => match first_where(self@.users, user_is(self@.sessions[k].user_id@)) {
                    None => Err(GateError::NotFound),
                    Some(i) => Ok(self@.users[i]),
                },
            },
    {
        match find_session(&self.sessions, session_id) {
            None => Err(GateError::NotFound),
            Some(k) => match find_user(&self.users, self.sessions[k].user_id.as_str()) {
                None => Err(GateError::NotFound),
                Some(i) => Ok(self.users[i].duplicate()),
            },
        }
    }

    /// The subscription that an account owns.
    pub fn get_subscription(&self, user_id: &str) -> (r: Option<UserSubscriptionResult>)
        ensures
            r == self@.subscription_of(user_id@),
    {
        match find_sub_of_account(&self.subscriptions, user_id) {
            Some(i) => Some(self.subscriptions[i].duplicate()),
            None => None,
        }
    }

    /// The provider id of an account's subscription.
    pub fn get_subscription_id(&self, user_id: &str) -> (r: Option<String>)
        ensures
            r == match self@.subscription_of(user_id@) {
                Some(s) => Some(s.subscription_id),
                None => None,
            },
    {
        match find_sub_of_account(&self.subscriptions, user_id) {
            Some(i) => Some(self.subscriptions[i].subscription_id.clone()),
            None => None,
        }
    }

    /// Whether an account holds a subscription that entitles it to gated operations.
    pub fn validate_subscription_status(&self, user_id: &str, now: i64) -> (r: bool)
        ensures
            r == match self@.subscription_of(user_id@) {
                Some(s) => entitled_at(s, now),
                None => false,
            },
    {
        match find_sub_of_account(&self.subscriptions, user_id) {
            Some(i) => self.subscriptions[i].entitles_at(now),
            None => false,
        }
    }

    /// The account that owns a subscription.
    pub fn get_user_from_subscription(&self, subscription_id: &str) -> (r: Result<UserResult, GateError>)
        ensures
            r == match first_where(self@.subs, sub_with_id(subscription_id@)) {
                None => Err(GateError::NotFound),
                Some(k) => match first_where(self@.users, user_is(self@.subs[k].id@)) {
                    None => Err(GateError::NotFound),
                    Some(i) => Ok(self@.users[i]),
                },
            },
    {
        match find_sub_with_id(&self.subscriptions, subscription_id) {
            None => Err(GateError::NotFound),
            Some(k) => match find_user(&self.users, self.subscriptions[k].id.as_str()) {
                None => Err(GateError::NotFound),
                Some(i) => Ok(self.users[i].duplicate()),
            },
        }
    }

    /// Adds one unit of usage unless the ceiling of the account's tier is reached.
    pub fn increment_usage(&mut self, user_id: &str) -> (r: Result<UserSubscriptionResult, GateError>)
        requires
            old(self)@.wf(),
        ensures
            final(self)@.wf(),
            (final(self)@, r) == old(self)@.increment(user_id@),
    {
        match find_sub_of_account(&self.subscriptions, user_id) {
            None => Err(GateError::NotFound),
            Some(i) => {
                if self.subscriptions[i].usage as i64 >= self.subscriptions[i].tier.max_usage() as i64 {
                    return Err(GateError::QuotaExceeded);
                }
                let mut t = self.subscriptions[i].duplicate();
                t.usage = t.usage + 1;
                let r = t.duplicate();
                self.subscriptions.set(i, t);
                proof {
                    let m = old(self)@;
                    assert(self@ =~= StoreModel { subs: m.subs.update(i as int, r), ..m });
                    lemma_update_wf(m, i as int, r);
                }
                Ok(r)
            },
        }
    }

    /// Gives back one unit of an account's usage, clamped at zero.
    pub fn decrement_usage(&mut self, user_id: &str) -> (r: Result<UserSubscriptionResult, GateError>)
        requires
            old(self)@.wf(),
        ensures
            final(self)@.wf(),
            (final(self)@, r) == old(self)@.release(user_id@),
    {
        match find_sub_of_account(&self.subscriptions, user_id) {
            None => Err(GateError::NotFound),
            Some(i) => {
                let mut t = self.subscriptions[i].duplicate();
                if t.usage > 0 {
                    t.usage = t.usage - 1;
                }
                let r = t.duplicate();
                self.subscriptions.set(i, t);
                proof {
                    let m = old(self)@;
                    assert(self@ =~= StoreModel { subs: m.subs.update(i as int, r), ..m });
                    lemma_update_wf(m, i as int, r);
                }
                Ok(r)
            },
        }
    }

    /// The quota gate: allows a gated create only for an account whose
    /// subscription entitles it and whose usage is under its tier's ceiling,
    /// and reserves one unit of usage in the same step.
    pub fn check_and_reserve(&mut self, user_id: &str, now: i64) -> (r: Result<UserSubscriptionResult, GateError>)
        requires
            old(self)@.wf(),
        ensures
            final(self)@.wf(),
            (final(self)@, r) == old(self)@.reserve(user_id@, now),
    {
        match find_sub_of_account(&self.subscriptions, user_id) {
            None => Err(GateError::NoActiveSubscription),
            Some(i) => {
                if !self.subscriptions[i].entitles_at(now) {
                    return Err(GateError::NoActiveSubscription);
                }
                self.increment_usage(user_id)
            },
        }
    }
}


/// One more element kept by a filter over a growing prefix.
proof fn lemma_filter_take_step<T>(s: Seq<T>, p: spec_fn(T) -> bool, k: int)
    requires
        0 <= k < s.len(),
    ensures
        s.take(k + 1).filter(p) == (if p(s[k]) {
            s.take(k).filter(p).push(s[k])
        } else {
            s.take(k).filter(p)
        }),
{
    reveal(Seq::filter);
    assert(s.take(k + 1).drop_last() =~= s.take(k));
}

/// Replacing one subscription by another with the same ids, a usage within
/// the ceiling and a live state keeps the invariant.
proof fn lemma_update_wf(m: StoreModel, i: int, t: UserSubscriptionResult)
    requires
        m.wf(),
        0 <= i < m.subs.len(),
        t.id@ == m.subs[i].id@,
        t.subscription_id@ == m.subs[i].subscription_id@,
        t.usage as int <= tier_ceiling(t.tier),
        t.subscription_status != SubscriptionState::Terminated,
    ensures
        (StoreModel { subs: m.subs.update(i, t), ..m }).wf(),
{
    let n = StoreModel { subs: m.subs.update(i, t), ..m };
    assert forall|a: int, b: int|
        0 <= a < n.subs.len() && 0 <= b < n.subs.len() && (#[trigger] n.subs[a]).id@ == (
        #[trigger] n.subs[b]).id@ implies a == b by {
        assert(m.subs[a].id@ == m.subs[b].id@);
    }
    assert forall|a: int, b: int|
        0 <= a < n.subs.len() && 0 <= b < n.subs.len() && (#[trigger] n.subs[a]).subscription_id@
            == (#[trigger] n.subs[b]).subscription_id@ implies a == b by {
        assert(m.subs[a].subscription_id@ == m.subs[b].subscription_id@);
    }
    assert forall|a: int| 0 <= a < n.subs.len() implies !is_retired(
        n.retired,
        (#[trigger] n.subs[a]).subscription_id@,
    ) by {
        assert(n.subs[a].subscription_id@ == m.subs[a].subscription_id@);
    }
}

/// Purging an account keeps the invariant.
pub proof fn lemma_purge_wf(m: StoreModel, acct: Seq<char>)
    requires
        m.wf(),
    ensures
        m.purge(acct).wf(),
{
    lemma_filter_links_unique(m.urls, not_owned_by(acct));
    if let Some(i) = first_where(m.subs, sub_of_account(acct)) {
        assert(is_first(m.subs, sub_of_account(acct), i));
        let n = m.purge(acct);
        let gone = m.subs[i].subscription_id;
        assert forall|a: int| 0 <= a < n.subs.len() implies #[trigger] n.subs[a] == m.subs[if a
            < i {
            a
        } else {
            a + 1
        }] by {}
        assert forall|a: int, b: int|
            0 <= a < n.subs.len() && 0 <= b < n.subs.len() && (#[trigger] n.subs[a]).id@ == (
            #[trigger] n.subs[b]).id@ implies a == b by {
            let a2 = if a < i { a } else { a + 1 };
            let b2 = if b < i { b } else { b + 1 };
            assert(n.subs[a] == m.subs[a2]);
            assert(n.subs[b] == m.subs[b2]);
            assert(m.subs[a2].id@ == m.subs[b2].id@);
        }
        assert forall|a: int, b: int|
            0 <= a < n.subs.len() && 0 <= b < n.subs.len()
                && (#[trigger] n.subs[a]).subscription_id@
                == (#[trigger] n.subs[b]).subscription_id@ implies a == b by {
            let a2 = if a < i { a } else { a + 1 };
            let b2 = if b < i { b } else { b + 1 };
            assert(n.subs[a] == m.subs[a2]);
            assert(n.subs[b] == m.subs[b2]);
            assert(m.subs[a2].subscription_id@ == m.subs[b2].subscription_id@);
        }
        assert forall|a: int| 0 <= a < n.subs.len() implies (#[trigger] n.subs[a]).usage as int
            <= tier_ceiling(n.subs[a].tier) && n.subs[a].subscription_status
            != SubscriptionState::Terminated by {
            let a2 = if a < i { a } else { a + 1 };
            assert(n.subs[a] == m.subs[a2]);
        }
        assert forall|a: int| 0 <= a < n.subs.len() implies !is_retired(
            n.retired,
            (#[trigger] n.subs[a]).subscription_id@,
        ) by {
            let a2 = if a < i { a } else { a + 1 };
            assert(n.subs[a] == m.subs[a2]);
            assert(a2 != i);
            assert(m.subs[a2].subscription_id@ != gone@);
            if is_retired(n.retired, n.subs[a].subscription_id@) {
                let k = choose|k: int|
                    0 <= k < n.retired.len() && (#[trigger] n.retired[k])@
                        == n.subs[a].subscription_id@;
                if k < m.retired.len() {
                    assert(n.retired[k] == m.retired[k]);
                    assert(is_retired(m.retired, m.subs[a2].subscription_id@));
                }
            }
        }
    }
}

fn next_state_of(cur: SubscriptionState, target: SubscriptionState) -> (r: Option<SubscriptionState>)
    ensures
        r == next_state(cur, target),
{
    if cur == target {
        return Some(cur);
    }
    match (cur, target) {
        (SubscriptionState::PendingCheckout, SubscriptionState::Active) => Some(target),
        (SubscriptionState::Active, SubscriptionState::Cancelling) => Some(target),
        (SubscriptionState::Cancelling, SubscriptionState::Active) => Some(target),
        _ => None,
    }
}

impl Database {
    /// Establishes the one subscription of an account, active from `now`.
    /// Fails `NotFound` without the account and `Conflict` when the account
    /// already has a subscription or the provider id is in use or retired.
    pub fn create_subscription(&mut self, user_id: String, subscription_id: String, tier: SubscriptionTier, now: i64) -> (r: Result<UserSubscriptionResult, GateError>)
        requires
            old(self)@.wf(),
        ensures
            final(self)@.wf(),
            (final(self)@, r) == old(self)@.create(user_id, subscription_id, tier, now),
    {
        if find_user(&self.users, user_id.as_str()).is_none() {
            return Err(GateError::NotFound);
        }
        if find_sub_of_account(&self.subscriptions, user_id.as_str()).is_some() || find_sub_with_id(
            &self.subscriptions,
            subscription_id.as_str(),
        ).is_some() || is_retired_id(&self.retired, subscription_id.as_str()) {
            return Err(GateError::Conflict);
        }
        let t = UserSubscriptionResult {
            id: user_id,
            subscription_id,
            tier,
            usage: 0,
            start_date: now,
            end_date: now,
            subscription_status: SubscriptionState::Active,
        };
        let r = t.duplicate();
        self.subscriptions.push(t);
        proof {
            let m = old(self)@;
            assert(self@ =~= StoreModel { subs: m.subs.push(r), ..m });
            lemma_first_none(m.subs, sub_of_account(r.id@));
            lemma_first_none(m.subs, sub_with_id(r.subscription_id@));
            let n = self@;
            assert forall|a: int, b: int|
                0 <= a < n.subs.len() && 0 <= b < n.subs.len() && (#[trigger] n.subs[a]).id@ == (
                #[trigger] n.subs[b]).id@ implies a == b by {
                if a < m.subs.len() && b == m.subs.len() {
                    assert(!sub_of_account(r.id@)(m.subs[a]));
                }
                if b < m.subs.len() && a == m.subs.len() {
                    assert(!sub_of_account(r.id@)(m.subs[b]));
                }
            }
            assert forall|a: int, b: int|
                0 <= a < n.subs.len() && 0 <= b < n.subs.len()
                    && (#[trigger] n.subs[a]).subscription_id@
                    == (#[trigger] n.subs[b]).subscription_id@ implies a == b by {
                if a < m.subs.len() && b == m.subs.len() {
                    assert(!sub_with_id(r.subscription_id@)(m.subs[a]));
                }
                if b < m.subs.len() && a == m.subs.len() {
                    assert(!sub_with_id(r.subscription_id@)(m.subs[b]));
                }
            }
        }
        Ok(r)
    }

    /// Records a subscription that the billing provider reports for an
    /// account; an unknown tier name fails `BadRequest`.
    pub fn insert_subscription(&mut self, user_id: &str, subscription: crate::models::UserSubscription, now: i64) -> (r: Result<UserSubscriptionResult, GateError>)
        requires
            old(self)@.wf(),
        ensures
            final(self)@.wf(),
            crate::models::tier_named(subscription.tier@) is None ==> r == Err::<
                UserSubscriptionResult,
                GateError,
            >(GateError::BadRequest) && final(self)@ == old(self)@,
            crate::models::tier_named(subscription.tier@) matches Some(t) ==> exists|a: String|
                a@ == user_id@ && (final(self)@, r) == old(self)@.create(
                    a,
                    subscription.sub_id,
                    t,
                    now,
                ),
    {
        match SubscriptionTier::from_str(subscription.tier.as_str()) {
            None => Err(GateError::BadRequest),
            Some(t) => {
                let a = crate::text::owned(user_id);
                let ghost ga = a;
                let r = self.create_subscription(a, subscription.sub_id, t, now);
                assert((final(self)@, r) == old(self)@.create(ga, subscription.sub_id, t, now));
                r
            },
        }
    }

    /// Removes an account's subscription, retiring its provider id, and every
    /// resource that the account owns; tells whether a subscription was there.
    pub fn delete_user_data(&mut self, user_id: &str) -> (r: bool)
        requires
            old(self)@.wf(),
        ensures
            final(self)@.wf(),
            final(self)@ == old(self)@.purge(user_id@),
            r == old(self)@.subscription_of(user_id@) is Some,
    {
        let had = match find_sub_of_account(&self.subscriptions, user_id) {
            Some(i) => {
                let removed = self.subscriptions.remove(i);
                self.retired.push(removed.subscription_id);
                true
            },
            None => false,
        };
        let ghost mid = self@;
        let mut kept: Vec<DynamicQrResult> = Vec::new();
        let mut k: usize = 0;
        while k < self.urls.len()
            invariant
                self@ == mid,
                mid.urls == old(self)@.urls,
                k <= self.urls@.len(),
                kept@ == self.urls@.take(k as int).filter(not_owned_by(user_id@)),
            decreases self.urls.len() - k,
        {
            proof {
                lemma_filter_take_step(self.urls@, not_owned_by(user_id@), k as int);
            }
            if !same_text(self.urls[k].owner.as_str(), user_id) {
                kept.push(self.urls[k].duplicate());
            }
            k = k + 1;
        }
        proof {
            assert(self.urls@.take(self.urls@.len() as int) =~= self.urls@);
        }
        self.urls = kept;
        proof {
            lemma_purge_wf(old(self)@, user_id@);
            assert(self@ =~= old(self)@.purge(user_id@));
        }
        had
    }

    /// Moves the subscription with a provider id toward a target state; see
    /// `StoreModel::transition`.
    pub fn transition_subscription(&mut self, subscription_id: &str, target: SubscriptionState, period_end: i64) -> (r: Result<Option<UserSubscriptionResult>, GateError>)
        requires
            old(self)@.wf(),
        ensures
            final(self)@.wf(),
            (final(self)@, r) == old(self)@.transition(subscription_id@, target, period_end),
    {
        if is_retired_id(&self.retired, subscription_id) {
            if target == SubscriptionState::Terminated {
                return Ok(None);
            } else {
                return Err(GateError::Conflict);
            }
        }
        match find_sub_with_id(&self.subscriptions, subscription_id) {
            None => Err(GateError::NotFound),
            Some(i) => {
                if target == SubscriptionState::Terminated {
                    let owner = self.subscriptions[i].id.clone();
                    self.delete_user_data(owner.as_str());
                    return Ok(None);
                }
                match next_state_of(self.subscriptions[i].subscription_status, target) {
                    None => Err(GateError::Conflict),
                    Some(st) => {
                        let mut t = self.subscriptions[i].duplicate();
                        t.subscription_status = st;
                        t.end_date = period_end;
                        let r = t.duplicate();
                        self.subscriptions.set(i, t);
                        proof {
                            let m = old(self)@;
                            assert(self@ =~= StoreModel { subs: m.subs.update(i as int, r), ..m });
                            lemma_update_wf(m, i as int, r);
                        }
                        Ok(Some(r))
                    },
                }
            },
        }
    }

    /// Moves an account's subscription toward a target state.
    pub fn set_subscription_status(&mut self, user_id: &str, status: SubscriptionState, period_end: i64) -> (r: Result<Option<UserSubscriptionResult>, GateError>)
        requires
            old(self)@.wf(),
        ensures
            final(self)@.wf(),
            match old(self)@.subscription_of(user_id@) {
                None => r == Err::<Option<UserSubscriptionResult>, GateError>(GateError::NotFound)
                    && final(self)@ == old(self)@,
                Some(s) => (final(self)@, r) == old(self)@.transition(s.subscription_id@, status, period_end),
            },
    {
        match find_sub_of_account(&self.subscriptions, user_id) {
            None => Err(GateError::NotFound),
            Some(i) => {
                let sid = self.subscriptions[i].subscription_id.clone();
                self.transition_subscription(sid.as_str(), status, period_end)
            },
        }
    }
}


impl Database {
    /// Changes the tier of an account's subscription. Fails `BadRequest` for
    /// an unknown tier, `NotFound` when the provider id is not the account's,
    /// and `Conflict` when the usage already exceeds the new ceiling.
    pub fn override_subscription(&mut self, user_id: &str, subscription_id: &str, new_tier: &str, now: i64) -> (r: Result<UserSubscriptionResult, GateError>)
        requires
            old(self)@.wf(),
        ensures
            final(self)@.wf(),
            r is Err ==> final(self)@ == old(self)@,
            crate::models::tier_named(new_tier@) is None ==> r == Err::<
                UserSubscriptionResult,
                GateError,
            >(GateError::BadRequest),
            crate::models::tier_named(new_tier@) matches Some(t) ==> match first_where(
                old(self)@.subs,
                sub_with_id(subscription_id@),
            ) {
                None => r == Err::<UserSubscriptionResult, GateError>(GateError::NotFound),
                Some(i) => {
                    let s = old(self)@.subs[i];
                    if s.id@ != user_id@ {
                        r == Err::<UserSubscriptionResult, GateError>(GateError::NotFound)
                    } else if s.usage as int > tier_ceiling(t) {
                        r == Err::<UserSubscriptionResult, GateError>(GateError::Conflict)
                    } else {
                        let u = UserSubscriptionResult { tier: t, start_date: now, end_date: now, ..s };
                        r == Ok::<UserSubscriptionResult, GateError>(u) && final(self)@ == StoreModel {
                            subs: old(self)@.subs.update(i, u),
                            ..old(self)@
                        }
                    }
                },
            },
    {
        let t = match SubscriptionTier::from_str(new_tier) {
            None => {
                return Err(GateError::BadRequest);
            },
            Some(t) => t,
        };
        match find_sub_with_id(&self.subscriptions, subscription_id) {
            None => Err(GateError::NotFound),
            Some(i) => {
                if !same_text(self.subscriptions[i].id.as_str(), user_id) {
                    return Err(GateError::NotFound);
                }
                if self.subscriptions[i].usage as i64 > t.max_usage() as i64 {
                    return Err(GateError::Conflict);
                }
                let mut u = self.subscriptions[i].duplicate();
                u.tier = t;
                u.start_date = now;
                u.end_date = now;
                let r = u.duplicate();
                self.subscriptions.set(i, u);
                proof {
                    let m = old(self)@;
                    assert(self@ =~= StoreModel { subs: m.subs.update(i as int, r), ..m });
                    lemma_update_wf(m, i as int, r);
                }
                Ok(r)
            },
        }
    }

    /// Stores a new gated resource for an account under a fresh short link.
    /// Fails `Conflict` when the short link is taken.
    pub fn insert_dynamic_url(&mut self, user_id: &str, dynamic_url: crate::models::DynamicQr, id: String, server_url: String, now: i64) -> (r: Result<DynamicQrResult, GateError>)
        requires
            old(self)@.wf(),
        ensures
            final(self)@.wf(),
            first_where(old(self)@.urls, url_at(server_url@)) is Some ==> r == Err::<
                DynamicQrResult,
                GateError,
            >(GateError::Conflict) && final(self)@ == old(self)@,
            first_where(old(self)@.urls, url_at(server_url@)) is None ==> (r matches Ok(q) && {
                &&& q.id == id
                &&& q.owner@ == user_id@
                &&& q.server_url == server_url
                &&& q.target_url == dynamic_url.target_url
                &&& q.access_count == 0
                &&& q.last_accessed == now
                &&& q.created_at == now
                &&& q.updated_at == now
                &&& final(self)@ == StoreModel { urls: old(self)@.urls.push(q), ..old(self)@ }
            }),
    {
        if find_url(&self.urls, server_url.as_str()).is_some() {
            return Err(GateError::Conflict);
        }
        let q = DynamicQrResult {
            id,
            owner: crate::text::owned(user_id),
            server_url,
            target_url: dynamic_url.target_url,
            access_count: 0,
            last_accessed: now,
            created_at: now,
            updated_at: now,
        };
        let r = q.duplicate();
        self.urls.push(q);
        proof {
            let m = old(self)@;
            assert(self@ =~= StoreModel { urls: m.urls.push(r), ..m });
            lemma_first_none(m.urls, url_at(r.server_url@));
            let u = self@.urls;
            assert forall|a: int, b: int|
                0 <= a < u.len() && 0 <= b < u.len() && (#[trigger] u[a]).server_url@ == (
                #[trigger] u[b]).server_url@ implies a == b by {
                if a < m.urls.len() && b == m.urls.len() {
                    assert(!url_at(r.server_url@)(m.urls[a]));
                }
                if b < m.urls.len() && a == m.urls.len() {
                    assert(!url_at(r.server_url@)(m.urls[b]));
                }
            }
        }
        Ok(r)
    }

    /// Resolves a short link to its target and counts the access.
    pub fn lookup_dynamic_url(&mut self, server_url: &str, now: i64) -> (r: Result<String, GateError>)
        requires
            old(self)@.wf(),
        ensures
            final(self)@.wf(),
            match first_where(old(self)@.urls, url_at(server_url@)) {
                None => r == Err::<String, GateError>(GateError::NotFound) && final(self)@ == old(self)@,
                Some(i) => {
                    let q = old(self)@.urls[i];
                    let c = if q.access_count < u64::MAX {
                        (q.access_count + 1) as u64
                    } else {
                        q.access_count
                    };
                    &&& r == Ok::<String, GateError>(q.target_url)
                    &&& final(self)@ == StoreModel {
                        urls: old(self)@.urls.update(
                            i,
                            DynamicQrResult { access_count: c, last_accessed: now, ..q },
                        ),
                        ..old(self)@
                    }
                },
            },
    {
        match find_url(&self.urls, server_url) {
            None => Err(GateError::NotFound),
            Some(i) => {
                let mut q = self.urls[i].duplicate();
                if q.access_count < u64::MAX {
                    q.access_count = q.access_count + 1;
                }
                q.last_accessed = now;
                let target = q.target_url.clone();
                self.urls.set(i, q);
                proof {
                    assert(self@.urls =~= old(self)@.urls.update(i as int, self@.urls[i as int]));
                }
                Ok(target)
            },
        }
    }

    /// Points an account's short link at a new target. A link that is
    /// missing or owned by another account fails `NotFound` alike.
    pub fn update_dynamic_url(&mut self, user_id: &str, server_url: &str, new_target_url: String, now: i64) -> (r: Result<DynamicQrResult, GateError>)
        requires
            old(self)@.wf(),
        ensures
            final(self)@.wf(),
            match first_where(old(self)@.urls, url_at(server_url@)) {
                None => r == Err::<DynamicQrResult, GateError>(GateError::NotFound) && final(self)@ == old(self)@,
                Some(i) => {
                    let q = old(self)@.urls[i];
                    if q.owner@ != user_id@ {
                        r == Err::<DynamicQrResult, GateError>(GateError::NotFound) && final(self)@ == old(self)@
                    } else {
                        let u = DynamicQrResult { target_url: new_target_url, updated_at: now, ..q };
                        r == Ok::<DynamicQrResult, GateError>(u) && final(self)@ == StoreModel {
                            urls: old(self)@.urls.update(i, u),
                            ..old(self)@
                        }
                    }
                },
            },
    {
        match find_url(&self.urls, server_url) {
            None => Err(GateError::NotFound),
            Some(i) => {
                if !same_text(self.urls[i].owner.as_str(), user_id) {
                    return Err(GateError::NotFound);
                }
                let mut q = self.urls[i].duplicate();
                q.target_url = new_target_url;
                q.updated_at = now;
                let r = q.duplicate();
                self.urls.set(i, q);
                proof {
                    assert(self@ =~= StoreModel { urls: old(self)@.urls.update(i as int, r), ..old(self)@ });
                }
                Ok(r)
            },
        }
    }

    /// Removes an account's short link. A link that is missing or owned by
    /// another account fails `NotFound` alike.
    pub fn delete_dynamic_url(&mut self, user_id: &str, server_url: &str) -> (r: Result<bool, GateError>)
        requires
            old(self)@.wf(),
        ensures
            final(self)@.wf(),
            match first_where(old(self)@.urls, url_at(server_url@)) {
                None => r == Err::<bool, GateError>(GateError::NotFound) && final(self)@ == old(self)@,
                Some(i) => if old(self)@.urls[i].owner@ != user_id@ {
                    r == Err::<bool, GateError>(GateError::NotFound) && final(self)@ == old(self)@
                } else {
                    r == Ok::<bool, GateError>(true) && final(self)@ == StoreModel {
                        urls: old(self)@.urls.remove(i),
                        ..old(self)@
                    }
                },
            },
    {
        match find_url(&self.urls, server_url) {
            None => Err(GateError::NotFound),
            Some(i) => {
                if !same_text(self.urls[i].owner.as_str(), user_id) {
                    return Err(GateError::NotFound);
                }
                self.urls.remove(i);
                proof {
                    assert(self@ =~= StoreModel { urls: old(self)@.urls.remove(i as int), ..old(self)@ });
                }
                Ok(true)
            },
        }
    }

    /// The resources that an account owns, in creation order.
    pub fn list_user_urls(&self, user_id: &str) -> (r: Vec<DynamicQrResult>)
        ensures
            r@ == self@.urls.filter(owned_by(user_id@)),
    {
        let mut out: Vec<DynamicQrResult> = Vec::new();
        let mut k: usize = 0;
        while k < self.urls.len()
            invariant
                k <= self.urls@.len(),
                out@ == self.urls@.take(k as int).filter(owned_by(user_id@)),
            decreases self.urls.len() - k,
        {
            proof {
                lemma_filter_take_step(self.urls@, owned_by(user_id@), k as int);
            }
            if same_text(self.urls[k].owner.as_str(), user_id) {
                out.push(self.urls[k].duplicate());
            }
            k = k + 1;
        }
        proof {
            assert(self.urls@.take(self.urls@.len() as int) =~= self.urls@);
        }
        out
    }

    /// The stored owner of the resource under a short link, if any.
    pub fn resource_owner(&self, server_url: &str) -> (r: Option<String>)
        ensures
            r == match first_where(self@.urls, url_at(server_url@)) {
                Some(i) => Some(self@.urls[i].owner),
                None => None,
            },
    {
        match find_url(&self.urls, server_url) {
            Some(i) => Some(self.urls[i].owner.clone()),
            None => None,
        }
    }
}


impl SessionEntry {
    /// A field-by-field copy.
    pub fn duplicate(&self) -> (r: SessionEntry)
        ensures
            r == *self,
    {
        SessionEntry { session_id: self.session_id.clone(), user_id: self.user_id.clone(), tier: self.tier }
    }
}

impl Database {
    /// The checkout session with the given id, if any.
    pub fn get_session(&self, session_id: &str) -> (r: Option<SessionEntry>)
        ensures
            r == match first_where(self@.sessions, session_is(session_id@)) {
                Some(k) => Some(self@.sessions[k]),
                None => None,
            },
    {
        match find_session(&self.sessions, session_id) {
            Some(k) => Some(self.sessions[k].duplicate()),
            None => None,
        }
    }

    /// Whether a provider subscription id has been terminated.
    pub fn is_terminated(&self, subscription_id: &str) -> (r: bool)
        ensures
            r == is_retired(self@.retired, subscription_id@),
    {
        is_retired_id(&self.retired, subscription_id)
    }
}


/// The store after `n` quota checks on one account, one after another, with
/// the number of them that were allowed.
pub open spec fn reserve_n(m: StoreModel, acct: Seq<char>, n: nat, now: i64) -> (StoreModel, nat)
    decreases n,
{
    if n == 0 {
        (m, 0)
    } else {
        let (m1, allowed) = reserve_n(m, acct, (n - 1) as nat, now);
        let (m2, r) = m1.reserve(acct, now);
        (m2, if r is Ok { allowed + 1 } else { allowed })
    }
}

/// The smaller of two numbers.
pub open spec fn min_nat(a: nat, b: nat) -> nat {
    if a <= b { a } else { b }
}

/// However `n` concurrent quota checks on an entitled account at zero usage
/// are ordered (the store applies them one at a time), exactly
/// `min(n, ceiling)` are allowed and the usage ends at that number.
pub proof fn lemma_concurrent_reserves(m: StoreModel, acct: Seq<char>, n: nat, now: i64)
    requires
        m.wf(),
        m.subscription_of(acct) is Some,
        entitled_at(m.subscription_of(acct)->0, now),
        m.subscription_of(acct)->0.usage == 0,
    ensures
        ({
            let s = m.subscription_of(acct)->0;
            let cap = tier_ceiling(s.tier) as nat;
            let (mn, allowed) = reserve_n(m, acct, n, now);
            &&& allowed == min_nat(n, cap)
            &&& mn.wf()
            &&& mn.subscription_of(acct) == Some(with_usage(s, min_nat(n, cap) as u32))
        }),
    decreases n,
{
    let s = m.subscription_of(acct)->0;
    let cap = tier_ceiling(s.tier) as nat;
    let i = first_where(m.subs, sub_of_account(acct))->0;
    assert(is_first(m.subs, sub_of_account(acct), i));
    if n == 0 {
        assert(with_usage(s, 0u32) == s);
    } else {
        lemma_concurrent_reserves(m, acct, (n - 1) as nat, now);
        let (m1, a1) = reserve_n(m, acct, (n - 1) as nat, now);
        let u = min_nat((n - 1) as nat, cap);
        let s1 = with_usage(s, u as u32);
        assert(m1.subscription_of(acct) == Some(s1));
        let j = first_where(m1.subs, sub_of_account(acct))->0;
        assert(is_first(m1.subs, sub_of_account(acct), j));
        if u < cap {
            let t = with_usage(s1, (s1.usage + 1) as u32);
            assert(t == with_usage(s, min_nat(n, cap) as u32));
            let m2 = StoreModel { subs: m1.subs.update(j, t), ..m1 };
            lemma_first_update(m1.subs, sub_of_account(acct), j, t);
            assert(m2.subs[j] == t);
            lemma_update_wf(m1, j, t);
        } else {
            assert(min_nat(n, cap) == cap);
        }
    }
}

} // verus!
