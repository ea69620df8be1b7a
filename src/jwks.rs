//! Signing keys: the published key document's entries, base64url handling,
//! and the process-wide key-set cache with its refresh protocol.

use vstd::prelude::*;

use base64::Engine;

use crate::errors::GateError;
use crate::store::{first_where, is_first, lemma_first_none, lemma_first_unique};
use crate::text::same_text;

verus! {

#[verifier::external_type_specification]
#[verifier::external_body]
pub struct ExDecodeError(base64::DecodeError);

/// What padded URL-safe base64 text decodes to, if it is well formed.
pub uninterp spec fn url_safe_decoded(text: Seq<char>) -> Option<Seq<u8>>;

/// Relies on base64's `URL_SAFE` engine (`Engine::decode`): the bytes that
/// padded URL-safe base64 text denotes, or an error; a function of the text alone.
#[verifier::external_body]
fn decode_url_safe(text: &str) -> (r: Result<Vec<u8>, base64::DecodeError>)
    ensures
        match r {
            Ok(bytes) => url_safe_decoded(text@) == Some(bytes@),
            Err(_) => url_safe_decoded(text@) is None,
        },
{
    base64::engine::general_purpose::URL_SAFE.decode(text)
}

/// The number of `=` that brings a length to a multiple of four.
pub open spec fn pad_len(n: nat) -> nat {
    ((4 - (n % 4)) % 4) as nat
}

/// Base64url text padded with `=` to a multiple of four characters.
pub open spec fn padded(s: Seq<char>) -> Seq<char> {
    s + Seq::new(pad_len(s.len()), |_i: int| '=')
}

/// Pads unpadded base64url text with `=` to a multiple of four characters.
pub fn pad_base64_url(encoded: &str) -> (r: String)
    ensures
        r@ == padded(encoded@),
{
    let mut padded_text = crate::text::owned(encoded);
    let count: usize = encoded.unicode_len();
    let pad: usize = (4 - count % 4) % 4;
    let mut k: usize = 0;
    while k < pad
        invariant
            k <= pad,
            pad == pad_len(encoded@.len()),
            padded_text@ == encoded@ + Seq::new(k as nat, |_i: int| '='),
        decreases pad - k,
    {
        crate::text::push_char(&mut padded_text, '=');
        k = k + 1;
        proof {
            assert(padded_text@ =~= encoded@ + Seq::new(k as nat, |_i: int| '='));
        }
    }
    padded_text
}

/// One entry of the published key document.
pub struct Jwk {
    pub alg: String,
    pub kty: String,
    pub kid: String,
    pub n: String,
    pub e: String,
}

impl Jwk {
    /// A field-by-field copy.
    pub fn duplicate(&self) -> (r: Jwk)
        ensures
            r == *self,
    {
        Jwk {
            alg: self.alg.clone(),
            kty: self.kty.clone(),
            kid: self.kid.clone(),
            n: self.n.clone(),
            e: self.e.clone(),
        }
    }
}

/// The RSA modulus and exponent of a key, if it is an RSA key whose
/// components decode.
pub open spec fn rsa_components(jwk: Jwk) -> Option<(Seq<u8>, Seq<u8>)> {
    if jwk.kty@ != "RSA"@ {
        None
    } else {
        match (url_safe_decoded(padded(jwk.n@)), url_safe_decoded(padded(jwk.e@))) {
            (Some(n), Some(e)) => Some((n, e)),
            _ => None,
        }
    }
}

/// Decodes the RSA modulus and exponent of a key; a key of another type or
/// with malformed components cannot check a signature.
pub fn cleanse_jwk(jwk: &Jwk) -> (r: Result<(Vec<u8>, Vec<u8>), GateError>)
    ensures
        match rsa_components(*jwk) {
            Some((n, e)) => r matches Ok((rn, re)) && rn@ == n && re@ == e,
            None => r == Err::<(Vec<u8>, Vec<u8>), GateError>(GateError::InvalidSignature),
        },
{
    let rsa = "RSA";
    if !same_text(jwk.kty.as_str(), rsa) {
        return Err(GateError::InvalidSignature);
    }
    let n_padded = pad_base64_url(jwk.n.as_str());
    let e_padded = pad_base64_url(jwk.e.as_str());
    let n_bytes = match decode_url_safe(n_padded.as_str()) {
        Ok(b) => b,
        Err(_) => {
            return Err(GateError::InvalidSignature);
        },
    };
    let e_bytes = match decode_url_safe(e_padded.as_str()) {
        Ok(b) => b,
        Err(_) => {
            return Err(GateError::InvalidSignature);
        },
    };
    Ok((n_bytes, e_bytes))
}

/// Selects the key with the given key id.
pub open spec fn jwk_is(kid: Seq<char>) -> spec_fn(Jwk) -> bool {
    |k: Jwk| k.kid@ == kid
}

/// The key with the given id in a key set, if any.
pub open spec fn key_in(keys: Seq<Jwk>, kid: Seq<char>) -> Option<Jwk> {
    match first_where(keys, jwk_is(kid)) {
        Some(i) => Some(keys[i]),
        None => None,
    }
}

fn find_key(v: &Vec<Jwk>, kid: &str) -> (r: Option<Jwk>)
    ensures
        r == key_in(v@, kid@),
{
    let mut i: usize = 0;
    while i < v.len()
        invariant
            i <= v@.len(),
            forall|j: int| 0 <= j < i ==> !jwk_is(kid@)(#[trigger] v@[j]),
        decreases v.len() - i,
    {
        if same_text(v[i].kid.as_str(), kid) {
            proof {
                lemma_first_unique(v@, jwk_is(kid@), i as int);
            }
            return Some(v[i].duplicate());
        }
        i = i + 1;
    }
    proof {
        lemma_first_none(v@, jwk_is(kid@));
    }
    None
}

/// The cache's state: the keys last fetched and how many refreshes were made.
pub struct KeySetModel {
    pub keys: Seq<Jwk>,
    pub refreshes: nat,
}

/// What a lookup in the cache tells the caller to do next.
pub enum KeyStep {
    /// The key is cached.
    Ready(Jwk),
    /// The key is not cached: fetch the key document once and call `complete`.
    Refresh,
}

impl KeySetModel {
    /// The first step of resolving a key id.
    pub open spec fn lookup(self, kid: Seq<char>) -> KeyStep {
        match key_in(self.keys, kid) {
            Some(k) => KeyStep::Ready(k),
            None => KeyStep::Refresh,
        }
    }

    /// The second step: a fetched key set replaces the cache and is searched
    /// once; a failed fetch leaves the cache as it was.
    pub open spec fn complete(self, kid: Seq<char>, fetched: Result<Seq<Jwk>, GateError>) -> (KeySetModel, Result<Jwk, GateError>) {
        match fetched {
            Err(e) => (self, Err(e)),
            Ok(keys) => (
                KeySetModel { keys, refreshes: self.refreshes + 1 },
                match key_in(keys, kid) {
                    Some(k) => Ok(k),
                    None => Err(GateError::UnknownSigningKey),
                },
            ),
        }
    }
}

/// The key-set cache: signing keys by key id, replaced whole on a miss.
pub struct KeySetCache {
    keys: Vec<Jwk>,
    refreshes: u64,
}

impl View for KeySetCache {
    type V = KeySetModel;

    closed spec fn view(&self) -> KeySetModel {
        KeySetModel { keys: self.keys@, refreshes: self.refreshes as nat }
    }
}

/// The views of the keys in a fetched key set.
pub open spec fn fetched_view(fetched: Result<Vec<Jwk>, GateError>) -> Result<Seq<Jwk>, GateError> {
    match fetched {
        Ok(v) => Ok(v@),
        Err(e) => Err(e),
    }
}

impl KeySetCache {
    /// An empty cache.
    pub fn new() -> (r: KeySetCache)
        ensures
            r@.keys.len() == 0,
            r@.refreshes == 0,
    {
        KeySetCache { keys: Vec::new(), refreshes: 0 }
    }

    /// Looks a key id up in the cache.
    pub fn lookup(&self, kid: &str) -> (r: KeyStep)
        ensures
            r == self@.lookup(kid@),
    {
        match find_key(&self.keys, kid) {
            Some(k) => KeyStep::Ready(k),
            None => KeyStep::Refresh,
        }
    }

    /// Installs the outcome of one fetch of the key document and looks the
    /// key id up in it. The refresh count stops at `u64::MAX`.
    pub fn complete(&mut self, kid: &str, fetched: Result<Vec<Jwk>, GateError>) -> (r: Result<Jwk, GateError>)
        requires
            old(self)@.refreshes < u64::MAX,
        ensures
            (final(self)@, r) == old(self)@.complete(kid@, fetched_view(fetched)),
    {
        match fetched {
            Err(e) => Err(e),
            Ok(keys) => {
                let found = find_key(&keys, kid);
                self.keys = keys;
                self.refreshes = self.refreshes + 1;
                match found {
                    Some(k) => Ok(k),
                    None => Err(GateError::UnknownSigningKey),
                }
            },
        }
    }

    /// The number of refreshes made so far.
    pub fn refresh_count(&self) -> (r: u64)
        ensures
            r as nat == self@.refreshes,
    {
        self.refreshes
    }
}

/// Resolving a key id that neither the cache nor the freshly fetched key
/// set holds fails `UnknownSigningKey` after exactly one refresh; a fetch
/// failure is not remembered.
pub proof fn lemma_unknown_key_one_refresh(m: KeySetModel, kid: Seq<char>, fetched: Seq<Jwk>)
    requires
        key_in(m.keys, kid) is None,
        key_in(fetched, kid) is None,
    ensures
        m.lookup(kid) == KeyStep::Refresh,
        m.complete(kid, Ok(fetched)).1 == Err::<Jwk, GateError>(GateError::UnknownSigningKey),
        m.complete(kid, Ok(fetched)).0.refreshes == m.refreshes + 1,
        m.complete(kid, Ok(fetched)).0.keys == fetched,
        forall|e: GateError| #[trigger] m.complete(kid, Err(e)).0 == m,
{
}

/// A cached key is used without any refresh.
pub proof fn lemma_known_key_no_refresh(m: KeySetModel, kid: Seq<char>)
    requires
        key_in(m.keys, kid) is Some,
    ensures
        m.lookup(kid) == KeyStep::Ready(key_in(m.keys, kid)->0),
        key_in(m.keys, kid)->0.kid@ == kid,
{
    let i = first_where(m.keys, jwk_is(kid))->0;
    assert(is_first(m.keys, jwk_is(kid), i));
}

} // verus!
