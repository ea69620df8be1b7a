//! Bearer-credential verification: the key id from the unverified header,
//! a fixed signing algorithm, and the signature, expiry and audience checks
//! made by `jsonwebtoken`, turned into identity claims.

use vstd::prelude::*;

use crate::errors::GateError;
use crate::jwks::{cleanse_jwk, key_in, rsa_components, Jwk, KeySetCache, KeySetModel, KeyStep};

verus! {

#[verifier::external_type_specification]
#[verifier::external_body]
pub struct ExJwtError(jsonwebtoken::errors::Error);

#[verifier::external_type_specification]
#[verifier::external_body]
pub struct ExDecodingKey(jsonwebtoken::DecodingKey);

#[verifier::external_type_specification]
#[verifier::external_body]
pub struct ExValidation(jsonwebtoken::Validation);

/// The identity claims of a verified credential.
pub struct Claims {
    pub sub: String,
    pub exp: usize,
    pub permissions: Vec<String>,
}

/// What the unverified header of a credential says, if it parses: its key
/// id, and whether it asserts RS256.
pub uninterp spec fn header_of(token: Seq<char>) -> Option<(Option<Seq<char>>, bool)>;

/// The view of an optional string.
pub open spec fn opt_view(s: Option<String>) -> Option<Seq<char>> {
    match s {
        Some(x) => Some(x@),
        None => None,
    }
}

/// Relies on `jsonwebtoken::decode_header`: parses the header part of a
/// credential without checking it; a function of the text alone.
#[verifier::external_body]
fn read_header(token: &str) -> (r: Result<(Option<String>, bool), jsonwebtoken::errors::Error>)
    ensures
        match r {
            Ok((kid, rs256)) => header_of(token@) == Some((opt_view(kid), rs256)),
            Err(_) => header_of(token@) is None,
        },
{
    jsonwebtoken::decode_header(token).map(
        |h| (h.kid, matches!(h.alg, jsonwebtoken::Algorithm::RS256)),
    )
}

/// The key id that a credential names, or why it cannot be used.
pub open spec fn header_outcome(token: Seq<char>) -> Result<Seq<char>, GateError> {
    match header_of(token) {
        None => Err(GateError::MalformedCredential),
        Some((None, _)) => Err(GateError::MalformedCredential),
        Some((Some(kid), _)) => Ok(kid),
    }
}

/// The key id of a credential. A credential without a parsable header or
/// key id is malformed. The algorithm is checked later, once the key is
/// resolved.
pub fn credential_kid(token: &str) -> (r: Result<String, GateError>)
    ensures
        match header_outcome(token@) {
            Ok(kid) => r matches Ok(k) && k@ == kid,
            Err(e) => r == Err::<String, GateError>(e),
        },
{
    match read_header(token) {
        Err(_) => Err(GateError::MalformedCredential),
        Ok((None, _)) => Err(GateError::MalformedCredential),
        Ok((Some(kid), _)) => Ok(kid),
    }
}

/// Relies on `jsonwebtoken::DecodingKey::from_rsa_raw_components`: an RSA
/// public key from its modulus and exponent bytes.
#[verifier::external_body]
fn rsa_key(modulus: &[u8], exponent: &[u8]) -> jsonwebtoken::DecodingKey {
    jsonwebtoken::DecodingKey::from_rsa_raw_components(modulus, exponent)
}

/// Relies on `jsonwebtoken::Validation::new`: accepts RS256 only, requires
/// and checks `exp`.
#[verifier::external_body]
fn rs256_validation() -> jsonwebtoken::Validation {
    jsonwebtoken::Validation::new(jsonwebtoken::Algorithm::RS256)
}

/// Relies on `jsonwebtoken::Validation::set_audience`: the `aud` claim must
/// name the given audience.
#[verifier::external_body]
fn require_audience(validation: &mut jsonwebtoken::Validation, audience: &str) {
    validation.set_audience(&[audience])
}

/// The claims that this gateway reads from a credential, as they appear
/// in its payload: `sub` if it is a string, `exp` if it is a `u64`, and
/// `permissions` if it is an array, each item if it is a string.
pub struct RawClaims {
    pub sub: Option<String>,
    pub exp: Option<u64>,
    pub permissions: Option<Vec<Option<String>>>,
}

/// The view of claims read from a payload.
pub type ClaimsView = (Option<Seq<char>>, Option<u64>, Option<Seq<Option<Seq<char>>>>);

/// The claims embedded in a credential's payload; a function of the
/// credential's text alone.
pub uninterp spec fn embedded_claims(token: Seq<char>) -> ClaimsView;

/// The view of a permission list as read.
pub open spec fn perms_view(v: Vec<Option<String>>) -> Seq<Option<Seq<char>>> {
    v@.map_values(|o: Option<String>| opt_view(o))
}

/// The view of claims read from a payload.
pub open spec fn raw_view(c: RawClaims) -> ClaimsView {
    (
        opt_view(c.sub),
        c.exp,
        match c.permissions {
            Some(v) => Some(perms_view(v)),
            None => None,
        },
    )
}

/// Relies on `jsonwebtoken::decode`: checks the signature, algorithm,
/// expiry (against the clock) and audience; on success its claims are the
/// token's payload, of which `sub`, `exp` and `permissions` are picked.
#[verifier::external_body]
fn decode_claims(token: &str, key: &jsonwebtoken::DecodingKey, validation: &jsonwebtoken::Validation) -> (r: Result<RawClaims, jsonwebtoken::errors::Error>)
    ensures
        r matches Ok(c) ==> raw_view(c) == embedded_claims(token@),
{
    jsonwebtoken::decode::<serde_json::Value>(token, key, validation).map(|d| RawClaims {
        sub: d.claims["sub"].as_str().map(String::from),
        exp: d.claims["exp"].as_u64(),
        permissions: d.claims["permissions"].as_array().map(
            |items| items.iter().map(|p| p.as_str().map(String::from)).collect(),
        ),
    })
}

/// Why `jsonwebtoken` refused a credential.
#[derive(Debug, Clone, Copy, PartialEq, Eq, Structural)]
pub enum TokenFault {
    Malformed,
    Expired,
    BadSignature,
    BadAudience,
    BadAlgorithm,
    Other,
}

/// Relies on `jsonwebtoken::errors::Error::kind`: names the kind of refusal.
#[verifier::external_body]
fn fault_of(e: &jsonwebtoken::errors::Error) -> TokenFault {
    match e.kind() {
        jsonwebtoken::errors::ErrorKind::InvalidToken => TokenFault::Malformed,
        jsonwebtoken::errors::ErrorKind::Base64(_) => TokenFault::Malformed,
        jsonwebtoken::errors::ErrorKind::Json(_) => TokenFault::Malformed,
        jsonwebtoken::errors::ErrorKind::Utf8(_) => TokenFault::Malformed,
        jsonwebtoken::errors::ErrorKind::ExpiredSignature => TokenFault::Expired,
        jsonwebtoken::errors::ErrorKind::InvalidSignature => TokenFault::BadSignature,
        jsonwebtoken::errors::ErrorKind::InvalidAudience => TokenFault::BadAudience,
        jsonwebtoken::errors::ErrorKind::InvalidAlgorithm => TokenFault::BadAlgorithm,
        _ => TokenFault::Other,
    }
}

/// Whether every permission is a string.
pub open spec fn all_present(p: Seq<Option<Seq<char>>>) -> bool {
    forall|i: int| 0 <= i < p.len() ==> (#[trigger] p[i]) is Some
}

/// The strings of a permission list whose items are all strings.
pub open spec fn present_values(p: Seq<Option<Seq<char>>>) -> Seq<Seq<char>> {
    p.map_values(|o: Option<Seq<char>>| match o {
        Some(x) => x,
        None => Seq::empty(),
    })
}

/// The identity a credential yields, or why it yields none: an expired
/// credential is `ExpiredCredential`, one that does not parse or lacks a
/// well-typed claim is `MalformedCredential`, any other refusal is
/// `InvalidSignature`.
pub open spec fn claims_outcome(decoded: Result<ClaimsView, TokenFault>) -> Result<(Seq<char>, nat, Seq<Seq<char>>), GateError> {
    match decoded {
        Err(TokenFault::Expired) => Err(GateError::ExpiredCredential),
        Err(TokenFault::Malformed) => Err(GateError::MalformedCredential),
        Err(_) => Err(GateError::InvalidSignature),
        Ok((Some(sub), Some(exp), Some(perms))) => if exp <= usize::MAX && all_present(perms) {
            Ok((sub, exp as nat, present_values(perms)))
        } else {
            Err(GateError::MalformedCredential)
        },
        Ok(_) => Err(GateError::MalformedCredential),
    }
}

/// Whether a result is the identity or the failure that an outcome names.
pub open spec fn claims_match(r: Result<Claims, GateError>, o: Result<(Seq<char>, nat, Seq<Seq<char>>), GateError>) -> bool {
    match (r, o) {
        (Ok(c), Ok((sub, exp, perms))) => c.sub@ == sub && c.exp as nat == exp
            && c.permissions@.map_values(|s: String| s@) == perms,
        (Err(e1), Err(e2)) => e1 == e2,
        _ => false,
    }
}

/// The view of the outcome of a signature check.
pub open spec fn decoded_view(d: Result<RawClaims, TokenFault>) -> Result<ClaimsView, TokenFault> {
    match d {
        Ok(c) => Ok(raw_view(c)),
        Err(f) => Err(f),
    }
}

/// Turns the outcome of a signature check into identity claims.
pub fn claims_from(decoded: Result<RawClaims, TokenFault>) -> (r: Result<Claims, GateError>)
    ensures
        claims_match(r, claims_outcome(decoded_view(decoded))),
{
    let ghost dv = decoded_view(decoded);
    match decoded {
        Err(TokenFault::Expired) => Err(GateError::ExpiredCredential),
        Err(TokenFault::Malformed) => Err(GateError::MalformedCredential),
        Err(_) => Err(GateError::InvalidSignature),
        Ok(raw) => match (raw.sub, raw.exp, raw.permissions) {
            (Some(sub), Some(exp), Some(items)) => {
                if exp > usize::MAX as u64 {
                    return Err(GateError::MalformedCredential);
                }
                let ghost p = perms_view(items);
                let mut out: Vec<String> = Vec::new();
                let mut i: usize = 0;
                while i < items.len()
                    invariant
                        i <= items@.len(),
                        p == perms_view(items),
                        dv == Ok::<ClaimsView, TokenFault>((Some(sub@), Some(exp), Some(p))),
                        exp <= usize::MAX,
                        dv == decoded_view(decoded),
                        out@.len() == i,
                        forall|j: int| 0 <= j < i ==> (#[trigger] p[j]) is Some,
                        forall|j: int| 0 <= j < i ==> (#[trigger] out@[j])@ == p[j]->Some_0,
                    decreases items.len() - i,
                {
                    match &items[i] {
                        Some(t) => out.push(t.clone()),
                        None => {
                            proof {
                                assert(p[i as int] is None);
                                assert(!all_present(p));
                                assert(dv == Ok::<ClaimsView, TokenFault>((Some(sub@), Some(exp), Some(p))));
                            }
                            return Err(GateError::MalformedCredential);
                        },
                    }
                    proof {
                        assert(p[i as int] == opt_view(items@[i as int]));
                    }
                    i = i + 1;
                }
                proof {
                    assert(out@.map_values(|s: String| s@) =~= present_values(p));
                }
                Ok(Claims { sub, exp: exp as usize, permissions: out })
            },
            _ => Err(GateError::MalformedCredential),
        },
    }
}

/// What checking a credential with a resolved key may give. A key that is
/// not a usable RSA key, or a header that asserts another algorithm than
/// RS256, is `InvalidSignature`. Otherwise the signature check, which
/// depends on the clock, either refuses the credential, giving the failure
/// that `claims_outcome` names for the refusal, or accepts it, giving the
/// identity embedded in the payload.
pub open spec fn verified_as(token: Seq<char>, jwk: Jwk, r: Result<Claims, GateError>) -> bool {
    if rsa_components(jwk) is None {
        r == Err::<Claims, GateError>(GateError::InvalidSignature)
    } else {
        match header_of(token) {
            None => r == Err::<Claims, GateError>(GateError::MalformedCredential),
            Some((_, false)) => r == Err::<Claims, GateError>(GateError::InvalidSignature),
            Some((_, true)) => (exists|f: TokenFault| claims_match(r, claims_outcome(Err(f))))
                || claims_match(r, claims_outcome(Ok(embedded_claims(token)))),
        }
    }
}

/// Verifies a credential's signature with a resolved key, requiring RS256,
/// an unexpired `exp` and the configured audience.
pub fn verify_with_key(token: &str, jwk: &Jwk, audience: &str) -> (r: Result<Claims, GateError>)
    ensures
        verified_as(token@, *jwk, r),
{
    let (n, e) = match cleanse_jwk(jwk) {
        Ok(parts) => parts,
        Err(err) => {
            return Err(err);
        },
    };
    match read_header(token) {
        Err(_) => {
            return Err(GateError::MalformedCredential);
        },
        Ok((_, rs256)) => if !rs256 {
            return Err(GateError::InvalidSignature);
        },
    }
    let key = rsa_key(n.as_slice(), e.as_slice());
    let mut validation = rs256_validation();
    require_audience(&mut validation, audience);
    let decoded = match decode_claims(token, &key, &validation) {
        Ok(c) => Ok(c),
        Err(err) => Err(fault_of(&err)),
    };
    let ghost dv = decoded_view(decoded);
    let r = claims_from(decoded);
    proof {
        if let Err(f) = dv {
            assert(claims_match(r, claims_outcome(Err(f))));
        }
    }
    r
}

/// What verifying a credential against the key-set cache gives: the key id
/// must parse from the header and its key must be cached; then as
/// `verified_as` says.
pub open spec fn decoded_as(token: Seq<char>, m: KeySetModel, r: Result<Claims, GateError>) -> bool {
    match header_outcome(token) {
        Err(e) => r == Err::<Claims, GateError>(e),
        Ok(kid) => match m.lookup(kid) {
            KeyStep::Refresh => r == Err::<Claims, GateError>(GateError::UnknownSigningKey),
            KeyStep::Ready(k) => verified_as(token, k, r),
        },
    }
}

/// Verifies a bearer credential against the key-set cache. The key is
/// resolved first; a key id that is not cached fails `UnknownSigningKey`,
/// and the caller refreshes the cache once (`KeySetCache::complete`) and
/// calls again.
pub fn decode_jwt(token: &str, cache: &KeySetCache, audience: &str) -> (r: Result<Claims, GateError>)
    ensures
        decoded_as(token@, cache@, r),
{
    let kid = match credential_kid(token) {
        Ok(k) => k,
        Err(e) => {
            return Err(e);
        },
    };
    match cache.lookup(kid.as_str()) {
        KeyStep::Refresh => Err(GateError::UnknownSigningKey),
        KeyStep::Ready(k) => verify_with_key(token, &k, audience),
    }
}

/// A credential that the signature check accepts yields exactly the
/// subject, expiry and permissions embedded in its payload.
pub proof fn lemma_verified_subject(token: Seq<char>, jwk: Jwk, r: Result<Claims, GateError>)
    requires
        verified_as(token, jwk, r),
        r is Ok,
    ensures
        embedded_claims(token).0 == Some(r->Ok_0.sub@),
        embedded_claims(token).1 == Some(r->Ok_0.exp as u64),
{
    if exists|f: TokenFault| claims_match(r, claims_outcome(Err(f))) {
        let f = choose|f: TokenFault| claims_match(r, claims_outcome(Err(f)));
        assert(claims_outcome(Err(f)) is Err);
    }
}

/// A credential whose key id is in neither the cache nor the freshly
/// fetched key set fails `UnknownSigningKey`, whatever algorithm it
/// asserts, and the one refresh in between is counted.
pub proof fn lemma_unknown_key_fails(token: Seq<char>, m: KeySetModel, fetched: Seq<Jwk>, r1: Result<Claims, GateError>, r2: Result<Claims, GateError>)
    requires
        header_outcome(token) is Ok,
        key_in(m.keys, header_outcome(token)->Ok_0) is None,
        key_in(fetched, header_outcome(token)->Ok_0) is None,
        decoded_as(token, m, r1),
        decoded_as(token, m.complete(header_outcome(token)->Ok_0, Ok(fetched)).0, r2),
    ensures
        r1 == Err::<Claims, GateError>(GateError::UnknownSigningKey),
        m.complete(header_outcome(token)->Ok_0, Ok(fetched)).1 == Err::<Jwk, GateError>(
            GateError::UnknownSigningKey,
        ),
        m.complete(header_outcome(token)->Ok_0, Ok(fetched)).0.refreshes == m.refreshes + 1,
        r2 == Err::<Claims, GateError>(GateError::UnknownSigningKey),
{
}

} // verus!
