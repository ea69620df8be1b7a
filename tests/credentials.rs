use base64::Engine;
use qrgate::errors::GateError;
use qrgate::guard::{authenticate, bearer_token, AuthGuard, StripeSignature};
use qrgate::jwks::{cleanse_jwk, Jwk, KeySetCache, KeyStep};
use qrgate::token::{claims_from, credential_kid, decode_jwt, verify_with_key, RawClaims, TokenFault};

fn b64(s: &str) -> String {
    base64::engine::general_purpose::URL_SAFE_NO_PAD.encode(s)
}

fn token_with_header(header: &str) -> String {
    format!("{}.{}.{}", b64(header), b64(r#"{"sub":"auth0|1","exp":1}"#), b64("sig"))
}

fn jwk(kid: &str) -> Jwk {
    Jwk {
        alg: "RS256".to_string(),
        kty: "RSA".to_string(),
        kid: kid.to_string(),
        n: "AQAB".to_string(),
        e: "AQAB".to_string(),
    }
}

#[test]
fn key_id_comes_from_the_header() {
    let t = token_with_header(r#"{"alg":"RS256","typ":"JWT","kid":"key-1"}"#);
    assert_eq!(credential_kid(&t), Ok("key-1".to_string()));
}

#[test]
fn header_without_key_id_is_malformed() {
    let t = token_with_header(r#"{"alg":"RS256","typ":"JWT"}"#);
    assert_eq!(credential_kid(&t), Err(GateError::MalformedCredential));
    assert_eq!(credential_kid("not a token"), Err(GateError::MalformedCredential));
}

#[test]
fn other_algorithms_are_refused_once_the_key_is_resolved() {
    let t = token_with_header(r#"{"alg":"HS256","typ":"JWT","kid":"key-1"}"#);
    assert_eq!(credential_kid(&t), Ok("key-1".to_string()));
    let mut cache = KeySetCache::new();
    assert!(matches!(decode_jwt(&t, &cache, "aud"), Err(GateError::UnknownSigningKey)));
    cache.complete("key-1", Ok(vec![jwk("key-1")])).unwrap();
    assert!(matches!(decode_jwt(&t, &cache, "aud"), Err(GateError::InvalidSignature)));
}

#[test]
fn unknown_key_with_another_algorithm_is_still_unknown() {
    let t = token_with_header(r#"{"alg":"HS256","typ":"JWT","kid":"key-9"}"#);
    let mut cache = KeySetCache::new();
    assert!(matches!(decode_jwt(&t, &cache, "aud"), Err(GateError::UnknownSigningKey)));
    assert!(matches!(cache.lookup("key-9"), KeyStep::Refresh));
    let r = cache.complete("key-9", Ok(vec![jwk("key-1")]));
    assert!(matches!(r, Err(GateError::UnknownSigningKey)));
    assert_eq!(cache.refresh_count(), 1);
    assert!(matches!(decode_jwt(&t, &cache, "aud"), Err(GateError::UnknownSigningKey)));
}

#[test]
fn unknown_key_fails_after_one_refresh() {
    let mut cache = KeySetCache::new();
    cache.complete("key-0", Ok(vec![jwk("key-0")])).unwrap();
    assert!(matches!(cache.lookup("key-9"), KeyStep::Refresh));
    let before = cache.refresh_count();
    let r = cache.complete("key-9", Ok(vec![jwk("key-1"), jwk("key-2")]));
    assert!(matches!(r, Err(GateError::UnknownSigningKey)));
    assert_eq!(cache.refresh_count(), before + 1);
    assert!(matches!(cache.lookup("key-2"), KeyStep::Ready(k) if k.kid == "key-2"));
    assert!(matches!(cache.lookup("key-0"), KeyStep::Refresh));
}

#[test]
fn failed_fetch_is_not_cached() {
    let mut cache = KeySetCache::new();
    cache.complete("key-1", Ok(vec![jwk("key-1")])).unwrap();
    let r = cache.complete("key-1", Err(GateError::StorageFailure));
    assert!(matches!(r, Err(GateError::StorageFailure)));
    assert_eq!(cache.refresh_count(), 1);
    assert!(matches!(cache.lookup("key-1"), KeyStep::Ready(_)));
}

#[test]
fn cached_key_needs_no_refresh_and_uncached_key_is_unknown() {
    let mut cache = KeySetCache::new();
    let t = token_with_header(r#"{"alg":"RS256","typ":"JWT","kid":"key-1"}"#);
    assert!(matches!(decode_jwt(&t, &cache, "aud"), Err(GateError::UnknownSigningKey)));
    cache.complete("key-1", Ok(vec![jwk("key-1")])).unwrap();
    assert!(matches!(cache.lookup("key-1"), KeyStep::Ready(_)));
    assert!(decode_jwt(&t, &cache, "aud").is_err());
    assert_eq!(cache.refresh_count(), 1);
}

#[test]
fn rsa_components_are_decoded_after_padding() {
    let (n, e) = cleanse_jwk(&jwk("k")).unwrap();
    assert_eq!(n, vec![1, 0, 1]);
    assert_eq!(e, vec![1, 0, 1]);
    let mut odd = jwk("k");
    odd.n = "SGVsbG8gV29ybGQ".to_string();
    assert_eq!(cleanse_jwk(&odd).unwrap().0, b"Hello World".to_vec());
    let mut ec = jwk("k");
    ec.kty = "EC".to_string();
    assert_eq!(cleanse_jwk(&ec).err(), Some(GateError::InvalidSignature));
    let mut broken = jwk("k");
    broken.e = "!!".to_string();
    assert_eq!(cleanse_jwk(&broken).err(), Some(GateError::InvalidSignature));
}

#[test]
fn bad_signature_is_refused() {
    let t = token_with_header(r#"{"alg":"RS256","typ":"JWT","kid":"key-1"}"#);
    let r = verify_with_key(&t, &jwk("key-1"), "aud");
    assert!(r.is_err());
    let mut ec = jwk("key-1");
    ec.kty = "oct".to_string();
    assert!(matches!(verify_with_key(&t, &ec, "aud"), Err(GateError::InvalidSignature)));
}

#[test]
fn accepted_claims_yield_the_subject() {
    let raw = RawClaims {
        sub: Some("auth0|7".to_string()),
        exp: Some(1_900_000_000),
        permissions: Some(vec![Some("read:qrcodes".to_string())]),
    };
    let c = claims_from(Ok(raw)).unwrap();
    assert_eq!(c.sub, "auth0|7");
    assert_eq!(c.exp, 1_900_000_000);
    assert_eq!(c.permissions, vec!["read:qrcodes".to_string()]);
    let no_sub = RawClaims { sub: None, exp: Some(1), permissions: Some(vec![]) };
    assert!(matches!(claims_from(Ok(no_sub)), Err(GateError::MalformedCredential)));
    let odd_perm = RawClaims { sub: Some("s".to_string()), exp: Some(1), permissions: Some(vec![None]) };
    assert!(matches!(claims_from(Ok(odd_perm)), Err(GateError::MalformedCredential)));
    assert!(matches!(claims_from(Err(TokenFault::Expired)), Err(GateError::ExpiredCredential)));
    assert!(matches!(claims_from(Err(TokenFault::BadAudience)), Err(GateError::InvalidSignature)));
    assert!(matches!(claims_from(Err(TokenFault::Malformed)), Err(GateError::MalformedCredential)));
}

#[test]
fn bearer_prefix_and_whitespace_are_removed() {
    assert_eq!(bearer_token("Bearer abc.def.ghi"), "abc.def.ghi");
    assert_eq!(bearer_token("Bearer Bearer  tok \n"), "tok");
    assert_eq!(bearer_token("tok"), "tok");
    assert_eq!(bearer_token("Bearer \u{3000}tok\u{a0}"), "tok");
    assert_eq!(bearer_token("Bearer   "), "");
    let cache = KeySetCache::new();
    assert!(matches!(authenticate(None, &cache, "aud"), Err(GateError::MalformedCredential)));
    assert!(AuthGuard::from_request(Some("Bearer x"), &cache, "aud").is_err());
}

#[test]
fn webhook_signature_header_is_required() {
    assert!(matches!(StripeSignature::from_request(None), Err(GateError::InvalidWebhookSignature)));
    let s = StripeSignature::from_request(Some("t=1,v1=ab")).ok().unwrap();
    assert_eq!(s.signature, "t=1,v1=ab");
}
