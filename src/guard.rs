//! Request guards: the bearer credential out of an `Authorization` header,
//! verified into claims, and the pieces an inbound billing webhook carries.

use vstd::prelude::*;

use crate::errors::{ApiError, GateError};
use crate::jwks::{KeySetCache, KeySetModel};
use crate::token::decoded_as;
use crate::text::{chars_of, push_char};

verus! {

/// Unicode `White_Space`, the characters that `str::trim` removes.
pub open spec fn is_white_space(c: char) -> bool {
    let n = c as u32;
    (9 <= n && n <= 13) || n == 32 || n == 0x85 || n == 0xa0 || n == 0x1680 || (0x2000 <= n
        && n <= 0x200a) || n == 0x2028 || n == 0x2029 || n == 0x202f || n == 0x205f || n == 0x3000
}

fn white_space(c: char) -> (r: bool)
    ensures
        r == is_white_space(c),
{
    let n = c as u32;
    (9 <= n && n <= 13) || n == 32 || n == 0x85 || n == 0xa0 || n == 0x1680 || (0x2000 <= n
        && n <= 0x200a) || n == 0x2028 || n == 0x2029 || n == 0x202f || n == 0x205f || n == 0x3000
}

/// A text without its leading white space.
pub open spec fn trim_start(s: Seq<char>) -> Seq<char>
    decreases s.len(),
{
    if s.len() > 0 && is_white_space(s[0]) {
        trim_start(s.drop_first())
    } else {
        s
    }
}

/// A text without its trailing white space.
pub open spec fn trim_end(s: Seq<char>) -> Seq<char>
    decreases s.len(),
{
    if s.len() > 0 && is_white_space(s.last()) {
        trim_end(s.drop_last())
    } else {
        s
    }
}

/// A text with the white space at both ends removed.
pub open spec fn trimmed(s: Seq<char>) -> Seq<char> {
    trim_end(trim_start(s))
}

/// Removes the white space at both ends of a text.
pub fn trim_text(text: &str) -> (r: String)
    ensures
        r@ == trimmed(text@),
{
    let v = chars_of(text);
    let n: usize = v.len();
    let mut i: usize = 0;
    proof {
        assert(v@.skip(0) =~= v@);
    }
    while i < n && white_space(v[i])
        invariant
            n == v@.len(),
            v@ == text@,
            i <= n,
            trim_start(v@) == trim_start(v@.skip(i as int)),
        decreases n - i,
    {
        proof {
            assert(v@.skip(i as int).drop_first() =~= v@.skip(i + 1));
        }
        i = i + 1;
    }
    proof {
        assert(v@.skip(i as int) =~= v@.subrange(i as int, n as int));
    }
    let mut j: usize = n;
    while j > i && white_space(v[j - 1])
        invariant
            n == v@.len(),
            i <= j <= n,
            trim_end(v@.subrange(i as int, n as int)) == trim_end(v@.subrange(i as int, j as int)),
        decreases j,
    {
        proof {
            assert(v@.subrange(i as int, j as int).drop_last() =~= v@.subrange(i as int, j - 1));
        }
        j = j - 1;
    }
    let mut out = String::new();
    let mut k: usize = i;
    while k < j
        invariant
            i <= k <= j <= n,
            n == v@.len(),
            out@ == v@.subrange(i as int, k as int),
        decreases j - k,
    {
        push_char(&mut out, v[k]);
        k = k + 1;
        proof {
            assert(out@ =~= v@.subrange(i as int, k as int));
        }
    }
    out
}

/// A text with every leading `Bearer ` removed.
pub open spec fn strip_bearer(s: Seq<char>) -> Seq<char>
    decreases s.len(),
{
    let p = "Bearer "@;
    if p.len() > 0 && s.len() >= p.len() && s.take(p.len() as int) == p {
        strip_bearer(s.skip(p.len() as int))
    } else {
        s
    }
}

fn starts_with_at(s: &Vec<char>, p: &Vec<char>, i: usize) -> (r: bool)
    requires
        i <= s@.len(),
    ensures
        r == (s@.len() - i >= p@.len() && s@.skip(i as int).take(p@.len() as int) == p@),
{
    let n: usize = s.len();
    if n - i < p.len() {
        return false;
    }
    let mut k: usize = 0;
    while k < p.len()
        invariant
            n == s@.len(),
            i <= n,
            n - i >= p@.len(),
            k <= p@.len(),
            forall|j: int| 0 <= j < k ==> s@[i + j] == p@[j],
        decreases p.len() - k,
    {
        if s[i + k] != p[k] {
            proof {
                assert(s@.skip(i as int).take(p@.len() as int)[k as int] != p@[k as int]);
            }
            return false;
        }
        k = k + 1;
    }
    proof {
        assert(s@.skip(i as int).take(p@.len() as int) =~= p@);
    }
    true
}

/// The credential in an `Authorization` header value: every leading
/// `Bearer ` removed, then the surrounding whitespace.
pub fn bearer_token(header: &str) -> (r: String)
    ensures
        r@ == trimmed(strip_bearer(header@)),
{
    let s = chars_of(header);
    let p = chars_of("Bearer ");
    let n: usize = s.len();
    let mut i: usize = 0;
    proof {
        assert(s@.skip(0) =~= s@);
    }
    while p.len() > 0 && starts_with_at(&s, &p, i)
        invariant
            n == s@.len(),
            i <= s@.len(),
            s@ == header@,
            p@ == "Bearer "@,
            strip_bearer(header@) == strip_bearer(s@.skip(i as int)),
        decreases s@.len() - i,
    {
        proof {
            assert(s@.skip(i as int).skip(p@.len() as int) =~= s@.skip(i + p@.len()));
        }
        i = i + p.len();
    }
    let mut rest = String::new();
    let mut k: usize = i;
    while k < s.len()
        invariant
            i <= k <= s@.len(),
            rest@ == s@.subrange(i as int, k as int),
        decreases s.len() - k,
    {
        push_char(&mut rest, s[k]);
        k = k + 1;
        proof {
            assert(rest@ =~= s@.subrange(i as int, k as int));
        }
    }
    proof {
        assert(s@.subrange(i as int, s@.len() as int) =~= s@.skip(i as int));
    }
    trim_text(rest.as_str())
}

/// What verifying the credential of an `Authorization` header gives: a
/// missing header is a malformed credential; otherwise as `decoded_as` says
/// of the bearer token.
pub open spec fn authenticated(header: Option<&str>, m: KeySetModel, r: Result<crate::token::Claims, GateError>) -> bool {
    match header {
        None => r == Err::<crate::token::Claims, GateError>(GateError::MalformedCredential),
        Some(h) => decoded_as(trimmed(strip_bearer(h@)), m, r),
    }
}

/// Verifies the credential of an `Authorization` header; a missing header
/// is a malformed credential.
pub fn authenticate(header: Option<&str>, cache: &KeySetCache, audience: &str) -> (r: Result<crate::token::Claims, GateError>)
    ensures
        authenticated(header, cache@, r),
{
    match header {
        None => Err(GateError::MalformedCredential),
        Some(h) => {
            let token = bearer_token(h);
            crate::token::decode_jwt(token.as_str(), cache, audience)
        },
    }
}

/// The identity of an authenticated caller.
pub struct Claims {
    pub sub: String,
    pub exp: usize,
}

/// Proof that a request carried a valid credential.
pub struct AuthGuard(pub Claims);

impl AuthGuard {
    /// Authenticates a request from its `Authorization` header.
    pub fn from_request(header: Option<&str>, cache: &KeySetCache, audience: &str) -> (r: Result<AuthGuard, GateError>)
        ensures
            match r {
                Ok(g) => exists|c: crate::token::Claims|
                    authenticated(header, cache@, Ok::<crate::token::Claims, GateError>(c))
                        && g.0.sub == c.sub && g.0.exp == c.exp,
                Err(e) => authenticated(header, cache@, Err::<crate::token::Claims, GateError>(e)),
            },
    {
        match authenticate(header, cache, audience) {
            Ok(c) => {
                let ghost gc = c;
                let g = AuthGuard(Claims { sub: c.sub, exp: c.exp });
                assert(authenticated(header, cache@, Ok::<crate::token::Claims, GateError>(gc)));
                Ok(g)
            },
            Err(e) => Err(e),
        }
    }
}

impl crate::token::Claims {
    /// Authenticates a request from its `Authorization` header.
    pub fn from_request(header: Option<&str>, cache: &KeySetCache, audience: &str) -> (r: Result<crate::token::Claims, GateError>)
        ensures
            authenticated(header, cache@, r),
    {
        authenticate(header, cache, audience)
    }
}

/// The raw body of an inbound webhook, kept unparsed for its signature check.
pub struct Payload {
    pub contents: String,
}

impl Payload {
    /// Accepts a body only if it was read whole within the size limit.
    pub fn from_data(contents: String, complete: bool) -> (r: Result<Payload, ApiError>)
        ensures
            complete ==> (r matches Ok(p) && p.contents == contents),
            !complete ==> r == Err::<Payload, ApiError>(ApiError::PayloadTooLarge),
    {
        if complete {
            Ok(Payload { contents })
        } else {
            Err(ApiError::PayloadTooLarge)
        }
    }
}

/// The billing provider's signature header of an inbound webhook.
pub struct StripeSignature<'a> {
    pub signature: &'a str,
}

impl<'a> StripeSignature<'a> {
    /// Takes the signature header; a webhook without one is refused.
    pub fn from_request(header: Option<&'a str>) -> (r: Result<StripeSignature<'a>, GateError>)
        ensures
            match header {
                Some(h) => r matches Ok(s) && s.signature@ == h@,
                None => r == Err::<StripeSignature<'a>, GateError>(
                    GateError::InvalidWebhookSignature,
                ),
            },
    {
        match header {
            Some(signature) => Ok(StripeSignature { signature }),
            None => Err(GateError::InvalidWebhookSignature),
        }
    }
}

} // verus!
