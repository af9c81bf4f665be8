use crate::error::JsonErr;
use vstd::prelude::*;
use vstd::string::StringExecFns;
use vstd::string::StrSliceExecFns;

verus! {

/// The signed payload of a token: who it identifies, and until when
/// (seconds since the epoch).
#[derive(Clone, Copy, Debug, PartialEq, Eq, Structural)]
pub struct JwtClaims {
    pub id: i32,
    pub exp: i64,
}

/// Why a request carries no trusted identity.
#[derive(Clone, Copy, Debug, PartialEq, Eq, Structural)]
pub enum Rejection {
    Missing,
    SignatureInvalid,
    Malformed,
    Expired,
}

/// What authentication learned of a request.
#[derive(Clone, Copy, Debug, PartialEq, Eq, Structural)]
pub enum VerificationOutcome {
    Authorized(JwtClaims),
    Rejected(Rejection),
}

/// How decoding a token failed.
#[derive(Clone, Copy, Debug, PartialEq, Eq, Structural)]
pub enum TokenFault {
    BadSignature,
    Unreadable,
}

/// The token that jsonwebtoken's `encode` makes of the claims `{id, exp}`
/// under the default HS256 header and the given secret.
pub uninterp spec fn jwt_of(id: i32, exp: i64, secret: Seq<char>) -> Seq<char>;

/// What jsonwebtoken's `decode` reads from a token under the given secret,
/// with expiry left unchecked: the `id` and `exp` claims, or why it failed.
pub uninterp spec fn jwt_claims_of(token: Seq<char>, secret: Seq<char>) -> Result<
    (Option<i64>, Option<i64>),
    TokenFault,
>;

/// Relies on `jsonwebtoken::encode` with `Header::default()` (HS256) and
/// `EncodingKey::from_secret` over the secret's bytes: the key is an HMAC
/// key as the header asks, a map of integers always serializes, and HMAC
/// signing cannot fail, so a token always comes back.
#[verifier::external_body]
fn jwt_encode(id: i32, exp: i64, secret: &str) -> (r: Option<String>)
    ensures
        r is Some,
        r matches Some(t) ==> t@ == jwt_of(id, exp, secret@),
{
    let claims = std::collections::BTreeMap::from([("id", id as i64), ("exp", exp)]);
    let key = jsonwebtoken::EncodingKey::from_secret(secret.as_bytes());
    jsonwebtoken::encode(&jsonwebtoken::Header::default(), &claims, &key).ok()
}

/// Relies on `jsonwebtoken::decode` with `Validation::new(HS256)`, its
/// expiry check switched off, and `DecodingKey::from_secret` over the
/// secret's bytes: a token that `encode` made with the same secret and an
/// expiry not before the epoch (the `exp` claim is read as unsigned) reads
/// back as the claims it was made from; a wrong signature is reported as
/// `InvalidSignature`.
#[verifier::external_body]
fn jwt_decode(token: &str, secret: &str) -> (r: Result<(Option<i64>, Option<i64>), TokenFault>)
    ensures
        r == jwt_claims_of(token@, secret@),
        forall|id: i32, exp: i64|
            0 <= exp && token@ == #[trigger] jwt_of(id, exp, secret@) ==> (r is Ok && r->Ok_0 == (
                Some(id as i64),
                Some(exp),
            )),
{
    let mut validation = jsonwebtoken::Validation::new(jsonwebtoken::Algorithm::HS256);
    validation.validate_exp = false;
    let key = jsonwebtoken::DecodingKey::from_secret(secret.as_bytes());
    match jsonwebtoken::decode::<std::collections::BTreeMap<String, i64>>(token, &key, &validation) {
        Ok(d) => Ok((d.claims.get("id").copied(), d.claims.get("exp").copied())),
        Err(e) => match e.kind() {
            jsonwebtoken::errors::ErrorKind::InvalidSignature => Err(TokenFault::BadSignature),
            _ => Err(TokenFault::Unreadable),
        },
    }
}

/// Relies on the `time` crate's `OffsetDateTime::now_utc`: the current
/// instant in whole seconds since the epoch. Nothing is known of its value.
#[verifier::external_body]
fn unix_now() -> (r: i64) {
    time::OffsetDateTime::now_utc().unix_timestamp()
}

/// The outcome of checking decoded claims at instant `now`: valid only
/// while `now < exp`.
pub open spec fn verify_outcome(
    d: Result<(Option<i64>, Option<i64>), TokenFault>,
    now: i64,
) -> VerificationOutcome {
    match d {
        Err(TokenFault::BadSignature) => VerificationOutcome::Rejected(Rejection::SignatureInvalid),
        Err(TokenFault::Unreadable) => VerificationOutcome::Rejected(Rejection::Malformed),
        Ok((Some(id), Some(exp))) => {
            if i32::MIN <= id <= i32::MAX {
                if now < exp {
                    VerificationOutcome::Authorized(JwtClaims { id: id as i32, exp })
                } else {
                    VerificationOutcome::Rejected(Rejection::Expired)
                }
            } else {
                VerificationOutcome::Rejected(Rejection::Malformed)
            }
        },
        Ok(_) => VerificationOutcome::Rejected(Rejection::Malformed),
    }
}

/// Issues and verifies identity tokens under one secret.
#[derive(Clone)]
pub struct Authority {
    secret_key: String,
}

impl Authority {
    /// The signing secret.
    pub closed spec fn secret(&self) -> Seq<char> {
        self.secret_key@
    }

    pub fn new(secret_key: String) -> (r: Self)
        ensures
            r.secret() == secret_key@,
    {
        Authority { secret_key }
    }

    /// Signs claims for `id` that expire `seconds` after `now`. Fails, with a
    /// server error, exactly when the expiry instant cannot be represented.
    pub fn sign_at(&self, id: i32, seconds: i64, now: i64) -> (r: Result<String, JsonErr>)
        ensures
            r matches Ok(t) ==> now + seconds <= i64::MAX && now + seconds >= i64::MIN && t@
                == jwt_of(id, (now + seconds) as i64, self.secret()),
            !(i64::MIN <= now + seconds <= i64::MAX) ==> r is Err,
            (i64::MIN <= now + seconds <= i64::MAX) ==> r is Ok,
            r matches Err(e) ==> e.code == 500,
    {
        let exp = match now.checked_add(seconds) {
            Some(exp) => exp,
            None => {
                return Err(JsonErr::from_error(500, String::from_str("expiry out of range")));
            },
        };
        match jwt_encode(id, exp, self.secret_key.as_str()) {
            Some(t) => Ok(t),
            None => Err(JsonErr::from_error(500, String::from_str("signing failed"))),
        }
    }

    /// Signs claims for `id` that expire `seconds` from now.
    pub fn sign(&self, id: i32, seconds: i64) -> (r: Result<String, JsonErr>)
        ensures
            r matches Ok(t) ==> exists|now: i64|
                t@ == #[trigger] jwt_of(id, (now + seconds) as i64, self.secret()) && i64::MIN <= now
                    + seconds <= i64::MAX,
            seconds == 0 ==> r is Ok,
            r matches Err(e) ==> e.code == 500,
    {
        self.sign_at(id, seconds, unix_now())
    }

    /// Verifies a token at instant `now`: its signature under this secret,
    /// then that it has not expired. A token that `sign_at` made under this
    /// secret for `id` with an expiry `exp` not before the epoch is valid for
    /// `id` exactly while `now < exp`, and expired after.
    pub fn verify_at(&self, token: &str, now: i64) -> (r: VerificationOutcome)
        ensures
            r == verify_outcome(jwt_claims_of(token@, self.secret()), now),
            forall|id: i32, exp: i64|
                0 <= exp && token@ == #[trigger] jwt_of(id, exp, self.secret()) ==> r == (if now
                    < exp {
                    VerificationOutcome::Authorized(JwtClaims { id, exp })
                } else {
                    VerificationOutcome::Rejected(Rejection::Expired)
                }),
    {
        let d = jwt_decode(token, self.secret_key.as_str());
        match d {
            Err(TokenFault::BadSignature) => VerificationOutcome::Rejected(
                Rejection::SignatureInvalid,
            ),
            Err(TokenFault::Unreadable) => VerificationOutcome::Rejected(Rejection::Malformed),
            Ok((Some(id), Some(exp))) => {
                if i32::MIN as i64 <= id && id <= i32::MAX as i64 {
                    if now < exp {
                        VerificationOutcome::Authorized(JwtClaims { id: id as i32, exp })
                    } else {
                        VerificationOutcome::Rejected(Rejection::Expired)
                    }
                } else {
                    VerificationOutcome::Rejected(Rejection::Malformed)
                }
            },
            Ok(_) => VerificationOutcome::Rejected(Rejection::Malformed),
        }
    }

    /// Authentication: finds the request's token (see `token_from`) and
    /// verifies it at `now`. It only records what it found; it rejects nothing.
    pub fn authenticate(
        &self,
        authorization: Option<String>,
        query_token: Option<String>,
        now: i64,
    ) -> (r: VerificationOutcome)
        ensures
            r == authentication_of(self.secret(), opt_view(authorization), opt_view(query_token), now),
    {
        match extract_token(authorization, query_token) {
            None => VerificationOutcome::Rejected(Rejection::Missing),
            Some(t) => self.verify_at(t.as_str(), now),
        }
    }

    /// Authentication followed by authorization: the identity that
    /// a handler may act for, or the 401 that ends the request.
    pub fn authorize(
        &self,
        authorization: Option<String>,
        query_token: Option<String>,
        now: i64,
    ) -> (r: Result<i32, JsonErr>)
        ensures
            r matches Ok(id) ==> admitted_id(
                authentication_of(self.secret(), opt_view(authorization), opt_view(query_token), now),
            ) == Some(id),
            r is Err ==> admitted_id(
                authentication_of(self.secret(), opt_view(authorization), opt_view(query_token), now),
            ) is None,
            r matches Err(e) ==> e.code == 401 && e.msg@ == "UnAuthorized"@,
    {
        let outcome = self.authenticate(authorization, query_token, now);
        check_auth_id(&outcome)
    }

    /// Verifies a token at the current instant.
    pub fn verify(&self, token: &str) -> (r: VerificationOutcome)
        ensures
            exists|now: i64| r == #[trigger] verify_outcome(jwt_claims_of(token@, self.secret()), now),
    {
        self.verify_at(token, unix_now())
    }
}

pub open spec fn opt_view(o: Option<String>) -> Option<Seq<char>> {
    match o {
        Some(s) => Some(s@),
        None => None,
    }
}

/// The first index at or after `k` that holds a space, or the length.
pub open spec fn space_from(h: Seq<char>, k: int) -> int
    decreases h.len() - k,
{
    if k >= h.len() {
        h.len() as int
    } else if h[k] == ' ' {
        k
    } else {
        space_from(h, k + 1)
    }
}

pub open spec fn is_blank(c: char) -> bool {
    c == ' ' || c == '\t'
}

/// The first index at or after `k` that holds no blank, or the length.
pub open spec fn blank_end(h: Seq<char>, k: int) -> int
    decreases h.len() - k,
{
    if k >= h.len() {
        h.len() as int
    } else if !is_blank(h[k]) {
        k
    } else {
        blank_end(h, k + 1)
    }
}

/// `Bearer`, in any mix of upper and lower case.
pub open spec fn is_bearer_scheme(s: Seq<char>) -> bool {
    &&& s.len() == 6
    &&& (s[0] == 'B' || s[0] == 'b')
    &&& (s[1] == 'E' || s[1] == 'e')
    &&& (s[2] == 'A' || s[2] == 'a')
    &&& (s[3] == 'R' || s[3] == 'r')
    &&& (s[4] == 'E' || s[4] == 'e')
    &&& (s[5] == 'R' || s[5] == 'r')
}

/// The credential of an authorization header `Bearer <token>`: the scheme
/// is the text before the first space, the token what follows it once
/// leading blanks are skipped, and it must not be empty.
pub open spec fn bearer_of(h: Seq<char>) -> Option<Seq<char>> {
    let i = space_from(h, 0);
    if i < h.len() && is_bearer_scheme(h.subrange(0, i)) {
        let k = blank_end(h, i + 1);
        if k < h.len() {
            Some(h.subrange(k, h.len() as int))
        } else {
            None
        }
    } else {
        None
    }
}

/// The token of a request: the bearer credential of its authorization
/// header if there is one, else its non-empty `token` query parameter.
pub open spec fn token_from(header: Option<Seq<char>>, query: Option<Seq<char>>) -> Option<
    Seq<char>,
> {
    let from_header = match header {
        Some(h) => bearer_of(h),
        None => None,
    };
    if from_header is Some {
        from_header
    } else {
        match query {
            Some(q) => if q.len() > 0 {
                Some(q)
            } else {
                None
            },
            None => None,
        }
    }
}

/// What authentication records for a request.
pub open spec fn authentication_of(
    secret: Seq<char>,
    header: Option<Seq<char>>,
    query: Option<Seq<char>>,
    now: i64,
) -> VerificationOutcome {
    match token_from(header, query) {
        None => VerificationOutcome::Rejected(Rejection::Missing),
        Some(t) => verify_outcome(jwt_claims_of(t, secret), now),
    }
}

/// The identity admitted to the handlers, if any.
pub open spec fn admitted_id(o: VerificationOutcome) -> Option<i32> {
    match o {
        VerificationOutcome::Authorized(c) => Some(c.id),
        VerificationOutcome::Rejected(_) => None,
    }
}

/// The bearer credential of an authorization header value.
pub fn bearer_token(h: &str) -> (r: Option<String>)
    ensures
        opt_view(r) == bearer_of(h@),
{
    let n = h.unicode_len();
    let mut i: usize = 0;
    while i < n && h.get_char(i) != ' '
        invariant
            i <= n,
            n == h@.len(),
            space_from(h@, 0) == space_from(h@, i as int),
        decreases n - i,
    {
        i = i + 1;
    }
    if i >= n || i != 6 {
        return None;
    }
    let c0 = h.get_char(0);
    let c1 = h.get_char(1);
    let c2 = h.get_char(2);
    let c3 = h.get_char(3);
    let c4 = h.get_char(4);
    let c5 = h.get_char(5);
    let scheme = (c0 == 'B' || c0 == 'b') && (c1 == 'E' || c1 == 'e') && (c2 == 'A' || c2 == 'a')
        && (c3 == 'R' || c3 == 'r') && (c4 == 'E' || c4 == 'e') && (c5 == 'R' || c5 == 'r');
    if !scheme {
        return None;
    }
    let mut k: usize = i + 1;
    while k < n && (h.get_char(k) == ' ' || h.get_char(k) == '\t')
        invariant
            i + 1 <= k <= n,
            n == h@.len(),
            blank_end(h@, i + 1) == blank_end(h@, k as int),
        decreases n - k,
    {
        k = k + 1;
    }
    if k >= n {
        return None;
    }
    Some(String::from_str(h.substring_char(k, n)))
}

/// The request's token: the bearer credential of the authorization header
/// first, then a non-empty `token` query parameter.
pub fn extract_token(authorization: Option<String>, query_token: Option<String>) -> (r: Option<
    String,
>)
    ensures
        opt_view(r) == token_from(opt_view(authorization), opt_view(query_token)),
{
    let from_header = match &authorization {
        Some(h) => bearer_token(h.as_str()),
        None => None,
    };
    if from_header.is_some() {
        return from_header;
    }
    match query_token {
        Some(q) => if q.as_str().unicode_len() > 0 {
            Some(q)
        } else {
            None
        },
        None => None,
    }
}

/// Authorization: an authorized outcome yields the identity that
/// handlers act for; anything else ends the request with a 401 whose
/// message is the same whatever the reason.
pub fn check_auth_id(outcome: &VerificationOutcome) -> (r: Result<i32, JsonErr>)
    ensures
        r matches Ok(id) ==> admitted_id(*outcome) == Some(id),
        r is Err ==> admitted_id(*outcome) is None,
        r matches Err(e) ==> e.code == 401 && e.msg@ == "UnAuthorized"@,
{
    match outcome {
        VerificationOutcome::Authorized(c) => Ok(c.id),
        VerificationOutcome::Rejected(_) => Err(
            JsonErr::from_error(401, String::from_str("UnAuthorized")),
        ),
    }
}

/// A request without a token that verifies at `now` (none found, a bad
/// signature, unreadable claims, or expired) is never admitted, and no
/// such rejection can be told apart from another by the caller.
pub proof fn lemma_fail_closed(
    secret: Seq<char>,
    header: Option<Seq<char>>,
    query: Option<Seq<char>>,
    now: i64,
)
    requires
        !(authentication_of(secret, header, query, now) is Authorized),
    ensures
        admitted_id(authentication_of(secret, header, query, now)) is None,
        token_from(header, query) is None ==> authentication_of(secret, header, query, now)
            == VerificationOutcome::Rejected(Rejection::Missing),
{
}

} // verus!
