//! The authorization of a request: which token it carries, and whether the
//! claims of that token meet what the validator asks.

use vstd::prelude::*;
use vstd::utf8::encode_utf8;
use crate::utils::entries::{find, lookup};
use crate::utils::header_val::{header_val_lossy, lossy};
use crate::utils::text::{
    bytes_eq, decimal, decode, is_prefix_of, join, joined, starts_with, str_eq, tail,
    u64_to_decimal, utf8_text,
};
use crate::validator_file::{RequiredClaim, RequiredClaimValue, RequiredClaimView};
use crate::validators::authority::AuthorityError;
use crate::validators::claims::{JWTClaims, JWTClaimsView};
use crate::validators::store::ValidatorsState;
use crate::validators::validator::{Validator, ValidatorView};

pub mod authority;
pub mod claims;
pub mod jwks;
pub mod store;
pub mod validator;

verus! {

/// The status of a request that is let through.
pub const STATUS_OK: u16 = 200;

/// The status of a request that is turned down.
pub const STATUS_UNAUTHORIZED: u16 = 401;

/// The answer to a request.
#[derive(Debug, Clone, PartialEq, Eq)]
pub struct Response {
    pub status: u16,
    pub body: String,
    /// Header names and values, in the order in which they are set. A later
    /// value of a name takes the place of an earlier one.
    pub headers: Vec<(String, Vec<u8>)>,
}

/// What a [`Response`] says.
pub struct ResponseView {
    pub status: u16,
    pub body: Seq<char>,
    pub headers: Seq<(Seq<char>, Seq<u8>)>,
}

impl DeepView for Response {
    type V = ResponseView;

    open spec fn deep_view(&self) -> ResponseView {
        ResponseView {
            status: self.status,
            body: self.body@,
            headers: self.headers.deep_view(),
        }
    }
}

/// The answer that turns a request down and says why.
pub open spec fn rejection(body: Seq<char>) -> ResponseView {
    ResponseView { status: STATUS_UNAUTHORIZED, body, headers: Seq::empty() }
}

/// The answer that lets a request through with `headers`.
pub open spec fn acceptance(headers: Seq<(Seq<char>, Seq<u8>)>) -> ResponseView {
    ResponseView { status: STATUS_OK, body: Seq::empty(), headers }
}

/// What is read of a claim.
pub enum ClaimReading {
    /// The token does not hold the claim.
    Missing,
    /// The claim is an array or an object.
    Invalid,
    /// The claim, as the text by which it is sent on.
    Text(Seq<char>),
}

/// Reads the claim `name` of `claims`. The registered claims are read from
/// their own fields: the audiences joined by commas, the times in decimal
/// notation.
pub open spec fn read_claim(claims: JWTClaimsView, name: Seq<char>) -> ClaimReading {
    if name == "aud"@ {
        match claims.aud {
            Some(aud) => ClaimReading::Text(joined(aud, ","@)),
            None => ClaimReading::Missing,
        }
    } else if name == "iss"@ {
        match claims.iss {
            Some(iss) => ClaimReading::Text(iss),
            None => ClaimReading::Missing,
        }
    } else if name == "sub"@ {
        match claims.sub {
            Some(sub) => ClaimReading::Text(sub),
            None => ClaimReading::Missing,
        }
    } else if name == "exp"@ {
        match claims.exp {
            Some(exp) => ClaimReading::Text(decimal(exp as nat)),
            None => ClaimReading::Missing,
        }
    } else if name == "nbf"@ {
        match claims.nbf {
            Some(nbf) => ClaimReading::Text(decimal(nbf as nat)),
            None => ClaimReading::Missing,
        }
    } else {
        match lookup(claims.other, name) {
            Some(value) => match value.text() {
                Some(text) => ClaimReading::Text(text),
                None => ClaimReading::Invalid,
            },
            None => ClaimReading::Missing,
        }
    }
}

/// Whether a claim that `claims` holds meets the constraint `required`. Of
/// the audiences one that matches is enough, and where any value is accepted
/// their presence is; every other claim is matched by its text.
pub open spec fn meets(claims: JWTClaimsView, required: RequiredClaimView) -> bool {
    if required.name == "aud"@ {
        match claims.aud {
            Some(aud) => required.value is Any || exists|i: int|
                0 <= i < aud.len() && required.value.matches(#[trigger] aud[i]),
            None => false,
        }
    } else {
        match read_claim(claims, required.name) {
            ClaimReading::Text(text) => required.value.matches(text),
            _ => false,
        }
    }
}

/// The body that reports that the claim `name` is missing.
pub open spec fn missing_body(name: Seq<char>) -> Seq<char> {
    if name == "aud"@ {
        "Token is missing audience claim"@
    } else if name == "iss"@ {
        "Token is missing issuer claim"@
    } else if name == "sub"@ {
        "Token is missing subject claim"@
    } else if name == "exp"@ {
        "Token is missing expiration claim"@
    } else if name == "nbf"@ {
        "Token is missing not before claim"@
    } else {
        "Token is missing required "@ + name + " claim"@
    }
}

/// The body that reports that the claim `name` has another value than is
/// asked for.
pub open spec fn mismatch_body(name: Seq<char>) -> Seq<char> {
    if name == "aud"@ {
        "Token doesn't match required audience"@
    } else if name == "iss"@ {
        "Token doesn't match required issuer"@
    } else if name == "sub"@ {
        "Token doesn't match required subject"@
    } else if name == "exp"@ {
        "Token doesn't match required expiration"@
    } else if name == "nbf"@ {
        "Token doesn't match required not before"@
    } else {
        "Token doesn't match required "@ + name + " claim"@
    }
}

/// The body that reports a claim that is an array or an object.
pub open spec fn invalid_body() -> Seq<char> {
    "Token contains invalid claim"@
}

/// The header that reports a claim, where `map_claims` names one for it.
pub open spec fn projection(
    map_claims: Seq<(Seq<char>, Seq<char>)>,
    name: Seq<char>,
    text: Seq<char>,
) -> Option<(Seq<char>, Seq<u8>)> {
    match lookup(map_claims, name) {
        Some(header) => Some((header, lossy(encode_utf8(text)))),
        None => None,
    }
}

/// Holds one required claim against the token: the body of the answer that
/// turns the request down, or the header that reports the claim, if any.
pub open spec fn check_required(
    validator: ValidatorView,
    claims: JWTClaimsView,
    required: RequiredClaimView,
) -> Result<Option<(Seq<char>, Seq<u8>)>, Seq<char>> {
    match read_claim(claims, required.name) {
        ClaimReading::Missing => Err(missing_body(required.name)),
        ClaimReading::Invalid => Err(invalid_body()),
        ClaimReading::Text(text) => if meets(claims, required) {
            Ok(projection(validator.map_claims, required.name, text))
        } else {
            Err(mismatch_body(required.name))
        },
    }
}

/// Holds the first `n` required claims against the token, in their order:
/// the body for the first that fails, or the headers of those that passed.
pub open spec fn enforce_required(validator: ValidatorView, claims: JWTClaimsView, n: nat) -> Result<
    Seq<(Seq<char>, Seq<u8>)>,
    Seq<char>,
>
    decreases n,
{
    if n == 0 {
        Ok(Seq::empty())
    } else {
        match enforce_required(validator, claims, (n - 1) as nat) {
            Err(body) => Err(body),
            Ok(headers) => match check_required(
                validator,
                claims,
                validator.required_claims[n - 1],
            ) {
                Err(body) => Err(body),
                Ok(Some(header)) => Ok(headers.push(header)),
                Ok(None) => Ok(headers),
            },
        }
    }
}

/// Whether the validator asks for the claim `name`.
pub open spec fn is_required(validator: ValidatorView, name: Seq<char>) -> bool {
    exists|i: int|
        0 <= i < validator.required_claims.len() && (#[trigger] validator.required_claims[i]).name
            == name
}

/// The headers for the first `n` entries of `map_claims` whose claim is not
/// asked for: one for each claim that the token holds with a text.
pub open spec fn project_rest(validator: ValidatorView, claims: JWTClaimsView, n: nat) -> Seq<
    (Seq<char>, Seq<u8>),
>
    decreases n,
{
    if n == 0 {
        Seq::empty()
    } else {
        let before = project_rest(validator, claims, (n - 1) as nat);
        let entry = validator.map_claims[n - 1];
        if is_required(validator, entry.0) {
            before
        } else {
            match read_claim(claims, entry.0) {
                ClaimReading::Text(text) => before.push((entry.1, lossy(encode_utf8(text)))),
                _ => before,
            }
        }
    }
}

/// The answer to a request whose token was verified and holds `claims`.
pub open spec fn claims_response(validator: ValidatorView, claims: JWTClaimsView) -> ResponseView {
    match enforce_required(validator, claims, validator.required_claims.len()) {
        Err(body) => rejection(body),
        Ok(headers) => acceptance(
            headers + project_rest(validator, claims, validator.map_claims.len()),
        ),
    }
}


/// A request whose token was verified is let through or turned down for
/// what it lacks, and nothing else: the status is 200 or 401, and a request
/// that is turned down gets no headers.
pub proof fn lemma_answer_is_200_or_401(validator: ValidatorView, claims: JWTClaimsView)
    ensures
        claims_response(validator, claims).status == STATUS_OK || claims_response(
            validator,
            claims,
        ).status == STATUS_UNAUTHORIZED,
        claims_response(validator, claims).status == STATUS_UNAUTHORIZED ==> claims_response(
            validator,
            claims,
        ).headers.len() == 0,
        claims_response(validator, claims).status == STATUS_OK <==> enforce_required(
            validator,
            claims,
            validator.required_claims.len(),
        ) is Ok,
{
}

/// A request is let through only if its token meets every required claim.
pub proof fn lemma_accepted_meets_every_claim(
    validator: ValidatorView,
    claims: JWTClaimsView,
    n: nat,
    i: int,
)
    requires
        enforce_required(validator, claims, n) is Ok,
        0 <= i < n,
    ensures
        meets(claims, validator.required_claims[i]),
    decreases n,
{
    if i < n - 1 {
        lemma_accepted_meets_every_claim(validator, claims, (n - 1) as nat, i);
    }
}

/// What is read of a claim, as a value that the program holds.
#[derive(Debug, Clone, PartialEq, Eq)]
pub enum ClaimText {
    /// The token does not hold the claim.
    Missing,
    /// The claim is an array or an object.
    Invalid,
    /// The claim, as the text by which it is sent on.
    Text(String),
}

impl DeepView for ClaimText {
    type V = ClaimReading;

    open spec fn deep_view(&self) -> ClaimReading {
        match self {
            ClaimText::Missing => ClaimReading::Missing,
            ClaimText::Invalid => ClaimReading::Invalid,
            ClaimText::Text(text) => ClaimReading::Text(text@),
        }
    }
}

fn text_or_missing(value: &Option<String>) -> (r: ClaimText)
    ensures
        r.deep_view() == match value.deep_view() {
            Some(text) => ClaimReading::Text(text),
            None => ClaimReading::Missing,
        },
{
    match value {
        Some(text) => ClaimText::Text(text.clone()),
        None => ClaimText::Missing,
    }
}

fn decimal_or_missing(value: &Option<u64>) -> (r: ClaimText)
    ensures
        r.deep_view() == match *value {
            Some(n) => ClaimReading::Text(decimal(n as nat)),
            None => ClaimReading::Missing,
        },
{
    match value {
        Some(n) => ClaimText::Text(u64_to_decimal(*n)),
        None => ClaimText::Missing,
    }
}

/// Reads the claim `name` of `claims`.
pub fn claim_text(claims: &JWTClaims, name: &str) -> (r: ClaimText)
    ensures
        r.deep_view() == read_claim(claims.deep_view(), name@),
{
    if str_eq(name, "aud") {
        match &claims.aud {
            Some(aud) => ClaimText::Text(join(aud, ",")),
            None => ClaimText::Missing,
        }
    } else if str_eq(name, "iss") {
        text_or_missing(&claims.iss)
    } else if str_eq(name, "sub") {
        text_or_missing(&claims.sub)
    } else if str_eq(name, "exp") {
        decimal_or_missing(&claims.exp)
    } else if str_eq(name, "nbf") {
        decimal_or_missing(&claims.nbf)
    } else {
        match find(&claims.other, name) {
            Some(i) => match claims.other[i].1.text() {
                Some(text) => ClaimText::Text(text),
                None => ClaimText::Invalid,
            },
            None => ClaimText::Missing,
        }
    }
}

fn any_audience_matches(aud: &Vec<String>, value: &RequiredClaimValue) -> (r: bool)
    ensures
        r == exists|i: int|
            0 <= i < aud.deep_view().len() && value.deep_view().matches(
                #[trigger] aud.deep_view()[i],
            ),
{
    let mut i: usize = 0;
    while i < aud.len()
        invariant
            i <= aud.len(),
            forall|j: int|
                0 <= j < i ==> !value.deep_view().matches(#[trigger] aud.deep_view()[j]),
        decreases aud.len() - i,
    {
        if value.matches(aud[i].as_str()) {
            assert(value.deep_view().matches(aud.deep_view()[i as int]));
            return true;
        }
        assert(!value.deep_view().matches(aud.deep_view()[i as int]));
        i += 1;
    }
    false
}

/// Whether the claim that `reading` was read from meets the constraint
/// `required`.
fn claim_meets(claims: &JWTClaims, required: &RequiredClaim, reading: &ClaimText) -> (r: bool)
    requires
        reading.deep_view() == read_claim(claims.deep_view(), required.name@),
    ensures
        r == meets(claims.deep_view(), required.deep_view()),
{
    if str_eq(required.name.as_str(), "aud") {
        match &claims.aud {
            Some(aud) => {
                match &required.value {
                    RequiredClaimValue::Any => true,
                    _ => any_audience_matches(aud, &required.value),
                }
            },
            None => false,
        }
    } else {
        match reading {
            ClaimText::Text(text) => required.value.matches(text.as_str()),
            _ => false,
        }
    }
}

fn missing_message(name: &str) -> (r: String)
    ensures
        r@ == missing_body(name@),
{
    if str_eq(name, "aud") {
        String::from_str("Token is missing audience claim")
    } else if str_eq(name, "iss") {
        String::from_str("Token is missing issuer claim")
    } else if str_eq(name, "sub") {
        String::from_str("Token is missing subject claim")
    } else if str_eq(name, "exp") {
        String::from_str("Token is missing expiration claim")
    } else if str_eq(name, "nbf") {
        String::from_str("Token is missing not before claim")
    } else {
        let mut body = String::from_str("Token is missing required ");
        body.append(name);
        body.append(" claim");
        body
    }
}

fn mismatch_message(name: &str) -> (r: String)
    ensures
        r@ == mismatch_body(name@),
{
    if str_eq(name, "aud") {
        String::from_str("Token doesn't match required audience")
    } else if str_eq(name, "iss") {
        String::from_str("Token doesn't match required issuer")
    } else if str_eq(name, "sub") {
        String::from_str("Token doesn't match required subject")
    } else if str_eq(name, "exp") {
        String::from_str("Token doesn't match required expiration")
    } else if str_eq(name, "nbf") {
        String::from_str("Token doesn't match required not before")
    } else {
        let mut body = String::from_str("Token doesn't match required ");
        body.append(name);
        body.append(" claim");
        body
    }
}

/// The answer that turns a request down with `body`.
pub fn reject(body: String) -> (r: Response)
    ensures
        r.deep_view() == rejection(body@),
{
    let r = Response { status: STATUS_UNAUTHORIZED, body, headers: Vec::new() };
    assert(r.headers.deep_view() =~= Seq::empty());
    r
}

/// Once a required claim has failed, the body of that failure stands,
/// whatever claims follow.
pub proof fn lemma_failure_stands(
    validator: ValidatorView,
    claims: JWTClaimsView,
    failed: nat,
    n: nat,
)
    requires
        enforce_required(validator, claims, failed) is Err,
        failed <= n,
    ensures
        enforce_required(validator, claims, n) == enforce_required(validator, claims, failed),
    decreases n,
{
    if failed < n {
        lemma_failure_stands(validator, claims, failed, (n - 1) as nat);
    }
}

fn push_header(headers: &mut Vec<(String, Vec<u8>)>, name: &String, text: &String)
    ensures
        final(headers).deep_view() == old(headers).deep_view().push(
            (name@, lossy(encode_utf8(text@))),
        ),
{
    let value = header_val_lossy(text.as_str().as_bytes());
    assert(value.deep_view() =~= value@);
    headers.push((name.clone(), value));
    assert(headers.deep_view() =~= old(headers).deep_view().push(
        (name@, lossy(encode_utf8(text@))),
    ));
}

/// Whether the validator asks for the claim `name`.
fn asks_for(validator: &Validator, name: &str) -> (r: bool)
    ensures
        r == is_required(validator.deep_view(), name@),
{
    let mut i: usize = 0;
    while i < validator.required_claims.len()
        invariant
            i <= validator.required_claims.len(),
            forall|j: int|
                0 <= j < i ==> (#[trigger] validator.deep_view().required_claims[j]).name != name@,
        decreases validator.required_claims.len() - i,
    {
        if str_eq(validator.required_claims[i].name.as_str(), name) {
            assert(validator.deep_view().required_claims[i as int].name == name@);
            return true;
        }
        assert(validator.deep_view().required_claims[i as int].name != name@);
        i += 1;
    }
    false
}

/// Answers a request whose token was verified and holds `claims`: holds the
/// required claims against it in their order, and on success reports every
/// mapped claim in a header.
pub fn authorize(validator: &Validator, claims: &JWTClaims) -> (r: Response)
    ensures
        r.deep_view() == claims_response(validator.deep_view(), claims.deep_view()),
{
    let mut headers: Vec<(String, Vec<u8>)> = Vec::new();
    assert(headers.deep_view() =~= Seq::empty());
    let mut i: usize = 0;
    while i < validator.required_claims.len()
        invariant
            i <= validator.required_claims.len(),
            enforce_required(validator.deep_view(), claims.deep_view(), i as nat) == Ok::<
                Seq<(Seq<char>, Seq<u8>)>,
                Seq<char>,
            >(headers.deep_view()),
        decreases validator.required_claims.len() - i,
    {
        let required = &validator.required_claims[i];
        assert(required.deep_view() == validator.deep_view().required_claims[i as int]);
        let ghost before = headers.deep_view();
        let reading = claim_text(claims, required.name.as_str());
        match &reading {
            ClaimText::Missing => {
                proof {
                    lemma_failure_stands(
                        validator.deep_view(),
                        claims.deep_view(),
                        (i + 1) as nat,
                        validator.deep_view().required_claims.len(),
                    );
                }
                return reject(missing_message(required.name.as_str()));
            },
            ClaimText::Invalid => {
                proof {
                    lemma_failure_stands(
                        validator.deep_view(),
                        claims.deep_view(),
                        (i + 1) as nat,
                        validator.deep_view().required_claims.len(),
                    );
                }
                return reject(String::from_str("Token contains invalid claim"));
            },
            ClaimText::Text(text) => {
                if !claim_meets(claims, required, &reading) {
                    proof {
                        lemma_failure_stands(
                            validator.deep_view(),
                            claims.deep_view(),
                            (i + 1) as nat,
                            validator.deep_view().required_claims.len(),
                        );
                    }
                    return reject(mismatch_message(required.name.as_str()));
                }
                match find(&validator.map_claims, required.name.as_str()) {
                    Some(k) => {
                        push_header(&mut headers, &validator.map_claims[k].1, text);
                    },
                    None => {},
                }
            },
        }
        i += 1;
    }
    let ghost required_headers = headers.deep_view();
    let mut k: usize = 0;
    while k < validator.map_claims.len()
        invariant
            k <= validator.map_claims.len(),
            headers.deep_view() == required_headers + project_rest(
                validator.deep_view(),
                claims.deep_view(),
                k as nat,
            ),
        decreases validator.map_claims.len() - k,
    {
        let entry = &validator.map_claims[k];
        assert(entry.deep_view() == validator.deep_view().map_claims[k as int]);
        let ghost before = headers.deep_view();
        if !asks_for(validator, entry.0.as_str()) {
            match claim_text(claims, entry.0.as_str()) {
                ClaimText::Text(text) => {
                    push_header(&mut headers, &entry.1, &text);
                },
                _ => {},
            }
        }
        assert(headers.deep_view() =~= required_headers + project_rest(
            validator.deep_view(),
            claims.deep_view(),
            (k + 1) as nat,
        ));
        k += 1;
    }
    Response { status: STATUS_OK, body: String::new(), headers }
}

/// The bytes of a header value that are taken for the token: the value
/// without the validator's prefix where it starts with it, else the whole
/// value.
pub open spec fn token_bytes(validator: ValidatorView, value: Seq<u8>) -> Seq<u8> {
    match validator.strip_prefix {
        Some(prefix) => if is_prefix_of(encode_utf8(prefix), value) {
            value.subrange(encode_utf8(prefix).len() as int, value.len() as int)
        } else {
            value
        },
        None => value,
    }
}

/// The body that reports that the request lacks the header `name`.
pub open spec fn no_header_body(name: Seq<char>) -> Seq<char> {
    "Header "@ + name + " not found"@
}

/// The token that a request carries for `validator`, where `header_value` is
/// the value of the validator's header in the request; or the answer that
/// turns the request down.
pub open spec fn token_of(validator: ValidatorView, header_value: Option<Seq<u8>>) -> Result<
    Seq<char>,
    ResponseView,
> {
    match header_value {
        None => Err(rejection(no_header_body(validator.header))),
        Some(value) => match utf8_text(token_bytes(validator, value)) {
            Some(token) => Ok(token),
            None => Err(rejection("Token is not valid UTF-8"@)),
        },
    }
}

/// The answer to a request that names no known validator.
pub fn unknown_validator() -> (r: Response)
    ensures
        r.deep_view() == rejection("Token could not be validated"@),
{
    reject(String::from_str("Token could not be validated"))
}

/// The validator that a request names, or the answer that turns the request
/// down where the snapshot holds no validator of that name.
pub fn lookup_validator(snapshot: &ValidatorsState, name: &str) -> (r: Result<Validator, Response>)
    ensures
        match lookup(snapshot.deep_view().validators, name@) {
            Some(validator) => r is Ok && r->Ok_0.deep_view() == validator,
            None => r is Err && r->Err_0.deep_view() == rejection(
                "Token could not be validated"@,
            ),
        },
        r matches Ok(validator) ==> lookup(
            snapshot.deep_view().authorities,
            validator.authority.name@,
        ) == Some(validator.authority.deep_view()),
{
    match snapshot.get(name) {
        Some(validator) => Ok(validator),
        None => Err(unknown_validator()),
    }
}

/// Takes the token from the value of the validator's header in the request.
pub fn select_token(validator: &Validator, header_value: Option<&[u8]>) -> (r: Result<
    String,
    Response,
>)
    ensures
        match token_of(validator.deep_view(), header_value.deep_view()) {
            Ok(token) => r is Ok && r->Ok_0@ == token,
            Err(response) => r is Err && r->Err_0.deep_view() == response,
        },
{
    match header_value {
        None => {
            let mut body = String::from_str("Header ");
            body.append(validator.header.as_str());
            body.append(" not found");
            Err(reject(body))
        },
        Some(value) => {
            assert(value.deep_view() =~= value@);
            let decoded = match &validator.strip_prefix {
                Some(prefix) => {
                    let prefix_bytes = prefix.as_str().as_bytes();
                    if starts_with(value, prefix_bytes) {
                        let rest = tail(value, prefix_bytes.len());
                        decode(rest.as_slice())
                    } else {
                        decode(value)
                    }
                },
                None => decode(value),
            };
            match decoded {
                Some(token) => Ok(token),
                None => Err(reject(String::from_str("Token is not valid UTF-8"))),
            }
        },
    }
}

/// Whether the keys of an authority are due for a refresh: more than
/// `update_interval` seconds lie between `last_refresh` and `now`, both in
/// microseconds since the Unix epoch.
pub open spec fn is_refresh_due(last_refresh: u64, now: u64, update_interval: u64) -> bool {
    now - last_refresh > update_interval * 1_000_000
}

/// Whether the keys of an authority are due for a refresh.
pub fn refresh_due(last_refresh: u64, now: u64, update_interval: u64) -> (r: bool)
    ensures
        r == is_refresh_due(last_refresh, now, update_interval),
{
    if now <= last_refresh {
        false
    } else {
        let elapsed: u128 = (now - last_refresh) as u128;
        let interval: u128 = (update_interval as u128) * 1_000_000;
        elapsed > interval
    }
}

/// Answers a request once its token was held against the authority: a
/// token that did not verify is turned down, for one that did the claims
/// decide.
pub fn respond(validator: &Validator, verdict: &Result<JWTClaims, AuthorityError>) -> (r: Response)
    ensures
        r.deep_view() == match verdict {
            Ok(claims) => claims_response(validator.deep_view(), claims.deep_view()),
            Err(_) => rejection("Token isn't valid"@),
        },
{
    match verdict {
        Ok(claims) => authorize(validator, claims),
        Err(_) => reject(String::from_str("Token isn't valid")),
    }
}

/// The list of the validators' names, in the form that the request asks
/// for.
#[derive(Debug, Clone, PartialEq, Eq)]
pub enum Listing {
    /// The names, to be sent as a JSON array.
    Json(Vec<String>),
    /// The text to be sent.
    Text(String),
}

/// What a [`Listing`] says.
pub enum ListingView {
    Json(Seq<Seq<char>>),
    Text(Seq<char>),
}

impl DeepView for Listing {
    type V = ListingView;

    open spec fn deep_view(&self) -> ListingView {
        match self {
            Listing::Json(names) => ListingView::Json(names.deep_view()),
            Listing::Text(text) => ListingView::Text(text@),
        }
    }
}

/// The list of `names` for a request whose `Accept` header has the value
/// `accept`: a JSON array where that value is exactly `application/json`,
/// else the names on a line each, or a sentence that says that there are
/// none.
pub open spec fn listing(names: Seq<Seq<char>>, accept: Option<Seq<u8>>) -> ListingView {
    if accept == Some(encode_utf8("application/json"@)) {
        ListingView::Json(names)
    } else if names.len() == 0 {
        ListingView::Text("No validators available"@)
    } else {
        ListingView::Text(joined(names, "\n"@))
    }
}

/// Lists the validators' names for a request whose `Accept` header has the
/// value `accept`.
pub fn available_validators(names: Vec<String>, accept: Option<&[u8]>) -> (r: Listing)
    ensures
        r.deep_view() == listing(names.deep_view(), accept.deep_view()),
{
    let json = match accept {
        Some(value) => {
            assert(value.deep_view() =~= value@);
            bytes_eq(value, "application/json".as_bytes())
        },
        None => false,
    };
    if json {
        Listing::Json(names)
    } else if names.len() == 0 {
        Listing::Text(String::from_str("No validators available"))
    } else {
        Listing::Text(join(&names, "\n"))
    }
}

} // verus!
