use jwt_forward_auth::validator_file::{RequiredClaim, RequiredClaimValue};
use jwt_forward_auth::validators::authority::{
    Authority, AuthorityError, CoreValidator, JwtVerifyError,
};
use jwt_forward_auth::validators::claims::{ClaimValue, JWTClaims};
use jwt_forward_auth::validators::validator::Validator;
use jwt_forward_auth::validators::{
    authorize, available_validators, claim_text, refresh_due, reject, respond, select_token,
    unknown_validator, ClaimText, Listing, Response,
};

fn s(text: &str) -> String {
    text.to_string()
}

fn validator(
    prefix: Option<&str>,
    required: Vec<RequiredClaim>,
    map: Vec<(&str, &str)>,
) -> Validator {
    let authority = Authority::new(
        s("a1"),
        s("https://a1/jwks"),
        CoreValidator {
            leeway_secs: 0,
            check_expiration: true,
            check_not_before: true,
            approved_algorithms: Vec::new(),
        },
        3600,
    );
    Validator::new(
        s("v1"),
        authority,
        s("Authorization"),
        prefix.map(s),
        required,
        map.into_iter().map(|(c, h)| (s(c), s(h))).collect(),
    )
}

fn claims() -> JWTClaims {
    JWTClaims { aud: None, iss: None, sub: None, exp: None, nbf: None, other: Vec::new() }
}

fn any(name: &str) -> RequiredClaim {
    RequiredClaim { name: s(name), value: RequiredClaimValue::Any }
}

fn single(name: &str, value: &str) -> RequiredClaim {
    RequiredClaim { name: s(name), value: RequiredClaimValue::Single(s(value)) }
}

fn multiple(name: &str, values: Vec<&str>) -> RequiredClaim {
    RequiredClaim {
        name: s(name),
        value: RequiredClaimValue::Multiple(values.into_iter().map(s).collect()),
    }
}

fn rejected(body: &str) -> Response {
    Response { status: 401, body: s(body), headers: Vec::new() }
}

fn accepted(headers: Vec<(&str, &[u8])>) -> Response {
    Response {
        status: 200,
        body: String::new(),
        headers: headers.into_iter().map(|(n, v)| (s(n), v.to_vec())).collect(),
    }
}

#[test]
fn happy_path_reports_subject_in_header() {
    let v = validator(Some("Bearer "), vec![any("sub")], vec![("sub", "x-user")]);
    let token = select_token(&v, Some(b"Bearer abc.def.ghi")).expect("a token");
    assert_eq!(token, "abc.def.ghi");
    let c = JWTClaims { sub: Some(s("alice")), ..claims() };
    assert_eq!(respond(&v, &Ok(c)), accepted(vec![("x-user", b"alice")]));
}

#[test]
fn inherited_claims_are_enforced_in_order() {
    let v = validator(None, vec![any("sub"), single("iss", "https://x")], vec![]);
    let c = JWTClaims { sub: Some(s("alice")), iss: Some(s("https://x")), ..claims() };
    assert_eq!(authorize(&v, &c), accepted(vec![]));
    let missing_both = claims();
    assert_eq!(authorize(&v, &missing_both), rejected("Token is missing subject claim"));
    let wrong_issuer = JWTClaims { sub: Some(s("alice")), iss: Some(s("https://y")), ..claims() };
    assert_eq!(authorize(&v, &wrong_issuer), rejected("Token doesn't match required issuer"));
}

#[test]
fn missing_header_is_turned_down() {
    let v = validator(None, vec![], vec![]);
    assert_eq!(select_token(&v, None), Err(rejected("Header Authorization not found")));
}

#[test]
fn wrong_audience_is_turned_down() {
    let v = validator(None, vec![single("aud", "api.example")], vec![]);
    let c = JWTClaims { aud: Some(vec![s("other")]), ..claims() };
    assert_eq!(authorize(&v, &c), rejected("Token doesn't match required audience"));
}

#[test]
fn array_valued_claim_is_turned_down() {
    let v = validator(None, vec![any("groups")], vec![]);
    let c = JWTClaims { other: vec![(s("groups"), ClaimValue::Array)], ..claims() };
    assert_eq!(authorize(&v, &c), rejected("Token contains invalid claim"));
}

#[test]
fn object_valued_claim_is_turned_down() {
    let v = validator(None, vec![any("profile")], vec![]);
    let c = JWTClaims { other: vec![(s("profile"), ClaimValue::Object)], ..claims() };
    assert_eq!(authorize(&v, &c), rejected("Token contains invalid claim"));
}

#[test]
fn unknown_validator_is_turned_down() {
    assert_eq!(unknown_validator(), rejected("Token could not be validated"));
}

#[test]
fn token_that_did_not_verify_is_turned_down() {
    let v = validator(None, vec![], vec![]);
    let verdict = Err(AuthorityError::JwtVerifyError(JwtVerifyError::Other(s("malformed"))));
    assert_eq!(respond(&v, &verdict), rejected("Token isn't valid"));
    let verdict = Err(AuthorityError::MissingKey { kid: None, alg: s("RS256") });
    assert_eq!(respond(&v, &verdict), rejected("Token isn't valid"));
}

#[test]
fn reject_has_status_401_and_no_headers() {
    assert_eq!(reject(s("why")), rejected("why"));
}

#[test]
fn prefix_is_stripped_where_it_stands() {
    let v = validator(Some("Bearer "), vec![], vec![]);
    assert_eq!(select_token(&v, Some(b"Bearer t")), Ok(s("t")));
    assert_eq!(select_token(&v, Some(b"Bearer ")), Ok(s("")));
}

#[test]
fn value_without_the_prefix_is_taken_whole() {
    let v = validator(Some("Bearer "), vec![], vec![]);
    assert_eq!(select_token(&v, Some(b"bearer t")), Ok(s("bearer t")));
    assert_eq!(select_token(&v, Some(b"Bear")), Ok(s("Bear")));
    assert_eq!(select_token(&v, Some(b"t")), Ok(s("t")));
}

#[test]
fn prefix_is_stripped_once() {
    let v = validator(Some("Bearer "), vec![], vec![]);
    assert_eq!(select_token(&v, Some(b"Bearer Bearer t")), Ok(s("Bearer t")));
}

#[test]
fn value_is_taken_whole_without_prefix() {
    let v = validator(None, vec![], vec![]);
    assert_eq!(select_token(&v, Some(b"Bearer t")), Ok(s("Bearer t")));
}

#[test]
fn token_that_is_no_utf8_is_turned_down() {
    let v = validator(Some("Bearer "), vec![], vec![]);
    assert_eq!(select_token(&v, Some(b"Bearer \xff\xfe")), Err(rejected("Token is not valid UTF-8")));
    assert_eq!(select_token(&v, Some(b"\xc3")), Err(rejected("Token is not valid UTF-8")));
}

#[test]
fn missing_registered_claims_are_named() {
    let c = claims();
    for (name, body) in [
        ("aud", "Token is missing audience claim"),
        ("iss", "Token is missing issuer claim"),
        ("sub", "Token is missing subject claim"),
        ("exp", "Token is missing expiration claim"),
        ("nbf", "Token is missing not before claim"),
    ] {
        let v = validator(None, vec![any(name)], vec![]);
        assert_eq!(authorize(&v, &c), rejected(body));
    }
}

#[test]
fn mismatched_registered_claims_are_named() {
    let c = JWTClaims {
        aud: Some(vec![s("a")]),
        iss: Some(s("i")),
        sub: Some(s("s")),
        exp: Some(1),
        nbf: Some(2),
        other: Vec::new(),
    };
    for (name, body) in [
        ("aud", "Token doesn't match required audience"),
        ("iss", "Token doesn't match required issuer"),
        ("sub", "Token doesn't match required subject"),
        ("exp", "Token doesn't match required expiration"),
        ("nbf", "Token doesn't match required not before"),
    ] {
        let v = validator(None, vec![single(name, "other")], vec![]);
        assert_eq!(authorize(&v, &c), rejected(body));
    }
}

#[test]
fn missing_other_claim_is_named() {
    let v = validator(None, vec![any("role")], vec![]);
    assert_eq!(authorize(&v, &claims()), rejected("Token is missing required role claim"));
}

#[test]
fn mismatched_other_claim_is_named() {
    let v = validator(None, vec![single("role", "admin")], vec![]);
    let c = JWTClaims { other: vec![(s("role"), ClaimValue::String(s("user")))], ..claims() };
    assert_eq!(authorize(&v, &c), rejected("Token doesn't match required role claim"));
}

#[test]
fn one_matching_audience_is_enough() {
    let v = validator(None, vec![single("aud", "b")], vec![("aud", "x-aud")]);
    let c = JWTClaims { aud: Some(vec![s("a"), s("b"), s("c")]), ..claims() };
    assert_eq!(authorize(&v, &c), accepted(vec![("x-aud", b"a,b,c")]));
}

#[test]
fn audience_may_match_one_of_several_values() {
    let v = validator(None, vec![multiple("aud", vec!["x", "c"])], vec![]);
    let c = JWTClaims { aud: Some(vec![s("a"), s("c")]), ..claims() };
    assert_eq!(authorize(&v, &c), accepted(vec![]));
}

#[test]
fn presence_of_audience_suffices_where_any_value_is_accepted() {
    let v = validator(None, vec![any("aud")], vec![]);
    let c = JWTClaims { aud: Some(vec![s("a")]), ..claims() };
    assert_eq!(authorize(&v, &c), accepted(vec![]));
    let none = JWTClaims { aud: Some(Vec::new()), ..claims() };
    assert_eq!(authorize(&v, &none), accepted(vec![]));
}

#[test]
fn empty_audience_matches_no_value() {
    let v = validator(None, vec![single("aud", "a")], vec![]);
    let c = JWTClaims { aud: Some(Vec::new()), ..claims() };
    assert_eq!(authorize(&v, &c), rejected("Token doesn't match required audience"));
}

#[test]
fn times_are_compared_in_decimal_notation() {
    let v = validator(
        None,
        vec![single("exp", "1700000000"), single("nbf", "0")],
        vec![("exp", "x-exp"), ("nbf", "x-nbf")],
    );
    let c = JWTClaims { exp: Some(1700000000), nbf: Some(0), ..claims() };
    assert_eq!(authorize(&v, &c), accepted(vec![("x-exp", b"1700000000"), ("x-nbf", b"0")]));
    let later = JWTClaims { exp: Some(1700000001), nbf: Some(0), ..claims() };
    assert_eq!(authorize(&v, &later), rejected("Token doesn't match required expiration"));
}

#[test]
fn other_claims_are_matched_by_their_text() {
    let c = JWTClaims {
        other: vec![
            (s("n"), ClaimValue::Null),
            (s("t"), ClaimValue::Bool(true)),
            (s("f"), ClaimValue::Bool(false)),
            (s("i"), ClaimValue::Number(s("42"))),
            (s("x"), ClaimValue::Number(s("1.5"))),
            (s("s"), ClaimValue::String(s("text"))),
        ],
        ..claims()
    };
    let v = validator(
        None,
        vec![
            single("n", ""),
            single("t", "true"),
            single("f", "false"),
            single("i", "42"),
            single("x", "1.5"),
            single("s", "text"),
        ],
        vec![("n", "x-n"), ("t", "x-t"), ("f", "x-f"), ("i", "x-i"), ("x", "x-x"), ("s", "x-s")],
    );
    assert_eq!(
        authorize(&v, &c),
        accepted(vec![
            ("x-n", b""),
            ("x-t", b"true"),
            ("x-f", b"false"),
            ("x-i", b"42"),
            ("x-x", b"1.5"),
            ("x-s", b"text"),
        ])
    );
}

#[test]
fn claim_text_reads_registered_claims_from_their_fields() {
    let c = JWTClaims {
        aud: Some(vec![s("a"), s("b")]),
        iss: Some(s("i")),
        sub: None,
        exp: Some(10),
        nbf: None,
        other: vec![(s("sub"), ClaimValue::String(s("hidden"))), (s("k"), ClaimValue::Array)],
    };
    assert_eq!(claim_text(&c, "aud"), ClaimText::Text(s("a,b")));
    assert_eq!(claim_text(&c, "iss"), ClaimText::Text(s("i")));
    assert_eq!(claim_text(&c, "sub"), ClaimText::Missing);
    assert_eq!(claim_text(&c, "exp"), ClaimText::Text(s("10")));
    assert_eq!(claim_text(&c, "nbf"), ClaimText::Missing);
    assert_eq!(claim_text(&c, "k"), ClaimText::Invalid);
    assert_eq!(claim_text(&c, "none"), ClaimText::Missing);
}

#[test]
fn first_failing_claim_decides_the_answer() {
    let v = validator(None, vec![single("sub", "bob"), any("role")], vec![("sub", "x-user")]);
    let c = JWTClaims { sub: Some(s("alice")), ..claims() };
    assert_eq!(authorize(&v, &c), rejected("Token doesn't match required subject"));
}

#[test]
fn rejection_carries_no_headers_of_claims_that_passed() {
    let v = validator(None, vec![any("sub"), any("role")], vec![("sub", "x-user")]);
    let c = JWTClaims { sub: Some(s("alice")), ..claims() };
    assert_eq!(authorize(&v, &c), rejected("Token is missing required role claim"));
}

#[test]
fn mapped_claims_that_are_not_required_are_reported() {
    let v = validator(
        None,
        vec![any("sub")],
        vec![("iss", "x-issuer"), ("sub", "x-user"), ("role", "x-role"), ("exp", "x-exp")],
    );
    let c = JWTClaims {
        sub: Some(s("alice")),
        iss: Some(s("https://x")),
        exp: Some(5),
        other: vec![(s("role"), ClaimValue::String(s("admin")))],
        ..claims()
    };
    assert_eq!(
        authorize(&v, &c),
        accepted(vec![
            ("x-user", b"alice"),
            ("x-issuer", b"https://x"),
            ("x-role", b"admin"),
            ("x-exp", b"5"),
        ])
    );
}

#[test]
fn mapped_claims_that_the_token_lacks_are_skipped() {
    let v = validator(None, vec![], vec![("sub", "x-user"), ("role", "x-role"), ("aud", "x-aud")]);
    assert_eq!(authorize(&v, &claims()), accepted(vec![]));
}

#[test]
fn mapped_arrays_and_objects_are_skipped_silently() {
    let v = validator(None, vec![], vec![("groups", "x-groups"), ("p", "x-p"), ("s", "x-s")]);
    let c = JWTClaims {
        other: vec![
            (s("groups"), ClaimValue::Array),
            (s("p"), ClaimValue::Object),
            (s("s"), ClaimValue::String(s("v"))),
        ],
        ..claims()
    };
    assert_eq!(authorize(&v, &c), accepted(vec![("x-s", b"v")]));
}

#[test]
fn required_claim_without_mapping_sets_no_header() {
    let v = validator(None, vec![any("sub")], vec![]);
    let c = JWTClaims { sub: Some(s("alice")), ..claims() };
    assert_eq!(authorize(&v, &c), accepted(vec![]));
}

#[test]
fn header_values_are_made_valid() {
    let v = validator(None, vec![any("sub")], vec![("sub", "x-user"), ("note", "x-note")]);
    let c = JWTClaims {
        sub: Some(s("al\nice\u{7f}")),
        other: vec![(s("note"), ClaimValue::String(s("a\tb\r\n")))],
        ..claims()
    };
    assert_eq!(
        authorize(&v, &c),
        accepted(vec![("x-user", b"al?ice?"), ("x-note", b"a\tb??")])
    );
}

#[test]
fn header_values_keep_the_bytes_of_text_outside_ascii() {
    let v = validator(None, vec![any("sub")], vec![("sub", "x-user")]);
    let c = JWTClaims { sub: Some(s("J\u{fc}rgen")), ..claims() };
    assert_eq!(authorize(&v, &c), accepted(vec![("x-user", "J\u{fc}rgen".as_bytes())]));
}

#[test]
fn refresh_is_due_only_after_the_interval() {
    assert!(!refresh_due(1_000_000, 1_000_000, 1));
    assert!(!refresh_due(1_000_000, 2_000_000, 1));
    assert!(refresh_due(1_000_000, 2_000_001, 1));
    assert!(refresh_due(0, 3_600_000_001, 3600));
    assert!(!refresh_due(0, 3_600_000_000, 3600));
}

#[test]
fn refresh_is_not_due_while_the_clock_is_behind() {
    assert!(!refresh_due(2_000_000, 1_000_000, 0));
}

#[test]
fn refresh_with_interval_zero_is_due_as_time_passes() {
    assert!(!refresh_due(5, 5, 0));
    assert!(refresh_due(5, 6, 0));
}

#[test]
fn refresh_with_greatest_interval_does_not_overflow() {
    assert!(!refresh_due(0, u64::MAX, u64::MAX));
}

#[test]
fn validators_are_listed_as_json_on_exact_accept() {
    let names = vec![s("v1"), s("v2")];
    assert_eq!(
        available_validators(names.clone(), Some(b"application/json")),
        Listing::Json(names)
    );
    assert_eq!(
        available_validators(Vec::new(), Some(b"application/json")),
        Listing::Json(Vec::new())
    );
}

#[test]
fn validators_are_listed_as_text_otherwise() {
    let names = vec![s("v1"), s("v2")];
    assert_eq!(available_validators(names.clone(), None), Listing::Text(s("v1\nv2")));
    assert_eq!(
        available_validators(names.clone(), Some(b"Application/JSON")),
        Listing::Text(s("v1\nv2"))
    );
    assert_eq!(
        available_validators(names.clone(), Some(b"application/json; charset=utf-8")),
        Listing::Text(s("v1\nv2"))
    );
    assert_eq!(available_validators(names, Some(b"text/plain")), Listing::Text(s("v1\nv2")));
}

#[test]
fn no_validators_are_listed_as_a_sentence() {
    assert_eq!(available_validators(Vec::new(), None), Listing::Text(s("No validators available")));
}

#[test]
fn authority_errors_are_told_in_words() {
    assert_eq!(
        AuthorityError::MissingKey { kid: Some(s("k1")), alg: s("RS256") }.message(),
        "missing key for kid: k1, alg: RS256"
    );
    assert_eq!(
        AuthorityError::MissingKey { kid: None, alg: s("RS256") }.message(),
        "missing key for alg: RS256"
    );
    assert_eq!(
        AuthorityError::JwtVerifyError(JwtVerifyError::JwkVerifyError(s("bad signature")))
            .message(),
        "JWT verification error: token rejected by JWK: bad signature"
    );
    assert_eq!(
        AuthorityError::JwtVerifyError(JwtVerifyError::ClaimsRejected(s("expired"))).message(),
        "JWT verification error: token rejected by claims validator: expired"
    );
    assert_eq!(
        AuthorityError::JwtVerifyError(JwtVerifyError::Other(s("malformed"))).message(),
        "JWT verification error: malformed"
    );
}
