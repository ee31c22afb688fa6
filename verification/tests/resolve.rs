use jwt_forward_auth::validator_file::error::ValidationFileError;
use jwt_forward_auth::validator_file::file::{
    ConfigFile, JWTAuthority, PartialJWTValidator, RequiredClaim as Entry,
};
use jwt_forward_auth::validator_file::{
    Config, JWTValidator, RequiredClaim, RequiredClaimValue,
};
use jwt_forward_auth::validators::authority::CoreValidator;

fn s(text: &str) -> String {
    text.to_string()
}

fn authority(url: &str) -> JWTAuthority {
    JWTAuthority {
        jwks_url: s(url),
        approved_algorithms: Vec::new(),
        leeway_seconds: None,
        check_expiration: None,
        check_not_before: None,
        update_interval: None,
    }
}

fn partial() -> PartialJWTValidator {
    PartialJWTValidator {
        template: None,
        authority: None,
        header: None,
        header_prefix: None,
        required_claims: Vec::new(),
        map_claims: Vec::new(),
    }
}

fn complete(authority: &str, header: &str) -> PartialJWTValidator {
    PartialJWTValidator { authority: Some(s(authority)), header: Some(s(header)), ..partial() }
}

fn from(template: &str) -> PartialJWTValidator {
    PartialJWTValidator { template: Some(s(template)), ..partial() }
}

fn file(
    templates: Vec<(&str, PartialJWTValidator)>,
    validators: Vec<(&str, PartialJWTValidator)>,
) -> ConfigFile {
    ConfigFile {
        authorities: vec![(s("a1"), authority("https://a1/jwks")), (s("a2"), authority("https://a2/jwks"))],
        validator_templates: templates.into_iter().map(|(n, p)| (s(n), p)).collect(),
        validators: validators.into_iter().map(|(n, p)| (s(n), p)).collect(),
    }
}

fn resolved(config: &Config, name: &str) -> JWTValidator {
    config
        .validators()
        .iter()
        .find(|(n, _)| n == name)
        .map(|(_, v)| v.clone())
        .expect("the validator")
}

fn any(name: &str) -> RequiredClaim {
    RequiredClaim { name: s(name), value: RequiredClaimValue::Any }
}

fn single(name: &str, value: &str) -> RequiredClaim {
    RequiredClaim { name: s(name), value: RequiredClaimValue::Single(s(value)) }
}

#[test]
fn validator_without_template_resolves_to_itself() {
    let config = Config::from_file(file(vec![], vec![("v", complete("a1", "Authorization"))]))
        .expect("a configuration");
    assert_eq!(
        resolved(&config, "v"),
        JWTValidator {
            authority: s("a1"),
            header: s("Authorization"),
            header_prefix: None,
            required_claims: Vec::new(),
            map_claims: Vec::new(),
        }
    );
}

#[test]
fn authorities_are_kept_as_they_are() {
    let input = file(vec![], vec![("v", complete("a1", "Authorization"))]);
    let authorities = input.authorities.clone();
    let config = Config::from_file(input).expect("a configuration");
    assert_eq!(config.authorities(), &authorities);
}

#[test]
fn empty_document_resolves_to_empty_configuration() {
    let input = ConfigFile {
        authorities: Vec::new(),
        validator_templates: Vec::new(),
        validators: Vec::new(),
    };
    let config = Config::from_file(input).expect("a configuration");
    assert!(config.authorities().is_empty());
    assert!(config.validators().is_empty());
}

#[test]
fn template_inheritance_appends_template_claims_after_own() {
    let t = PartialJWTValidator {
        required_claims: vec![Entry::Complex { name: s("iss"), value: Some(s("https://x")) }],
        ..complete("a1", "Authorization")
    };
    let v = PartialJWTValidator { required_claims: vec![Entry::Simple(s("sub"))], ..from("t") };
    let config = Config::from_file(file(vec![("t", t)], vec![("v", v)])).expect("a configuration");
    let v = resolved(&config, "v");
    assert_eq!(v.authority, "a1");
    assert_eq!(v.header, "Authorization");
    assert_eq!(v.required_claims, vec![any("sub"), single("iss", "https://x")]);
}

#[test]
fn own_scalars_win_over_template() {
    let t = PartialJWTValidator { header_prefix: Some(s("Token ")), ..complete("a1", "X-Template") };
    let v = PartialJWTValidator {
        authority: Some(s("a2")),
        header: Some(s("X-Own")),
        header_prefix: Some(s("Bearer ")),
        ..from("t")
    };
    let config = Config::from_file(file(vec![("t", t)], vec![("v", v)])).expect("a configuration");
    let v = resolved(&config, "v");
    assert_eq!(v.authority, "a2");
    assert_eq!(v.header, "X-Own");
    assert_eq!(v.header_prefix, Some(s("Bearer ")));
}

#[test]
fn missing_scalars_are_adopted_from_template() {
    let t = PartialJWTValidator { header_prefix: Some(s("Bearer ")), ..complete("a2", "X-Template") };
    let config =
        Config::from_file(file(vec![("t", t)], vec![("v", from("t"))])).expect("a configuration");
    let v = resolved(&config, "v");
    assert_eq!(v.authority, "a2");
    assert_eq!(v.header, "X-Template");
    assert_eq!(v.header_prefix, Some(s("Bearer ")));
}

#[test]
fn nearest_template_wins_in_a_chain() {
    let t1 = PartialJWTValidator { header: Some(s("X-One")), ..from("t2") };
    let t2 = PartialJWTValidator {
        required_claims: vec![Entry::Simple(s("two"))],
        ..complete("a1", "X-Two")
    };
    let v = PartialJWTValidator { required_claims: vec![Entry::Simple(s("own"))], ..from("t1") };
    let config = Config::from_file(file(vec![("t1", t1), ("t2", t2)], vec![("v", v)]))
        .expect("a configuration");
    let v = resolved(&config, "v");
    assert_eq!(v.header, "X-One");
    assert_eq!(v.authority, "a1");
    assert_eq!(v.required_claims, vec![any("own"), any("two")]);
}

#[test]
fn claims_of_every_template_follow_in_chain_order() {
    let t1 = PartialJWTValidator { required_claims: vec![Entry::Simple(s("b"))], ..from("t2") };
    let t2 = PartialJWTValidator {
        required_claims: vec![Entry::Simple(s("c")), Entry::Simple(s("d"))],
        ..complete("a1", "H")
    };
    let v = PartialJWTValidator { required_claims: vec![Entry::Simple(s("a"))], ..from("t1") };
    let config = Config::from_file(file(vec![("t2", t2), ("t1", t1)], vec![("v", v)]))
        .expect("a configuration");
    assert_eq!(resolved(&config, "v").required_claims, vec![any("a"), any("b"), any("c"), any("d")]);
}

#[test]
fn own_claim_mapping_wins_and_template_adds_the_rest() {
    let t = PartialJWTValidator {
        map_claims: vec![(s("sub"), s("X-Template-Sub")), (s("iss"), s("X-Issuer"))],
        ..complete("a1", "Authorization")
    };
    let v = PartialJWTValidator { map_claims: vec![(s("sub"), s("X-User"))], ..from("t") };
    let config = Config::from_file(file(vec![("t", t)], vec![("v", v)])).expect("a configuration");
    assert_eq!(
        resolved(&config, "v").map_claims,
        vec![(s("sub"), s("x-user")), (s("iss"), s("x-issuer"))]
    );
}

#[test]
fn mapped_header_names_are_held_in_lower_case() {
    let v = PartialJWTValidator {
        map_claims: vec![(s("sub"), s("X-User"))],
        ..complete("a1", "Authorization")
    };
    let config = Config::from_file(file(vec![], vec![("v", v)])).expect("a configuration");
    assert_eq!(resolved(&config, "v").map_claims, vec![(s("sub"), s("x-user"))]);
}

#[test]
fn empty_prefix_counts_as_none() {
    let v = PartialJWTValidator { header_prefix: Some(s("")), ..complete("a1", "Authorization") };
    let config = Config::from_file(file(vec![], vec![("v", v)])).expect("a configuration");
    assert_eq!(resolved(&config, "v").header_prefix, None);
}

#[test]
fn own_empty_prefix_is_not_replaced_by_template() {
    let t = PartialJWTValidator { header_prefix: Some(s("Bearer ")), ..complete("a1", "H") };
    let v = PartialJWTValidator { header_prefix: Some(s("")), ..from("t") };
    let config = Config::from_file(file(vec![("t", t)], vec![("v", v)])).expect("a configuration");
    assert_eq!(resolved(&config, "v").header_prefix, None);
}

#[test]
fn required_claims_are_normalized() {
    let v = PartialJWTValidator {
        required_claims: vec![
            Entry::Simple(s("a")),
            Entry::Complex { name: s("b"), value: None },
            Entry::Complex { name: s("c"), value: Some(s("x")) },
            Entry::ComplexMultiple { name: s("d"), values: vec![] },
            Entry::ComplexMultiple { name: s("e"), values: vec![s("x")] },
            Entry::ComplexMultiple { name: s("f"), values: vec![s("x"), s("y")] },
        ],
        ..complete("a1", "Authorization")
    };
    let config = Config::from_file(file(vec![], vec![("v", v)])).expect("a configuration");
    assert_eq!(
        resolved(&config, "v").required_claims,
        vec![
            any("a"),
            any("b"),
            single("c", "x"),
            any("d"),
            single("e", "x"),
            RequiredClaim { name: s("f"), value: RequiredClaimValue::Multiple(vec![s("x"), s("y")]) },
        ]
    );
}

#[test]
fn validators_keep_their_names_and_order() {
    let config = Config::from_file(file(
        vec![],
        vec![("z", complete("a1", "H")), ("a", complete("a2", "H")), ("m", complete("a1", "H"))],
    ))
    .expect("a configuration");
    let names: Vec<&str> = config.validators().iter().map(|(n, _)| n.as_str()).collect();
    assert_eq!(names, vec!["z", "a", "m"]);
}

#[test]
fn missing_header_is_refused() {
    let v = PartialJWTValidator { authority: Some(s("a1")), ..partial() };
    assert_eq!(
        Config::from_file(file(vec![], vec![("v", v)])),
        Err(ValidationFileError::IsMissingHeader(s("v")))
    );
}

#[test]
fn missing_authority_is_refused() {
    let v = PartialJWTValidator { header: Some(s("Authorization")), ..partial() };
    assert_eq!(
        Config::from_file(file(vec![], vec![("v", v)])),
        Err(ValidationFileError::IsMissingAuthority(s("v")))
    );
}

#[test]
fn missing_header_is_reported_before_missing_authority() {
    assert_eq!(
        Config::from_file(file(vec![], vec![("v", partial())])),
        Err(ValidationFileError::IsMissingHeader(s("v")))
    );
}

#[test]
fn unknown_authority_is_refused() {
    assert_eq!(
        Config::from_file(file(vec![], vec![("v", complete("nobody", "Authorization"))])),
        Err(ValidationFileError::MissingAuthority { validator: s("v"), authority: s("nobody") })
    );
}

#[test]
fn unknown_authority_is_reported_before_invalid_header_name() {
    let v = PartialJWTValidator {
        map_claims: vec![(s("sub"), s("bad name"))],
        ..complete("nobody", "Authorization")
    };
    assert_eq!(
        Config::from_file(file(vec![], vec![("v", v)])),
        Err(ValidationFileError::MissingAuthority { validator: s("v"), authority: s("nobody") })
    );
}

#[test]
fn unknown_template_is_refused() {
    assert_eq!(
        Config::from_file(file(vec![], vec![("v", from("t"))])),
        Err(ValidationFileError::MissingTemplate { validator: s("v"), template: s("t") })
    );
}

#[test]
fn unknown_template_of_template_is_refused() {
    assert_eq!(
        Config::from_file(file(vec![("t", from("u"))], vec![("v", from("t"))])),
        Err(ValidationFileError::MissingTemplate { validator: s("v"), template: s("u") })
    );
}

#[test]
fn template_that_names_itself_is_a_circle() {
    let t = PartialJWTValidator { template: Some(s("t")), ..complete("a1", "H") };
    assert_eq!(
        Config::from_file(file(vec![("t", t)], vec![("v", from("t"))])),
        Err(ValidationFileError::CircularTemplate(s("t")))
    );
}

#[test]
fn circle_of_two_templates_is_refused() {
    let t1 = PartialJWTValidator { template: Some(s("t2")), ..complete("a1", "H") };
    let t2 = PartialJWTValidator { template: Some(s("t1")), ..complete("a1", "H") };
    assert_eq!(
        Config::from_file(file(vec![("t1", t1), ("t2", t2)], vec![("v", from("t1"))])),
        Err(ValidationFileError::CircularTemplate(s("t1")))
    );
}

#[test]
fn circle_behind_a_tail_is_refused() {
    let t0 = from("t1");
    let t1 = from("t2");
    let t2 = PartialJWTValidator { template: Some(s("t1")), ..complete("a1", "H") };
    assert_eq!(
        Config::from_file(file(
            vec![("t0", t0), ("t1", t1), ("t2", t2)],
            vec![("v", from("t0"))]
        )),
        Err(ValidationFileError::CircularTemplate(s("t1")))
    );
}

#[test]
fn circle_that_no_validator_reaches_does_not_fail_the_load() {
    let t1 = from("t2");
    let t2 = from("t1");
    let config = Config::from_file(file(
        vec![("t1", t1), ("t2", t2)],
        vec![("v", complete("a1", "Authorization"))],
    ));
    assert!(config.is_ok());
}

#[test]
fn invalid_header_name_is_refused() {
    let v = PartialJWTValidator {
        map_claims: vec![(s("sub"), s("X-User")), (s("iss"), s("bad name"))],
        ..complete("a1", "Authorization")
    };
    assert_eq!(
        Config::from_file(file(vec![], vec![("v", v)])),
        Err(ValidationFileError::InvalidHeaderName {
            validator: s("v"),
            claim: s("iss"),
            header: s("bad name"),
        })
    );
}

#[test]
fn invalid_header_name_of_template_is_refused_for_the_validator() {
    let t = PartialJWTValidator {
        map_claims: vec![(s("sub"), s(""))],
        ..complete("a1", "Authorization")
    };
    assert_eq!(
        Config::from_file(file(vec![("t", t)], vec![("v", from("t"))])),
        Err(ValidationFileError::InvalidHeaderName {
            validator: s("v"),
            claim: s("sub"),
            header: s(""),
        })
    );
}

#[test]
fn invalid_header_name_that_own_mapping_hides_is_not_reached() {
    let t = PartialJWTValidator {
        map_claims: vec![(s("sub"), s("bad name"))],
        ..complete("a1", "Authorization")
    };
    let v = PartialJWTValidator { map_claims: vec![(s("sub"), s("X-User"))], ..from("t") };
    assert!(Config::from_file(file(vec![("t", t)], vec![("v", v)])).is_ok());
}

#[test]
fn first_validator_that_fails_decides_the_error() {
    let result = Config::from_file(file(
        vec![],
        vec![("ok", complete("a1", "H")), ("first", from("t")), ("second", partial())],
    ));
    assert_eq!(
        result,
        Err(ValidationFileError::MissingTemplate { validator: s("first"), template: s("t") })
    );
}

#[test]
fn one_failing_validator_fails_the_whole_load() {
    let result = Config::from_file(file(
        vec![],
        vec![("ok", complete("a1", "H")), ("bad", partial())],
    ));
    assert!(result.is_err());
}

#[test]
fn first_template_of_a_name_counts() {
    let first = complete("a1", "X-First");
    let second = complete("a2", "X-Second");
    let config = Config::from_file(file(vec![("t", first), ("t", second)], vec![("v", from("t"))]))
        .expect("a configuration");
    assert_eq!(resolved(&config, "v").header, "X-First");
}

#[test]
fn every_resolved_validator_is_sound() {
    let t = PartialJWTValidator {
        map_claims: vec![(s("iss"), s("X-Issuer"))],
        header_prefix: Some(s("")),
        ..complete("a2", "Authorization")
    };
    let v1 = PartialJWTValidator { map_claims: vec![(s("sub"), s("X-User"))], ..from("t") };
    let v2 = complete("a1", "X-Token");
    let input = file(vec![("t", t)], vec![("v1", v1), ("v2", v2)]);
    let config = Config::from_file(input).expect("a configuration");
    for (_, validator) in config.validators() {
        assert!(config.authorities().iter().any(|(name, _)| *name == validator.authority));
        assert!(!validator.header.is_empty());
        assert_ne!(validator.header_prefix, Some(String::new()));
        for (_, header) in &validator.map_claims {
            let parsed = http::HeaderName::from_bytes(header.as_bytes()).expect("a header name");
            assert_eq!(parsed.as_str(), header);
        }
    }
}

fn written_back(config: &Config, templates: Vec<(String, PartialJWTValidator)>) -> ConfigFile {
    ConfigFile {
        authorities: config.authorities().clone(),
        validator_templates: templates,
        validators: config
            .validators()
            .iter()
            .map(|(name, v)| {
                (
                    name.clone(),
                    PartialJWTValidator {
                        template: None,
                        authority: Some(v.authority.clone()),
                        header: Some(v.header.clone()),
                        header_prefix: v.header_prefix.clone(),
                        required_claims: v
                            .required_claims
                            .iter()
                            .map(|c| match &c.value {
                                RequiredClaimValue::Any => Entry::Simple(c.name.clone()),
                                RequiredClaimValue::Single(value) => Entry::Complex {
                                    name: c.name.clone(),
                                    value: Some(value.clone()),
                                },
                                RequiredClaimValue::Multiple(values) => Entry::ComplexMultiple {
                                    name: c.name.clone(),
                                    values: values.clone(),
                                },
                            })
                            .collect(),
                        map_claims: v.map_claims.clone(),
                    },
                )
            })
            .collect(),
    }
}

#[test]
fn resolving_what_was_resolved_gives_the_same() {
    let t = PartialJWTValidator {
        header_prefix: Some(s("Bearer ")),
        required_claims: vec![
            Entry::Complex { name: s("iss"), value: Some(s("https://x")) },
            Entry::ComplexMultiple { name: s("aud"), values: vec![s("a"), s("b")] },
        ],
        map_claims: vec![(s("iss"), s("X-Issuer"))],
        ..complete("a1", "Authorization")
    };
    let v = PartialJWTValidator {
        required_claims: vec![Entry::Simple(s("sub"))],
        map_claims: vec![(s("sub"), s("X-User"))],
        ..from("t")
    };
    let input = file(vec![("t", t)], vec![("v", v), ("w", complete("a2", "X-Token"))]);
    let templates = input.validator_templates.clone();
    let first = Config::from_file(input).expect("a configuration");
    let second = Config::from_file(written_back(&first, templates)).expect("a configuration");
    assert_eq!(first, second);
    let third = Config::from_file(written_back(&second, Vec::new())).expect("a configuration");
    assert_eq!(first, third);
}

#[test]
fn authority_defaults_check_both_times_without_leeway() {
    assert_eq!(
        authority("https://a1/jwks").to_validator(),
        CoreValidator {
            leeway_secs: 0,
            check_expiration: true,
            check_not_before: true,
            approved_algorithms: Vec::new(),
        }
    );
}

#[test]
fn authority_settings_are_taken_over() {
    let a = JWTAuthority {
        jwks_url: s("https://a1/jwks"),
        approved_algorithms: vec![s("RS256"), s("ES256")],
        leeway_seconds: Some(30),
        check_expiration: Some(false),
        check_not_before: Some(false),
        update_interval: Some(60),
    };
    assert_eq!(
        a.to_validator(),
        CoreValidator {
            leeway_secs: 30,
            check_expiration: false,
            check_not_before: false,
            approved_algorithms: vec![s("RS256"), s("ES256")],
        }
    );
}

#[test]
fn any_value_matches_everything() {
    assert!(RequiredClaimValue::Any.matches(""));
    assert!(RequiredClaimValue::Any.matches("x"));
}

#[test]
fn single_value_matches_itself_only() {
    let value = RequiredClaimValue::Single(s("admin"));
    assert!(value.matches("admin"));
    assert!(!value.matches("Admin"));
    assert!(!value.matches(""));
}

#[test]
fn multiple_values_match_each_of_them() {
    let value = RequiredClaimValue::Multiple(vec![s("a"), s("b")]);
    assert!(value.matches("a"));
    assert!(value.matches("b"));
    assert!(!value.matches("c"));
    assert!(!RequiredClaimValue::Multiple(Vec::new()).matches("a"));
}

#[test]
fn constraint_is_described_in_words() {
    assert_eq!(RequiredClaimValue::Any.describe(), "None");
    assert_eq!(RequiredClaimValue::Single(s("x")).describe(), "x");
    assert_eq!(RequiredClaimValue::Multiple(vec![s("a"), s("b")]).describe(), "[a, b]");
    assert_eq!(RequiredClaimValue::Multiple(Vec::new()).describe(), "[]");
}

#[test]
fn errors_are_told_in_words() {
    assert_eq!(
        ValidationFileError::IoError(s("no such file")).message(),
        "Validation file IO error: no such file"
    );
    assert_eq!(
        ValidationFileError::SerdeError(s("bad yaml")).message(),
        "Validation file deserialization error: bad yaml"
    );
    assert_eq!(
        ValidationFileError::IsMissingAuthority(s("v")).message(),
        "Validator v is missing an authority"
    );
    assert_eq!(
        ValidationFileError::IsMissingHeader(s("v")).message(),
        "Validator v is missing the jwt header"
    );
    assert_eq!(
        ValidationFileError::MissingAuthority { validator: s("v"), authority: s("a") }.message(),
        "Validator v references missing authority a"
    );
    assert_eq!(
        ValidationFileError::MissingTemplate { validator: s("v"), template: s("t") }.message(),
        "Validator v references missing template t"
    );
    assert_eq!(
        ValidationFileError::CircularTemplate(s("t")).message(),
        "Circular template reference in template t"
    );
    assert_eq!(
        ValidationFileError::InvalidHeaderName { validator: s("v"), claim: s("c"), header: s("h h") }
            .message(),
        "Validator v references invalid header name h h for claim c"
    );
}

fn written_back_beside_templates(config: &Config, input: &ConfigFile) -> ConfigFile {
    let mut file = written_back(config, input.validator_templates.clone());
    for (i, (_, entry)) in file.validators.iter_mut().enumerate() {
        entry.template = input.validators[i].1.template.clone();
    }
    file
}

#[test]
fn resolving_again_beside_templates_gives_the_same_where_they_add_no_claims() {
    let t = PartialJWTValidator {
        header_prefix: Some(s("Bearer ")),
        map_claims: vec![(s("iss"), s("X-Issuer")), (s("sub"), s("X-Hidden"))],
        ..complete("a1", "Authorization")
    };
    let v = PartialJWTValidator {
        required_claims: vec![Entry::Simple(s("sub"))],
        map_claims: vec![(s("sub"), s("X-User"))],
        ..from("t")
    };
    let input = file(vec![("t", t)], vec![("v", v)]);
    let first = Config::from_file(input.clone()).expect("a configuration");
    let second = Config::from_file(written_back_beside_templates(&first, &input))
        .expect("a configuration");
    assert_eq!(first, second);
}

#[test]
fn resolving_again_beside_templates_adds_their_claims_once_more() {
    let t = PartialJWTValidator {
        required_claims: vec![Entry::Complex { name: s("iss"), value: Some(s("https://x")) }],
        ..complete("a1", "Authorization")
    };
    let v = PartialJWTValidator { required_claims: vec![Entry::Simple(s("sub"))], ..from("t") };
    let input = file(vec![("t", t)], vec![("v", v)]);
    let first = Config::from_file(input.clone()).expect("a configuration");
    let second = Config::from_file(written_back_beside_templates(&first, &input))
        .expect("a configuration");
    assert_eq!(
        resolved(&second, "v").required_claims,
        vec![any("sub"), single("iss", "https://x"), single("iss", "https://x")]
    );
    assert_ne!(first, second);
}

#[test]
fn resolving_again_beside_templates_may_adopt_a_prefix_that_was_declined() {
    let t = PartialJWTValidator { header_prefix: Some(s("Bearer ")), ..complete("a1", "H") };
    let v = PartialJWTValidator { header_prefix: Some(s("")), ..from("t") };
    let input = file(vec![("t", t)], vec![("v", v)]);
    let first = Config::from_file(input.clone()).expect("a configuration");
    assert_eq!(resolved(&first, "v").header_prefix, None);
    let second = Config::from_file(written_back_beside_templates(&first, &input))
        .expect("a configuration");
    assert_eq!(resolved(&second, "v").header_prefix, Some(s("Bearer ")));
}
