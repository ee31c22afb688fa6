//! The configuration document as it is written: authorities, validator
//! templates and validators, the latter two possibly incomplete.

use vstd::prelude::*;
use crate::utils::copies::{copy_pairs, copy_text, copy_texts, lemma_push_deep_view};

verus! {

/// The configuration document. Each table maps names to entries; of two
/// entries with one name the first counts.
#[derive(Debug, Clone, PartialEq, Eq)]
pub struct ConfigFile {
    pub authorities: Vec<(String, JWTAuthority)>,
    pub validator_templates: Vec<(String, PartialJWTValidator)>,
    pub validators: Vec<(String, PartialJWTValidator)>,
}

/// A trust anchor: where its keys are fetched and how tokens are checked
/// against them.
#[derive(Debug, Clone, PartialEq, Eq)]
pub struct JWTAuthority {
    pub jwks_url: String,
    /// Identifiers of the accepted signing algorithms; empty accepts all that
    /// the key material supports.
    pub approved_algorithms: Vec<String>,
    pub leeway_seconds: Option<u64>,
    pub check_expiration: Option<bool>,
    pub check_not_before: Option<bool>,
    /// Seconds between two refreshes of the keys.
    pub update_interval: Option<u64>,
}

/// A validator or a template: every field but `template` may be left to the
/// templates it names.
#[derive(Debug, Clone, PartialEq, Eq)]
pub struct PartialJWTValidator {
    pub template: Option<String>,
    pub authority: Option<String>,
    pub header: Option<String>,
    pub header_prefix: Option<String>,
    pub required_claims: Vec<RequiredClaim>,
    /// Claim name to header name.
    pub map_claims: Vec<(String, String)>,
}

/// A constraint on a claim, in one of the forms the document allows.
#[derive(Debug, Clone, PartialEq, Eq)]
pub enum RequiredClaim {
    Complex { name: String, value: Option<String> },
    ComplexMultiple { name: String, values: Vec<String> },
    Simple(String),
}

/// What a [`ConfigFile`] says.
pub struct ConfigFileView {
    pub authorities: Seq<(Seq<char>, JWTAuthorityView)>,
    pub validator_templates: Seq<(Seq<char>, PartialJWTValidatorView)>,
    pub validators: Seq<(Seq<char>, PartialJWTValidatorView)>,
}

/// What a [`JWTAuthority`] says.
pub struct JWTAuthorityView {
    pub jwks_url: Seq<char>,
    pub approved_algorithms: Seq<Seq<char>>,
    pub leeway_seconds: Option<u64>,
    pub check_expiration: Option<bool>,
    pub check_not_before: Option<bool>,
    pub update_interval: Option<u64>,
}

/// What a [`PartialJWTValidator`] says.
pub struct PartialJWTValidatorView {
    pub template: Option<Seq<char>>,
    pub authority: Option<Seq<char>>,
    pub header: Option<Seq<char>>,
    pub header_prefix: Option<Seq<char>>,
    pub required_claims: Seq<RequiredClaimView>,
    pub map_claims: Seq<(Seq<char>, Seq<char>)>,
}

/// What a [`RequiredClaim`] says.
pub enum RequiredClaimView {
    Complex { name: Seq<char>, value: Option<Seq<char>> },
    ComplexMultiple { name: Seq<char>, values: Seq<Seq<char>> },
    Simple(Seq<char>),
}

impl DeepView for RequiredClaim {
    type V = RequiredClaimView;

    open spec fn deep_view(&self) -> RequiredClaimView {
        match self {
            RequiredClaim::Complex { name, value } => RequiredClaimView::Complex {
                name: name@,
                value: value.deep_view(),
            },
            RequiredClaim::ComplexMultiple { name, values } => RequiredClaimView::ComplexMultiple {
                name: name@,
                values: values.deep_view(),
            },
            RequiredClaim::Simple(name) => RequiredClaimView::Simple(name@),
        }
    }
}

impl DeepView for PartialJWTValidator {
    type V = PartialJWTValidatorView;

    open spec fn deep_view(&self) -> PartialJWTValidatorView {
        PartialJWTValidatorView {
            template: self.template.deep_view(),
            authority: self.authority.deep_view(),
            header: self.header.deep_view(),
            header_prefix: self.header_prefix.deep_view(),
            required_claims: self.required_claims.deep_view(),
            map_claims: self.map_claims.deep_view(),
        }
    }
}

impl DeepView for JWTAuthority {
    type V = JWTAuthorityView;

    open spec fn deep_view(&self) -> JWTAuthorityView {
        JWTAuthorityView {
            jwks_url: self.jwks_url@,
            approved_algorithms: self.approved_algorithms.deep_view(),
            leeway_seconds: self.leeway_seconds,
            check_expiration: self.check_expiration,
            check_not_before: self.check_not_before,
            update_interval: self.update_interval,
        }
    }
}

impl DeepView for ConfigFile {
    type V = ConfigFileView;

    open spec fn deep_view(&self) -> ConfigFileView {
        ConfigFileView {
            authorities: self.authorities.deep_view(),
            validator_templates: self.validator_templates.deep_view(),
            validators: self.validators.deep_view(),
        }
    }
}

impl RequiredClaim {
    /// A copy of the constraint.
    pub fn copy(&self) -> (r: RequiredClaim)
        ensures
            r.deep_view() == self.deep_view(),
    {
        match self {
            RequiredClaim::Complex { name, value } => RequiredClaim::Complex {
                name: name.clone(),
                value: copy_text(value),
            },
            RequiredClaim::ComplexMultiple { name, values } => RequiredClaim::ComplexMultiple {
                name: name.clone(),
                values: copy_texts(values),
            },
            RequiredClaim::Simple(name) => RequiredClaim::Simple(name.clone()),
        }
    }
}

/// Adds copies of `claims` to the end of `target`.
pub fn extend_claims(target: &mut Vec<RequiredClaim>, claims: &Vec<RequiredClaim>)
    ensures
        final(target).deep_view() == old(target).deep_view() + claims.deep_view(),
{
    let mut i: usize = 0;
    while i < claims.len()
        invariant
            i <= claims.len(),
            target.len() == old(target).len() + i,
            target.deep_view() == old(target).deep_view() + claims.deep_view().subrange(
                0,
                i as int,
            ),
        decreases claims.len() - i,
    {
        let ghost before = *target;
        let claim = claims[i].copy();
        target.push(claim);
        proof {
            lemma_push_deep_view(before, *target, claim);
            assert(target.deep_view() =~= old(target).deep_view() + claims.deep_view().subrange(
                0,
                i + 1,
            ));
        }
        i += 1;
    }
    assert(claims.deep_view().subrange(0, i as int) =~= claims.deep_view());
}

impl PartialJWTValidator {
    /// A copy of the entry.
    pub fn copy(&self) -> (r: PartialJWTValidator)
        ensures
            r.deep_view() == self.deep_view(),
    {
        let mut required_claims: Vec<RequiredClaim> = Vec::new();
        assert(required_claims.deep_view() =~= Seq::empty());
        extend_claims(&mut required_claims, &self.required_claims);
        assert(required_claims.deep_view() =~= self.required_claims.deep_view());
        PartialJWTValidator {
            template: copy_text(&self.template),
            authority: copy_text(&self.authority),
            header: copy_text(&self.header),
            header_prefix: copy_text(&self.header_prefix),
            required_claims,
            map_claims: copy_pairs(&self.map_claims),
        }
    }
}

} // verus!
