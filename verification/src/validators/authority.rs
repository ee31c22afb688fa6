//! Authorities: a key source together with the checks that its tokens must
//! pass.

use vstd::prelude::*;
use crate::utils::copies::{copy_texts, lemma_push_deep_view};
use crate::utils::entries::{find, lookup, names};

verus! {

/// How the signature and the registered claims of a token are checked.
#[derive(Debug, Clone, PartialEq, Eq)]
pub struct CoreValidator {
    /// Seconds of grace on either side of `exp` and `nbf`.
    pub leeway_secs: u64,
    pub check_expiration: bool,
    pub check_not_before: bool,
    /// Identifiers of the accepted signing algorithms; empty accepts all that
    /// the key material supports.
    pub approved_algorithms: Vec<String>,
}

/// What a [`CoreValidator`] says.
pub struct CoreValidatorView {
    pub leeway_secs: u64,
    pub check_expiration: bool,
    pub check_not_before: bool,
    pub approved_algorithms: Seq<Seq<char>>,
}

impl DeepView for CoreValidator {
    type V = CoreValidatorView;

    open spec fn deep_view(&self) -> CoreValidatorView {
        CoreValidatorView {
            leeway_secs: self.leeway_secs,
            check_expiration: self.check_expiration,
            check_not_before: self.check_not_before,
            approved_algorithms: self.approved_algorithms.deep_view(),
        }
    }
}

/// A trust anchor at run time.
#[derive(Debug, Clone, PartialEq, Eq)]
pub struct Authority {
    pub name: String,
    /// The URI under which the key store holds this authority's keys.
    pub jwks: String,
    pub core_validator: CoreValidator,
    /// Seconds after which the keys are fetched again.
    pub update_interval: u64,
}

/// What an [`Authority`] says.
pub struct AuthorityView {
    pub name: Seq<char>,
    pub jwks: Seq<char>,
    pub core_validator: CoreValidatorView,
    pub update_interval: u64,
}

impl DeepView for Authority {
    type V = AuthorityView;

    open spec fn deep_view(&self) -> AuthorityView {
        AuthorityView {
            name: self.name@,
            jwks: self.jwks@,
            core_validator: self.core_validator.deep_view(),
            update_interval: self.update_interval,
        }
    }
}

impl CoreValidator {
    /// A copy of the checks.
    pub fn copy(&self) -> (r: CoreValidator)
        ensures
            r.deep_view() == self.deep_view(),
    {
        CoreValidator {
            leeway_secs: self.leeway_secs,
            check_expiration: self.check_expiration,
            check_not_before: self.check_not_before,
            approved_algorithms: copy_texts(&self.approved_algorithms),
        }
    }
}

impl Authority {
    /// The authority `name`, whose keys the key store holds under `jwks`.
    pub fn new(name: String, jwks: String, core_validator: CoreValidator, update_interval: u64) -> (r:
        Authority)
        ensures
            r.deep_view() == (AuthorityView {
                name: name@,
                jwks: jwks@,
                core_validator: core_validator.deep_view(),
                update_interval,
            }),
    {
        Authority { name, jwks, core_validator, update_interval }
    }

    /// A copy of the authority.
    pub fn copy(&self) -> (r: Authority)
        ensures
            r.deep_view() == self.deep_view(),
    {
        Authority {
            name: self.name.clone(),
            jwks: self.jwks.clone(),
            core_validator: self.core_validator.copy(),
            update_interval: self.update_interval,
        }
    }

    /// The URI under which the key store holds the authority's keys.
    pub fn jwks(&self) -> (r: &str)
        ensures
            r@ == self.jwks@,
    {
        self.jwks.as_str()
    }

    /// How tokens are checked.
    pub fn core_validator(&self) -> (r: &CoreValidator)
        ensures
            r == self.core_validator,
    {
        &self.core_validator
    }

    /// Seconds after which the keys are fetched again.
    pub fn update_interval(&self) -> (r: u64)
        ensures
            r == self.update_interval,
    {
        self.update_interval
    }
}

/// The authorities by name.
#[derive(Debug)]
pub struct AuthorityStore {
    pub states: Vec<(String, Authority)>,
}

impl DeepView for AuthorityStore {
    type V = Seq<(Seq<char>, AuthorityView)>;

    open spec fn deep_view(&self) -> Seq<(Seq<char>, AuthorityView)> {
        self.states.deep_view()
    }
}

impl AuthorityStore {
    /// A store without authorities.
    pub fn new() -> (r: AuthorityStore)
        ensures
            r.deep_view() == Seq::<(Seq<char>, AuthorityView)>::empty(),
    {
        let r = AuthorityStore { states: Vec::new() };
        assert(r.deep_view() =~= Seq::empty());
        r
    }

    /// Puts `map` in the place of all that the store holds.
    pub fn update(&mut self, map: Vec<(String, Authority)>)
        ensures
            final(self).deep_view() == map.deep_view(),
    {
        self.states = map;
    }

    /// The authority `name`.
    pub fn get(&self, name: &str) -> (r: Option<Authority>)
        ensures
            r.deep_view() == lookup(self.deep_view(), name@),
    {
        match find(&self.states, name) {
            Some(i) => Some(self.states[i].1.copy()),
            None => None,
        }
    }

    /// The names of the authorities, in the order of the store.
    pub fn keys(&self) -> (r: Vec<String>)
        ensures
            r.deep_view() == names(self.deep_view()),
    {
        let mut out: Vec<String> = Vec::with_capacity(self.states.len());
        let mut i: usize = 0;
        while i < self.states.len()
            invariant
                i <= self.states.len(),
                out.len() == i,
                out.deep_view() == names(self.deep_view()).subrange(0, i as int),
            decreases self.states.len() - i,
        {
            let ghost before = out;
            let name = self.states[i].0.clone();
            out.push(name);
            proof {
                lemma_push_deep_view(before, out, name);
                assert(out.deep_view() =~= names(self.deep_view()).subrange(0, i + 1));
            }
            i += 1;
        }
        assert(names(self.deep_view()).subrange(0, i as int) =~= names(self.deep_view()));
        out
    }

    /// Drops all authorities.
    pub fn clear(&mut self)
        ensures
            final(self).deep_view() == Seq::<(Seq<char>, AuthorityView)>::empty(),
    {
        self.states = Vec::new();
        assert(self.deep_view() =~= Seq::empty());
    }
}

/// Why a token was not accepted by its authority's key set.
#[derive(Debug, Clone, PartialEq, Eq)]
pub enum JwtVerifyError {
    /// The key rejected the token; the text says why.
    JwkVerifyError(String),
    /// The registered claims were rejected; the text says why.
    ClaimsRejected(String),
    /// Any other cause, such as a token that is not well formed.
    Other(String),
}

/// Why an authority did not accept a token.
#[derive(Debug, Clone, PartialEq, Eq)]
pub enum AuthorityError {
    /// The key set holds no key for the token's key id and algorithm.
    MissingKey { kid: Option<String>, alg: String },
    /// The token did not verify.
    JwtVerifyError(JwtVerifyError),
}

/// What a [`JwtVerifyError`] says.
pub enum JwtVerifyErrorView {
    JwkVerifyError(Seq<char>),
    ClaimsRejected(Seq<char>),
    Other(Seq<char>),
}

/// What an [`AuthorityError`] says.
pub enum AuthorityErrorView {
    MissingKey { kid: Option<Seq<char>>, alg: Seq<char> },
    JwtVerifyError(JwtVerifyErrorView),
}

impl DeepView for JwtVerifyError {
    type V = JwtVerifyErrorView;

    open spec fn deep_view(&self) -> JwtVerifyErrorView {
        match self {
            JwtVerifyError::JwkVerifyError(cause) => JwtVerifyErrorView::JwkVerifyError(cause@),
            JwtVerifyError::ClaimsRejected(cause) => JwtVerifyErrorView::ClaimsRejected(cause@),
            JwtVerifyError::Other(cause) => JwtVerifyErrorView::Other(cause@),
        }
    }
}

impl DeepView for AuthorityError {
    type V = AuthorityErrorView;

    open spec fn deep_view(&self) -> AuthorityErrorView {
        match self {
            AuthorityError::MissingKey { kid, alg } => AuthorityErrorView::MissingKey {
                kid: kid.deep_view(),
                alg: alg@,
            },
            AuthorityError::JwtVerifyError(err) => AuthorityErrorView::JwtVerifyError(
                err.deep_view(),
            ),
        }
    }
}

impl AuthorityErrorView {
    /// The error in words. A rejection by the key and one by the claims are
    /// told apart.
    pub open spec fn message(self) -> Seq<char> {
        match self {
            AuthorityErrorView::MissingKey { kid: Some(kid), alg } => "missing key for kid: "@
                + kid + ", alg: "@ + alg,
            AuthorityErrorView::MissingKey { kid: None, alg } => "missing key for alg: "@ + alg,
            AuthorityErrorView::JwtVerifyError(JwtVerifyErrorView::JwkVerifyError(cause)) =>
                "JWT verification error: token rejected by JWK: "@ + cause,
            AuthorityErrorView::JwtVerifyError(JwtVerifyErrorView::ClaimsRejected(cause)) =>
                "JWT verification error: token rejected by claims validator: "@ + cause,
            AuthorityErrorView::JwtVerifyError(JwtVerifyErrorView::Other(cause)) =>
                "JWT verification error: "@ + cause,
        }
    }
}

impl AuthorityError {
    /// The error in words.
    pub fn message(&self) -> (r: String)
        ensures
            r@ == self.deep_view().message(),
    {
        match self {
            AuthorityError::MissingKey { kid, alg } => {
                match kid {
                    Some(kid) => {
                        let mut text = String::from_str("missing key for kid: ");
                        text.append(kid.as_str());
                        text.append(", alg: ");
                        text.append(alg.as_str());
                        text
                    },
                    None => {
                        let mut text = String::from_str("missing key for alg: ");
                        text.append(alg.as_str());
                        text
                    },
                }
            },
            AuthorityError::JwtVerifyError(err) => {
                match err {
                    JwtVerifyError::JwkVerifyError(cause) => {
                        let mut text = String::from_str(
                            "JWT verification error: token rejected by JWK: ",
                        );
                        text.append(cause.as_str());
                        text
                    },
                    JwtVerifyError::ClaimsRejected(cause) => {
                        let mut text = String::from_str(
                            "JWT verification error: token rejected by claims validator: ",
                        );
                        text.append(cause.as_str());
                        text
                    },
                    JwtVerifyError::Other(cause) => {
                        let mut text = String::from_str("JWT verification error: ");
                        text.append(cause.as_str());
                        text
                    },
                }
            },
        }
    }
}

} // verus!
