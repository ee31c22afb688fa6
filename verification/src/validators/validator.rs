//! Validators: named policies that say where a request carries its token and
//! what the token must claim.

use vstd::prelude::*;
use crate::utils::copies::{copy_pairs, copy_text, lemma_push_deep_view};
use crate::utils::entries::{find, lookup, names};
use crate::validator_file::{copy_claims, RequiredClaim, RequiredClaimView};
use crate::validators::authority::{Authority, AuthorityView};

verus! {

/// A named policy, bound to one authority.
#[derive(Debug, Clone, PartialEq, Eq)]
pub struct Validator {
    pub name: String,
    pub authority: Authority,
    /// The request header that carries the token.
    pub header: String,
    /// What is cut from the start of the header's value, where it stands
    /// there.
    pub strip_prefix: Option<String>,
    pub required_claims: Vec<RequiredClaim>,
    /// Claim name to the name of the header that reports it.
    pub map_claims: Vec<(String, String)>,
}

/// What a [`Validator`] says.
pub struct ValidatorView {
    pub name: Seq<char>,
    pub authority: AuthorityView,
    pub header: Seq<char>,
    pub strip_prefix: Option<Seq<char>>,
    pub required_claims: Seq<RequiredClaimView>,
    pub map_claims: Seq<(Seq<char>, Seq<char>)>,
}

impl DeepView for Validator {
    type V = ValidatorView;

    open spec fn deep_view(&self) -> ValidatorView {
        ValidatorView {
            name: self.name@,
            authority: self.authority.deep_view(),
            header: self.header@,
            strip_prefix: self.strip_prefix.deep_view(),
            required_claims: self.required_claims.deep_view(),
            map_claims: self.map_claims.deep_view(),
        }
    }
}

impl Validator {
    /// The validator `name`.
    pub fn new(
        name: String,
        authority: Authority,
        header: String,
        strip_prefix: Option<String>,
        required_claims: Vec<RequiredClaim>,
        map_claims: Vec<(String, String)>,
    ) -> (r: Validator)
        ensures
            r.deep_view() == (ValidatorView {
                name: name@,
                authority: authority.deep_view(),
                header: header@,
                strip_prefix: strip_prefix.deep_view(),
                required_claims: required_claims.deep_view(),
                map_claims: map_claims.deep_view(),
            }),
    {
        Validator { name, authority, header, strip_prefix, required_claims, map_claims }
    }

    /// A copy of the validator.
    pub fn copy(&self) -> (r: Validator)
        ensures
            r.deep_view() == self.deep_view(),
    {
        Validator {
            name: self.name.clone(),
            authority: self.authority.copy(),
            header: self.header.clone(),
            strip_prefix: copy_text(&self.strip_prefix),
            required_claims: copy_claims(&self.required_claims),
            map_claims: copy_pairs(&self.map_claims),
        }
    }

    /// The authority that the validator is bound to.
    pub fn authority(&self) -> (r: &Authority)
        ensures
            r == self.authority,
    {
        &self.authority
    }

    /// The request header that carries the token.
    pub fn header(&self) -> (r: &str)
        ensures
            r@ == self.header@,
    {
        self.header.as_str()
    }

    /// What is cut from the start of the header's value.
    pub fn strip_prefix(&self) -> (r: Option<&str>)
        ensures
            match (r, self.strip_prefix) {
                (Some(prefix), Some(own)) => prefix@ == own@,
                (None, None) => true,
                _ => false,
            },
    {
        match &self.strip_prefix {
            Some(prefix) => Some(prefix.as_str()),
            None => None,
        }
    }

    /// The constraints on the claims, in the order in which they are held
    /// against a token.
    pub fn required_claims(&self) -> (r: &Vec<RequiredClaim>)
        ensures
            r == self.required_claims,
    {
        &self.required_claims
    }

    /// Claim name to the name of the header that reports it.
    pub fn map_claims(&self) -> (r: &Vec<(String, String)>)
        ensures
            r == self.map_claims,
    {
        &self.map_claims
    }
}

/// The validators by name.
#[derive(Debug)]
pub struct ValidatorStore {
    pub states: Vec<(String, Validator)>,
}

impl DeepView for ValidatorStore {
    type V = Seq<(Seq<char>, ValidatorView)>;

    open spec fn deep_view(&self) -> Seq<(Seq<char>, ValidatorView)> {
        self.states.deep_view()
    }
}

impl ValidatorStore {
    /// A store without validators.
    pub fn new() -> (r: ValidatorStore)
        ensures
            r.deep_view() == Seq::<(Seq<char>, ValidatorView)>::empty(),
    {
        let r = ValidatorStore { states: Vec::new() };
        assert(r.deep_view() =~= Seq::empty());
        r
    }

    /// Puts `map` in the place of all that the store holds.
    pub fn update(&mut self, map: Vec<(String, Validator)>)
        ensures
            final(self).deep_view() == map.deep_view(),
    {
        self.states = map;
    }

    /// The validator `name`.
    pub fn get(&self, name: &str) -> (r: Option<Validator>)
        ensures
            r.deep_view() == lookup(self.deep_view(), name@),
    {
        match find(&self.states, name) {
            Some(i) => Some(self.states[i].1.copy()),
            None => None,
        }
    }

    /// The names of the validators, in the order of the store.
    pub fn keys(&self) -> (r: Vec<String>)
        ensures
            r.deep_view() == names(self.deep_view()),
    {
        let mut out: Vec<String> = Vec::with_capacity(self.states.len());
        let mut i: usize = 0;
        while i < self.states.len()
            invariant
                i <= self.states.len(),
                out.len() == i,
                out.deep_view() == names(self.deep_view()).subrange(0, i as int),
            decreases self.states.len() - i,
        {
            let ghost before = out;
            let name = self.states[i].0.clone();
            out.push(name);
            proof {
                lemma_push_deep_view(before, out, name);
                assert(out.deep_view() =~= names(self.deep_view()).subrange(0, i + 1));
            }
            i += 1;
        }
        assert(names(self.deep_view()).subrange(0, i as int) =~= names(self.deep_view()));
        out
    }

    /// Drops all validators.
    pub fn clear(&mut self)
        ensures
            final(self).deep_view() == Seq::<(Seq<char>, ValidatorView)>::empty(),
    {
        self.states = Vec::new();
        assert(self.deep_view() =~= Seq::empty());
    }
}

} // verus!
