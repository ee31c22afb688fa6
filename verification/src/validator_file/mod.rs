//! The validated configuration: validators with their templates folded in.

use vstd::prelude::*;
use crate::utils::copies::{copy_text, copy_texts, lemma_push_deep_view, result_view};
use crate::utils::entries::{contains_name, find, has_name, lookup};
use crate::utils::text::{join, joined, str_eq};
use crate::validator_file::error::{ValidationFileError, ValidationFileErrorView};
use crate::validator_file::file::{
    extend_claims, ConfigFile, ConfigFileView, JWTAuthority, JWTAuthorityView,
    PartialJWTValidator, PartialJWTValidatorView,
};
use crate::validator_file::header_name::{header_name, is_header_name, parse_header_name};
use crate::validators::authority::{CoreValidator, CoreValidatorView};

pub mod error;
pub mod file;
pub mod header_name;
pub mod laws;

verus! {

/// The configuration once every validator is resolved. A value of this type
/// is sound: it comes of a document that resolved.
#[derive(Debug, PartialEq, Eq)]
pub struct Config {
    authorities: Vec<(String, JWTAuthority)>,
    validators: Vec<(String, JWTValidator)>,
}

/// A validator with its templates folded in.
#[derive(Debug, Clone, PartialEq, Eq)]
pub struct JWTValidator {
    pub authority: String,
    pub header: String,
    pub header_prefix: Option<String>,
    pub required_claims: Vec<RequiredClaim>,
    /// Claim name to header name, the latter as it is held: in lower case.
    pub map_claims: Vec<(String, String)>,
}

/// What a [`Config`] says.
pub struct ConfigView {
    pub authorities: Seq<(Seq<char>, JWTAuthorityView)>,
    pub validators: Seq<(Seq<char>, JWTValidatorView)>,
}

/// What a [`JWTValidator`] says.
pub struct JWTValidatorView {
    pub authority: Seq<char>,
    pub header: Seq<char>,
    pub header_prefix: Option<Seq<char>>,
    pub required_claims: Seq<RequiredClaimView>,
    pub map_claims: Seq<(Seq<char>, Seq<char>)>,
}

impl DeepView for JWTValidator {
    type V = JWTValidatorView;

    open spec fn deep_view(&self) -> JWTValidatorView {
        JWTValidatorView {
            authority: self.authority@,
            header: self.header@,
            header_prefix: self.header_prefix.deep_view(),
            required_claims: self.required_claims.deep_view(),
            map_claims: self.map_claims.deep_view(),
        }
    }
}

impl DeepView for Config {
    type V = ConfigView;

    closed spec fn deep_view(&self) -> ConfigView {
        ConfigView {
            authorities: self.authorities.deep_view(),
            validators: self.validators.deep_view(),
        }
    }
}

/// A constraint on one claim of a token.
#[derive(Debug, Clone, PartialEq, Eq)]
pub struct RequiredClaim {
    pub name: String,
    pub value: RequiredClaimValue,
}

/// The values that a required claim may have.
#[derive(Debug, Clone, PartialEq, Eq)]
pub enum RequiredClaimValue {
    /// The claim must be present; any value is accepted.
    Any,
    /// The claim must equal this value.
    Single(String),
    /// The claim must equal one of these values.
    Multiple(Vec<String>),
}

/// What a [`RequiredClaimValue`] says.
pub enum RequiredClaimValueView {
    Any,
    Single(Seq<char>),
    Multiple(Seq<Seq<char>>),
}

/// What a [`RequiredClaim`] says.
pub struct RequiredClaimView {
    pub name: Seq<char>,
    pub value: RequiredClaimValueView,
}

impl RequiredClaimValueView {
    /// The constraint in words: `None` where any value is accepted, the
    /// value where one is asked for, and a bracketed list of the values
    /// where one of several is.
    pub open spec fn description(self) -> Seq<char> {
        match self {
            RequiredClaimValueView::Any => "None"@,
            RequiredClaimValueView::Single(single) => single,
            RequiredClaimValueView::Multiple(multiple) => "["@ + joined(multiple, ", "@) + "]"@,
        }
    }

    /// Whether the constraint accepts `value`.
    pub open spec fn matches(self, value: Seq<char>) -> bool {
        match self {
            RequiredClaimValueView::Any => true,
            RequiredClaimValueView::Single(single) => single == value,
            RequiredClaimValueView::Multiple(multiple) => multiple.contains(value),
        }
    }
}

impl DeepView for RequiredClaimValue {
    type V = RequiredClaimValueView;

    open spec fn deep_view(&self) -> RequiredClaimValueView {
        match self {
            RequiredClaimValue::Any => RequiredClaimValueView::Any,
            RequiredClaimValue::Single(single) => RequiredClaimValueView::Single(single@),
            RequiredClaimValue::Multiple(multiple) => RequiredClaimValueView::Multiple(
                multiple.deep_view(),
            ),
        }
    }
}

impl DeepView for RequiredClaim {
    type V = RequiredClaimView;

    open spec fn deep_view(&self) -> RequiredClaimView {
        RequiredClaimView { name: self.name@, value: self.value.deep_view() }
    }
}

impl RequiredClaim {
    /// A copy of the constraint.
    pub fn copy(&self) -> (r: RequiredClaim)
        ensures
            r.deep_view() == self.deep_view(),
    {
        RequiredClaim { name: self.name.clone(), value: self.value.copy() }
    }
}

/// A copy of `claims`.
pub fn copy_claims(claims: &Vec<RequiredClaim>) -> (r: Vec<RequiredClaim>)
    ensures
        r.deep_view() == claims.deep_view(),
{
    let mut out: Vec<RequiredClaim> = Vec::with_capacity(claims.len());
    let mut i: usize = 0;
    while i < claims.len()
        invariant
            i <= claims.len(),
            out.len() == i,
            out.deep_view() == claims.deep_view().subrange(0, i as int),
        decreases claims.len() - i,
    {
        let ghost before = out;
        let claim = claims[i].copy();
        out.push(claim);
        proof {
            lemma_push_deep_view(before, out, claim);
            assert(out.deep_view() =~= claims.deep_view().subrange(0, i + 1));
        }
        i += 1;
    }
    assert(claims.deep_view().subrange(0, i as int) =~= claims.deep_view());
    out
}

impl RequiredClaimValue {
    /// A copy of the constraint.
    pub fn copy(&self) -> (r: RequiredClaimValue)
        ensures
            r.deep_view() == self.deep_view(),
    {
        match self {
            RequiredClaimValue::Any => RequiredClaimValue::Any,
            RequiredClaimValue::Single(single) => RequiredClaimValue::Single(single.clone()),
            RequiredClaimValue::Multiple(multiple) => RequiredClaimValue::Multiple(
                copy_texts(multiple),
            ),
        }
    }

    /// The constraint in words.
    pub fn describe(&self) -> (r: String)
        ensures
            r@ == self.deep_view().description(),
    {
        match self {
            RequiredClaimValue::Any => String::from_str("None"),
            RequiredClaimValue::Single(single) => single.clone(),
            RequiredClaimValue::Multiple(multiple) => {
                let mut text = String::from_str("[");
                let list = join(multiple, ", ");
                text.append(list.as_str());
                text.append("]");
                text
            },
        }
    }

    /// Whether the constraint accepts `value`.
    pub fn matches(&self, value: &str) -> (r: bool)
        ensures
            r == self.deep_view().matches(value@),
    {
        match self {
            RequiredClaimValue::Any => true,
            RequiredClaimValue::Single(single) => str_eq(single.as_str(), value),
            RequiredClaimValue::Multiple(multiple) => contains_name(multiple, value),
        }
    }
}

/// The first of two optional values that is present.
pub open spec fn or_else<T>(own: Option<T>, inherited: Option<T>) -> Option<T> {
    match own {
        Some(_) => own,
        None => inherited,
    }
}

/// The claim mapping `own` after the first `n` entries of `inherited` were
/// offered to it: an entry is added at the end unless its claim is mapped
/// already.
pub open spec fn merge_claims(
    own: Seq<(Seq<char>, Seq<char>)>,
    inherited: Seq<(Seq<char>, Seq<char>)>,
    n: nat,
) -> Seq<(Seq<char>, Seq<char>)>
    decreases n,
{
    if n == 0 {
        own
    } else {
        let before = merge_claims(own, inherited, (n - 1) as nat);
        if has_name(before, inherited[n - 1].0) {
            before
        } else {
            before.push(inherited[n - 1])
        }
    }
}

/// What an entry is once it has inherited from `template`: its own
/// authority, header and prefix where it has them, else the template's; the
/// template's required claims after its own; and the template's mapping for
/// each claim that it does not map itself.
pub open spec fn inherit(
    own: PartialJWTValidatorView,
    template: PartialJWTValidatorView,
) -> PartialJWTValidatorView {
    PartialJWTValidatorView {
        template: own.template,
        authority: or_else(own.authority, template.authority),
        header: or_else(own.header, template.header),
        header_prefix: or_else(own.header_prefix, template.header_prefix),
        required_claims: own.required_claims + template.required_claims,
        map_claims: merge_claims(own.map_claims, template.map_claims, template.map_claims.len()),
    }
}

/// How many of `templates` have a name that is not in `visited`.
pub open spec fn unvisited(
    templates: Seq<(Seq<char>, PartialJWTValidatorView)>,
    visited: Seq<Seq<char>>,
) -> nat
    decreases templates.len(),
{
    if templates.len() == 0 {
        0
    } else {
        unvisited(templates.drop_last(), visited) + if visited.contains(templates.last().0) {
            0nat
        } else {
            1nat
        }
    }
}

/// Visiting one more template leaves no more templates unvisited.
pub proof fn lemma_visit_monotone(
    templates: Seq<(Seq<char>, PartialJWTValidatorView)>,
    visited: Seq<Seq<char>>,
    name: Seq<char>,
)
    ensures
        unvisited(templates, visited.push(name)) <= unvisited(templates, visited),
    decreases templates.len(),
{
    if templates.len() > 0 {
        lemma_visit_monotone(templates.drop_last(), visited, name);
        let last = templates.last().0;
        if visited.contains(last) {
            let k = choose|k: int| 0 <= k < visited.len() && visited[k] == last;
            assert(visited.push(name)[k] == last);
        }
    }
}

/// Visiting a template that exists and was not visited leaves fewer
/// templates unvisited.
pub proof fn lemma_visit_decreases(
    templates: Seq<(Seq<char>, PartialJWTValidatorView)>,
    visited: Seq<Seq<char>>,
    name: Seq<char>,
)
    requires
        has_name(templates, name),
        !visited.contains(name),
    ensures
        unvisited(templates, visited.push(name)) < unvisited(templates, visited),
    decreases templates.len(),
{
    let k = choose|k: int| 0 <= k < templates.len() && (#[trigger] templates[k]).0 == name;
    let last = templates.last().0;
    if last == name {
        lemma_visit_monotone(templates.drop_last(), visited, name);
        assert(visited.push(name)[visited.len() as int] == name);
    } else {
        assert(templates.drop_last()[k].0 == name);
        lemma_visit_decreases(templates.drop_last(), visited, name);
        if visited.contains(last) {
            let j = choose|j: int| 0 <= j < visited.len() && visited[j] == last;
            assert(visited.push(name)[j] == last);
        }
    }
}

/// Follows the templates of the validator `validator`, starting at `next`,
/// where `own` is what the validator holds so far and `visited` the
/// templates that were passed: the validator with all it inherits, or the
/// error that ends the walk. A template that was passed before is a circle;
/// one that the document lacks is missing.
pub open spec fn walk(
    templates: Seq<(Seq<char>, PartialJWTValidatorView)>,
    validator: Seq<char>,
    own: PartialJWTValidatorView,
    next: Option<Seq<char>>,
    visited: Seq<Seq<char>>,
) -> Result<PartialJWTValidatorView, ValidationFileErrorView>
    decreases unvisited(templates, visited),
    via walk_decreases
{
    match next {
        None => Ok(own),
        Some(name) => if visited.contains(name) {
            Err(ValidationFileErrorView::CircularTemplate(name))
        } else {
            match lookup(templates, name) {
                None => Err(
                    ValidationFileErrorView::MissingTemplate { validator, template: name },
                ),
                Some(template) => walk(
                    templates,
                    validator,
                    inherit(own, template),
                    template.template,
                    visited.push(name),
                ),
            }
        }
    }
}

#[via_fn]
proof fn walk_decreases(
    templates: Seq<(Seq<char>, PartialJWTValidatorView)>,
    validator: Seq<char>,
    own: PartialJWTValidatorView,
    next: Option<Seq<char>>,
    visited: Seq<Seq<char>>,
) {
    if let Some(name) = next {
        if !visited.contains(name) && lookup(templates, name) is Some {
            lemma_visit_decreases(templates, visited, name);
        }
    }
}

/// The constraint that an entry of the document stands for.
pub open spec fn normalize_claim(claim: file::RequiredClaimView) -> RequiredClaimView {
    match claim {
        file::RequiredClaimView::Complex { name, value } => RequiredClaimView {
            name,
            value: match value {
                Some(value) => RequiredClaimValueView::Single(value),
                None => RequiredClaimValueView::Any,
            },
        },
        file::RequiredClaimView::ComplexMultiple { name, values } => RequiredClaimView {
            name,
            value: if values.len() == 0 {
                RequiredClaimValueView::Any
            } else if values.len() == 1 {
                RequiredClaimValueView::Single(values[0])
            } else {
                RequiredClaimValueView::Multiple(values)
            },
        },
        file::RequiredClaimView::Simple(name) => RequiredClaimView {
            name,
            value: RequiredClaimValueView::Any,
        },
    }
}

/// The constraints that the entries of the document stand for, in order.
pub open spec fn normalize_claims(claims: Seq<file::RequiredClaimView>) -> Seq<RequiredClaimView> {
    Seq::new(claims.len(), |i: int| normalize_claim(claims[i]))
}

/// The prefix as it is held: an empty one counts as none.
pub open spec fn normalize_prefix(prefix: Option<Seq<char>>) -> Option<Seq<char>> {
    match prefix {
        Some(text) => if text.len() == 0 {
            None
        } else {
            Some(text)
        },
        None => None,
    }
}

/// The first `n` entries of `map_claims` with their header names parsed, or
/// the error for the first entry whose header is no header name.
pub open spec fn parse_headers(
    validator: Seq<char>,
    map_claims: Seq<(Seq<char>, Seq<char>)>,
    n: nat,
) -> Result<Seq<(Seq<char>, Seq<char>)>, ValidationFileErrorView>
    decreases n,
{
    if n == 0 {
        Ok(Seq::empty())
    } else {
        match parse_headers(validator, map_claims, (n - 1) as nat) {
            Err(e) => Err(e),
            Ok(before) => match header_name(map_claims[n - 1].1) {
                Some(header) => Ok(before.push((map_claims[n - 1].0, header))),
                None => Err(
                    ValidationFileErrorView::InvalidHeaderName {
                        validator,
                        claim: map_claims[n - 1].0,
                        header: map_claims[n - 1].1,
                    },
                ),
            },
        }
    }
}

/// The validator `validator` once all it inherits is in `merged`: it must
/// name a header, name an authority, name one that `authorities` holds, and
/// map its claims to header names, and is held against these in this order.
pub open spec fn finish(
    authorities: Seq<(Seq<char>, JWTAuthorityView)>,
    validator: Seq<char>,
    merged: PartialJWTValidatorView,
) -> Result<JWTValidatorView, ValidationFileErrorView> {
    match (merged.header, merged.authority) {
        (None, _) => Err(ValidationFileErrorView::IsMissingHeader(validator)),
        (Some(_), None) => Err(ValidationFileErrorView::IsMissingAuthority(validator)),
        (Some(header), Some(authority)) => if !has_name(authorities, authority) {
            Err(ValidationFileErrorView::MissingAuthority { validator, authority })
        } else {
            match parse_headers(validator, merged.map_claims, merged.map_claims.len()) {
                Err(e) => Err(e),
                Ok(map_claims) => Ok(
                    JWTValidatorView {
                        authority,
                        header,
                        header_prefix: normalize_prefix(merged.header_prefix),
                        required_claims: normalize_claims(merged.required_claims),
                        map_claims,
                    },
                ),
            }
        },
    }
}

/// What the entry `partial` of the name `validator` resolves to in `file`.
pub open spec fn resolve_entry(
    file: ConfigFileView,
    validator: Seq<char>,
    partial: PartialJWTValidatorView,
) -> Result<JWTValidatorView, ValidationFileErrorView> {
    match walk(file.validator_templates, validator, partial, partial.template, Seq::empty()) {
        Err(e) => Err(e),
        Ok(merged) => finish(file.authorities, validator, merged),
    }
}

/// What the first `n` validators of `file` resolve to, or the error of the
/// first that does not resolve.
pub open spec fn resolve_entries(file: ConfigFileView, n: nat) -> Result<
    Seq<(Seq<char>, JWTValidatorView)>,
    ValidationFileErrorView,
>
    decreases n,
{
    if n == 0 {
        Ok(Seq::empty())
    } else {
        match resolve_entries(file, (n - 1) as nat) {
            Err(e) => Err(e),
            Ok(before) => match resolve_entry(
                file,
                file.validators[n - 1].0,
                file.validators[n - 1].1,
            ) {
                Err(e) => Err(e),
                Ok(validator) => Ok(before.push((file.validators[n - 1].0, validator))),
            },
        }
    }
}

/// What `file` resolves to: its authorities as they are and every validator
/// resolved, or the error of the first validator that does not resolve.
pub open spec fn resolve(file: ConfigFileView) -> Result<ConfigView, ValidationFileErrorView> {
    match resolve_entries(file, file.validators.len()) {
        Err(e) => Err(e),
        Ok(validators) => Ok(ConfigView { authorities: file.authorities, validators }),
    }
}

/// The constraint that an entry of the document stands for.
fn normalized(claim: &file::RequiredClaim) -> (r: RequiredClaim)
    ensures
        r.deep_view() == normalize_claim(claim.deep_view()),
{
    match claim {
        file::RequiredClaim::Complex { name, value } => RequiredClaim {
            name: name.clone(),
            value: match value {
                Some(value) => RequiredClaimValue::Single(value.clone()),
                None => RequiredClaimValue::Any,
            },
        },
        file::RequiredClaim::ComplexMultiple { name, values } => RequiredClaim {
            name: name.clone(),
            value: if values.len() == 0 {
                RequiredClaimValue::Any
            } else if values.len() == 1 {
                RequiredClaimValue::Single(values[0].clone())
            } else {
                RequiredClaimValue::Multiple(copy_texts(values))
            },
        },
        file::RequiredClaim::Simple(name) => RequiredClaim {
            name: name.clone(),
            value: RequiredClaimValue::Any,
        },
    }
}

/// The constraints that the entries of the document stand for, in order.
fn normalized_all(claims: &Vec<file::RequiredClaim>) -> (r: Vec<RequiredClaim>)
    ensures
        r.deep_view() == normalize_claims(claims.deep_view()),
{
    let mut out: Vec<RequiredClaim> = Vec::with_capacity(claims.len());
    let mut i: usize = 0;
    while i < claims.len()
        invariant
            i <= claims.len(),
            out.len() == i,
            out.deep_view() == normalize_claims(claims.deep_view().subrange(0, i as int)),
        decreases claims.len() - i,
    {
        let ghost before = out;
        let claim = normalized(&claims[i]);
        out.push(claim);
        proof {
            lemma_push_deep_view(before, out, claim);
            assert(out.deep_view() =~= normalize_claims(claims.deep_view().subrange(0, i + 1)));
        }
        i += 1;
    }
    assert(claims.deep_view().subrange(0, i as int) =~= claims.deep_view());
    out
}

/// Offers the entries of `inherited` to the claim mapping `own`.
fn merge_map_claims(own: &mut Vec<(String, String)>, inherited: &Vec<(String, String)>)
    ensures
        final(own).deep_view() == merge_claims(
            old(own).deep_view(),
            inherited.deep_view(),
            inherited.deep_view().len(),
        ),
{
    let mut i: usize = 0;
    while i < inherited.len()
        invariant
            i <= inherited.len(),
            own.deep_view() == merge_claims(
                old(own).deep_view(),
                inherited.deep_view(),
                i as nat,
            ),
        decreases inherited.len() - i,
    {
        let entry = &inherited[i];
        assert(entry.deep_view() == inherited.deep_view()[i as int]);
        if find(own, entry.0.as_str()).is_none() {
            let ghost before = *own;
            let copy = (entry.0.clone(), entry.1.clone());
            own.push(copy);
            proof {
                lemma_push_deep_view(before, *own, copy);
            }
        }
        i += 1;
    }
}

/// Lets `own` inherit from `template`.
fn inherit_from(own: &mut PartialJWTValidator, template: &PartialJWTValidator)
    ensures
        final(own).deep_view() == inherit(old(own).deep_view(), template.deep_view()),
{
    if own.authority.is_none() {
        own.authority = copy_text(&template.authority);
    }
    if own.header.is_none() {
        own.header = copy_text(&template.header);
    }
    if own.header_prefix.is_none() {
        own.header_prefix = copy_text(&template.header_prefix);
    }
    extend_claims(&mut own.required_claims, &template.required_claims);
    merge_map_claims(&mut own.map_claims, &template.map_claims);
}

/// The entry `partial` of the name `validator` with all that it inherits
/// from the templates it names.
fn merged(
    templates: &Vec<(String, PartialJWTValidator)>,
    validator: &str,
    partial: &PartialJWTValidator,
) -> (r: Result<PartialJWTValidator, ValidationFileError>)
    ensures
        result_view(r) == walk(
            templates.deep_view(),
            validator@,
            partial.deep_view(),
            partial.deep_view().template,
            Seq::empty(),
        ),
{
    let mut own = partial.copy();
    let mut next: Option<String> = copy_text(&partial.template);
    let mut visited: Vec<String> = Vec::new();
    assert(visited.deep_view() =~= Seq::empty());
    loop
        invariant
            walk(
                templates.deep_view(),
                validator@,
                own.deep_view(),
                next.deep_view(),
                visited.deep_view(),
            ) == walk(
                templates.deep_view(),
                validator@,
                partial.deep_view(),
                partial.deep_view().template,
                Seq::empty(),
            ),
        decreases unvisited(templates.deep_view(), visited.deep_view()), next.is_some() as int,
    {
        let name = match next {
            None => {
                return Ok(own);
            },
            Some(name) => name,
        };
        if contains_name(&visited, name.as_str()) {
            return Err(ValidationFileError::CircularTemplate(name));
        }
        match find(templates, name.as_str()) {
            None => {
                return Err(
                    ValidationFileError::MissingTemplate {
                        validator: String::from_str(validator),
                        template: name,
                    },
                );
            },
            Some(k) => {
                let template = &templates[k].1;
                assert(template.deep_view() == templates.deep_view()[k as int].1);
                proof {
                    lemma_visit_decreases(templates.deep_view(), visited.deep_view(), name@);
                }
                inherit_from(&mut own, template);
                next = copy_text(&template.template);
                let ghost before = visited;
                visited.push(name);
                proof {
                    lemma_push_deep_view(before, visited, name);
                }
            },
        }
    }
}

/// Once the header of a claim has failed to parse, that error stands,
/// whatever entries follow.
pub proof fn lemma_parse_failure_stands(
    validator: Seq<char>,
    map_claims: Seq<(Seq<char>, Seq<char>)>,
    failed: nat,
    n: nat,
)
    requires
        parse_headers(validator, map_claims, failed) is Err,
        failed <= n,
    ensures
        parse_headers(validator, map_claims, n) == parse_headers(validator, map_claims, failed),
    decreases n,
{
    if failed < n {
        lemma_parse_failure_stands(validator, map_claims, failed, (n - 1) as nat);
    }
}

/// Headers that were parsed keep their claims and are header names as they
/// are held.
pub proof fn lemma_parsed_headers(
    validator: Seq<char>,
    map_claims: Seq<(Seq<char>, Seq<char>)>,
    n: nat,
)
    requires
        parse_headers(validator, map_claims, n) is Ok,
        n <= map_claims.len(),
    ensures
        parse_headers(validator, map_claims, n)->Ok_0.len() == n,
        forall|k: int|
            0 <= k < n ==> {
                let parsed = #[trigger] parse_headers(validator, map_claims, n)->Ok_0[k];
                &&& parsed.0 == map_claims[k].0
                &&& header_name(map_claims[k].1) == Some(parsed.1)
                &&& is_header_name(parsed.1)
            },
    decreases n,
{
    if n > 0 {
        lemma_parsed_headers(validator, map_claims, (n - 1) as nat);
        header_name::lemma_parsed_is_header_name(map_claims[n - 1].1);
    }
}

impl JWTValidator {
    /// Makes the validator `name` of an entry that holds all that it
    /// inherits.
    pub fn from_partial(
        name: &str,
        partial: PartialJWTValidator,
        authorities: &Vec<(String, JWTAuthority)>,
    ) -> (r: Result<JWTValidator, ValidationFileError>)
        ensures
            result_view(r) == finish(authorities.deep_view(), name@, partial.deep_view()),
    {
        let PartialJWTValidator {
            template: _,
            authority,
            header,
            header_prefix,
            required_claims,
            map_claims,
        } = partial;
        let header = match header {
            Some(header) => header,
            None => {
                return Err(ValidationFileError::IsMissingHeader(String::from_str(name)));
            },
        };
        let authority = match authority {
            Some(authority) => authority,
            None => {
                return Err(ValidationFileError::IsMissingAuthority(String::from_str(name)));
            },
        };
        if find(authorities, authority.as_str()).is_none() {
            return Err(
                ValidationFileError::MissingAuthority {
                    validator: String::from_str(name),
                    authority,
                },
            );
        }
        let mut headers: Vec<(String, String)> = Vec::with_capacity(map_claims.len());
        assert(headers.deep_view() =~= Seq::empty());
        let mut i: usize = 0;
        while i < map_claims.len()
            invariant
                i <= map_claims.len(),
                partial.deep_view().header is Some,
                partial.deep_view().authority == Some(authority@),
                partial.deep_view().map_claims == map_claims.deep_view(),
                has_name(authorities.deep_view(), authority@),
                parse_headers(name@, map_claims.deep_view(), i as nat) == Ok::<
                    Seq<(Seq<char>, Seq<char>)>,
                    ValidationFileErrorView,
                >(headers.deep_view()),
            decreases map_claims.len() - i,
        {
            let entry = &map_claims[i];
            assert(entry.deep_view() == map_claims.deep_view()[i as int]);
            match parse_header_name(entry.1.as_str()) {
                Some(parsed) => {
                    let ghost before = headers;
                    let pair = (entry.0.clone(), parsed);
                    headers.push(pair);
                    proof {
                        lemma_push_deep_view(before, headers, pair);
                    }
                },
                None => {
                    proof {
                        lemma_parse_failure_stands(
                            name@,
                            map_claims.deep_view(),
                            (i + 1) as nat,
                            map_claims.deep_view().len(),
                        );
                    }
                    return Err(
                        ValidationFileError::InvalidHeaderName {
                            validator: String::from_str(name),
                            claim: entry.0.clone(),
                            header: entry.1.clone(),
                        },
                    );
                },
            }
            i += 1;
        }
        let header_prefix = match header_prefix {
            Some(prefix) => if prefix.as_str().is_empty() {
                None
            } else {
                Some(prefix)
            },
            None => None,
        };
        Ok(
            JWTValidator {
                authority,
                header,
                header_prefix,
                required_claims: normalized_all(&required_claims),
                map_claims: headers,
            },
        )
    }
}

/// Whether a constraint is in the form in which it is held: a choice of
/// values has at least two.
pub open spec fn is_normal(claim: RequiredClaimView) -> bool {
    claim.value matches RequiredClaimValueView::Multiple(values) ==> values.len() >= 2
}

/// Whether a validator is sound in a configuration with `authorities`: its
/// authority is one of them, every claim is mapped to a header name, and its
/// prefix and its constraints are in the form in which they are held.
pub open spec fn validator_wf(
    authorities: Seq<(Seq<char>, JWTAuthorityView)>,
    validator: JWTValidatorView,
) -> bool {
    &&& has_name(authorities, validator.authority)
    &&& forall|k: int|
        0 <= k < validator.map_claims.len() ==> is_header_name(
            (#[trigger] validator.map_claims[k]).1,
        )
    &&& validator.header_prefix matches Some(prefix) ==> prefix.len() > 0
    &&& forall|k: int|
        0 <= k < validator.required_claims.len() ==> is_normal(
            #[trigger] validator.required_claims[k],
        )
}

/// Whether every validator of a configuration is sound in it.
pub open spec fn config_wf(config: ConfigView) -> bool {
    forall|i: int|
        0 <= i < config.validators.len() ==> validator_wf(
            config.authorities,
            (#[trigger] config.validators[i]).1,
        )
}

/// A validator that was finished is sound.
pub proof fn lemma_finished_is_sound(
    authorities: Seq<(Seq<char>, JWTAuthorityView)>,
    validator: Seq<char>,
    merged: PartialJWTValidatorView,
)
    requires
        finish(authorities, validator, merged) is Ok,
    ensures
        validator_wf(authorities, finish(authorities, validator, merged)->Ok_0),
{
    lemma_parsed_headers(validator, merged.map_claims, merged.map_claims.len());
}

/// Once a validator has failed to resolve, that error stands, whatever
/// validators follow.
pub proof fn lemma_resolve_failure_stands(file: ConfigFileView, failed: nat, n: nat)
    requires
        resolve_entries(file, failed) is Err,
        failed <= n,
    ensures
        resolve_entries(file, n) == resolve_entries(file, failed),
    decreases n,
{
    if failed < n {
        lemma_resolve_failure_stands(file, failed, (n - 1) as nat);
    }
}

/// Validators that were resolved keep their names and their order, each is
/// what its entry resolves to, and each is sound.
pub proof fn lemma_resolved_entries(file: ConfigFileView, n: nat)
    requires
        resolve_entries(file, n) is Ok,
        n <= file.validators.len(),
    ensures
        resolve_entries(file, n)->Ok_0.len() == n,
        forall|i: int|
            0 <= i < n ==> {
                let resolved = #[trigger] resolve_entries(file, n)->Ok_0[i];
                &&& resolved.0 == file.validators[i].0
                &&& resolve_entry(file, file.validators[i].0, file.validators[i].1) == Ok::<
                    JWTValidatorView,
                    ValidationFileErrorView,
                >(resolved.1)
                &&& validator_wf(file.authorities, resolved.1)
            },
    decreases n,
{
    if n > 0 {
        lemma_resolved_entries(file, (n - 1) as nat);
        let entry = file.validators[n - 1];
        let merged = walk(
            file.validator_templates,
            entry.0,
            entry.1,
            entry.1.template,
            Seq::empty(),
        )->Ok_0;
        lemma_finished_is_sound(file.authorities, entry.0, merged);
    }
}

/// Every configuration that a document resolves to is sound: each validator
/// names an authority of the configuration and a header, and maps its claims
/// to header names.
pub proof fn lemma_resolved_is_sound(file: ConfigFileView)
    requires
        resolve(file) is Ok,
    ensures
        config_wf(resolve(file)->Ok_0),
        resolve(file)->Ok_0.authorities == file.authorities,
        resolve(file)->Ok_0.validators.len() == file.validators.len(),
{
    lemma_resolved_entries(file, file.validators.len());
}

impl Config {
    #[verifier::type_invariant]
    closed spec fn sound(&self) -> bool {
        config_wf(self.deep_view())
    }

    /// The authorities by name.
    pub fn authorities(&self) -> (r: &Vec<(String, JWTAuthority)>)
        ensures
            r.deep_view() == self.deep_view().authorities,
            config_wf(self.deep_view()),
    {
        proof {
            use_type_invariant(self);
        }
        &self.authorities
    }

    /// The validators by name.
    pub fn validators(&self) -> (r: &Vec<(String, JWTValidator)>)
        ensures
            r.deep_view() == self.deep_view().validators,
            config_wf(self.deep_view()),
    {
        proof {
            use_type_invariant(self);
        }
        &self.validators
    }

    /// Resolves the validators of `file`. The first validator that does not
    /// resolve fails the whole document.
    pub fn from_file(file: ConfigFile) -> (r: Result<Config, ValidationFileError>)
        ensures
            result_view(r) == resolve(file.deep_view()),
            r matches Ok(config) ==> config_wf(config.deep_view()),
    {
        let mut validators: Vec<(String, JWTValidator)> = Vec::with_capacity(
            file.validators.len(),
        );
        assert(validators.deep_view() =~= Seq::empty());
        let mut i: usize = 0;
        while i < file.validators.len()
            invariant
                i <= file.validators.len(),
                resolve_entries(file.deep_view(), i as nat) == Ok::<
                    Seq<(Seq<char>, JWTValidatorView)>,
                    ValidationFileErrorView,
                >(validators.deep_view()),
            decreases file.validators.len() - i,
        {
            let entry = &file.validators[i];
            assert(entry.deep_view() == file.deep_view().validators[i as int]);
            let resolved = match merged(&file.validator_templates, entry.0.as_str(), &entry.1) {
                Ok(partial) => JWTValidator::from_partial(
                    entry.0.as_str(),
                    partial,
                    &file.authorities,
                ),
                Err(e) => Err(e),
            };
            match resolved {
                Ok(validator) => {
                    let ghost before = validators;
                    let pair = (entry.0.clone(), validator);
                    validators.push(pair);
                    proof {
                        lemma_push_deep_view(before, validators, pair);
                    }
                },
                Err(e) => {
                    proof {
                        lemma_resolve_failure_stands(
                            file.deep_view(),
                            (i + 1) as nat,
                            file.deep_view().validators.len(),
                        );
                    }
                    return Err(e);
                },
            }
            i += 1;
        }
        proof {
            lemma_resolved_is_sound(file.deep_view());
        }
        Ok(Config { authorities: file.authorities, validators })
    }
}

/// The checks that an authority asks for: no leeway unless it names one, and
/// both expiry and not-before held against the clock unless it says
/// otherwise.
pub open spec fn core_validator_of(authority: JWTAuthorityView) -> CoreValidatorView {
    CoreValidatorView {
        leeway_secs: match authority.leeway_seconds {
            Some(seconds) => seconds,
            None => 0,
        },
        check_expiration: match authority.check_expiration {
            Some(check) => check,
            None => true,
        },
        check_not_before: match authority.check_not_before {
            Some(check) => check,
            None => true,
        },
        approved_algorithms: authority.approved_algorithms,
    }
}

impl JWTAuthority {
    /// The checks that the authority asks for.
    pub fn to_validator(&self) -> (r: CoreValidator)
        ensures
            r.deep_view() == core_validator_of(self.deep_view()),
    {
        CoreValidator {
            leeway_secs: match self.leeway_seconds {
                Some(seconds) => seconds,
                None => 0,
            },
            check_expiration: match self.check_expiration {
                Some(check) => check,
                None => true,
            },
            check_not_before: match self.check_not_before {
                Some(check) => check,
                None => true,
            },
            approved_algorithms: copy_texts(&self.approved_algorithms),
        }
    }
}

} // verus!
