//! What holds of every resolution of a configuration document.

use vstd::prelude::*;
use crate::utils::entries::{distinct_names, has_name, lookup};
use crate::validator_file::error::ValidationFileErrorView;
use crate::validator_file::file::{
    ConfigFileView, PartialJWTValidatorView, RequiredClaimView as ClaimEntry,
};
use crate::validator_file::header_name::is_header_name;
use crate::validator_file::{
    config_wf, finish, inherit, is_normal, lemma_finished_is_sound, lemma_parsed_headers,
    lemma_resolve_failure_stands, lemma_visit_decreases, normalize_prefix, or_else,
    lemma_resolved_is_sound, merge_claims, normalize_claim, normalize_claims, parse_headers,
    resolve, resolve_entries, resolve_entry, unvisited, validator_wf, walk, ConfigView,
    JWTValidatorView, RequiredClaimValueView, RequiredClaimView,
};

verus! {

/// The template that a validator reaches after `k` steps, where `start` is
/// the template that it names itself: each step leads from a template of the
/// document to the one it names.
pub open spec fn chain_at(
    templates: Seq<(Seq<char>, PartialJWTValidatorView)>,
    start: Option<Seq<char>>,
    k: nat,
) -> Option<Seq<char>>
    decreases k,
{
    if k == 0 {
        start
    } else {
        match chain_at(templates, start, (k - 1) as nat) {
            Some(name) => match lookup(templates, name) {
                Some(template) => template.template,
                None => None,
            },
            None => None,
        }
    }
}

/// Whether the template reached after `k` steps was reached before.
pub open spec fn revisits(
    templates: Seq<(Seq<char>, PartialJWTValidatorView)>,
    start: Option<Seq<char>>,
    k: nat,
) -> bool {
    &&& chain_at(templates, start, k) is Some
    &&& exists|i: nat| i < k && #[trigger] chain_at(templates, start, i) == chain_at(templates, start, k)
}

/// Whether the templates that follow from `start` lead back to one of
/// themselves.
pub open spec fn has_circle(
    templates: Seq<(Seq<char>, PartialJWTValidatorView)>,
    start: Option<Seq<char>>,
) -> bool {
    exists|k: nat| revisits(templates, start, k)
}

/// The templates reached in the first `k` steps.
pub open spec fn passed(
    templates: Seq<(Seq<char>, PartialJWTValidatorView)>,
    start: Option<Seq<char>>,
    k: nat,
) -> Seq<Seq<char>> {
    Seq::new(k, |i: int| chain_at(templates, start, i as nat)->Some_0)
}

proof fn lemma_chain_reaches(
    templates: Seq<(Seq<char>, PartialJWTValidatorView)>,
    start: Option<Seq<char>>,
    i: nat,
    k: nat,
)
    requires
        chain_at(templates, start, k) is Some,
        i <= k,
    ensures
        chain_at(templates, start, i) is Some,
        i < k ==> lookup(templates, chain_at(templates, start, i)->Some_0) is Some,
    decreases k - i,
{
    if i < k {
        lemma_chain_reaches(templates, start, i + 1, k);
    }
}

proof fn least_revisit(
    templates: Seq<(Seq<char>, PartialJWTValidatorView)>,
    start: Option<Seq<char>>,
    k: nat,
) -> (least: nat)
    requires
        revisits(templates, start, k),
    ensures
        revisits(templates, start, least),
        forall|n: nat| n < least ==> !revisits(templates, start, n),
    decreases k,
{
    if exists|n: nat| n < k && revisits(templates, start, n) {
        let n = choose|n: nat| n < k && revisits(templates, start, n);
        least_revisit(templates, start, n)
    } else {
        k
    }
}

proof fn lemma_walk_meets_circle(
    templates: Seq<(Seq<char>, PartialJWTValidatorView)>,
    validator: Seq<char>,
    start: Option<Seq<char>>,
    own: PartialJWTValidatorView,
    k: nat,
    least: nat,
)
    requires
        revisits(templates, start, least),
        forall|n: nat| n < least ==> !revisits(templates, start, n),
        k <= least,
    ensures
        walk(templates, validator, own, chain_at(templates, start, k), passed(templates, start, k))
            matches Err(ValidationFileErrorView::CircularTemplate(_)),
    decreases least - k,
{
    let visited = passed(templates, start, k);
    lemma_chain_reaches(templates, start, k, least);
    let name = chain_at(templates, start, k)->Some_0;
    if k == least {
        let i = choose|i: nat|
            i < least && #[trigger] chain_at(templates, start, i) == chain_at(
                templates,
                start,
                least,
            );
        assert(visited[i as int] == name);
    } else {
        if visited.contains(name) {
            let i = choose|i: int| 0 <= i < visited.len() && visited[i] == name;
            lemma_chain_reaches(templates, start, i as nat, least);
            assert(chain_at(templates, start, i as nat) == chain_at(templates, start, k));
            assert(revisits(templates, start, k));
        }
        let template = lookup(templates, name)->Some_0;
        assert(chain_at(templates, start, k + 1) == template.template);
        assert(passed(templates, start, k + 1) =~= visited.push(name));
        lemma_walk_meets_circle(
            templates,
            validator,
            start,
            inherit(own, template),
            k + 1,
            least,
        );
    }
}

/// A validator whose templates lead back to one of themselves does not
/// resolve: the document is refused for its circle.
pub proof fn lemma_circle_is_refused(
    file: ConfigFileView,
    validator: Seq<char>,
    partial: PartialJWTValidatorView,
)
    requires
        has_circle(file.validator_templates, partial.template),
    ensures
        resolve_entry(file, validator, partial) matches Err(
            ValidationFileErrorView::CircularTemplate(_),
        ),
{
    let k = choose|k: nat| revisits(file.validator_templates, partial.template, k);
    let least = least_revisit(file.validator_templates, partial.template, k);
    assert(passed(file.validator_templates, partial.template, 0) =~= Seq::empty());
    lemma_walk_meets_circle(
        file.validator_templates,
        validator,
        partial.template,
        partial,
        0,
        least,
    );
}

/// A validator that resolves passes no template twice.
pub proof fn lemma_resolved_passes_no_template_twice(
    file: ConfigFileView,
    validator: Seq<char>,
    partial: PartialJWTValidatorView,
)
    requires
        resolve_entry(file, validator, partial) is Ok,
    ensures
        !has_circle(file.validator_templates, partial.template),
{
    if has_circle(file.validator_templates, partial.template) {
        lemma_circle_is_refused(file, validator, partial);
    }
}

proof fn lemma_resolves_up_to(file: ConfigFileView, n: nat)
    requires
        n <= file.validators.len(),
        forall|j: int|
            0 <= j < n ==> resolve_entry(
                file,
                (#[trigger] file.validators[j]).0,
                file.validators[j].1,
            ) is Ok,
    ensures
        resolve_entries(file, n) is Ok,
    decreases n,
{
    if n > 0 {
        lemma_resolves_up_to(file, (n - 1) as nat);
        assert(resolve_entry(file, file.validators[n - 1].0, file.validators[n - 1].1) is Ok);
    }
}

/// A document with a validator whose templates lead back to one of
/// themselves does not load; where every validator before that one
/// resolves, it is refused for the circle.
pub proof fn lemma_circle_fails_the_load(file: ConfigFileView, i: int)
    requires
        0 <= i < file.validators.len(),
        has_circle(file.validator_templates, file.validators[i].1.template),
    ensures
        resolve(file) is Err,
        (forall|j: int|
            0 <= j < i ==> resolve_entry(
                file,
                (#[trigger] file.validators[j]).0,
                file.validators[j].1,
            ) is Ok) ==> resolve(file) matches Err(ValidationFileErrorView::CircularTemplate(_)),
{
    lemma_circle_is_refused(file, file.validators[i].0, file.validators[i].1);
    if resolve_entries(file, i as nat) is Err {
        lemma_resolve_failure_stands(file, i as nat, file.validators.len());
    } else {
        assert(resolve_entries(file, (i + 1) as nat) is Err);
        lemma_resolve_failure_stands(file, (i + 1) as nat, file.validators.len());
    }
    if forall|j: int|
        0 <= j < i ==> resolve_entry(
            file,
            (#[trigger] file.validators[j]).0,
            file.validators[j].1,
        ) is Ok {
        lemma_resolves_up_to(file, i as nat);
        assert(resolve_entries(file, (i + 1) as nat) matches Err(
            ValidationFileErrorView::CircularTemplate(_),
        ));
        lemma_resolve_failure_stands(file, (i + 1) as nat, file.validators.len());
    }
}

/// The entry of a document that stands for a constraint.
pub open spec fn claim_entry(claim: RequiredClaimView) -> ClaimEntry {
    match claim.value {
        RequiredClaimValueView::Any => ClaimEntry::Simple(claim.name),
        RequiredClaimValueView::Single(value) => ClaimEntry::Complex {
            name: claim.name,
            value: Some(value),
        },
        RequiredClaimValueView::Multiple(values) => ClaimEntry::ComplexMultiple {
            name: claim.name,
            values,
        },
    }
}

/// A resolved validator written as an entry of a document: every field
/// stands in it, and it names no template.
pub open spec fn validator_entry(validator: JWTValidatorView) -> PartialJWTValidatorView {
    PartialJWTValidatorView {
        template: None,
        authority: Some(validator.authority),
        header: Some(validator.header),
        header_prefix: validator.header_prefix,
        required_claims: Seq::new(
            validator.required_claims.len(),
            |k: int| claim_entry(validator.required_claims[k]),
        ),
        map_claims: validator.map_claims,
    }
}

/// A configuration written back as a document, beside the templates
/// `templates`: the authorities as they are, and every validator as an entry
/// of its own.
pub open spec fn written_back(
    config: ConfigView,
    templates: Seq<(Seq<char>, PartialJWTValidatorView)>,
) -> ConfigFileView {
    ConfigFileView {
        authorities: config.authorities,
        validator_templates: templates,
        validators: Seq::new(
            config.validators.len(),
            |i: int| (config.validators[i].0, validator_entry(config.validators[i].1)),
        ),
    }
}

proof fn lemma_header_names_parse_to_themselves(
    validator: Seq<char>,
    map_claims: Seq<(Seq<char>, Seq<char>)>,
    n: nat,
)
    requires
        n <= map_claims.len(),
        forall|k: int| 0 <= k < map_claims.len() ==> is_header_name((#[trigger] map_claims[k]).1),
    ensures
        parse_headers(validator, map_claims, n) == Ok::<
            Seq<(Seq<char>, Seq<char>)>,
            ValidationFileErrorView,
        >(map_claims.subrange(0, n as int)),
    decreases n,
{
    if n > 0 {
        lemma_header_names_parse_to_themselves(validator, map_claims, (n - 1) as nat);
        assert(is_header_name(map_claims[n - 1].1));
        assert(map_claims.subrange(0, n - 1).push(map_claims[n - 1]) =~= map_claims.subrange(
            0,
            n as int,
        ));
    } else {
        assert(map_claims.subrange(0, 0) =~= Seq::empty());
    }
}

proof fn lemma_entry_resolves_to_its_validator(
    file: ConfigFileView,
    name: Seq<char>,
    validator: JWTValidatorView,
)
    requires
        validator_wf(file.authorities, validator),
    ensures
        resolve_entry(file, name, validator_entry(validator)) == Ok::<
            JWTValidatorView,
            ValidationFileErrorView,
        >(validator),
{
    let entry = validator_entry(validator);
    lemma_header_names_parse_to_themselves(name, entry.map_claims, entry.map_claims.len());
    assert(entry.map_claims.subrange(0, entry.map_claims.len() as int) =~= entry.map_claims);
    assert forall|k: int| 0 <= k < validator.required_claims.len() implies normalize_claim(
        #[trigger] entry.required_claims[k],
    ) == validator.required_claims[k] by {
        assert(is_normal(validator.required_claims[k]));
    }
    assert(normalize_claims(entry.required_claims) =~= validator.required_claims);
}

proof fn lemma_written_back_resolves(
    config: ConfigView,
    templates: Seq<(Seq<char>, PartialJWTValidatorView)>,
    n: nat,
)
    requires
        config_wf(config),
        n <= config.validators.len(),
    ensures
        resolve_entries(written_back(config, templates), n) == Ok::<
            Seq<(Seq<char>, JWTValidatorView)>,
            ValidationFileErrorView,
        >(config.validators.subrange(0, n as int)),
    decreases n,
{
    let file = written_back(config, templates);
    if n > 0 {
        lemma_written_back_resolves(config, templates, (n - 1) as nat);
        let validator = config.validators[n - 1];
        assert(validator_wf(config.authorities, validator.1));
        lemma_entry_resolves_to_its_validator(file, validator.0, validator.1);
        assert(config.validators.subrange(0, n - 1).push(validator) =~= config.validators.subrange(
            0,
            n as int,
        ));
    } else {
        assert(config.validators.subrange(0, 0) =~= Seq::empty());
    }
}

/// A sound configuration, written back as a document, resolves to itself,
/// whatever templates stand beside it.
pub proof fn lemma_sound_config_resolves_to_itself(
    config: ConfigView,
    templates: Seq<(Seq<char>, PartialJWTValidatorView)>,
)
    requires
        config_wf(config),
    ensures
        resolve(written_back(config, templates)) == Ok::<ConfigView, ValidationFileErrorView>(
            config,
        ),
{
    lemma_written_back_resolves(config, templates, config.validators.len());
    assert(config.validators.subrange(0, config.validators.len() as int) =~= config.validators);
}

/// Resolving is idempotent: what a document resolves to, written back as a
/// document, resolves to the same configuration.
pub proof fn lemma_resolve_is_idempotent(
    file: ConfigFileView,
    templates: Seq<(Seq<char>, PartialJWTValidatorView)>,
)
    requires
        resolve(file) is Ok,
    ensures
        resolve(written_back(resolve(file)->Ok_0, templates)) == resolve(file),
{
    lemma_resolved_is_sound(file);
    lemma_sound_config_resolves_to_itself(resolve(file)->Ok_0, templates);
}


/// Offering entries to a claim mapping that maps no claim twice leaves one
/// that maps no claim twice.
pub proof fn lemma_merge_keeps_claims_distinct(
    own: Seq<(Seq<char>, Seq<char>)>,
    inherited: Seq<(Seq<char>, Seq<char>)>,
    n: nat,
)
    requires
        distinct_names(own),
        n <= inherited.len(),
    ensures
        distinct_names(merge_claims(own, inherited, n)),
        forall|k: int| 0 <= k < own.len() ==> merge_claims(own, inherited, n)[k] == own[k],
        own.len() <= merge_claims(own, inherited, n).len(),
    decreases n,
{
    if n > 0 {
        lemma_merge_keeps_claims_distinct(own, inherited, (n - 1) as nat);
        let before = merge_claims(own, inherited, (n - 1) as nat);
        let entry = inherited[n - 1];
        if !has_name(before, entry.0) {
            let after = before.push(entry);
            assert forall|i: int, j: int| 0 <= i < j < after.len() implies (#[trigger] after[i]).0
                != (#[trigger] after[j]).0 by {
                if j == before.len() {
                    assert(before[i].0 != entry.0);
                } else {
                    assert(before[i].0 != before[j].0);
                }
            }
        }
    }
}

/// A walk that starts with a claim mapping that maps no claim twice ends
/// with one that maps no claim twice.
pub proof fn lemma_walk_keeps_claims_distinct(
    templates: Seq<(Seq<char>, PartialJWTValidatorView)>,
    validator: Seq<char>,
    own: PartialJWTValidatorView,
    next: Option<Seq<char>>,
    visited: Seq<Seq<char>>,
)
    requires
        distinct_names(own.map_claims),
        walk(templates, validator, own, next, visited) is Ok,
    ensures
        distinct_names(walk(templates, validator, own, next, visited)->Ok_0.map_claims),
    decreases unvisited(templates, visited),
{
    if let Some(name) = next {
        if !visited.contains(name) && lookup(templates, name) is Some {
            let template = lookup(templates, name)->Some_0;
            lemma_visit_decreases(templates, visited, name);
            lemma_merge_keeps_claims_distinct(
                own.map_claims,
                template.map_claims,
                template.map_claims.len(),
            );
            lemma_walk_keeps_claims_distinct(
                templates,
                validator,
                inherit(own, template),
                template.template,
                visited.push(name),
            );
        }
    }
}

/// A validator that maps no claim twice in its own entry maps no claim
/// twice once it is resolved, whatever its templates map.
pub proof fn lemma_resolved_maps_no_claim_twice(
    file: ConfigFileView,
    validator: Seq<char>,
    partial: PartialJWTValidatorView,
)
    requires
        distinct_names(partial.map_claims),
        resolve_entry(file, validator, partial) is Ok,
    ensures
        distinct_names(resolve_entry(file, validator, partial)->Ok_0.map_claims),
{
    lemma_walk_keeps_claims_distinct(
        file.validator_templates,
        validator,
        partial,
        partial.template,
        Seq::empty(),
    );
    let merged = walk(file.validator_templates, validator, partial, partial.template, Seq::empty())->Ok_0;
    lemma_parsed_headers(validator, merged.map_claims, merged.map_claims.len());
    let resolved = resolve_entry(file, validator, partial)->Ok_0.map_claims;
    assert forall|i: int, j: int| 0 <= i < j < resolved.len() implies (#[trigger] resolved[i]).0
        != (#[trigger] resolved[j]).0 by {
        assert(merged.map_claims[i].0 != merged.map_claims[j].0);
    }
}

/// The claim mapping `own` after all of `inherited` was offered to it.
pub open spec fn merged_claims(
    own: Seq<(Seq<char>, Seq<char>)>,
    inherited: Seq<(Seq<char>, Seq<char>)>,
) -> Seq<(Seq<char>, Seq<char>)> {
    merge_claims(own, inherited, inherited.len())
}

proof fn lemma_merge_reads_a_prefix(
    own: Seq<(Seq<char>, Seq<char>)>,
    inherited: Seq<(Seq<char>, Seq<char>)>,
    other: Seq<(Seq<char>, Seq<char>)>,
    n: nat,
)
    requires
        n <= inherited.len(),
        n <= other.len(),
        forall|i: int| 0 <= i < n ==> inherited[i] == other[i],
    ensures
        merge_claims(own, inherited, n) == merge_claims(own, other, n),
    decreases n,
{
    if n > 0 {
        lemma_merge_reads_a_prefix(own, inherited, other, (n - 1) as nat);
    }
}

proof fn lemma_merge_names(
    own: Seq<(Seq<char>, Seq<char>)>,
    inherited: Seq<(Seq<char>, Seq<char>)>,
    n: nat,
    name: Seq<char>,
)
    requires
        n <= inherited.len(),
    ensures
        has_name(merge_claims(own, inherited, n), name) <==> has_name(own, name) || exists|i: int|
            0 <= i < n && (#[trigger] inherited[i]).0 == name,
    decreases n,
{
    if n > 0 {
        lemma_merge_names(own, inherited, (n - 1) as nat, name);
        lemma_merge_names(own, inherited, (n - 1) as nat, inherited[n - 1].0);
        let before = merge_claims(own, inherited, (n - 1) as nat);
        let entry = inherited[n - 1];
        let after = merge_claims(own, inherited, n);
        if has_name(after, name) {
            let k = choose|k: int| 0 <= k < after.len() && (#[trigger] after[k]).0 == name;
            if k < before.len() {
                assert(before[k].0 == name);
            } else {
                assert(entry.0 == name);
                assert(inherited[n - 1].0 == name);
            }
        }
        if has_name(own, name) || exists|i: int| 0 <= i < n && (#[trigger] inherited[i]).0 == name {
            if has_name(before, name) {
                let k = choose|k: int| 0 <= k < before.len() && (#[trigger] before[k]).0 == name;
                assert(after[k].0 == name);
            } else {
                let i = choose|i: int| 0 <= i < n && (#[trigger] inherited[i]).0 == name;
                assert(i == n - 1);
                assert(after[after.len() - 1].0 == name);
            }
        }
    }
}

proof fn lemma_merge_of_one_more(
    own: Seq<(Seq<char>, Seq<char>)>,
    inherited: Seq<(Seq<char>, Seq<char>)>,
    entry: (Seq<char>, Seq<char>),
)
    ensures
        merged_claims(own, inherited.push(entry)) == if has_name(
            merged_claims(own, inherited),
            entry.0,
        ) {
            merged_claims(own, inherited)
        } else {
            merged_claims(own, inherited).push(entry)
        },
{
    lemma_merge_reads_a_prefix(own, inherited.push(entry), inherited, inherited.len());
    assert(inherited.push(entry)[inherited.len() as int] == entry);
}

proof fn lemma_merge_is_associative(
    a: Seq<(Seq<char>, Seq<char>)>,
    b: Seq<(Seq<char>, Seq<char>)>,
    c: Seq<(Seq<char>, Seq<char>)>,
    n: nat,
)
    requires
        n <= c.len(),
    ensures
        merge_claims(merged_claims(a, b), c, n) == merged_claims(a, merge_claims(b, c, n)),
    decreases n,
{
    if n > 0 {
        lemma_merge_is_associative(a, b, c, (n - 1) as nat);
        let entry = c[n - 1];
        let inner = merge_claims(b, c, (n - 1) as nat);
        let outer = merged_claims(a, inner);
        lemma_merge_names(a, inner, inner.len(), entry.0);
        if has_name(inner, entry.0) {
            let k = choose|k: int| 0 <= k < inner.len() && (#[trigger] inner[k]).0 == entry.0;
            assert(has_name(outer, entry.0));
        } else {
            lemma_merge_of_one_more(a, inner, entry);
            if has_name(outer, entry.0) {
                assert(has_name(a, entry.0));
            }
        }
    }
}

proof fn lemma_merge_of_known_claims(
    own: Seq<(Seq<char>, Seq<char>)>,
    inherited: Seq<(Seq<char>, Seq<char>)>,
    n: nat,
)
    requires
        n <= inherited.len(),
        forall|i: int| 0 <= i < n ==> has_name(own, (#[trigger] inherited[i]).0),
    ensures
        merge_claims(own, inherited, n) == own,
    decreases n,
{
    if n > 0 {
        lemma_merge_of_known_claims(own, inherited, (n - 1) as nat);
        assert(has_name(own, inherited[n - 1].0));
    }
}

/// The entry that holds nothing.
pub open spec fn blank() -> PartialJWTValidatorView {
    PartialJWTValidatorView {
        template: None,
        authority: None,
        header: None,
        header_prefix: None,
        required_claims: Seq::empty(),
        map_claims: Seq::empty(),
    }
}

/// What the templates from `next` on hand down to whoever names them: what
/// an entry that holds nothing has after the walk.
pub open spec fn handed_down(
    templates: Seq<(Seq<char>, PartialJWTValidatorView)>,
    validator: Seq<char>,
    next: Option<Seq<char>>,
    visited: Seq<Seq<char>>,
) -> Result<PartialJWTValidatorView, ValidationFileErrorView> {
    walk(templates, validator, blank(), next, visited)
}

proof fn lemma_inherit_is_associative(
    own: PartialJWTValidatorView,
    template: PartialJWTValidatorView,
    rest: PartialJWTValidatorView,
)
    ensures
        inherit(inherit(own, template), rest) == inherit(
            own,
            inherit(inherit(blank(), template), rest),
        ),
{
    let left = inherit(inherit(own, template), rest);
    let right = inherit(own, inherit(inherit(blank(), template), rest));
    assert(left.required_claims =~= right.required_claims);
    let t = template.map_claims;
    let r = rest.map_claims;
    let nothing = Seq::<(Seq<char>, Seq<char>)>::empty();
    lemma_merge_is_associative(own.map_claims, t, r, r.len());
    lemma_merge_is_associative(nothing, t, r, r.len());
    let folded = merged_claims(t, r);
    lemma_merge_is_associative(own.map_claims, nothing, folded, folded.len());
    assert(left.map_claims == right.map_claims);
}

/// A walk gives an entry what it holds itself and, where it lacks
/// something, what the templates hand down; it fails where the templates
/// alone fail, and as they do.
pub proof fn lemma_walk_adds_what_is_handed_down(
    templates: Seq<(Seq<char>, PartialJWTValidatorView)>,
    validator: Seq<char>,
    own: PartialJWTValidatorView,
    next: Option<Seq<char>>,
    visited: Seq<Seq<char>>,
)
    ensures
        walk(templates, validator, own, next, visited) == match handed_down(
            templates,
            validator,
            next,
            visited,
        ) {
            Ok(handed) => Ok::<PartialJWTValidatorView, ValidationFileErrorView>(
                inherit(own, handed),
            ),
            Err(e) => Err(e),
        },
    decreases unvisited(templates, visited),
{
    match next {
        None => {
            assert(inherit(own, blank()).required_claims =~= own.required_claims);
        },
        Some(name) => {
            if !visited.contains(name) && lookup(templates, name) is Some {
                let template = lookup(templates, name)->Some_0;
                lemma_visit_decreases(templates, visited, name);
                lemma_walk_adds_what_is_handed_down(
                    templates,
                    validator,
                    inherit(own, template),
                    template.template,
                    visited.push(name),
                );
                lemma_walk_adds_what_is_handed_down(
                    templates,
                    validator,
                    inherit(blank(), template),
                    template.template,
                    visited.push(name),
                );
                if let Ok(rest) = handed_down(
                    templates,
                    validator,
                    template.template,
                    visited.push(name),
                ) {
                    lemma_inherit_is_associative(own, template, rest);
                }
            }
        },
    }
}

/// A resolved validator written as an entry that still names the template
/// `template`.
pub open spec fn validator_entry_from(
    validator: JWTValidatorView,
    template: Option<Seq<char>>,
) -> PartialJWTValidatorView {
    PartialJWTValidatorView { template, ..validator_entry(validator) }
}

/// Whether a validator that resolved to `validator` can be written back
/// beside its templates, still naming them, and resolve to the same: the
/// templates hand down no required claims, which would be added once more,
/// and no prefix that would take the place of none.
pub open spec fn survives_its_templates(
    validator: JWTValidatorView,
    handed: PartialJWTValidatorView,
) -> bool {
    &&& handed.required_claims.len() == 0
    &&& normalize_prefix(or_else(validator.header_prefix, handed.header_prefix))
        == validator.header_prefix
}

/// What a validator resolved to, written back as an entry that still names
/// its template, resolves to the same validator exactly where it survives
/// its templates.
pub proof fn lemma_resolve_again_beside_templates(
    file: ConfigFileView,
    name: Seq<char>,
    partial: PartialJWTValidatorView,
)
    requires
        resolve_entry(file, name, partial) is Ok,
    ensures
        handed_down(file.validator_templates, name, partial.template, Seq::empty()) is Ok,
        resolve_entry(
            file,
            name,
            validator_entry_from(resolve_entry(file, name, partial)->Ok_0, partial.template),
        ) == resolve_entry(file, name, partial) <==> survives_its_templates(
            resolve_entry(file, name, partial)->Ok_0,
            handed_down(file.validator_templates, name, partial.template, Seq::empty())->Ok_0,
        ),
{
    let templates = file.validator_templates;
    let start = partial.template;
    let nothing = Seq::<Seq<char>>::empty();
    lemma_walk_adds_what_is_handed_down(templates, name, partial, start, nothing);
    let handed = handed_down(templates, name, start, nothing)->Ok_0;
    let merged = inherit(partial, handed);
    let resolved = resolve_entry(file, name, partial)->Ok_0;
    lemma_finished_is_sound(file.authorities, name, merged);
    lemma_parsed_headers(name, merged.map_claims, merged.map_claims.len());

    let entry = validator_entry_from(resolved, start);
    lemma_walk_adds_what_is_handed_down(templates, name, entry, start, nothing);
    let again = inherit(entry, handed);

    assert forall|i: int| 0 <= i < handed.map_claims.len() implies has_name(
        resolved.map_claims,
        (#[trigger] handed.map_claims[i]).0,
    ) by {
        let claim = handed.map_claims[i].0;
        lemma_merge_names(partial.map_claims, handed.map_claims, handed.map_claims.len(), claim);
        let k = choose|k: int|
            0 <= k < merged.map_claims.len() && (#[trigger] merged.map_claims[k]).0 == claim;
        assert(resolved.map_claims[k].0 == claim);
    }
    lemma_merge_of_known_claims(resolved.map_claims, handed.map_claims, handed.map_claims.len());
    assert(again.map_claims == resolved.map_claims);
    lemma_header_names_parse_to_themselves(name, again.map_claims, again.map_claims.len());
    assert(again.map_claims.subrange(0, again.map_claims.len() as int) =~= again.map_claims);

    let twice = finish(file.authorities, name, again)->Ok_0;
    assert(finish(file.authorities, name, again) is Ok);
    assert forall|k: int| 0 <= k < resolved.required_claims.len() implies normalize_claim(
        #[trigger] entry.required_claims[k],
    ) == resolved.required_claims[k] by {
        assert(is_normal(resolved.required_claims[k]));
    }
    assert(twice.required_claims =~= resolved.required_claims + normalize_claims(
        handed.required_claims,
    ));
    if handed.required_claims.len() == 0 {
        assert(twice.required_claims =~= resolved.required_claims);
    } else {
        assert(twice.required_claims.len() != resolved.required_claims.len());
    }
}

} // verus!
