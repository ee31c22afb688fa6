//! The live configuration: the snapshot of authorities and validators that
//! requests are answered from, the key store, and the lifecycle that the
//! loading of the configuration drives.

use vstd::prelude::*;
use crate::utils::copies::{copy_pairs, copy_text, lemma_push_deep_view};
use crate::utils::entries::{
    find, has_name, is_first_at, lemma_position_is_first, lemma_position_some, lookup, names,
    position,
};
use crate::validator_file::error::ValidationFileError;
use crate::validator_file::file::{JWTAuthority, JWTAuthorityView};
use crate::validator_file::{
    config_wf, copy_claims, core_validator_of, Config, ConfigView, JWTValidatorView,
};
use crate::validators::authority::{Authority, AuthorityStore, AuthorityView};
use crate::validators::jwks::{
    is_refresh_of, jwks_document, keyed_by_uri, no_entries, refresh_outcome, refreshed, JwksState,
    JwksStateView, JwksStore, RefreshError, RefreshRequest, RefreshResponse,
    STATUS_NOT_MODIFIED,
};
use crate::validators::validator::{Validator, ValidatorStore, ValidatorView};
use crate::States;

verus! {

/// The seconds between two refreshes of an authority's keys, where the
/// configuration names none.
pub const DEFAULT_UPDATE_INTERVAL: u64 = 3600;

/// The authority that the entry `name` of a configuration stands for.
pub open spec fn authority_of(name: Seq<char>, authority: JWTAuthorityView) -> AuthorityView {
    AuthorityView {
        name,
        jwks: authority.jwks_url,
        core_validator: core_validator_of(authority),
        update_interval: match authority.update_interval {
            Some(seconds) => seconds,
            None => DEFAULT_UPDATE_INTERVAL,
        },
    }
}

/// The authorities that the entries of a configuration stand for.
pub open spec fn authorities_of(entries: Seq<(Seq<char>, JWTAuthorityView)>) -> Seq<
    (Seq<char>, AuthorityView),
> {
    Seq::new(entries.len(), |i: int| (entries[i].0, authority_of(entries[i].0, entries[i].1)))
}

/// The validator that the entry `name` of a configuration stands for, bound
/// to the authority of `authorities` that it names.
pub open spec fn validator_of(
    authorities: Seq<(Seq<char>, AuthorityView)>,
    name: Seq<char>,
    validator: JWTValidatorView,
) -> ValidatorView {
    ValidatorView {
        name,
        authority: lookup(authorities, validator.authority)->Some_0,
        header: validator.header,
        strip_prefix: validator.header_prefix,
        required_claims: validator.required_claims,
        map_claims: validator.map_claims,
    }
}

/// The validators that the entries of a configuration stand for.
pub open spec fn validators_of(
    authorities: Seq<(Seq<char>, AuthorityView)>,
    entries: Seq<(Seq<char>, JWTValidatorView)>,
) -> Seq<(Seq<char>, ValidatorView)> {
    Seq::new(
        entries.len(),
        |i: int| (entries[i].0, validator_of(authorities, entries[i].0, entries[i].1)),
    )
}

/// The URIs of the key sources of the first `n` of `entries`.
pub open spec fn jwks_urls(entries: Seq<(Seq<char>, JWTAuthorityView)>, n: int) -> Set<Seq<char>> {
    Set::new(|uri: Seq<char>| exists|i: int| 0 <= i < n && (#[trigger] entries[i]).1.jwks_url == uri)
}

/// What is published of a configuration: authorities and validators, both
/// by name.
pub struct SnapshotView {
    pub authorities: Seq<(Seq<char>, AuthorityView)>,
    pub validators: Seq<(Seq<char>, ValidatorView)>,
}

/// Whether every validator of a snapshot is bound to the authority that the
/// snapshot holds under that authority's name.
pub open spec fn is_bound(snapshot: SnapshotView) -> bool {
    forall|i: int|
        0 <= i < snapshot.validators.len() ==> lookup(
            snapshot.authorities,
            (#[trigger] snapshot.validators[i]).1.authority.name,
        ) == Some(snapshot.validators[i].1.authority)
}

/// The snapshot that a configuration is published as.
pub open spec fn snapshot_of(config: ConfigView) -> SnapshotView {
    SnapshotView {
        authorities: authorities_of(config.authorities),
        validators: validators_of(authorities_of(config.authorities), config.validators),
    }
}

/// The snapshot that holds nothing.
pub open spec fn empty_snapshot() -> SnapshotView {
    SnapshotView { authorities: Seq::empty(), validators: Seq::empty() }
}

/// The snapshot of a sound configuration binds every validator to an
/// authority that it holds.
pub proof fn lemma_snapshot_is_bound(config: ConfigView)
    requires
        config_wf(config),
    ensures
        is_bound(snapshot_of(config)),
{
    let authorities = authorities_of(config.authorities);
    let snapshot = snapshot_of(config);
    assert forall|i: int| 0 <= i < snapshot.validators.len() implies lookup(
        snapshot.authorities,
        (#[trigger] snapshot.validators[i]).1.authority.name,
    ) == Some(snapshot.validators[i].1.authority) by {
        let named = config.validators[i].1.authority;
        lemma_named_authority(config.authorities, named);
    }
}

/// An authority that a configuration holds is published under its name.
pub proof fn lemma_named_authority(entries: Seq<(Seq<char>, JWTAuthorityView)>, name: Seq<char>)
    requires
        has_name(entries, name),
    ensures
        lookup(authorities_of(entries), name) is Some,
        lookup(authorities_of(entries), name)->Some_0.name == name,
        lookup(authorities_of(entries), name)->Some_0 == authority_of(
            name,
            lookup(entries, name)->Some_0,
        ),
{
    lemma_position_some(entries, name);
    let i = position(entries, name)->Some_0;
    let authorities = authorities_of(entries);
    assert(is_first_at(authorities, name, i)) by {
        assert(authorities[i].0 == name);
        assert forall|j: int| 0 <= j < i implies (#[trigger] authorities[j]).0 != name by {
            assert(entries[j].0 != name);
        }
    }
    lemma_position_is_first(authorities, name, i);
}

/// The snapshot that requests are answered from. Every validator in it is
/// bound to the authority that the snapshot holds under that name.
#[derive(Debug)]
pub struct ValidatorsState {
    authorities: AuthorityStore,
    validators: ValidatorStore,
}

impl DeepView for ValidatorsState {
    type V = SnapshotView;

    closed spec fn deep_view(&self) -> SnapshotView {
        SnapshotView {
            authorities: self.authorities.deep_view(),
            validators: self.validators.deep_view(),
        }
    }
}

impl ValidatorsState {
    #[verifier::type_invariant]
    closed spec fn bound(&self) -> bool {
        is_bound(self.deep_view())
    }

    /// The snapshot that holds nothing.
    pub fn empty() -> (r: ValidatorsState)
        ensures
            r.deep_view() == empty_snapshot(),
    {
        ValidatorsState { authorities: AuthorityStore::new(), validators: ValidatorStore::new() }
    }

    /// A copy of the snapshot.
    pub fn copy(&self) -> (r: ValidatorsState)
        ensures
            r.deep_view() == self.deep_view(),
    {
        proof {
            use_type_invariant(self);
        }
        let mut authorities: Vec<(String, Authority)> = Vec::new();
        let mut i: usize = 0;
        while i < self.authorities.states.len()
            invariant
                i <= self.authorities.states.len(),
                authorities.len() == i,
                authorities.deep_view() == self.authorities.deep_view().subrange(0, i as int),
            decreases self.authorities.states.len() - i,
        {
            let ghost before = authorities;
            let pair = (self.authorities.states[i].0.clone(), self.authorities.states[i].1.copy());
            authorities.push(pair);
            proof {
                lemma_push_deep_view(before, authorities, pair);
                assert(authorities.deep_view() =~= self.authorities.deep_view().subrange(
                    0,
                    i + 1,
                ));
            }
            i += 1;
        }
        assert(self.authorities.deep_view().subrange(0, i as int)
            =~= self.authorities.deep_view());
        let mut validators: Vec<(String, Validator)> = Vec::new();
        let mut k: usize = 0;
        while k < self.validators.states.len()
            invariant
                k <= self.validators.states.len(),
                validators.len() == k,
                validators.deep_view() == self.validators.deep_view().subrange(0, k as int),
            decreases self.validators.states.len() - k,
        {
            let ghost before = validators;
            let pair = (self.validators.states[k].0.clone(), self.validators.states[k].1.copy());
            validators.push(pair);
            proof {
                lemma_push_deep_view(before, validators, pair);
                assert(validators.deep_view() =~= self.validators.deep_view().subrange(
                    0,
                    k + 1,
                ));
            }
            k += 1;
        }
        assert(self.validators.deep_view().subrange(0, k as int)
            =~= self.validators.deep_view());
        ValidatorsState {
            authorities: AuthorityStore { states: authorities },
            validators: ValidatorStore { states: validators },
        }
    }

    /// The names of the validators.
    pub fn list(&self) -> (r: Vec<String>)
        ensures
            r.deep_view() == names(self.deep_view().validators),
    {
        self.validators.keys()
    }

    /// The validator `name`. Its authority is the one that the snapshot
    /// holds under that authority's name.
    pub fn get(&self, name: &str) -> (r: Option<Validator>)
        ensures
            r.deep_view() == lookup(self.deep_view().validators, name@),
            r matches Some(validator) ==> lookup(
                self.deep_view().authorities,
                validator.authority.name@,
            ) == Some(validator.authority.deep_view()),
    {
        proof {
            use_type_invariant(self);
            if has_name(self.deep_view().validators, name@) {
                lemma_position_some(self.deep_view().validators, name@);
            }
        }
        self.validators.get(name)
    }

    /// The authority `name`.
    pub fn authority(&self, name: &str) -> (r: Option<Authority>)
        ensures
            r.deep_view() == lookup(self.deep_view().authorities, name@),
    {
        self.authorities.get(name)
    }
}

/// The live configuration and what drives it.
#[derive(Debug)]
pub struct Store {
    states: States,
    jwks: JwksStore,
    snapshot: ValidatorsState,
}

/// What a load leaves of the key store: an entry for every key source that
/// `entries` name, those that it held as they were, the others as sources
/// whose keys were never fetched.
pub open spec fn keys_after_load(
    before: Map<Seq<char>, JwksStateView>,
    after: Map<Seq<char>, JwksStateView>,
    entries: Seq<(Seq<char>, JWTAuthorityView)>,
    n: int,
) -> bool {
    &&& after.dom() == before.dom().union(jwks_urls(entries, n))
    &&& forall|uri: Seq<char>| #[trigger] before.contains_key(uri) ==> after[uri] == before[uri]
    &&& forall|uri: Seq<char>|
        #[trigger] after.contains_key(uri) && !before.contains_key(uri) ==> JwksState::is_fresh(
            after[uri],
            uri,
        )
    &&& keyed_by_uri(before) ==> keyed_by_uri(after)
}

/// Authorities that name one key source share one entry: a load into an
/// empty key store of a configuration whose authorities all name `uri`
/// leaves exactly the entry for `uri`.
pub proof fn lemma_shared_source_has_one_entry(
    before: Map<Seq<char>, JwksStateView>,
    after: Map<Seq<char>, JwksStateView>,
    entries: Seq<(Seq<char>, JWTAuthorityView)>,
    uri: Seq<char>,
)
    requires
        before == no_entries(),
        entries.len() > 0,
        forall|i: int| 0 <= i < entries.len() ==> (#[trigger] entries[i]).1.jwks_url == uri,
        keys_after_load(before, after, entries, entries.len() as int),
    ensures
        after.dom() == set![uri],
        after.dom().len() == 1,
{
    assert(entries[0].1.jwks_url == uri);
    assert(after.dom() =~= set![uri]);
}

/// Every key source that a configuration names has its entry after a load,
/// and every entry that was there before is there as it was.
pub proof fn lemma_every_source_has_its_entry(
    before: Map<Seq<char>, JwksStateView>,
    after: Map<Seq<char>, JwksStateView>,
    entries: Seq<(Seq<char>, JWTAuthorityView)>,
    i: int,
)
    requires
        0 <= i < entries.len(),
        keys_after_load(before, after, entries, entries.len() as int),
    ensures
        after.contains_key(entries[i].1.jwks_url),
        before.contains_key(entries[i].1.jwks_url) ==> after[entries[i].1.jwks_url]
            == before[entries[i].1.jwks_url],
{
    assert(jwks_urls(entries, entries.len() as int).contains(entries[i].1.jwks_url));
}

impl Store {
    /// The lifecycle state.
    pub closed spec fn lifecycle(&self) -> States {
        self.states
    }

    /// The key sources by URI.
    pub closed spec fn keys(&self) -> Map<Seq<char>, JwksStateView> {
        self.jwks@
    }

    /// The snapshot that requests are answered from.
    pub closed spec fn snapshot(&self) -> SnapshotView {
        self.snapshot.deep_view()
    }

    /// A store that is starting: it holds no configuration and no keys.
    pub fn new() -> (r: Store)
        ensures
            r.lifecycle() == States::Starting,
            r.keys() == no_entries(),
            r.snapshot() == empty_snapshot(),
    {
        Store { states: States::Starting, jwks: JwksStore::new(), snapshot: ValidatorsState::empty() }
    }

    fn load_authorities(&mut self, entries: &Vec<(String, JWTAuthority)>) -> (r: Vec<
        (String, Authority),
    >)
        ensures
            r.deep_view() == authorities_of(entries.deep_view()),
            keys_after_load(
                old(self).keys(),
                final(self).keys(),
                entries.deep_view(),
                entries.deep_view().len() as int,
            ),
            final(self).lifecycle() == old(self).lifecycle(),
            final(self).snapshot() == old(self).snapshot(),
    {
        let mut authorities: Vec<(String, Authority)> = Vec::with_capacity(entries.len());
        let mut i: usize = 0;
        assert(self.keys().dom() =~= old(self).keys().dom().union(
            jwks_urls(entries.deep_view(), 0),
        ));
        while i < entries.len()
            invariant
                i <= entries.len(),
                authorities.len() == i,
                authorities.deep_view() == authorities_of(entries.deep_view()).subrange(
                    0,
                    i as int,
                ),
                keys_after_load(old(self).keys(), self.keys(), entries.deep_view(), i as int),
                self.lifecycle() == old(self).lifecycle(),
                self.snapshot() == old(self).snapshot(),
            decreases entries.len() - i,
        {
            let entry = &entries[i];
            assert(entry.deep_view() == entries.deep_view()[i as int]);
            let ghost keys_before = self.keys();
            self.jwks.ensure(entry.1.jwks_url.as_str());
            proof {
                let url = entry.1.jwks_url@;
                assert(entries.deep_view()[i as int].1.jwks_url == url);
                assert(jwks_urls(entries.deep_view(), i + 1) =~= jwks_urls(
                    entries.deep_view(),
                    i as int,
                ).insert(url));
                assert(self.keys().dom() =~= old(self).keys().dom().union(
                    jwks_urls(entries.deep_view(), i + 1),
                ));
                assert forall|uri: Seq<char>| #[trigger]
                    old(self).keys().contains_key(uri) implies self.keys()[uri] == old(self).keys()[uri] by {
                    assert(keys_before.contains_key(uri));
                }
                assert forall|uri: Seq<char>|
                    #[trigger] self.keys().contains_key(uri) && !old(self).keys().contains_key(
                        uri,
                    ) implies JwksState::is_fresh(self.keys()[uri], uri) by {
                    if keys_before.contains_key(uri) {
                        assert(self.keys()[uri] == keys_before[uri]);
                    }
                }
            }
            let ghost before = authorities;
            let update_interval: u64 = match entry.1.update_interval {
                Some(seconds) => seconds,
                None => DEFAULT_UPDATE_INTERVAL,
            };
            let pair = (
                entry.0.clone(),
                Authority::new(
                    entry.0.clone(),
                    entry.1.jwks_url.clone(),
                    entry.1.to_validator(),
                    update_interval,
                ),
            );
            authorities.push(pair);
            proof {
                lemma_push_deep_view(before, authorities, pair);
                assert(authorities.deep_view() =~= authorities_of(entries.deep_view()).subrange(
                    0,
                    i + 1,
                ));
            }
            i += 1;
        }
        assert(authorities_of(entries.deep_view()).subrange(0, i as int) =~= authorities_of(
            entries.deep_view(),
        ));
        authorities
    }

    /// Publishes `cfg`: the snapshot is replaced as a whole, and the key
    /// store gets an entry for every key source that `cfg` names and has
    /// none. Authorities that name one key source share its entry.
    pub fn load(&mut self, cfg: &Config)
        ensures
            final(self).snapshot() == snapshot_of(cfg.deep_view()),
            is_bound(final(self).snapshot()),
            keys_after_load(
                old(self).keys(),
                final(self).keys(),
                cfg.deep_view().authorities,
                cfg.deep_view().authorities.len() as int,
            ),
            forall|i: int|
                0 <= i < final(self).snapshot().authorities.len() ==> final(self).keys().contains_key((#[trigger] final(self).snapshot().authorities[i]).1.jwks),
            final(self).lifecycle() == old(self).lifecycle(),
    {
        let entries = cfg.validators();
        let authorities = self.load_authorities(cfg.authorities());
        let ghost published = authorities.deep_view();
        let mut validators: Vec<(String, Validator)> = Vec::with_capacity(entries.len());
        let mut k: usize = 0;
        while k < entries.len()
            invariant
                k <= entries.len(),
                validators.len() == k,
                config_wf(cfg.deep_view()),
                entries.deep_view() == cfg.deep_view().validators,
                authorities.deep_view() == published,
                published == authorities_of(cfg.deep_view().authorities),
                validators.deep_view() == validators_of(published, entries.deep_view()).subrange(
                    0,
                    k as int,
                ),
            decreases entries.len() - k,
        {
            let entry = &entries[k];
            assert(entry.deep_view() == entries.deep_view()[k as int]);
            proof {
                lemma_named_authority(cfg.deep_view().authorities, entry.1.authority@);
            }
            let authority = match find(&authorities, entry.1.authority.as_str()) {
                Some(j) => authorities[j].1.copy(),
                None => vstd::pervasive::unreached(),
            };
            let ghost before = validators;
            let pair = (
                entry.0.clone(),
                Validator::new(
                    entry.0.clone(),
                    authority,
                    entry.1.header.clone(),
                    copy_text(&entry.1.header_prefix),
                    copy_claims(&entry.1.required_claims),
                    copy_pairs(&entry.1.map_claims),
                ),
            );
            validators.push(pair);
            proof {
                lemma_push_deep_view(before, validators, pair);
                assert(validators.deep_view() =~= validators_of(
                    published,
                    entries.deep_view(),
                ).subrange(0, k + 1));
            }
            k += 1;
        }
        proof {
            assert(validators_of(published, entries.deep_view()).subrange(0, k as int)
                =~= validators_of(published, entries.deep_view()));
            lemma_snapshot_is_bound(cfg.deep_view());
            assert forall|i: int| 0 <= i < published.len() implies self.keys().contains_key(
                (#[trigger] published[i]).1.jwks,
            ) by {
                assert(cfg.deep_view().authorities[i].1.jwks_url == published[i].1.jwks);
                assert(jwks_urls(
                    cfg.deep_view().authorities,
                    cfg.deep_view().authorities.len() as int,
                ).contains(published[i].1.jwks));
            }
        }
        self.snapshot = ValidatorsState {
            authorities: AuthorityStore { states: authorities },
            validators: ValidatorStore { states: validators },
        };
    }

    /// Drops the snapshot: no request finds a validator until a
    /// configuration is published again.
    pub fn clear(&mut self)
        ensures
            final(self).snapshot() == empty_snapshot(),
            final(self).keys() == old(self).keys(),
            final(self).lifecycle() == old(self).lifecycle(),
    {
        self.snapshot = ValidatorsState::empty();
    }

    /// The lifecycle state.
    pub fn lifecycle_state(&self) -> (r: States)
        ensures
            r == self.lifecycle(),
    {
        self.states
    }

    /// The key store.
    pub fn jwks(&self) -> (r: &JwksStore)
        ensures
            r@ == self.keys(),
    {
        &self.jwks
    }

    /// A copy of the snapshot that requests are answered from.
    pub fn state(&self) -> (r: ValidatorsState)
        ensures
            r.deep_view() == self.snapshot(),
    {
        self.snapshot.copy()
    }

    /// Takes in the first loading of the configuration. A configuration
    /// that loaded is published, and the requests that fetch the keys of
    /// every key source come back; the lifecycle advances only once they are
    /// through, with [`Store::booted`]. One that did not load gives a faulty
    /// configuration and leaves the store as it is.
    pub fn boot(&mut self, loaded: &Result<Config, ValidationFileError>) -> (r: Vec<RefreshRequest>)
        ensures
            match loaded {
                Ok(cfg) => {
                    &&& final(self).snapshot() == snapshot_of(cfg.deep_view())
                    &&& keys_after_load(
                        old(self).keys(),
                        final(self).keys(),
                        cfg.deep_view().authorities,
                        cfg.deep_view().authorities.len() as int,
                    )
                    &&& final(self).lifecycle() == old(self).lifecycle()
                    &&& is_refresh_of(r.deep_view(), final(self).keys(), None)
                },
                Err(_) => {
                    &&& final(self).snapshot() == old(self).snapshot()
                    &&& final(self).keys() == old(self).keys()
                    &&& final(self).lifecycle() == States::FaultyConfig
                    &&& r.deep_view().len() == 0
                },
            },
    {
        match loaded {
            Ok(cfg) => {
                self.load(cfg);
                self.jwks.refresh_all()
            },
            Err(_) => {
                self.states = States::FaultyConfig;
                Vec::new()
            },
        }
    }

    /// Ends the first loading once the keys were fetched: the service is
    /// running.
    pub fn booted(&mut self)
        ensures
            final(self).lifecycle() == States::Running,
            final(self).snapshot() == old(self).snapshot(),
            final(self).keys() == old(self).keys(),
    {
        self.states = States::Running;
    }

    /// Takes in a later loading of the configuration, at the time `now`. A
    /// configuration that loaded is published and the service is running;
    /// the requests that fetch the keys of the key sources that count as new
    /// come back. One that did not load gives a faulty configuration and
    /// drops the snapshot, so that every request is turned down.
    pub fn reload(&mut self, loaded: &Result<Config, ValidationFileError>, now: u64) -> (r: Vec<
        RefreshRequest,
    >)
        ensures
            match loaded {
                Ok(cfg) => {
                    &&& final(self).snapshot() == snapshot_of(cfg.deep_view())
                    &&& keys_after_load(
                        old(self).keys(),
                        final(self).keys(),
                        cfg.deep_view().authorities,
                        cfg.deep_view().authorities.len() as int,
                    )
                    &&& final(self).lifecycle() == States::Running
                    &&& is_refresh_of(r.deep_view(), final(self).keys(), Some(now))
                },
                Err(_) => {
                    &&& final(self).snapshot() == empty_snapshot()
                    &&& final(self).keys() == old(self).keys()
                    &&& final(self).lifecycle() == States::FaultyConfig
                    &&& r.deep_view().len() == 0
                },
            },
    {
        match loaded {
            Ok(cfg) => {
                self.load(cfg);
                self.states = States::Running;
                self.jwks.refresh_new(now)
            },
            Err(_) => {
                self.states = States::FaultyConfig;
                self.clear();
                Vec::new()
            },
        }
    }

    /// Ends the refresh of the key source at `uri` with `response`, at the
    /// time `now`. Neither the snapshot nor the lifecycle depends on how it
    /// ends.
    pub fn complete(&mut self, uri: &str, response: RefreshResponse, now: u64) -> (r: Option<
        Result<(), RefreshError>,
    >)
        ensures
            !old(self).keys().contains_key(uri@) ==> r is None && final(self).keys() == old(self).keys(),
            old(self).keys().contains_key(uri@) ==> {
                &&& r == Some(refresh_outcome(response.status, jwks_document(response.body@)))
                &&& final(self).keys() == old(self).keys().insert(
                    uri@,
                    refreshed(
                        old(self).keys()[uri@],
                        response.status,
                        match response.etag {
                            Some(value) => Some(value@),
                            None => None,
                        },
                        match response.last_modified {
                            Some(value) => Some(value@),
                            None => None,
                        },
                        jwks_document(response.body@),
                        now,
                    ),
                )
            },
            response.status == STATUS_NOT_MODIFIED ==> final(self).keys() == old(self).keys(),
            final(self).snapshot() == old(self).snapshot(),
            final(self).lifecycle() == old(self).lifecycle(),
    {
        self.jwks.complete(uri, response, now)
    }
}

} // verus!
