//! Key sets: the keys of each key source as they were last fetched, and the
//! protocol by which they are fetched again.

use vstd::prelude::*;
use aliri::Jwks;
use dashmap::DashMap;
use crate::utils::copies::lemma_push_deep_view;
use crate::utils::text::tail;

verus! {

/// `aliri::Jwks`: a set of keys. Nothing is known of what a value holds.
#[verifier::external_type_specification]
#[verifier::external_body]
pub struct ExJwks(aliri::Jwks);

/// The status of a response that says that nothing has changed.
pub const STATUS_NOT_MODIFIED: u16 = 304;

/// The keys of one key source, as they were last fetched.
#[derive(Debug, Clone, PartialEq, Eq)]
pub struct JwksState {
    pub uri: String,
    pub jwks: Jwks,
    /// The entity tag that came with the keys.
    pub etag: Option<Vec<u8>>,
    /// The modification date that came with the keys.
    pub last_modified: Option<Vec<u8>>,
    /// When the keys were fetched, in microseconds since the Unix epoch; 0
    /// while they never were.
    pub last_refresh: u64,
}

/// What a [`JwksState`] says.
pub struct JwksStateView {
    pub uri: Seq<char>,
    pub jwks: Jwks,
    pub etag: Option<Seq<u8>>,
    pub last_modified: Option<Seq<u8>>,
    pub last_refresh: u64,
}

impl DeepView for JwksState {
    type V = JwksStateView;

    open spec fn deep_view(&self) -> JwksStateView {
        JwksStateView {
            uri: self.uri@,
            jwks: self.jwks,
            etag: match self.etag {
                Some(etag) => Some(etag@),
                None => None,
            },
            last_modified: match self.last_modified {
                Some(last_modified) => Some(last_modified@),
                None => None,
            },
            last_refresh: self.last_refresh,
        }
    }
}

/// The request that fetches the keys of a key source again.
#[derive(Debug, Clone, PartialEq, Eq)]
pub struct RefreshRequest {
    /// Where the request goes, by `GET`.
    pub uri: String,
    /// The value of `If-None-Match`, where the header is sent.
    pub if_none_match: Option<Vec<u8>>,
    /// The value of `If-Modified-Since`, where the header is sent.
    pub if_modified_since: Option<Vec<u8>>,
}

/// What a [`RefreshRequest`] says.
pub struct RefreshRequestView {
    pub uri: Seq<char>,
    pub if_none_match: Option<Seq<u8>>,
    pub if_modified_since: Option<Seq<u8>>,
}

impl DeepView for RefreshRequest {
    type V = RefreshRequestView;

    open spec fn deep_view(&self) -> RefreshRequestView {
        RefreshRequestView {
            uri: self.uri@,
            if_none_match: match self.if_none_match {
                Some(value) => Some(value@),
                None => None,
            },
            if_modified_since: match self.if_modified_since {
                Some(value) => Some(value@),
                None => None,
            },
        }
    }
}

/// The response to a [`RefreshRequest`].
#[derive(Debug, Clone, PartialEq, Eq)]
pub struct RefreshResponse {
    pub status: u16,
    /// The value of `ETag`, where the response has the header.
    pub etag: Option<Vec<u8>>,
    /// The value of `Last-Modified`, where the response has the header.
    pub last_modified: Option<Vec<u8>>,
    pub body: Vec<u8>,
}

/// Why a refresh left the keys as they were.
#[derive(Copy, Clone, Debug, PartialEq, Eq, Structural)]
pub enum RefreshError {
    /// The response has this status, which is neither a success nor 304.
    Status(u16),
    /// The body of the response is no key set.
    InvalidJwks,
}

/// Whether `status` says that the request succeeded.
pub open spec fn is_success(status: u16) -> bool {
    200 <= status < 300
}

/// The key set that `body` holds as a JSON document, if it holds one.
pub uninterp spec fn jwks_document(body: Seq<u8>) -> Option<Jwks>;

/// `serde_json::from_slice`, for `aliri::Jwks`: reads `body` as the JSON
/// document of a key set. What comes of it depends on `body` alone.
#[verifier::external_body]
fn parse_jwks(body: &[u8]) -> (r: Option<Jwks>)
    ensures
        r == jwks_document(body@),
{
    match serde_json::from_slice::<Jwks>(body) {
        Ok(jwks) => Some(jwks),
        Err(_) => None,
    }
}

/// `Jwks::default`: a key set without keys.
#[verifier::external_body]
fn no_keys() -> (r: Jwks) {
    Jwks::default()
}

/// `Jwks::clone`: a key set with the same keys.
pub assume_specification[ <aliri::Jwks as Clone>::clone ](jwks: &aliri::Jwks) -> (r: aliri::Jwks)
    ensures
        r == *jwks,
;

fn copy_bytes(value: &Option<Vec<u8>>) -> (r: Option<Vec<u8>>)
    ensures
        match (r, *value) {
            (Some(copy), Some(bytes)) => copy@ == bytes@,
            (None, None) => true,
            _ => false,
        },
{
    match value {
        Some(bytes) => Some(tail(bytes.as_slice(), 0)),
        None => None,
    }
}

/// What a refresh leaves of `state`, where the response has `status`,
/// `etag` and `last_modified`, `parsed` is the key set in its body, and the
/// refresh ends at `now`. Only a success whose body holds a key set changes
/// anything: it replaces keys, entity tag and modification date together and
/// stamps the state with `now`.
pub open spec fn refreshed(
    state: JwksStateView,
    status: u16,
    etag: Option<Seq<u8>>,
    last_modified: Option<Seq<u8>>,
    parsed: Option<Jwks>,
    now: u64,
) -> JwksStateView {
    if status != STATUS_NOT_MODIFIED && is_success(status) && parsed is Some {
        JwksStateView {
            uri: state.uri,
            jwks: parsed->Some_0,
            etag,
            last_modified,
            last_refresh: now,
        }
    } else {
        state
    }
}

/// How a refresh ends: a response that says that nothing has changed is a
/// success, any other that is no success fails with its status, and a
/// success fails where its body holds no key set.
pub open spec fn refresh_outcome(status: u16, parsed: Option<Jwks>) -> Result<(), RefreshError> {
    if status == STATUS_NOT_MODIFIED {
        Ok(())
    } else if !is_success(status) {
        Err(RefreshError::Status(status))
    } else if parsed is None {
        Err(RefreshError::InvalidJwks)
    } else {
        Ok(())
    }
}

/// A response that says that nothing has changed is a success that leaves
/// keys, entity tag, modification date and the time of the last refresh as
/// they were, whatever else it holds.
pub proof fn lemma_not_modified_changes_nothing(
    state: JwksStateView,
    etag: Option<Seq<u8>>,
    last_modified: Option<Seq<u8>>,
    parsed: Option<Jwks>,
    now: u64,
)
    ensures
        refreshed(state, STATUS_NOT_MODIFIED, etag, last_modified, parsed, now) == state,
        refresh_outcome(STATUS_NOT_MODIFIED, parsed) == Ok::<(), RefreshError>(()),
{
}

/// A refresh that fails leaves the state as it was.
pub proof fn lemma_failed_refresh_changes_nothing(
    state: JwksStateView,
    status: u16,
    etag: Option<Seq<u8>>,
    last_modified: Option<Seq<u8>>,
    parsed: Option<Jwks>,
    now: u64,
)
    requires
        refresh_outcome(status, parsed) is Err,
    ensures
        refreshed(state, status, etag, last_modified, parsed, now) == state,
{
}

impl JwksState {
    /// The state of a key source that was never fetched.
    pub open spec fn is_fresh(state: JwksStateView, uri: Seq<char>) -> bool {
        &&& state.uri == uri
        &&& state.etag is None
        &&& state.last_modified is None
        &&& state.last_refresh == 0
    }

    /// The state of the key source at `uri` before its keys are fetched.
    pub fn new(uri: String) -> (r: JwksState)
        ensures
            JwksState::is_fresh(r.deep_view(), uri@),
    {
        JwksState { uri, jwks: no_keys(), etag: None, last_modified: None, last_refresh: 0 }
    }

    /// A copy of the state.
    pub fn copy(&self) -> (r: JwksState)
        ensures
            r.deep_view() == self.deep_view(),
    {
        JwksState {
            uri: self.uri.clone(),
            jwks: self.jwks.clone(),
            etag: copy_bytes(&self.etag),
            last_modified: copy_bytes(&self.last_modified),
            last_refresh: self.last_refresh,
        }
    }

    /// The URI of the key source.
    pub fn uri(&self) -> (r: &str)
        ensures
            r@ == self.uri@,
    {
        self.uri.as_str()
    }

    /// The keys.
    pub fn jwks(&self) -> (r: &Jwks)
        ensures
            *r == self.jwks,
    {
        &self.jwks
    }

    /// When the keys were last fetched, in microseconds since the Unix
    /// epoch.
    pub fn last_refresh(&self) -> (r: u64)
        ensures
            r == self.last_refresh,
    {
        self.last_refresh
    }

    /// Sets the keys by hand, at the time `now`. What was known of the
    /// source's entity tag and modification date is dropped.
    pub fn update(&mut self, jwks: Jwks, now: u64)
        ensures
            final(self).deep_view() == (JwksStateView {
                uri: old(self).uri@,
                jwks,
                etag: None,
                last_modified: None,
                last_refresh: now,
            }),
    {
        self.jwks = jwks;
        self.etag = None;
        self.last_modified = None;
        self.last_refresh = now;
    }

    /// The request that fetches the keys again: it is conditional on the
    /// entity tag and on the modification date, as far as they are known.
    pub fn request(&self) -> (r: RefreshRequest)
        ensures
            r.deep_view() == request_of(self.uri@, self.deep_view()),
    {
        RefreshRequest {
            uri: self.uri.clone(),
            if_none_match: copy_bytes(&self.etag),
            if_modified_since: copy_bytes(&self.last_modified),
        }
    }

    /// Ends a refresh whose response has `status`, `etag` and
    /// `last_modified` and holds the key set `parsed` in its body, at the
    /// time `now`.
    pub fn accept(
        &mut self,
        status: u16,
        etag: Option<Vec<u8>>,
        last_modified: Option<Vec<u8>>,
        parsed: Option<Jwks>,
        now: u64,
    ) -> (r: Result<(), RefreshError>)
        ensures
            r == refresh_outcome(status, parsed),
            final(self).deep_view() == refreshed(
                old(self).deep_view(),
                status,
                match etag {
                    Some(value) => Some(value@),
                    None => None,
                },
                match last_modified {
                    Some(value) => Some(value@),
                    None => None,
                },
                parsed,
                now,
            ),
            status == STATUS_NOT_MODIFIED ==> final(self).deep_view() == old(self).deep_view(),
            r is Err ==> final(self).deep_view() == old(self).deep_view(),
    {
        if status == STATUS_NOT_MODIFIED {
            return Ok(());
        }
        if status < 200 || status >= 300 {
            return Err(RefreshError::Status(status));
        }
        match parsed {
            Some(jwks) => {
                self.jwks = jwks;
                self.etag = etag;
                self.last_modified = last_modified;
                self.last_refresh = now;
                Ok(())
            },
            None => Err(RefreshError::InvalidJwks),
        }
    }

    /// Ends a refresh with `response`, at the time `now`. The body is read
    /// as a key set only where the response is a success.
    pub fn refresh(&mut self, response: RefreshResponse, now: u64) -> (r: Result<
        (),
        RefreshError,
    >)
        ensures
            r == refresh_outcome(response.status, jwks_document(response.body@)),
            final(self).deep_view() == refreshed(
                old(self).deep_view(),
                response.status,
                match response.etag {
                    Some(value) => Some(value@),
                    None => None,
                },
                match response.last_modified {
                    Some(value) => Some(value@),
                    None => None,
                },
                jwks_document(response.body@),
                now,
            ),
            response.status == STATUS_NOT_MODIFIED ==> final(self).deep_view() == old(self).deep_view(),
            r is Err ==> final(self).deep_view() == old(self).deep_view(),
    {
        let RefreshResponse { status, etag, last_modified, body } = response;
        if status == STATUS_NOT_MODIFIED || status < 200 || status >= 300 {
            self.accept(status, etag, last_modified, None, now)
        } else {
            let parsed = parse_jwks(body.as_slice());
            self.accept(status, etag, last_modified, parsed, now)
        }
    }
}

/// `dashmap::DashMap`: a map that many tasks may read and change at once.
/// What a map of key sources holds is known through [`entries_of`].
#[verifier::external_type_specification]
#[verifier::external_body]
#[verifier::reject_recursive_types(K)]
#[verifier::reject_recursive_types(V)]
#[verifier::reject_recursive_types(S)]
pub struct ExDashMap<K, V, S>(dashmap::DashMap<K, V, S>);

/// The entries that a map of key sources holds: the state of each source by
/// its URI.
pub uninterp spec fn entries_of(states: DashMap<String, JwksState>) -> Map<Seq<char>, JwksStateView>;

/// No entries.
pub open spec fn no_entries() -> Map<Seq<char>, JwksStateView> {
    Map::empty()
}

/// `DashMap::new`: a map without entries.
#[verifier::external_body]
fn map_new() -> (r: DashMap<String, JwksState>)
    ensures
        entries_of(r) == no_entries(),
{
    DashMap::new()
}

/// `DashMap::get`: the value that the map holds for `uri`, handed out as a
/// copy.
#[verifier::external_body]
fn map_get(states: &DashMap<String, JwksState>, uri: &str) -> (r: Option<JwksState>)
    ensures
        match r {
            Some(state) => entries_of(*states).contains_key(uri@) && entries_of(*states)[uri@]
                == state.deep_view(),
            None => !entries_of(*states).contains_key(uri@),
        },
{
    match states.get(uri) {
        Some(entry) => Some(entry.value().clone()),
        None => None,
    }
}

/// `DashMap::insert`: sets the value for `uri`, in place of any that the map
/// held for it.
#[verifier::external_body]
fn map_insert(states: &mut DashMap<String, JwksState>, uri: String, state: JwksState)
    ensures
        entries_of(*final(states)) == entries_of(*old(states)).insert(uri@, state.deep_view()),
{
    states.insert(uri, state);
}

/// `DashMap::remove`: drops the value for `uri`, if the map holds one.
#[verifier::external_body]
fn map_remove(states: &mut DashMap<String, JwksState>, uri: &str)
    ensures
        entries_of(*final(states)) == entries_of(*old(states)).remove(uri@),
{
    states.remove(uri);
}

/// `DashMap::iter`, with `RefMulti::key`: the keys of the map, each once, in
/// the order in which the map is walked, which is not stated.
#[verifier::external_body]
fn map_keys(states: &DashMap<String, JwksState>) -> (r: Vec<String>)
    ensures
        r.deep_view().no_duplicates(),
        forall|uri: Seq<char>| r.deep_view().contains(uri) <==> entries_of(*states).contains_key(uri),
{
    states.iter().map(|entry| entry.key().clone()).collect()
}

/// The seconds for which a key source counts as new after a refresh.
pub const NEW_FOR_SECS: u64 = 3600;

/// Whether a key source counts as new at `now`: its keys were never fetched,
/// or less than an hour ago. Both times are in microseconds since the Unix
/// epoch.
pub open spec fn is_new(last_refresh: u64, now: u64) -> bool {
    last_refresh == 0 || now - last_refresh < NEW_FOR_SECS * 1_000_000
}

/// Whether a key source counts as new at `now`.
pub fn counts_as_new(last_refresh: u64, now: u64) -> (r: bool)
    ensures
        r == is_new(last_refresh, now),
{
    last_refresh == 0 || now < last_refresh || now - last_refresh < NEW_FOR_SECS * 1_000_000
}

/// The request that fetches the keys of the source at `uri` again, where
/// `state` is what is known of them: it is conditional on the entity tag and
/// on the modification date, as far as they are known.
pub open spec fn request_of(uri: Seq<char>, state: JwksStateView) -> RefreshRequestView {
    RefreshRequestView { uri, if_none_match: state.etag, if_modified_since: state.last_modified }
}

/// Whether every entry is held under the URI of its source.
pub open spec fn keyed_by_uri(entries: Map<Seq<char>, JwksStateView>) -> bool {
    forall|uri: Seq<char>| #[trigger] entries.contains_key(uri) ==> entries[uri].uri == uri
}

/// Whether a refresh takes in `state`: every source where `only_new` is
/// none, else those that count as new at that time.
pub open spec fn takes_in(state: JwksStateView, only_new: Option<u64>) -> bool {
    match only_new {
        Some(now) => is_new(state.last_refresh, now),
        None => true,
    }
}

/// Whether `requests` are the requests of a refresh of `entries`: one for
/// each source that the refresh takes in, and no others.
pub open spec fn is_refresh_of(
    requests: Seq<RefreshRequestView>,
    entries: Map<Seq<char>, JwksStateView>,
    only_new: Option<u64>,
) -> bool {
    &&& forall|i: int|
        0 <= i < requests.len() ==> {
            let uri = (#[trigger] requests[i]).uri;
            &&& entries.contains_key(uri)
            &&& takes_in(entries[uri], only_new)
            &&& requests[i] == request_of(uri, entries[uri])
        }
    &&& forall|i: int, j: int|
        0 <= i < j < requests.len() ==> (#[trigger] requests[i]).uri != (#[trigger] requests[j]).uri
    &&& forall|uri: Seq<char>|
        #[trigger] entries.contains_key(uri) && takes_in(entries[uri], only_new) ==> exists|i: int|
            0 <= i < requests.len() && (#[trigger] requests[i]).uri == uri
}

/// The key sources by their URIs. Sources with one URI share one entry.
#[derive(Debug)]
pub struct JwksStore {
    states: DashMap<String, JwksState>,
}

impl View for JwksStore {
    type V = Map<Seq<char>, JwksStateView>;

    closed spec fn view(&self) -> Map<Seq<char>, JwksStateView> {
        entries_of(self.states)
    }
}

impl JwksStore {
    /// A store without entries.
    pub fn new() -> (r: JwksStore)
        ensures
            r@ == no_entries(),
            keyed_by_uri(r@),
    {
        JwksStore { states: map_new() }
    }

    /// Makes sure that the store has an entry for `uri`: where it has none,
    /// it gets one whose keys were never fetched. Nothing else changes.
    pub fn ensure(&mut self, uri: &str)
        ensures
            final(self)@.dom() == old(self)@.dom().insert(uri@),
            forall|other: Seq<char>| #[trigger]
                old(self)@.contains_key(other) ==> final(self)@[other] == old(self)@[other],
            !old(self)@.contains_key(uri@) ==> JwksState::is_fresh(final(self)@[uri@], uri@),
            keyed_by_uri(old(self)@) ==> keyed_by_uri(final(self)@),
    {
        if map_get(&self.states, uri).is_none() {
            map_insert(&mut self.states, String::from_str(uri), JwksState::new(String::from_str(uri)));
            assert(self@.dom() =~= old(self)@.dom().insert(uri@));
        } else {
            assert(self@.dom() =~= old(self)@.dom().insert(uri@));
        }
    }

    /// The state of the source at `uri`, which gets an entry where it has
    /// none.
    pub fn get(&mut self, uri: &str) -> (r: JwksState)
        ensures
            final(self)@.dom() == old(self)@.dom().insert(uri@),
            forall|other: Seq<char>| #[trigger]
                old(self)@.contains_key(other) ==> final(self)@[other] == old(self)@[other],
            !old(self)@.contains_key(uri@) ==> JwksState::is_fresh(final(self)@[uri@], uri@),
            r.deep_view() == final(self)@[uri@],
            keyed_by_uri(old(self)@) ==> keyed_by_uri(final(self)@),
    {
        match map_get(&self.states, uri) {
            Some(state) => {
                assert(self@.dom() =~= old(self)@.dom().insert(uri@));
                state
            },
            None => {
                let state = JwksState::new(String::from_str(uri));
                let copy = state.copy();
                map_insert(&mut self.states, String::from_str(uri), state);
                assert(self@.dom() =~= old(self)@.dom().insert(uri@));
                copy
            },
        }
    }

    /// The state of the source at `uri`, if the store has an entry for it.
    pub fn lookup(&self, uri: &str) -> (r: Option<JwksState>)
        ensures
            match r {
                Some(state) => self@.contains_key(uri@) && state.deep_view() == self@[uri@],
                None => !self@.contains_key(uri@),
            },
    {
        map_get(&self.states, uri)
    }

    /// The URIs of all entries, each once, in no stated order.
    pub fn uris(&self) -> (r: Vec<String>)
        ensures
            r.deep_view().no_duplicates(),
            forall|uri: Seq<char>| r.deep_view().contains(uri) <==> self@.contains_key(uri),
    {
        map_keys(&self.states)
    }

    /// Drops the entry for `uri`.
    pub fn remove(&mut self, uri: &str)
        ensures
            final(self)@ == old(self)@.remove(uri@),
            keyed_by_uri(old(self)@) ==> keyed_by_uri(final(self)@),
    {
        map_remove(&mut self.states, uri);
    }

    fn requests(&self, only_new: Option<u64>) -> (r: Vec<RefreshRequest>)
        ensures
            is_refresh_of(r.deep_view(), self@, only_new),
    {
        let uris = map_keys(&self.states);
        let mut requests: Vec<RefreshRequest> = Vec::new();
        let ghost mut source: Seq<int> = Seq::empty();
        let mut i: usize = 0;
        while i < uris.len()
            invariant
                i <= uris.len(),
                uris.deep_view().no_duplicates(),
                forall|uri: Seq<char>|
                    uris.deep_view().contains(uri) <==> self@.contains_key(uri),
                source.len() == requests.len(),
                forall|m: int|
                    0 <= m < requests.len() ==> {
                        &&& 0 <= #[trigger] source[m] < i
                        &&& requests.deep_view()[m].uri == uris.deep_view()[source[m]]
                        &&& takes_in(self@[requests.deep_view()[m].uri], only_new)
                        &&& requests.deep_view()[m] == request_of(
                            requests.deep_view()[m].uri,
                            self@[requests.deep_view()[m].uri],
                        )
                    },
                forall|m: int, n: int|
                    0 <= m < n < requests.len() ==> #[trigger] source[m] < #[trigger] source[n],
                forall|k: int|
                    0 <= k < i && takes_in(self@[#[trigger] uris.deep_view()[k]], only_new)
                        ==> exists|m: int|
                        0 <= m < requests.len() && (#[trigger] requests.deep_view()[m]).uri
                            == uris.deep_view()[k],
            decreases uris.len() - i,
        {
            let uri = &uris[i];
            assert(uris.deep_view().contains(uris.deep_view()[i as int]));
            match map_get(&self.states, uri.as_str()) {
                Some(state) => {
                    let wanted = match only_new {
                        Some(now) => counts_as_new(state.last_refresh, now),
                        None => true,
                    };
                    if wanted {
                        let ghost before = requests;
                        let request = RefreshRequest {
                            uri: uri.clone(),
                            if_none_match: copy_bytes(&state.etag),
                            if_modified_since: copy_bytes(&state.last_modified),
                        };
                        requests.push(request);
                        proof {
                            lemma_push_deep_view(before, requests, request);
                            source = source.push(i as int);
                            assert(requests.deep_view()[requests.len() - 1].uri
                                == uris.deep_view()[i as int]);
                            assert forall|k: int|
                                0 <= k < i + 1 && takes_in(
                                    self@[#[trigger] uris.deep_view()[k]],
                                    only_new,
                                ) implies exists|m: int|
                                0 <= m < requests.len() && (#[trigger] requests.deep_view()[m]).uri
                                    == uris.deep_view()[k] by {
                                if k < i {
                                    let m = choose|m: int|
                                        0 <= m < before.len() && (#[trigger] before.deep_view()[m]).uri
                                            == uris.deep_view()[k];
                                    assert(requests.deep_view()[m].uri == uris.deep_view()[k]);
                                } else {
                                    assert(requests.deep_view()[requests.len() - 1].uri
                                        == uris.deep_view()[k]);
                                }
                            }
                        }
                    }
                },
                None => {},
            }
            i += 1;
        }
        proof {
            assert forall|m: int| 0 <= m < requests.len() implies {
                let uri = (#[trigger] requests.deep_view()[m]).uri;
                &&& self@.contains_key(uri)
                &&& takes_in(self@[uri], only_new)
                &&& requests.deep_view()[m] == request_of(uri, self@[uri])
            } by {
                let k = source[m];
                assert(uris.deep_view()[k] == requests.deep_view()[m].uri);
                assert(uris.deep_view().contains(requests.deep_view()[m].uri));
            }
            assert forall|m: int, n: int| 0 <= m < n < requests.len() implies (
            #[trigger] requests.deep_view()[m]).uri != (#[trigger] requests.deep_view()[n]).uri by {
                assert(source[m] < source[n]);
            }
            assert forall|uri: Seq<char>| #[trigger]
                self@.contains_key(uri) && takes_in(self@[uri], only_new) implies exists|m: int|
                0 <= m < requests.len() && (#[trigger] requests.deep_view()[m]).uri == uri by {
                assert(uris.deep_view().contains(uri));
                let k = choose|k: int| 0 <= k < uris.deep_view().len() && uris.deep_view()[k] == uri;
                assert(takes_in(self@[uris.deep_view()[k]], only_new));
            }
        }
        requests
    }

    /// The requests of a refresh of every source, in no stated order.
    pub fn refresh_all(&self) -> (r: Vec<RefreshRequest>)
        ensures
            is_refresh_of(r.deep_view(), self@, None),
    {
        self.requests(None)
    }

    /// The requests of a refresh of the sources that count as new at `now`,
    /// in no stated order.
    pub fn refresh_new(&self, now: u64) -> (r: Vec<RefreshRequest>)
        ensures
            is_refresh_of(r.deep_view(), self@, Some(now)),
    {
        self.requests(Some(now))
    }

    /// Ends the refresh of the source at `uri` with `response`, at the time
    /// `now`. No other entry changes, and a source without an entry gets
    /// none.
    pub fn complete(&mut self, uri: &str, response: RefreshResponse, now: u64) -> (r: Option<
        Result<(), RefreshError>,
    >)
        ensures
            !old(self)@.contains_key(uri@) ==> r is None && final(self)@ == old(self)@,
            old(self)@.contains_key(uri@) ==> {
                &&& r == Some(refresh_outcome(response.status, jwks_document(response.body@)))
                &&& final(self)@ == old(self)@.insert(
                    uri@,
                    refreshed(
                        old(self)@[uri@],
                        response.status,
                        match response.etag {
                            Some(value) => Some(value@),
                            None => None,
                        },
                        match response.last_modified {
                            Some(value) => Some(value@),
                            None => None,
                        },
                        jwks_document(response.body@),
                        now,
                    ),
                )
            },
            response.status == STATUS_NOT_MODIFIED ==> final(self)@ == old(self)@,
            keyed_by_uri(old(self)@) ==> keyed_by_uri(final(self)@),
    {
        match map_get(&self.states, uri) {
            Some(state) => {
                let mut state = state;
                let outcome = state.refresh(response, now);
                map_insert(&mut self.states, String::from_str(uri), state);
                assert(response.status == STATUS_NOT_MODIFIED ==> self@ =~= old(self)@);
                Some(outcome)
            },
            None => None,
        }
    }
}

} // verus!
