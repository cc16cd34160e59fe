//! Remote collaboration: the configuration of the remote API, the registry
//! of connected event-stream clients, and what each stream is sent.

use vstd::prelude::*;
use crate::text::{
    chars_of, find_char, find_first, lemma_find_first_char, slice_chars, str_eq, strip_prefix,
    strip_prefix_chars, string_of, trim, trim_chars,
};

verus! {

/// The remote API's configuration as stored in the settings.
#[derive(Debug, Clone)]
pub struct RemoteConfig {
    pub enabled: bool,
    pub token: String,
}

impl Default for RemoteConfig {
    fn default() -> (r: Self)
        ensures
            !r.enabled,
            r.token@ == Seq::<char>::empty(),
    {
        RemoteConfig { enabled: false, token: String::new() }
    }
}

impl RemoteConfig {
    /// The configuration from the settings `remote.enabled` (on only for
    /// `true`) and `remote.token` (empty when unset).
    pub fn from_settings(enabled: Option<&str>, token: Option<String>) -> (r: Self)
        ensures
            r.enabled == (enabled matches Some(e) && e@ == "true"@),
            r.token@ == match token {
                Some(t) => t@,
                None => Seq::<char>::empty(),
            },
    {
        let on = match enabled {
            Some(e) => str_eq(e, "true"),
            None => false,
        };
        let t = match token {
            Some(t) => t,
            None => String::new(),
        };
        RemoteConfig { enabled: on, token: t }
    }
}

/// The answer of the remote API to a request's credentials.
#[derive(Debug, Clone, Copy, PartialEq, Eq, Structural)]
pub enum AuthDecision {
    /// Let the request through.
    Allow,
    /// The remote API is off (HTTP 403).
    Disabled,
    /// No token is configured (HTTP 401).
    NoToken,
    /// The bearer token does not match (HTTP 401).
    BadToken,
}

/// The token a request presents: what follows `Bearer ` in its
/// `Authorization` header, else nothing.
pub open spec fn presented_token(authorization: Option<Seq<char>>) -> Seq<char> {
    match authorization {
        Some(a) => match strip_prefix(a, "Bearer "@) {
            Some(t) => t,
            None => Seq::empty(),
        },
        None => Seq::empty(),
    }
}

/// The remote API's decision for a request with the given `Authorization`
/// header value (`None` when absent or not text).
pub fn authorize(cfg: &RemoteConfig, authorization: Option<&str>) -> (r: AuthDecision)
    ensures
        !cfg.enabled ==> r == AuthDecision::Disabled,
        cfg.enabled && cfg.token@.len() == 0 ==> r == AuthDecision::NoToken,
        cfg.enabled && cfg.token@.len() > 0 ==> (r == AuthDecision::Allow <==> presented_token(
            match authorization {
                Some(a) => Some(a@),
                None => None,
            },
        ) == cfg.token@),
        cfg.enabled && cfg.token@.len() > 0 ==> (r == AuthDecision::Allow || r == AuthDecision::BadToken),
{
    if !cfg.enabled {
        return AuthDecision::Disabled;
    }
    if cfg.token.unicode_len() == 0 {
        return AuthDecision::NoToken;
    }
    let provided = match authorization {
        Some(a) => match strip_prefix_chars(&chars_of(a), &chars_of("Bearer ")) {
            Some(t) => string_of(&t),
            None => String::new(),
        },
        None => String::new(),
    };
    if str_eq(provided.as_str(), cfg.token.as_str()) {
        AuthDecision::Allow
    } else {
        AuthDecision::BadToken
    }
}

/// A connected client.
#[derive(Debug, Clone)]
pub struct ClientInfo {
    pub id: String,
    pub ip: String,
    /// Unix time (seconds) of the connection.
    pub connected_at: i64,
}

pub struct ClientInfoView {
    pub id: Seq<char>,
    pub ip: Seq<char>,
    pub connected_at: i64,
}

impl View for ClientInfo {
    type V = ClientInfoView;

    open spec fn view(&self) -> ClientInfoView {
        ClientInfoView { id: self.id@, ip: self.ip@, connected_at: self.connected_at }
    }
}

pub open spec fn client_views(s: Seq<ClientInfo>) -> Seq<ClientInfoView> {
    s.map_values(|c: ClientInfo| c@)
}

/// Index of the client with id `id`, searching from `k`.
pub open spec fn index_of_id(s: Seq<ClientInfoView>, id: Seq<char>, k: int) -> Option<int>
    decreases s.len() - k,
{
    if k < 0 || k >= s.len() {
        None
    } else if s[k].id == id {
        Some(k)
    } else {
        index_of_id(s, id, k + 1)
    }
}

/// The client registered under `id`.
pub open spec fn lookup(s: Seq<ClientInfoView>, id: Seq<char>) -> Option<ClientInfoView> {
    match index_of_id(s, id, 0) {
        Some(i) => Some(s[i]),
        None => None,
    }
}

/// No id is registered twice.
pub open spec fn distinct_ids(s: Seq<ClientInfoView>) -> bool {
    forall|i: int, j: int| 0 <= i < s.len() && 0 <= j < s.len() && i != j ==> #[trigger] s[i].id != #[trigger] s[j].id
}

/// The registry after registering `c`: it replaces the client with its id,
/// or joins at the end.
pub open spec fn insert_client(s: Seq<ClientInfoView>, c: ClientInfoView) -> Seq<ClientInfoView> {
    match index_of_id(s, c.id, 0) {
        Some(i) => s.update(i, c),
        None => s.push(c),
    }
}

/// The registry after removing the client with id `id` (if any).
pub open spec fn remove_client(s: Seq<ClientInfoView>, id: Seq<char>) -> Seq<ClientInfoView> {
    match index_of_id(s, id, 0) {
        Some(i) => s.remove(i),
        None => s,
    }
}

pub proof fn lemma_index_of_id(s: Seq<ClientInfoView>, id: Seq<char>, k: int)
    requires
        0 <= k,
    ensures
        index_of_id(s, id, k) matches Some(i) ==> k <= i < s.len() && s[i].id == id,
        index_of_id(s, id, k) is None ==> forall|j: int| k <= j < s.len() ==> s[j].id != id,
    decreases s.len() - k,
{
    if k < s.len() && s[k].id != id {
        lemma_index_of_id(s, id, k + 1);
    }
}

/// The connected clients, in the order in which they registered.
pub struct RemoteClients {
    clients: Vec<ClientInfo>,
}

impl View for RemoteClients {
    type V = Seq<ClientInfoView>;

    closed spec fn view(&self) -> Seq<ClientInfoView> {
        client_views(self.clients@)
    }
}

impl RemoteClients {
    /// Well-formed: no id twice.
    pub open spec fn wf(&self) -> bool {
        distinct_ids(self@)
    }

    /// An empty registry.
    pub fn new() -> (r: Self)
        ensures
            r.wf(),
            r@ == Seq::<ClientInfoView>::empty(),
    {
        let r = RemoteClients { clients: Vec::new() };
        assert(r@ =~= Seq::<ClientInfoView>::empty());
        r
    }

    fn find(&self, id: &str) -> (r: Option<usize>)
        ensures
            match r {
                Some(i) => index_of_id(self@, id@, 0) == Some(i as int),
                None => index_of_id(self@, id@, 0) is None,
            },
    {
        let mut k: usize = 0;
        while k < self.clients.len()
            invariant
                k <= self.clients.len(),
                index_of_id(self@, id@, 0) == index_of_id(self@, id@, k as int),
            decreases self.clients.len() - k,
        {
            assert(self@[k as int] == self.clients@[k as int]@);
            if str_eq(self.clients[k].id.as_str(), id) {
                return Some(k);
            }
            k += 1;
        }
        None
    }

    /// Registers a client, replacing the one with the same id.
    pub fn insert(&mut self, info: ClientInfo)
        requires
            old(self).wf(),
        ensures
            final(self).wf(),
            final(self)@ == insert_client(old(self)@, info@),
    {
        let ghost s = self@;
        let ghost c = info@;
        proof {
            lemma_index_of_id(s, c.id, 0);
        }
        match self.find(info.id.as_str()) {
            Some(i) => {
                self.clients.set(i, info);
                assert(self@ =~= s.update(i as int, c));
            },
            None => {
                self.clients.push(info);
                assert(self@ =~= s.push(c));
            },
        }
    }

    /// Removes the client with id `id`, if registered.
    pub fn remove(&mut self, id: &str)
        requires
            old(self).wf(),
        ensures
            final(self).wf(),
            final(self)@ == remove_client(old(self)@, id@),
    {
        let ghost s = self@;
        proof {
            lemma_index_of_id(s, id@, 0);
        }
        match self.find(id) {
            Some(i) => {
                self.clients.remove(i);
                assert(self@ =~= s.remove(i as int));
                assert forall|a: int, b: int|
                    0 <= a < self@.len() && 0 <= b < self@.len() && a != b implies #[trigger] self@[a].id
                    != #[trigger] self@[b].id by {
                    let a0 = if a < i { a } else { a + 1 };
                    let b0 = if b < i { b } else { b + 1 };
                    assert(s[a0].id != s[b0].id);
                }
            },
            None => {},
        }
    }

    /// The connected clients.
    pub fn list(&self) -> (r: Vec<ClientInfo>)
        ensures
            client_views(r@) == self@,
    {
        let mut r: Vec<ClientInfo> = Vec::new();
        let mut k: usize = 0;
        while k < self.clients.len()
            invariant
                k <= self.clients.len(),
                client_views(r@) == self@.subrange(0, k as int),
            decreases self.clients.len() - k,
        {
            let c = &self.clients[k];
            let copy = ClientInfo { id: c.id.clone(), ip: c.ip.clone(), connected_at: c.connected_at };
            let ghost old_r = client_views(r@);
            r.push(copy);
            assert(client_views(r@) =~= old_r.push(self@[k as int]));
            assert(self@.subrange(0, k + 1) =~= self@.subrange(0, k as int).push(self@[k as int]));
            k += 1;
        }
        assert(self@.subrange(0, self@.len() as int) =~= self@);
        r
    }

    /// How many clients are connected.
    pub fn count(&self) -> (r: usize)
        ensures
            r == self@.len(),
    {
        self.clients.len()
    }
}

/// A client just registered is found under its id, with what it was
/// registered with; the others are found as before.
pub proof fn lemma_insert_then_lookup(s: Seq<ClientInfoView>, c: ClientInfoView, other: Seq<char>)
    requires
        distinct_ids(s),
        other != c.id,
    ensures
        lookup(insert_client(s, c), c.id) == Some(c),
        lookup(insert_client(s, c), other) == lookup(s, other),
        distinct_ids(insert_client(s, c)),
{
    let t = insert_client(s, c);
    lemma_index_of_id(s, c.id, 0);
    lemma_index_of_id(s, other, 0);
    lemma_index_of_id(t, c.id, 0);
    lemma_index_of_id(t, other, 0);
    match index_of_id(s, c.id, 0) {
        Some(i) => {
            assert(t[i] == c);
        },
        None => {
            assert(t[s.len() as int] == c);
        },
    }
    match index_of_id(t, other, 0) {
        Some(j) => {
            assert(t[j].id == other);
            assert(s[j].id == other);
        },
        None => {},
    }
    match index_of_id(s, other, 0) {
        Some(j) => {
            assert(t[j] == s[j]);
        },
        None => {},
    }
}

/// A removed client is no longer found; the others are found as before;
/// the registry shrinks by one exactly when the id was registered.
pub proof fn lemma_remove_then_lookup(s: Seq<ClientInfoView>, id: Seq<char>, other: Seq<char>)
    requires
        distinct_ids(s),
        other != id,
    ensures
        lookup(remove_client(s, id), id) is None,
        lookup(remove_client(s, id), other) == lookup(s, other),
        remove_client(s, id).len() == if lookup(s, id) is Some {
            s.len() - 1
        } else {
            s.len() as int
        },
{
    let t = remove_client(s, id);
    lemma_index_of_id(s, id, 0);
    lemma_index_of_id(s, other, 0);
    lemma_index_of_id(t, id, 0);
    lemma_index_of_id(t, other, 0);
    match index_of_id(s, id, 0) {
        Some(i) => {
            match index_of_id(t, id, 0) {
                Some(j) => {
                    let j0 = if j < i { j } else { j + 1 };
                    assert(s[j0].id == id);
                },
                None => {},
            }
            match index_of_id(t, other, 0) {
                Some(j) => {
                    let j0 = if j < i { j } else { j + 1 };
                    assert(s[j0] == t[j]);
                    match index_of_id(s, other, 0) {
                        Some(k) => {
                            assert(k == j0);
                        },
                        None => {},
                    }
                },
                None => {
                    match index_of_id(s, other, 0) {
                        Some(k) => {
                            let k1 = if k < i { k } else { k - 1 };
                            assert(t[k1] == s[k]);
                        },
                        None => {},
                    }
                },
            }
        },
        None => {},
    }
}

// ─── event streams ──────────────────────────────────────────────────────────

/// The text before the first comma (all of it when there is none).
pub open spec fn first_field(h: Seq<char>) -> Seq<char> {
    match find_first(h, seq![',']) {
        Some(i) => h.subrange(0, i),
        None => h,
    }
}

/// The address a stream client is listed under: the first address of its
/// `X-Forwarded-For` header, trimmed, when that is not empty; else the
/// address of the connection.
pub open spec fn client_address(forwarded: Option<Seq<char>>, peer: Seq<char>) -> Seq<char> {
    match forwarded {
        Some(h) => if trim(first_field(h)).len() > 0 { trim(first_field(h)) } else { peer },
        None => peer,
    }
}

/// The address of a new stream client.
pub fn client_ip(forwarded: Option<&str>, peer: &str) -> (r: String)
    ensures
        r@ == client_address(
            match forwarded {
                Some(h) => Some(h@),
                None => None,
            },
            peer@,
        ),
{
    match forwarded {
        Some(h) => {
            let hv = chars_of(h);
            proof {
                lemma_find_first_char(hv@, ',');
            }
            let first = match find_char(&hv, ',') {
                Some(i) => slice_chars(&hv, 0, i),
                None => hv,
            };
            let t = trim_chars(&first);
            if t.len() > 0 {
                string_of(&t)
            } else {
                String::from_str(peer)
            }
        },
        None => String::from_str(peer),
    }
}

} // verus!
