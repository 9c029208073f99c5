use vstd::prelude::*;
use vstd::string::StringExecFns;

use dashmap::DashMap;

use crate::models::{
    contains_topic, default_topics, with_topic, without_topic, WebSocketStartConnectionBody,
    WebSocketStartResponse, WebSocketSubscriptionList, WebSocketSubscriptionType,
    WebSocketTokenData,
};

verus! {

/// How long an issued token stays redeemable, in milliseconds.
pub const TOKEN_EXPIRATION_MS: u64 = 30000;

/// The lifetime of a token as announced to the client, in seconds.
pub const TOKEN_EXPIRATION_SECS: u16 = 30;

/// Where a client opens its connection; the token follows as the last segment.
pub const GATEWAY_URL: &'static str = "ws://127.0.0.1:8080/gateway/";

/// The identity given to a connection that presented no secret.
pub const GUEST_ADDRESS: &'static str = "guest";

/// The identity given to a connection that presented a secret, until the
/// secret is checked.
pub const PENDING_ADDRESS: &'static str = "dummyaddr";

#[verifier::external_type_specification]
#[verifier::external_body]
#[verifier::reject_recursive_types(K)]
#[verifier::reject_recursive_types(V)]
#[verifier::reject_recursive_types(S)]
pub struct ExDashMap<K, V, S>(DashMap<K, V, S>);

/// Credentials held for a connection that has not been opened yet.
#[derive(Clone, Debug)]
pub struct PendingToken {
    pub data: WebSocketTokenData,
    /// When the token was issued, in milliseconds of the caller's clock.
    pub issued_at: u64,
}

/// The record of one open connection.
#[derive(Clone, Debug)]
pub struct WebSocketSessionData {
    pub address: String,
    pub private_key: Option<String>,
    pub subscriptions: WebSocketSubscriptionList,
}

/// Why an upgrade request was turned down.
#[derive(Clone, Copy, Debug, PartialEq, Eq, Structural)]
pub enum UpgradeError {
    /// The token in the URL is not written as a UUID.
    MalformedToken,
    /// The token was never issued, was already used, or has expired.
    TokenNotFound,
}

/// A token that was never issued, was already used, or has expired.
#[derive(Clone, Copy, Debug, PartialEq, Eq, Structural)]
pub struct TokenNotFound;

/// What the pending-token map holds.
pub uninterp spec fn pending_entries(m: DashMap<u128, PendingToken>) -> Map<u128, PendingToken>;

/// What the session map holds.
pub uninterp spec fn session_entries(m: DashMap<u128, WebSocketSessionData>) -> Map<
    u128,
    WebSocketSessionData,
>;

/// The UUID that a text denotes, if it is written as one.
pub uninterp spec fn uuid_from_text(s: Seq<char>) -> Option<u128>;

/// The hyphenated lower-case text of a UUID.
pub uninterp spec fn uuid_text(u: u128) -> Seq<char>;

/// Relies on dashmap::DashMap::new: a new map is empty.
#[verifier::external_body]
fn new_token_map() -> (r: DashMap<u128, PendingToken>)
    ensures
        pending_entries(r).dom() == Set::<u128>::empty(),
{
    DashMap::new()
}

/// Relies on dashmap::DashMap::new: a new map is empty.
#[verifier::external_body]
fn new_session_map() -> (r: DashMap<u128, WebSocketSessionData>)
    ensures
        session_entries(r).dom() == Set::<u128>::empty(),
{
    DashMap::new()
}

/// Relies on dashmap::DashMap::insert: the key is bound to the value, any
/// earlier value is replaced.
#[verifier::external_body]
fn put_token(m: &mut DashMap<u128, PendingToken>, k: u128, v: PendingToken)
    ensures
        pending_entries(*final(m)) == pending_entries(*old(m)).insert(k, v),
{
    m.insert(k, v);
}

/// Relies on dashmap::DashMap::remove: the entry leaves the map and is
/// handed back, if there was one.
#[verifier::external_body]
fn take_token(m: &mut DashMap<u128, PendingToken>, k: u128) -> (r: Option<PendingToken>)
    ensures
        pending_entries(*final(m)) == pending_entries(*old(m)).remove(k),
        match r {
            Some(v) => pending_entries(*old(m)).contains_key(k) && v == pending_entries(
                *old(m),
            )[k],
            None => !pending_entries(*old(m)).contains_key(k),
        },
{
    m.remove(&k).map(|e| e.1)
}

/// Relies on dashmap::DashMap::insert: the key is bound to the value, any
/// earlier value is replaced.
#[verifier::external_body]
fn put_session(m: &mut DashMap<u128, WebSocketSessionData>, k: u128, v: WebSocketSessionData)
    ensures
        session_entries(*final(m)) == session_entries(*old(m)).insert(k, v),
{
    m.insert(k, v);
}

/// Relies on dashmap::DashMap::remove: the entry leaves the map and is
/// handed back, if there was one.
#[verifier::external_body]
fn take_session(m: &mut DashMap<u128, WebSocketSessionData>, k: u128) -> (r: Option<
    WebSocketSessionData,
>)
    ensures
        session_entries(*final(m)) == session_entries(*old(m)).remove(k),
        match r {
            Some(v) => session_entries(*old(m)).contains_key(k) && v == session_entries(
                *old(m),
            )[k],
            None => !session_entries(*old(m)).contains_key(k),
        },
{
    m.remove(&k).map(|e| e.1)
}

/// Relies on dashmap::DashMap::get: the entry of the key, if any, read in
/// place; its topics are copied out with slice::to_vec.
#[verifier::external_body]
fn read_topics(m: &DashMap<u128, WebSocketSessionData>, k: u128) -> (r: Option<
    Vec<WebSocketSubscriptionType>,
>)
    ensures
        match r {
            Some(v) => session_entries(*m).contains_key(k) && v@ == session_entries(
                *m,
            )[k].subscriptions@,
            None => !session_entries(*m).contains_key(k),
        },
{
    m.get(&k).map(|e| e.value().subscriptions.inner().to_vec())
}

/// Relies on dashmap::DashMap::get: the entry of the key, if any, read in
/// place; its identity and secret are copied out with String::clone.
#[verifier::external_body]
fn read_credentials(m: &DashMap<u128, WebSocketSessionData>, k: u128) -> (r: Option<
    WebSocketTokenData,
>)
    ensures
        match r {
            Some(d) => session_entries(*m).contains_key(k) && d.address == session_entries(
                *m,
            )[k].address && d.private_key == session_entries(*m)[k].private_key,
            None => !session_entries(*m).contains_key(k),
        },
{
    m.get(&k).map(|e| WebSocketTokenData::new(e.value().address.clone(), e.value().private_key.clone()))
}

/// Relies on dashmap::DashMap::iter: every entry is visited once.
#[verifier::external_body]
fn session_keys(m: &DashMap<u128, WebSocketSessionData>) -> (r: Vec<u128>)
    ensures
        r@.to_set() == session_entries(*m).dom(),
        r@.no_duplicates(),
{
    m.iter().map(|e| *e.key()).collect()
}

/// Relies on dashmap::DashMap::iter: every entry is visited once.
#[verifier::external_body]
fn token_keys(m: &DashMap<u128, PendingToken>) -> (r: Vec<u128>)
    ensures
        r@.to_set() == pending_entries(*m).dom(),
        r@.no_duplicates(),
{
    m.iter().map(|e| *e.key()).collect()
}

/// Relies on uuid::Uuid::new_v4: a random identifier, read as its 128 bits.
#[verifier::external_body]
fn random_uuid() -> (r: u128) {
    uuid::Uuid::new_v4().as_u128()
}

/// Relies on uuid::Uuid::parse_str (what `Uuid::from_str` calls): the UUID
/// that the text denotes, if it is written as one.
#[verifier::external_body]
fn parse_uuid(s: &str) -> (r: Option<u128>)
    ensures
        r == uuid_from_text(s@),
{
    uuid::Uuid::parse_str(s).ok().map(|u| u.as_u128())
}

/// Relies on the `Display` of uuid::Uuid: the hyphenated lower-case form,
/// which uuid::Uuid::parse_str reads back as the same UUID.
#[verifier::external_body]
fn format_uuid(u: u128) -> (r: String)
    ensures
        r@ == uuid_text(u),
        uuid_from_text(r@) == Some(u),
{
    uuid::Uuid::from_u128(u).to_string()
}

/// Whether a token issued at `issued_at` may still be redeemed at `now`.
pub open spec fn token_live(issued_at: u64, now: u64) -> bool {
    (now as int) < issued_at as int + TOKEN_EXPIRATION_MS as int
}

/// What redeeming `id` at `now` hands back, given the pending tokens.
pub open spec fn redeem_result(tokens: Map<u128, PendingToken>, id: u128, now: u64) -> Option<
    WebSocketTokenData,
> {
    if tokens.contains_key(id) && token_live(tokens[id].issued_at, now) {
        Some(tokens[id].data)
    } else {
        None
    }
}

/// The pending token that issuing `data` at `now` stores.
pub open spec fn issued(data: WebSocketTokenData, now: u64) -> PendingToken {
    PendingToken { data, issued_at: now }
}

/// The credentials a handshake body asks for.
pub open spec fn requested_credentials(details: Option<WebSocketStartConnectionBody>) -> (
    Seq<char>,
    Option<String>,
) {
    match details {
        Some(body) => match body.private_key {
            Some(k) => (PENDING_ADDRESS@, Some(k)),
            None => (GUEST_ADDRESS@, None),
        },
        None => (GUEST_ADDRESS@, None),
    }
}

/// `after` is `before` with the session `id` opened for `data`.
pub open spec fn opened(
    before: Map<u128, WebSocketSessionData>,
    after: Map<u128, WebSocketSessionData>,
    id: u128,
    data: WebSocketTokenData,
) -> bool {
    &&& after.dom() == before.dom().insert(id)
    &&& forall|k: u128| k != id && before.contains_key(k) ==> after[k] == before[k]
    &&& after[id].address == data.address
    &&& after[id].private_key == data.private_key
    &&& after[id].subscriptions@ == default_topics()
}

/// `after` is `before` with the topics of session `id`, if it exists, set to
/// `topics`, and nothing else changed.
pub open spec fn retopiced(
    before: Map<u128, WebSocketSessionData>,
    after: Map<u128, WebSocketSessionData>,
    id: u128,
    topics: Seq<WebSocketSubscriptionType>,
) -> bool {
    &&& after.dom() == before.dom()
    &&& forall|k: u128| k != id && before.contains_key(k) ==> after[k] == before[k]
    &&& before.contains_key(id) ==> {
        &&& after[id].address == before[id].address
        &&& after[id].private_key == before[id].private_key
        &&& after[id].subscriptions@ == topics
    }
}

/// The broker: the tokens waiting to be redeemed, and the open sessions.
pub struct WebSocketServer {
    sessions: DashMap<u128, WebSocketSessionData>,
    pending_tokens: DashMap<u128, PendingToken>,
}

impl WebSocketServer {
    /// The pending tokens, by token identifier.
    pub closed spec fn tokens(&self) -> Map<u128, PendingToken> {
        pending_entries(self.pending_tokens)
    }

    /// The open sessions, by connection identifier.
    pub closed spec fn sessions(&self) -> Map<u128, WebSocketSessionData> {
        session_entries(self.sessions)
    }

    /// Every session's topic list holds no topic twice.
    pub open spec fn wf(&self) -> bool {
        forall|k: u128| #[trigger]
            self.sessions().contains_key(k) ==> self.sessions()[k].subscriptions.wf()
    }

    pub fn new() -> (r: Self)
        ensures
            r.tokens().dom() == Set::<u128>::empty(),
            r.sessions().dom() == Set::<u128>::empty(),
            r.wf(),
    {
        Self { sessions: new_session_map(), pending_tokens: new_token_map() }
    }

    /// Opens the session `id` for the given credentials, subscribed to the
    /// default topics. An existing session under `id` is replaced.
    pub fn insert_session(&mut self, id: u128, data: WebSocketTokenData)
        requires
            old(self).wf(),
        ensures
            final(self).wf(),
            opened(old(self).sessions(), final(self).sessions(), id, data),
            final(self).tokens() == old(self).tokens(),
    {
        let record = WebSocketSessionData {
            address: data.address,
            private_key: data.private_key,
            subscriptions: WebSocketSubscriptionList::default(),
        };
        put_session(&mut self.sessions, id, record);
    }

    /// Closes the session `id`; nothing happens if there is none.
    pub fn cleanup_session(&mut self, id: u128)
        requires
            old(self).wf(),
        ensures
            final(self).wf(),
            final(self).sessions() == old(self).sessions().remove(id),
            final(self).tokens() == old(self).tokens(),
    {
        let _ = take_session(&mut self.sessions, id);
    }

    /// Stores `data` under the token `id`, issued at `now`.
    pub fn issue_token(&mut self, id: u128, data: WebSocketTokenData, now: u64)
        requires
            old(self).wf(),
        ensures
            final(self).wf(),
            final(self).tokens() == old(self).tokens().insert(id, issued(data, now)),
            final(self).sessions() == old(self).sessions(),
    {
        put_token(&mut self.pending_tokens, id, PendingToken { data, issued_at: now });
    }

    /// Whether `id` names neither a pending token nor an open session.
    pub open spec fn unused_id(&self, id: u128) -> bool {
        !self.tokens().contains_key(id) && !self.sessions().contains_key(id)
    }

    /// An identifier that names neither a pending token nor an open session:
    /// `draw` itself when it is unused, else the first unused one among the
    /// identifiers that follow it (or precede it, near the top of the range).
    pub fn fresh_id_from(&self, draw: u128) -> (r: u128)
        ensures
            self.unused_id(r),
            self.unused_id(draw) ==> r == draw,
    {
        let tk = token_keys(&self.pending_tokens);
        let sk = session_keys(&self.sessions);
        let span: u128 = tk.len() as u128 + sk.len() as u128;
        if !contains_id(&tk, draw) && !contains_id(&sk, draw) {
            return draw;
        }
        assert(!self.unused_id(draw)) by {
            if tk@.contains(draw) {
                assert(tk@.to_set().contains(draw));
            } else {
                assert(sk@.to_set().contains(draw));
            }
        }
        let base: u128 = if draw <= u128::MAX - span {
            draw
        } else {
            draw - span
        };
        let mut k: u128 = 0;
        loop
            invariant
                k <= span,
                base as int + span as int <= u128::MAX as int,
                span == tk@.len() + sk@.len(),
                tk@.contains(draw) || sk@.contains(draw),
                tk@.to_set() == self.tokens().dom(),
                sk@.to_set() == self.sessions().dom(),
                forall|j: int|
                    0 <= j < k ==> #[trigger] tk@.to_set().union(sk@.to_set()).contains(
                        (base + j) as u128,
                    ),
            decreases span - k,
        {
            let c = base + k;
            if !contains_id(&tk, c) && !contains_id(&sk, c) {
                return c;
            }
            assert(tk@.to_set().union(sk@.to_set()).contains((base + k) as u128));
            if k == span {
                proof {
                    lemma_range_has_unused(tk@, sk@, base as int, (span + 1) as nat);
                    assert(false);
                }
                return c;
            }
            k = k + 1;
        }
    }

    /// Stores `data` under a new token, drawn at random and unused by any
    /// pending token or open session, issued at `now`; returns the token.
    pub fn obtain_token(&mut self, data: WebSocketTokenData, now: u64) -> (r: u128)
        requires
            old(self).wf(),
        ensures
            final(self).wf(),
            old(self).unused_id(r),
            final(self).tokens() == old(self).tokens().insert(r, issued(data, now)),
            final(self).sessions() == old(self).sessions(),
    {
        let draw = random_uuid();
        let id = self.fresh_id_from(draw);
        self.issue_token(id, data, now);
        id
    }

    /// Redeems the token `id` at `now`. The token leaves the store whatever
    /// the outcome; its credentials come back only if it was still live.
    pub fn use_token(&mut self, id: u128, now: u64) -> (r: Result<
        WebSocketTokenData,
        TokenNotFound,
    >)
        requires
            old(self).wf(),
        ensures
            final(self).wf(),
            final(self).tokens() == old(self).tokens().remove(id),
            final(self).sessions() == old(self).sessions(),
            match r {
                Ok(d) => redeem_result(old(self).tokens(), id, now) == Some(d),
                Err(_) => redeem_result(old(self).tokens(), id, now) is None,
            },
    {
        match take_token(&mut self.pending_tokens, id) {
            Some(p) => {
                if now < p.issued_at || now - p.issued_at < TOKEN_EXPIRATION_MS {
                    Ok(p.data)
                } else {
                    Err(TokenNotFound)
                }
            },
            None => Err(TokenNotFound),
        }
    }

    /// Drops the token `id` if it is still pending and has expired at `now`.
    pub fn expire_token(&mut self, id: u128, now: u64)
        requires
            old(self).wf(),
        ensures
            final(self).wf(),
            final(self).sessions() == old(self).sessions(),
            final(self).tokens() == if old(self).tokens().contains_key(id) && !token_live(
                old(self).tokens()[id].issued_at,
                now,
            ) {
                old(self).tokens().remove(id)
            } else {
                old(self).tokens()
            },
    {
        match take_token(&mut self.pending_tokens, id) {
            Some(p) => {
                if now < p.issued_at || now - p.issued_at < TOKEN_EXPIRATION_MS {
                    put_token(&mut self.pending_tokens, id, p);
                    assert(self.tokens() =~= old(self).tokens());
                }
            },
            None => {
                assert(self.tokens() =~= old(self).tokens());
            },
        }
    }

    /// Adds `event` to the topics of session `id`; nothing happens if there
    /// is no such session.
    pub fn subscribe_to_event(&mut self, id: u128, event: WebSocketSubscriptionType)
        requires
            old(self).wf(),
        ensures
            final(self).wf(),
            final(self).tokens() == old(self).tokens(),
            retopiced(
                old(self).sessions(),
                final(self).sessions(),
                id,
                with_topic(old(self).sessions()[id].subscriptions@, event),
            ),
    {
        match take_session(&mut self.sessions, id) {
            Some(mut record) => {
                record.subscriptions.insert(event);
                put_session(&mut self.sessions, id, record);
            },
            None => {
                assert(self.sessions() =~= old(self).sessions());
            },
        }
    }

    /// Takes `event` out of the topics of session `id`; nothing happens if
    /// there is no such session.
    pub fn unsubscribe_from_event(&mut self, id: u128, event: WebSocketSubscriptionType)
        requires
            old(self).wf(),
        ensures
            final(self).wf(),
            final(self).tokens() == old(self).tokens(),
            retopiced(
                old(self).sessions(),
                final(self).sessions(),
                id,
                without_topic(old(self).sessions()[id].subscriptions@, event),
            ),
    {
        match take_session(&mut self.sessions, id) {
            Some(mut record) => {
                record.subscriptions.remove(event);
                put_session(&mut self.sessions, id, record);
            },
            None => {
                assert(self.sessions() =~= old(self).sessions());
            },
        }
    }

    /// The topics of session `id`, or none if there is no such session.
    pub fn get_subscription_list(&self, id: u128) -> (r: Vec<WebSocketSubscriptionType>)
        ensures
            r@ == if self.sessions().contains_key(id) {
                self.sessions()[id].subscriptions@
            } else {
                Seq::empty()
            },
    {
        match read_topics(&self.sessions, id) {
            Some(v) => v,
            None => Vec::new(),
        }
    }

    /// The identity and secret of session `id`, or none if it is not open.
    pub fn session_credentials(&self, id: u128) -> (r: Option<WebSocketTokenData>)
        ensures
            match r {
                Some(d) => self.sessions().contains_key(id) && d.address == self.sessions()[
                    id
                ].address && d.private_key == self.sessions()[id].private_key,
                None => !self.sessions().contains_key(id),
            },
    {
        read_credentials(&self.sessions, id)
    }

    /// The connections a broadcast goes to: every open session, once each.
    pub fn broadcast_targets(&self) -> (r: Vec<u128>)
        ensures
            r@.to_set() == self.sessions().dom(),
            r@.no_duplicates(),
    {
        session_keys(&self.sessions)
    }

    /// The connections an event of `topic` goes to: the open sessions that
    /// subscribe to it, once each.
    pub fn publish_targets(&self, topic: WebSocketSubscriptionType) -> (r: Vec<u128>)
        ensures
            r@.no_duplicates(),
            forall|k: u128|
                r@.contains(k) <==> (self.sessions().contains_key(k)
                    && self.sessions()[k].subscriptions@.contains(topic)),
    {
        let ids = session_keys(&self.sessions);
        let mut out: Vec<u128> = Vec::new();
        let mut i: usize = 0;
        while i < ids.len()
            invariant
                0 <= i <= ids@.len(),
                ids@.to_set() == self.sessions().dom(),
                ids@.no_duplicates(),
                out@.no_duplicates(),
                forall|k: u128|
                    out@.contains(k) <==> (ids@.take(i as int).contains(k)
                        && self.sessions()[k].subscriptions@.contains(topic)),
            decreases ids@.len() - i,
        {
            let id = ids[i];
            let ghost before = out@;
            let topics = read_topics(&self.sessions, id);
            proof {
                let prev = ids@.take(i as int);
                let next = ids@.take(i as int + 1);
                assert(!prev.contains(id)) by {
                    if prev.contains(id) {
                        let j = choose|j: int| 0 <= j < prev.len() && prev[j] == id;
                        assert(ids@[j] == ids@[i as int]);
                    }
                }
                assert forall|k: u128| next.contains(k) <==> (prev.contains(k) || k == id) by {
                    if next.contains(k) {
                        let j = choose|j: int| 0 <= j < next.len() && next[j] == k;
                        if j < i {
                            assert(prev[j] == k);
                        }
                    }
                    if prev.contains(k) {
                        let j = choose|j: int| 0 <= j < prev.len() && prev[j] == k;
                        assert(next[j] == k);
                    }
                    if k == id {
                        assert(next[i as int] == k);
                    }
                }
                assert(ids@.to_set().contains(id));
            }
            match topics {
                Some(v) => {
                    if contains_topic(&v, topic) {
                        out.push(id);
                        proof {
                            assert forall|k: u128|
                                out@.contains(k) <==> (before.contains(k) || k == id) by {
                                vstd::seq_lib::lemma_seq_contains_after_push(before, id, k);
                            }
                            assert forall|a: int, b: int|
                                0 <= a < out@.len() && 0 <= b < out@.len() && a != b implies
                                out@[a] != out@[b] by {
                                if a < before.len() && b < before.len() {
                                    assert(out@[a] == before[a] && out@[b] == before[b]);
                                } else if a < before.len() {
                                    assert(before.contains(out@[a]));
                                } else if b < before.len() {
                                    assert(before.contains(out@[b]));
                                }
                            }
                        }
                    }
                },
                None => {},
            }
            proof {
                let next = ids@.take(i as int + 1);
                let prev = ids@.take(i as int);
                assert forall|k: u128|
                    out@.contains(k) <==> (next.contains(k)
                        && self.sessions()[k].subscriptions@.contains(topic)) by {
                    assert(before.contains(k) <==> (prev.contains(k)
                        && self.sessions()[k].subscriptions@.contains(topic)));
                }
            }
            i = i + 1;
            assert(ids@.take(i as int) == ids@.take(i as int - 1 + 1));
        }
        assert(ids@.take(ids@.len() as int) =~= ids@);
        proof {
            assert forall|k: u128|
                out@.contains(k) <==> (self.sessions().contains_key(k)
                    && self.sessions()[k].subscriptions@.contains(topic)) by {
                assert(ids@.contains(k) <==> ids@.to_set().contains(k));
            }
        }
        out
    }
}

/// Whether `v` holds `x`.
fn contains_id(v: &Vec<u128>, x: u128) -> (r: bool)
    ensures
        r == v@.contains(x),
{
    let mut i: usize = 0;
    while i < v.len()
        invariant
            0 <= i <= v@.len(),
            forall|j: int| 0 <= j < i ==> v@[j] != x,
        decreases v@.len() - i,
    {
        if v[i] == x {
            return true;
        }
        i = i + 1;
    }
    false
}

/// Among `count` consecutive identifiers from `base`, some one is a key of
/// neither of two lists whose lengths add up to less than `count`.
proof fn lemma_range_has_unused(a: Seq<u128>, b: Seq<u128>, base: int, count: nat)
    requires
        count > a.len() + b.len(),
        0 <= base,
        base + count - 1 <= u128::MAX,
    ensures
        exists|j: int|
            0 <= j < count && !#[trigger] a.to_set().union(b.to_set()).contains(
                (base + j) as u128,
            ),
{
    let keys = a.to_set().union(b.to_set());
    if forall|j: int| 0 <= j < count ==> #[trigger] keys.contains((base + j) as u128) {
        let tried = Seq::new(count, |j: int| (base + j) as u128);
        assert(tried.no_duplicates()) by {
            assert forall|i: int, j: int|
                0 <= i < tried.len() && 0 <= j < tried.len() && i != j implies tried[i]
                != tried[j] by {}
        }
        tried.unique_seq_to_set();
        assert(tried.to_set().subset_of(keys)) by {
            assert forall|x: u128| tried.to_set().contains(x) implies keys.contains(x) by {
                let j = choose|j: int| 0 <= j < tried.len() && tried[j] == x;
                assert(keys.contains((base + j) as u128));
            }
        }
        vstd::seq_lib::seq_to_set_is_finite(a);
        vstd::seq_lib::seq_to_set_is_finite(b);
        vstd::set_lib::lemma_len_union(a.to_set(), b.to_set());
        vstd::set_lib::lemma_len_subset(tried.to_set(), keys);
        a.lemma_cardinality_of_set();
        b.lemma_cardinality_of_set();
    }
}

/// The credentials a handshake asks for: a secret makes a pending
/// authenticated identity, no secret (or no body) a guest.
pub fn token_data_for(details: Option<WebSocketStartConnectionBody>) -> (r: WebSocketTokenData)
    ensures
        r.address@ == requested_credentials(details).0,
        r.private_key == requested_credentials(details).1,
{
    match details {
        Some(body) => match body.private_key {
            Some(k) => WebSocketTokenData::new(PENDING_ADDRESS.to_owned(), Some(k)),
            None => WebSocketTokenData::new(GUEST_ADDRESS.to_owned(), None),
        },
        None => WebSocketTokenData::new(GUEST_ADDRESS.to_owned(), None),
    }
}

/// The answer to a handshake that was given `token`.
pub fn start_response(token: u128) -> (r: WebSocketStartResponse)
    ensures
        r.ok,
        r.url@ == GATEWAY_URL@ + uuid_text(token),
        uuid_from_text(uuid_text(token)) == Some(token),
        r.expires == TOKEN_EXPIRATION_SECS,
{
    let mut url = GATEWAY_URL.to_owned();
    let text = format_uuid(token);
    url.append(text.as_str());
    WebSocketStartResponse { ok: true, url, expires: TOKEN_EXPIRATION_SECS }
}

/// Handles a handshake at `now`: issues a token for the credentials the body
/// asks for, and returns the token with the answer that carries its URL.
pub fn start_ws(
    server: &mut WebSocketServer,
    details: Option<WebSocketStartConnectionBody>,
    now: u64,
) -> (r: (u128, WebSocketStartResponse))
    requires
        old(server).wf(),
    ensures
        final(server).wf(),
        final(server).sessions() == old(server).sessions(),
        old(server).unused_id(r.0),
        final(server).tokens().contains_key(r.0),
        final(server).tokens() == old(server).tokens().insert(r.0, final(server).tokens()[r.0]),
        final(server).tokens()[r.0].issued_at == now,
        final(server).tokens()[r.0].data.address@ == requested_credentials(details).0,
        final(server).tokens()[r.0].data.private_key == requested_credentials(details).1,
        r.1.url@ == GATEWAY_URL@ + uuid_text(r.0),
        uuid_from_text(uuid_text(r.0)) == Some(r.0),
        r.1.ok,
        r.1.expires == TOKEN_EXPIRATION_SECS,
{
    let data = token_data_for(details);
    let token = server.obtain_token(data, now);
    (token, start_response(token))
}

/// What an upgrade presenting the parsed token `parsed` at `now` yields:
/// the credentials of the token, or why the upgrade is refused.
pub open spec fn upgrade_outcome(
    tokens: Map<u128, PendingToken>,
    parsed: Option<u128>,
    now: u64,
) -> Result<WebSocketTokenData, UpgradeError> {
    match parsed {
        None => Err(UpgradeError::MalformedToken),
        Some(id) => match redeem_result(tokens, id, now) {
            Some(d) => Ok(d),
            None => Err(UpgradeError::TokenNotFound),
        },
    }
}

/// Handles an upgrade whose token text parsed to `parsed`, at `now`: the
/// token is redeemed and, if it was live, the session `connection` is opened
/// with its credentials. A refused upgrade opens nothing.
pub fn open_session_with(
    server: &mut WebSocketServer,
    parsed: Option<u128>,
    connection: u128,
    now: u64,
) -> (r: Result<u128, UpgradeError>)
    requires
        old(server).wf(),
    ensures
        final(server).wf(),
        final(server).tokens() == match parsed {
            Some(id) => old(server).tokens().remove(id),
            None => old(server).tokens(),
        },
        match upgrade_outcome(old(server).tokens(), parsed, now) {
            Ok(d) => r == Ok::<u128, UpgradeError>(connection) && opened(
                old(server).sessions(),
                final(server).sessions(),
                connection,
                d,
            ),
            Err(e) => r == Err::<u128, UpgradeError>(e) && final(server).sessions() == old(
                server,
            ).sessions(),
        },
{
    match parsed {
        None => Err(UpgradeError::MalformedToken),
        Some(id) => match server.use_token(id, now) {
            Ok(data) => {
                server.insert_session(connection, data);
                Ok(connection)
            },
            Err(_) => Err(UpgradeError::TokenNotFound),
        },
    }
}

/// Handles an upgrade presenting the token text `token` at `now`; a session
/// opened for it gets a connection identifier drawn at random and unused by
/// any pending token or open session, so never the token itself; it is
/// returned.
pub fn open_session(server: &mut WebSocketServer, token: &str, now: u64) -> (r: Result<
    u128,
    UpgradeError,
>)
    requires
        old(server).wf(),
    ensures
        final(server).wf(),
        final(server).tokens() == match uuid_from_text(token@) {
            Some(id) => old(server).tokens().remove(id),
            None => old(server).tokens(),
        },
        match upgrade_outcome(old(server).tokens(), uuid_from_text(token@), now) {
            Ok(d) => match r {
                Ok(c) => {
                    &&& opened(old(server).sessions(), final(server).sessions(), c, d)
                    &&& old(server).unused_id(c)
                    &&& uuid_from_text(token@) != Some(c)
                },
                Err(_) => false,
            },
            Err(e) => r == Err::<u128, UpgradeError>(e) && final(server).sessions() == old(
                server,
            ).sessions(),
        },
{
    let parsed = parse_uuid(token);
    let connection = server.fresh_id_from(random_uuid());
    open_session_with(server, parsed, connection, now)
}

/// A token is redeemed at most once: once a redemption has taken it out of
/// the store, a second one finds nothing, whenever it comes.
pub proof fn lemma_token_redeemed_at_most_once(
    tokens: Map<u128, PendingToken>,
    id: u128,
    later: u64,
)
    ensures
        redeem_result(tokens.remove(id), id, later) is None,
{
}

/// A token that was not redeemed within its lifetime cannot be redeemed any
/// more, from the first millisecond after it on.
pub proof fn lemma_expired_token_unredeemable(
    tokens: Map<u128, PendingToken>,
    id: u128,
    data: WebSocketTokenData,
    issued_at: u64,
    now: u64,
)
    requires
        now as int >= issued_at as int + TOKEN_EXPIRATION_MS as int,
    ensures
        redeem_result(tokens.insert(id, issued(data, issued_at)), id, now) is None,
{
}

/// An upgrade that presents a token after its lifetime is refused as an
/// unknown token, so no session is opened for it.
pub proof fn lemma_expired_upgrade_refused(
    tokens: Map<u128, PendingToken>,
    id: u128,
    data: WebSocketTokenData,
    issued_at: u64,
    now: u64,
)
    requires
        now as int >= issued_at as int + TOKEN_EXPIRATION_MS as int,
    ensures
        upgrade_outcome(tokens.insert(id, issued(data, issued_at)), Some(id), now) == Err::<
            WebSocketTokenData,
            UpgradeError,
        >(UpgradeError::TokenNotFound),
{
    lemma_expired_token_unredeemable(tokens, id, data, issued_at, now);
}

} // verus!
