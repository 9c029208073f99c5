use vstd::prelude::*;
use vstd::seq_lib::lemma_seq_contains_after_push;

verus! {

/// The closed set of event categories a session can subscribe to.
#[derive(Clone, Copy, Debug, PartialEq, Eq, Structural, Hash)]
pub enum WebSocketSubscriptionType {
    Blocks,
    OwnBlocks,
    Transactions,
    OwnTransactions,
    Names,
    OwnNames,
    Motd,
}

/// A topic string that names none of the subscription types.
#[derive(Clone, Copy, Debug, PartialEq, Eq, Structural)]
pub struct UnrecognizedTopic;

/// The canonical text of a topic.
pub open spec fn topic_name(t: WebSocketSubscriptionType) -> Seq<char> {
    match t {
        WebSocketSubscriptionType::Blocks => "blocks"@,
        WebSocketSubscriptionType::OwnBlocks => "ownBlocks"@,
        WebSocketSubscriptionType::Transactions => "transactions"@,
        WebSocketSubscriptionType::OwnTransactions => "ownTransactions"@,
        WebSocketSubscriptionType::Names => "names"@,
        WebSocketSubscriptionType::OwnNames => "ownNames"@,
        WebSocketSubscriptionType::Motd => "motd"@,
    }
}

/// Whether some topic is written `s`.
pub open spec fn names_a_topic(s: Seq<char>) -> bool {
    exists|t: WebSocketSubscriptionType| topic_name(t) == s
}

/// Every topic, in declaration order.
pub open spec fn all_topics() -> Seq<WebSocketSubscriptionType> {
    seq![
        WebSocketSubscriptionType::Blocks,
        WebSocketSubscriptionType::OwnBlocks,
        WebSocketSubscriptionType::Transactions,
        WebSocketSubscriptionType::OwnTransactions,
        WebSocketSubscriptionType::Names,
        WebSocketSubscriptionType::OwnNames,
        WebSocketSubscriptionType::Motd,
    ]
}

/// The subscriptions a new session starts with.
pub open spec fn default_topics() -> Seq<WebSocketSubscriptionType> {
    seq![WebSocketSubscriptionType::OwnTransactions, WebSocketSubscriptionType::Blocks]
}

/// `s` with `t` added at the end, unless it is already there.
pub open spec fn with_topic(
    s: Seq<WebSocketSubscriptionType>,
    t: WebSocketSubscriptionType,
) -> Seq<WebSocketSubscriptionType> {
    if s.contains(t) {
        s
    } else {
        s.push(t)
    }
}

/// `s` with every occurrence of `t` taken out, the rest in order.
pub open spec fn without_topic(
    s: Seq<WebSocketSubscriptionType>,
    t: WebSocketSubscriptionType,
) -> Seq<WebSocketSubscriptionType>
    decreases s.len(),
{
    if s.len() == 0 {
        s
    } else {
        let rest = without_topic(s.drop_last(), t);
        if s.last() == t {
            rest
        } else {
            rest.push(s.last())
        }
    }
}

/// The texts of the topics of `s`, in the same order.
pub open spec fn topic_names(s: Seq<WebSocketSubscriptionType>) -> Seq<Seq<char>> {
    s.map_values(|t: WebSocketSubscriptionType| topic_name(t))
}

/// Distinct topics have distinct texts.
pub proof fn lemma_topic_name_injective(a: WebSocketSubscriptionType, b: WebSocketSubscriptionType)
    ensures
        topic_name(a) == topic_name(b) ==> a == b,
{
    reveal_strlit("blocks");
    reveal_strlit("ownBlocks");
    reveal_strlit("transactions");
    reveal_strlit("ownTransactions");
    reveal_strlit("names");
    reveal_strlit("ownNames");
    reveal_strlit("motd");
    if a != b {
        assert(topic_name(a).len() != topic_name(b).len());
    }
}

/// Whether two strings hold the same characters.
fn same_text(a: &str, b: &str) -> (r: bool)
    ensures
        r == (a@ == b@),
{
    let x = a.to_owned();
    let y = b.to_owned();
    x == y
}

impl WebSocketSubscriptionType {
    /// Reads a topic from its canonical text; any other text is refused.
    pub fn from_str(input: &str) -> (r: Result<Self, UnrecognizedTopic>)
        ensures
            match r {
                Ok(t) => topic_name(t) == input@,
                Err(_) => !names_a_topic(input@),
            },
    {
        if same_text(input, "blocks") {
            Ok(Self::Blocks)
        } else if same_text(input, "ownBlocks") {
            Ok(Self::OwnBlocks)
        } else if same_text(input, "transactions") {
            Ok(Self::Transactions)
        } else if same_text(input, "ownTransactions") {
            Ok(Self::OwnTransactions)
        } else if same_text(input, "names") {
            Ok(Self::Names)
        } else if same_text(input, "ownNames") {
            Ok(Self::OwnNames)
        } else if same_text(input, "motd") {
            Ok(Self::Motd)
        } else {
            assert forall|t: WebSocketSubscriptionType| topic_name(t) != input@ by {
                match t {
                    WebSocketSubscriptionType::Blocks => {},
                    WebSocketSubscriptionType::OwnBlocks => {},
                    WebSocketSubscriptionType::Transactions => {},
                    WebSocketSubscriptionType::OwnTransactions => {},
                    WebSocketSubscriptionType::Names => {},
                    WebSocketSubscriptionType::OwnNames => {},
                    WebSocketSubscriptionType::Motd => {},
                }
            }
            Err(UnrecognizedTopic)
        }
    }

    /// Whether `input` is the text of some topic.
    pub fn is_valid(input: &str) -> (r: bool)
        ensures
            r == names_a_topic(input@),
    {
        Self::from_str(input).is_ok()
    }

    /// The canonical text of this topic.
    pub fn into_string(&self) -> (r: String)
        ensures
            r@ == topic_name(*self),
    {
        match self {
            Self::Blocks => "blocks".to_owned(),
            Self::OwnBlocks => "ownBlocks".to_owned(),
            Self::Transactions => "transactions".to_owned(),
            Self::OwnTransactions => "ownTransactions".to_owned(),
            Self::Names => "names".to_owned(),
            Self::OwnNames => "ownNames".to_owned(),
            Self::Motd => "motd".to_owned(),
        }
    }
}

/// Whether `v` holds `t`.
pub(crate) fn contains_topic(v: &Vec<WebSocketSubscriptionType>, t: WebSocketSubscriptionType) -> (r: bool)
    ensures
        r == v@.contains(t),
{
    let mut i: usize = 0;
    while i < v.len()
        invariant
            0 <= i <= v@.len(),
            forall|j: int| 0 <= j < i ==> v@[j] != t,
        decreases v@.len() - i,
    {
        if v[i] == t {
            return true;
        }
        i = i + 1;
    }
    false
}

/// Rendering a topic and reading the text back gives the same topic.
pub proof fn lemma_topic_text_round_trip(t: WebSocketSubscriptionType)
    ensures
        names_a_topic(topic_name(t)),
        forall|u: WebSocketSubscriptionType| topic_name(u) == topic_name(t) ==> u == t,
{
    assert forall|u: WebSocketSubscriptionType| topic_name(u) == topic_name(t) implies u == t by {
        lemma_topic_name_injective(u, t);
    }
}

/// A list of topics in which none occurs twice.
#[derive(Clone, Debug)]
pub struct WebSocketSubscriptionList(Vec<WebSocketSubscriptionType>);

impl View for WebSocketSubscriptionList {
    type V = Seq<WebSocketSubscriptionType>;

    closed spec fn view(&self) -> Seq<WebSocketSubscriptionType> {
        self.0@
    }
}

impl WebSocketSubscriptionList {
    pub open spec fn wf(&self) -> bool {
        self@.no_duplicates()
    }

    /// The topics as a set.
    pub open spec fn topics(&self) -> Set<WebSocketSubscriptionType> {
        self@.to_set()
    }

    pub fn into_inner(self) -> (r: Vec<WebSocketSubscriptionType>)
        ensures
            r@ == self@,
    {
        self.0
    }

    pub fn inner(&self) -> (r: &[WebSocketSubscriptionType])
        ensures
            r@ == self@,
    {
        self.0.as_slice()
    }

    /// Every topic there is, each once.
    pub fn all_subscriptions() -> (r: Self)
        ensures
            r@ == all_topics(),
            r.wf(),
    {
        let r = Self(
            vec![
                WebSocketSubscriptionType::Blocks,
                WebSocketSubscriptionType::OwnBlocks,
                WebSocketSubscriptionType::Transactions,
                WebSocketSubscriptionType::OwnTransactions,
                WebSocketSubscriptionType::Names,
                WebSocketSubscriptionType::OwnNames,
                WebSocketSubscriptionType::Motd,
            ],
        );
        assert(r@ =~= all_topics());
        r
    }

    /// The number of topics held.
    pub fn len(&self) -> (r: usize)
        ensures
            r == self@.len(),
    {
        self.0.len()
    }

    pub fn contains(&self, t: WebSocketSubscriptionType) -> (r: bool)
        ensures
            r == self@.contains(t),
    {
        contains_topic(&self.0, t)
    }

    /// Adds `t` at the end unless it is already held.
    pub fn insert(&mut self, t: WebSocketSubscriptionType)
        requires
            old(self).wf(),
        ensures
            final(self)@ == with_topic(old(self)@, t),
            final(self).wf(),
            final(self).topics() == old(self).topics().insert(t),
    {
        if !self.contains(t) {
            proof {
                old(self)@.lemma_push_to_set_commute(t);
            }
            self.0.push(t);
        } else {
            assert(old(self).topics().contains(t));
        }
        assert(self.topics() =~= old(self).topics().insert(t));
    }

    /// Takes `t` out if it is held; the other topics keep their order.
    pub fn remove(&mut self, t: WebSocketSubscriptionType)
        requires
            old(self).wf(),
        ensures
            final(self)@ == without_topic(old(self)@, t),
            final(self).wf(),
            final(self).topics() == old(self).topics().remove(t),
    {
        let ghost s = self@;
        let mut kept: Vec<WebSocketSubscriptionType> = Vec::new();
        let mut i: usize = 0;
        while i < self.0.len()
            invariant
                self@ == s,
                0 <= i <= s.len(),
                kept@ == without_topic(s.take(i as int), t),
            decreases s.len() - i,
        {
            let x = self.0[i];
            assert(s.take(i as int + 1).drop_last() =~= s.take(i as int));
            if x != t {
                kept.push(x);
            }
            i = i + 1;
        }
        assert(s.take(s.len() as int) =~= s);
        self.0 = kept;
        proof {
            lemma_without_topic_no_duplicates(s, t);
            assert forall|y: WebSocketSubscriptionType|
                self@.contains(y) <==> (s.contains(y) && y != t) by {
                lemma_without_topic_contains(s, t, y);
            }
        }
        assert(self.topics() =~= old(self).topics().remove(t));
    }
}

proof fn lemma_without_topic_contains(
    s: Seq<WebSocketSubscriptionType>,
    t: WebSocketSubscriptionType,
    y: WebSocketSubscriptionType,
)
    ensures
        without_topic(s, t).contains(y) <==> (s.contains(y) && y != t),
    decreases s.len(),
{
    if s.len() > 0 {
        let p = s.drop_last();
        lemma_without_topic_contains(p, t, y);
        assert(p.push(s.last()) =~= s);
        lemma_seq_contains_after_push(p, s.last(), y);
        if s.last() != t {
            lemma_seq_contains_after_push(without_topic(p, t), s.last(), y);
        }
    }
}

proof fn lemma_without_topic_no_duplicates(
    s: Seq<WebSocketSubscriptionType>,
    t: WebSocketSubscriptionType,
)
    requires
        s.no_duplicates(),
    ensures
        without_topic(s, t).no_duplicates(),
    decreases s.len(),
{
    if s.len() > 0 {
        let p = s.drop_last();
        let x = s.last();
        assert(p.no_duplicates()) by {
            assert forall|a: int, b: int|
                0 <= a < p.len() && 0 <= b < p.len() && a != b implies p[a] != p[b] by {
                assert(p[a] == s[a] && p[b] == s[b]);
            }
        }
        lemma_without_topic_no_duplicates(p, t);
        if x != t {
            let r = without_topic(p, t);
            assert(!r.contains(x)) by {
                lemma_without_topic_contains(p, t, x);
                if p.contains(x) {
                    let j = choose|j: int| 0 <= j < p.len() && p[j] == x;
                    assert(s[j] == s[s.len() - 1]);
                }
            }
            assert forall|a: int, b: int|
                0 <= a < r.push(x).len() && 0 <= b < r.push(x).len() && a != b implies
                r.push(x)[a] != r.push(x)[b] by {
                if a < r.len() && b < r.len() {
                } else if a < r.len() {
                    assert(r.contains(r[a]));
                } else if b < r.len() {
                    assert(r.contains(r[b]));
                }
            }
        }
    }
}

impl Default for WebSocketSubscriptionList {
    /// The subscriptions a new session starts with.
    fn default() -> (r: Self)
        ensures
            r@ == default_topics(),
            r.wf(),
    {
        let r = Self(
            vec![WebSocketSubscriptionType::OwnTransactions, WebSocketSubscriptionType::Blocks],
        );
        assert(r@ =~= default_topics());
        r
    }
}

/// Subscribing twice has the effect of subscribing once, and unsubscribing
/// from a topic that is not held leaves the list as it was.
pub proof fn lemma_subscription_changes_idempotent(
    s: Seq<WebSocketSubscriptionType>,
    t: WebSocketSubscriptionType,
)
    ensures
        with_topic(with_topic(s, t), t) == with_topic(s, t),
        !s.contains(t) ==> without_topic(s, t) == s,
        without_topic(without_topic(s, t), t) == without_topic(s, t),
{
    assert(with_topic(s, t).contains(t)) by {
        if !s.contains(t) {
            assert(s.push(t)[s.len() as int] == t);
        }
    }
    lemma_without_topic_lacks(s, t);
    lemma_without_absent_topic(without_topic(s, t), t);
    if !s.contains(t) {
        lemma_without_absent_topic(s, t);
    }
}

proof fn lemma_without_topic_lacks(s: Seq<WebSocketSubscriptionType>, t: WebSocketSubscriptionType)
    ensures
        !without_topic(s, t).contains(t),
    decreases s.len(),
{
    if s.len() > 0 {
        lemma_without_topic_lacks(s.drop_last(), t);
        let rest = without_topic(s.drop_last(), t);
        if s.last() != t {
            lemma_seq_contains_after_push(rest, s.last(), t);
        }
    }
}

proof fn lemma_without_absent_topic(s: Seq<WebSocketSubscriptionType>, t: WebSocketSubscriptionType)
    requires
        !s.contains(t),
    ensures
        without_topic(s, t) == s,
    decreases s.len(),
{
    if s.len() > 0 {
        let p = s.drop_last();
        assert(!p.contains(t)) by {
            if p.contains(t) {
                let j = choose|j: int| 0 <= j < p.len() && p[j] == t;
                assert(s[j] == t);
            }
        }
        lemma_without_absent_topic(p, t);
        assert(s.last() != t) by {
            assert(s[s.len() - 1] == s.last());
        }
        assert(without_topic(s, t) == without_topic(p, t).push(s.last()));
        assert(p.push(s.last()) =~= s);
    }
}

/// The optional body of a handshake request.
#[derive(Clone, Debug, Default)]
pub struct WebSocketStartConnectionBody {
    pub private_key: Option<String>,
}

/// The answer to a handshake request.
#[derive(Clone, Debug)]
pub struct WebSocketStartResponse {
    pub ok: bool,
    pub url: String,
    pub expires: u16,
}

/// Credentials waiting for a connection to claim them.
#[derive(Clone, Debug)]
pub struct WebSocketTokenData {
    pub address: String,
    pub private_key: Option<String>,
}

impl WebSocketTokenData {
    pub fn new(address: String, private_key: Option<String>) -> (r: Self)
        ensures
            r.address == address,
            r.private_key == private_key,
    {
        Self { address, private_key }
    }
}

} // verus!
