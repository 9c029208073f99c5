use vstd::prelude::*;

use crate::broker::{retopiced, WebSocketServer};
use crate::messages::{kind_name, texts, WebSocketMessage, WebSocketMessageInner, WebSocketMessageResponse};
use crate::models::{
    all_topics, lemma_topic_name_injective, names_a_topic, topic_name, topic_names, with_topic,
    without_topic, WebSocketSubscriptionList, WebSocketSubscriptionType,
};

verus! {

/// The work (difficulty) reported to clients.
pub const WORK: usize = 69420;

/// What the connection does with an inbound message.
#[derive(Debug)]
pub enum Dispatch {
    /// Send this message back to the client.
    Reply(WebSocketMessage),
    /// Hand the message to the domain service, which answers it.
    Delegate(WebSocketMessage),
    /// Send nothing: the message is one only the server sends.
    Ignore,
}

/// `m` answers the request numbered `id` of kind `to`, with outcome `ok`,
/// and carries `payload`.
pub open spec fn is_reply(
    m: WebSocketMessage,
    id: Option<usize>,
    ok: bool,
    to: Seq<char>,
    payload: spec_fn(WebSocketMessageResponse) -> bool,
) -> bool {
    &&& m.ok == Some(ok)
    &&& m.id == id
    &&& match m.kind {
        WebSocketMessageInner::Response { responding_to, data } => responding_to@ == to
            && payload(data),
        _ => false,
    }
}

/// A work payload with the reported work.
pub open spec fn work_payload(d: WebSocketMessageResponse) -> bool {
    d == WebSocketMessageResponse::Work { work: WORK }
}

/// A payload listing every topic.
pub open spec fn levels_payload(d: WebSocketMessageResponse) -> bool {
    match d {
        WebSocketMessageResponse::GetValidSubscriptionLevels { valid_subscription_levels } => texts(
            valid_subscription_levels,
        ) == topic_names(all_topics()),
        _ => false,
    }
}

/// A payload listing `topics`, in the form that answers `kind`.
pub open spec fn topics_payload(
    kind: Seq<char>,
    topics: Seq<WebSocketSubscriptionType>,
) -> spec_fn(WebSocketMessageResponse) -> bool {
    |d: WebSocketMessageResponse|
        match d {
            WebSocketMessageResponse::GetSubscriptionLevel { subscription_level } => kind
                == "get_subscription_level"@ && texts(subscription_level) == topic_names(topics),
            WebSocketMessageResponse::Subscribe { subscription_level } => kind == "subscribe"@
                && texts(subscription_level) == topic_names(topics),
            WebSocketMessageResponse::Unsubscribe { subscription_level } => kind
                == "unsubscribe"@ && texts(subscription_level) == topic_names(topics),
            _ => false,
        }
}

/// The topics of session `conn`, none if it is not open.
pub open spec fn current_topics(server: WebSocketServer, conn: u128) -> Seq<
    WebSocketSubscriptionType,
> {
    if server.sessions().contains_key(conn) {
        server.sessions()[conn].subscriptions@
    } else {
        Seq::empty()
    }
}

/// The topic written `s`, when there is one.
pub open spec fn topic_of(s: Seq<char>) -> WebSocketSubscriptionType {
    choose|t: WebSocketSubscriptionType| topic_name(t) == s
}

/// How a subscribe or unsubscribe request for the text `event` is handled:
/// a valid topic is added or taken out and the new list is sent with a
/// success flag; any other text changes nothing and the list is sent with a
/// failure flag.
pub open spec fn topic_request_handled(
    old_server: WebSocketServer,
    new_server: WebSocketServer,
    conn: u128,
    id: Option<usize>,
    event: Seq<char>,
    adding: bool,
    r: Dispatch,
) -> bool {
    let kind = if adding {
        "subscribe"@
    } else {
        "unsubscribe"@
    };
    let before = old_server.sessions()[conn].subscriptions@;
    let t = topic_of(event);
    &&& new_server.tokens() == old_server.tokens()
    &&& if names_a_topic(event) {
        &&& retopiced(
            old_server.sessions(),
            new_server.sessions(),
            conn,
            if adding {
                with_topic(before, t)
            } else {
                without_topic(before, t)
            },
        )
        &&& match r {
            Dispatch::Reply(m) => is_reply(
                m,
                id,
                true,
                kind,
                topics_payload(kind, current_topics(new_server, conn)),
            ),
            _ => false,
        }
    } else {
        &&& new_server.sessions() == old_server.sessions()
        &&& match r {
            Dispatch::Reply(m) => is_reply(
                m,
                id,
                false,
                kind,
                topics_payload(kind, current_topics(old_server, conn)),
            ),
            _ => false,
        }
    }
}

/// A response envelope for the request numbered `id`.
fn reply(id: Option<usize>, ok: bool, to: &str, data: WebSocketMessageResponse) -> (m:
    WebSocketMessage)
    ensures
        m.ok == Some(ok),
        m.id == id,
        match m.kind {
            WebSocketMessageInner::Response { responding_to, data: d } => responding_to@ == to@
                && d == data,
            _ => false,
        },
{
    WebSocketMessage {
        ok: Some(ok),
        id,
        kind: WebSocketMessageInner::Response { responding_to: to.to_owned(), data },
    }
}

/// The failure reply to `request` that the domain service answered with
/// `error`: it answers the request's kind and number, with a failure flag.
pub fn domain_error_reply(request: &WebSocketMessage, error: String) -> (m: WebSocketMessage)
    ensures
        m.ok == Some(false),
        m.id == request.id,
        match m.kind {
            WebSocketMessageInner::Response { responding_to, data } => responding_to@ == kind_name(
                request.kind,
            ) && data == WebSocketMessageResponse::Error { error },
            _ => false,
        },
{
    WebSocketMessage {
        ok: Some(false),
        id: request.id,
        kind: WebSocketMessageInner::Response {
            responding_to: request.kind.kind_text(),
            data: WebSocketMessageResponse::Error { error },
        },
    }
}

/// The texts of a list of topics, in order.
pub fn topic_strings(v: &Vec<WebSocketSubscriptionType>) -> (r: Vec<String>)
    ensures
        texts(r) == topic_names(v@),
{
    let mut out: Vec<String> = Vec::new();
    let mut i: usize = 0;
    while i < v.len()
        invariant
            0 <= i <= v@.len(),
            out@.len() == i,
            forall|j: int| 0 <= j < i ==> (#[trigger] out@[j])@ == topic_name(v@[j]),
        decreases v@.len() - i,
    {
        out.push(v[i].into_string());
        i = i + 1;
    }
    assert(texts(out) =~= topic_names(v@));
    out
}

/// Handles one decoded message from the client on connection `conn`, and
/// says what to send back.
pub fn handle_websocket_message(
    server: &mut WebSocketServer,
    conn: u128,
    message: WebSocketMessage,
) -> (r: Dispatch)
    requires
        old(server).wf(),
    ensures
        final(server).wf(),
        match message.kind {
            WebSocketMessageInner::Subscribe { event } => topic_request_handled(
                *old(server),
                *final(server),
                conn,
                message.id,
                event@,
                true,
                r,
            ),
            WebSocketMessageInner::Unsubscribe { event } => topic_request_handled(
                *old(server),
                *final(server),
                conn,
                message.id,
                event@,
                false,
                r,
            ),
            _ => final(server).tokens() == old(server).tokens() && final(server).sessions()
                == old(server).sessions(),
        },
        match message.kind {
            WebSocketMessageInner::Hello { .. } => r is Ignore,
            WebSocketMessageInner::Keepalive { .. } => r is Ignore,
            WebSocketMessageInner::Response { .. } => r is Ignore,
            WebSocketMessageInner::Work => match r {
                Dispatch::Reply(m) => is_reply(m, message.id, true, "work"@, |d| work_payload(d)),
                _ => false,
            },
            WebSocketMessageInner::GetValidSubscriptionLevels => match r {
                Dispatch::Reply(m) => is_reply(
                    m,
                    message.id,
                    true,
                    "get_valid_subscription_levels"@,
                    |d| levels_payload(d),
                ),
                _ => false,
            },
            WebSocketMessageInner::GetSubscriptionLevel => match r {
                Dispatch::Reply(m) => is_reply(
                    m,
                    message.id,
                    true,
                    "get_subscription_level"@,
                    topics_payload("get_subscription_level"@, current_topics(*old(server), conn)),
                ),
                _ => false,
            },
            WebSocketMessageInner::Subscribe { .. } => true,
            WebSocketMessageInner::Unsubscribe { .. } => true,
            _ => r == Dispatch::Delegate(message),
        },
{
    let id = message.id;
    let delegate = match &message.kind {
        WebSocketMessageInner::MakeTransaction { .. } => true,
        WebSocketMessageInner::Address { .. } => true,
        WebSocketMessageInner::Me => true,
        WebSocketMessageInner::Logout => true,
        WebSocketMessageInner::Login { .. } => true,
        _ => false,
    };
    if delegate {
        return Dispatch::Delegate(message);
    }
    match &message.kind {
        WebSocketMessageInner::Work => {
            let m = reply(id, true, "work", WebSocketMessageResponse::Work { work: WORK });
            Dispatch::Reply(m)
        },
        WebSocketMessageInner::GetValidSubscriptionLevels => {
            let all = WebSocketSubscriptionList::all_subscriptions().into_inner();
            let names = topic_strings(&all);
            let m = reply(
                id,
                true,
                "get_valid_subscription_levels",
                WebSocketMessageResponse::GetValidSubscriptionLevels {
                    valid_subscription_levels: names,
                },
            );
            Dispatch::Reply(m)
        },
        WebSocketMessageInner::GetSubscriptionLevel => {
            let list = server.get_subscription_list(conn);
            let names = topic_strings(&list);
            let m = reply(
                id,
                true,
                "get_subscription_level",
                WebSocketMessageResponse::GetSubscriptionLevel { subscription_level: names },
            );
            Dispatch::Reply(m)
        },
        WebSocketMessageInner::Subscribe { event } => {
            match WebSocketSubscriptionType::from_str(event.as_str()) {
                Ok(t) => {
                    proof {
                        lemma_topic_name_injective(t, topic_of(event@));
                    }
                    server.subscribe_to_event(conn, t);
                    let list = server.get_subscription_list(conn);
                    let names = topic_strings(&list);
                    let m = reply(
                        id,
                        true,
                        "subscribe",
                        WebSocketMessageResponse::Subscribe { subscription_level: names },
                    );
                    Dispatch::Reply(m)
                },
                Err(_) => {
                    let list = server.get_subscription_list(conn);
                    let names = topic_strings(&list);
                    let m = reply(
                        id,
                        false,
                        "subscribe",
                        WebSocketMessageResponse::Subscribe { subscription_level: names },
                    );
                    Dispatch::Reply(m)
                },
            }
        },
        WebSocketMessageInner::Unsubscribe { event } => {
            match WebSocketSubscriptionType::from_str(event.as_str()) {
                Ok(t) => {
                    proof {
                        lemma_topic_name_injective(t, topic_of(event@));
                    }
                    server.unsubscribe_from_event(conn, t);
                    let list = server.get_subscription_list(conn);
                    let names = topic_strings(&list);
                    let m = reply(
                        id,
                        true,
                        "unsubscribe",
                        WebSocketMessageResponse::Unsubscribe { subscription_level: names },
                    );
                    Dispatch::Reply(m)
                },
                Err(_) => {
                    let list = server.get_subscription_list(conn);
                    let names = topic_strings(&list);
                    let m = reply(
                        id,
                        false,
                        "unsubscribe",
                        WebSocketMessageResponse::Unsubscribe { subscription_level: names },
                    );
                    Dispatch::Reply(m)
                },
            }
        },
        _ => Dispatch::Ignore,
    }
}

} // verus!
