use ws_gateway::broker::{
    open_session, open_session_with, start_response, start_ws, token_data_for, TokenNotFound,
    UpgradeError, WebSocketServer, GATEWAY_URL, TOKEN_EXPIRATION_MS,
};
use ws_gateway::connection::{connection_step, ConnectionAction, ConnectionEvent};
use ws_gateway::dispatch::{domain_error_reply, handle_websocket_message, topic_strings, Dispatch, WORK};
use ws_gateway::heartbeat::{Heartbeat, HeartbeatAction};
use ws_gateway::messages::{WebSocketMessage, WebSocketMessageInner, WebSocketMessageResponse};
use ws_gateway::models::{
    WebSocketStartConnectionBody, WebSocketSubscriptionList, WebSocketSubscriptionType,
    WebSocketTokenData,
};

use WebSocketSubscriptionType::{Blocks, Motd, OwnTransactions, Transactions};

fn guest() -> WebSocketTokenData {
    WebSocketTokenData::new("guest".to_string(), None)
}

fn message(kind: WebSocketMessageInner) -> WebSocketMessage {
    WebSocketMessage { ok: None, id: Some(7), kind }
}

fn reply_of(d: Dispatch) -> WebSocketMessage {
    match d {
        Dispatch::Reply(m) => m,
        other => panic!("expected a reply, got {:?}", other),
    }
}

fn subscription_reply(m: &WebSocketMessage) -> (&str, Vec<String>) {
    match &m.kind {
        WebSocketMessageInner::Response { responding_to, data } => match data {
            WebSocketMessageResponse::Subscribe { subscription_level }
            | WebSocketMessageResponse::Unsubscribe { subscription_level }
            | WebSocketMessageResponse::GetSubscriptionLevel { subscription_level } => {
                (responding_to.as_str(), subscription_level.clone())
            }
            other => panic!("unexpected payload {:?}", other),
        },
        other => panic!("expected a response, got {:?}", other),
    }
}

fn session(server: &mut WebSocketServer, id: u128) {
    server.insert_session(id, guest());
}

#[test]
fn topic_text_round_trip() {
    let names = ["blocks", "ownBlocks", "transactions", "ownTransactions", "names", "ownNames", "motd"];
    for name in names {
        let t = WebSocketSubscriptionType::from_str(name).unwrap();
        assert_eq!(t.into_string(), name);
        assert!(WebSocketSubscriptionType::is_valid(name));
    }
    assert_eq!(WebSocketSubscriptionType::from_str("motd"), Ok(Motd));
}

#[test]
fn unknown_topic_text_is_rejected() {
    assert!(WebSocketSubscriptionType::from_str("not-a-real-topic").is_err());
    assert!(WebSocketSubscriptionType::from_str("Blocks").is_err());
    assert!(WebSocketSubscriptionType::from_str("").is_err());
    assert!(!WebSocketSubscriptionType::is_valid("own_blocks"));
}

#[test]
fn default_and_full_subscription_lists() {
    let d = WebSocketSubscriptionList::default();
    assert_eq!(d.inner(), &[OwnTransactions, Blocks]);
    let all = WebSocketSubscriptionList::all_subscriptions();
    assert_eq!(all.len(), 7);
    assert_eq!(all.into_inner()[6], Motd);
}

#[test]
fn subscription_list_changes_are_idempotent() {
    let mut l = WebSocketSubscriptionList::default();
    l.insert(Blocks);
    assert_eq!(l.inner(), &[OwnTransactions, Blocks]);
    l.insert(Motd);
    l.insert(Motd);
    assert_eq!(l.inner(), &[OwnTransactions, Blocks, Motd]);
    l.remove(Transactions);
    assert_eq!(l.inner(), &[OwnTransactions, Blocks, Motd]);
    l.remove(Blocks);
    assert_eq!(l.inner(), &[OwnTransactions, Motd]);
    assert!(!l.contains(Blocks));
}

#[test]
fn token_redeems_only_once() {
    let mut s = WebSocketServer::new();
    let t = s.obtain_token(guest(), 1000);
    let first = s.use_token(t, 2000).unwrap();
    assert_eq!(first.address, "guest");
    assert_eq!(first.private_key, None);
    assert_eq!(s.use_token(t, 2001).unwrap_err(), TokenNotFound);
}

#[test]
fn unknown_token_is_not_found() {
    let mut s = WebSocketServer::new();
    assert_eq!(s.use_token(42, 0).unwrap_err(), TokenNotFound);
}

#[test]
fn token_expires_after_its_lifetime() {
    let mut s = WebSocketServer::new();
    s.issue_token(5, guest(), 1000);
    s.issue_token(6, guest(), 1000);
    assert!(s.use_token(5, 1000 + TOKEN_EXPIRATION_MS - 1).is_ok());
    assert_eq!(s.use_token(6, 1000 + TOKEN_EXPIRATION_MS).unwrap_err(), TokenNotFound);
}

#[test]
fn expiry_drops_only_stale_tokens() {
    let mut s = WebSocketServer::new();
    s.issue_token(1, guest(), 0);
    s.expire_token(1, 29_999);
    assert!(s.use_token(1, 29_999).is_ok());
    s.issue_token(2, guest(), 0);
    s.expire_token(2, 30_000);
    assert!(s.use_token(2, 0).is_err());
}

#[test]
fn new_session_has_default_subscriptions() {
    let mut s = WebSocketServer::new();
    session(&mut s, 9);
    assert_eq!(s.get_subscription_list(9), vec![OwnTransactions, Blocks]);
    assert_eq!(s.get_subscription_list(10), vec![]);
}

#[test]
fn subscribe_and_unsubscribe_on_broker() {
    let mut s = WebSocketServer::new();
    session(&mut s, 1);
    s.subscribe_to_event(1, Blocks);
    assert_eq!(s.get_subscription_list(1), vec![OwnTransactions, Blocks]);
    s.subscribe_to_event(1, Motd);
    s.unsubscribe_from_event(1, Transactions);
    assert_eq!(s.get_subscription_list(1), vec![OwnTransactions, Blocks, Motd]);
    s.unsubscribe_from_event(1, OwnTransactions);
    assert_eq!(s.get_subscription_list(1), vec![Blocks, Motd]);
    s.subscribe_to_event(2, Motd);
    assert_eq!(s.get_subscription_list(2), vec![]);
}

#[test]
fn cleanup_is_idempotent() {
    let mut s = WebSocketServer::new();
    session(&mut s, 1);
    session(&mut s, 2);
    s.cleanup_session(1);
    s.cleanup_session(1);
    assert_eq!(s.broadcast_targets(), vec![2]);
}

#[test]
fn broadcast_reaches_every_session() {
    let mut s = WebSocketServer::new();
    for id in [11u128, 12, 13, 14] {
        session(&mut s, id);
    }
    let mut targets = s.broadcast_targets();
    targets.sort();
    assert_eq!(targets, vec![11, 12, 13, 14]);
    s.cleanup_session(12);
    let mut targets = s.broadcast_targets();
    targets.sort();
    assert_eq!(targets, vec![11, 13, 14]);
}

#[test]
fn publish_reaches_only_subscribers() {
    let mut s = WebSocketServer::new();
    for id in [1u128, 2, 3] {
        session(&mut s, id);
    }
    s.subscribe_to_event(2, Motd);
    s.subscribe_to_event(3, Motd);
    s.unsubscribe_from_event(3, Blocks);
    let mut motd = s.publish_targets(Motd);
    motd.sort();
    assert_eq!(motd, vec![2, 3]);
    let mut blocks = s.publish_targets(Blocks);
    blocks.sort();
    assert_eq!(blocks, vec![1, 2]);
    assert!(s.publish_targets(Transactions).is_empty());
}

#[test]
fn subscribe_blocks_on_fresh_session() {
    let mut s = WebSocketServer::new();
    session(&mut s, 3);
    let d = handle_websocket_message(
        &mut s,
        3,
        message(WebSocketMessageInner::Subscribe { event: "blocks".to_string() }),
    );
    let m = reply_of(d);
    assert_eq!(m.ok, Some(true));
    assert_eq!(m.id, Some(7));
    let (to, list) = subscription_reply(&m);
    assert_eq!(to, "subscribe");
    assert_eq!(list, vec!["ownTransactions".to_string(), "blocks".to_string()]);
}

#[test]
fn subscribe_unknown_topic_changes_nothing() {
    let mut s = WebSocketServer::new();
    session(&mut s, 3);
    let d = handle_websocket_message(
        &mut s,
        3,
        message(WebSocketMessageInner::Subscribe { event: "not-a-real-topic".to_string() }),
    );
    let m = reply_of(d);
    assert_eq!(m.ok, Some(false));
    let (to, list) = subscription_reply(&m);
    assert_eq!(to, "subscribe");
    assert_eq!(list, vec!["ownTransactions".to_string(), "blocks".to_string()]);
    assert_eq!(s.get_subscription_list(3), vec![OwnTransactions, Blocks]);
    assert_eq!(s.broadcast_targets(), vec![3]);
}

#[test]
fn unsubscribe_message_updates_list() {
    let mut s = WebSocketServer::new();
    session(&mut s, 4);
    let d = handle_websocket_message(
        &mut s,
        4,
        message(WebSocketMessageInner::Unsubscribe { event: "ownTransactions".to_string() }),
    );
    let m = reply_of(d);
    assert_eq!(m.ok, Some(true));
    let (to, list) = subscription_reply(&m);
    assert_eq!(to, "unsubscribe");
    assert_eq!(list, vec!["blocks".to_string()]);
    let m = reply_of(handle_websocket_message(&mut s, 4, message(WebSocketMessageInner::GetSubscriptionLevel)));
    let (to, list) = subscription_reply(&m);
    assert_eq!(to, "get_subscription_level");
    assert_eq!(list, vec!["blocks".to_string()]);
}

#[test]
fn valid_subscription_levels_lists_every_topic() {
    let mut s = WebSocketServer::new();
    let m = reply_of(handle_websocket_message(
        &mut s,
        1,
        message(WebSocketMessageInner::GetValidSubscriptionLevels),
    ));
    match m.kind {
        WebSocketMessageInner::Response { responding_to, data } => {
            assert_eq!(responding_to, "get_valid_subscription_levels");
            match data {
                WebSocketMessageResponse::GetValidSubscriptionLevels { valid_subscription_levels } => {
                    assert_eq!(
                        valid_subscription_levels,
                        vec!["blocks", "ownBlocks", "transactions", "ownTransactions", "names", "ownNames", "motd"]
                    );
                }
                other => panic!("unexpected payload {:?}", other),
            }
        }
        other => panic!("expected a response, got {:?}", other),
    }
}

#[test]
fn server_only_messages_are_ignored() {
    let mut s = WebSocketServer::new();
    session(&mut s, 1);
    let d = handle_websocket_message(
        &mut s,
        1,
        message(WebSocketMessageInner::Keepalive { server_time: "now".to_string() }),
    );
    assert!(matches!(d, Dispatch::Ignore));
    let d = handle_websocket_message(
        &mut s,
        1,
        message(WebSocketMessageInner::Hello { motd: serde_json::Value::Null }),
    );
    assert!(matches!(d, Dispatch::Ignore));
}

#[test]
fn domain_requests_are_delegated() {
    let mut s = WebSocketServer::new();
    session(&mut s, 1);
    let d = handle_websocket_message(&mut s, 1, message(WebSocketMessageInner::Me));
    match d {
        Dispatch::Delegate(m) => assert!(matches!(m.kind, WebSocketMessageInner::Me)),
        other => panic!("expected delegation, got {:?}", other),
    }
    let d = handle_websocket_message(
        &mut s,
        1,
        message(WebSocketMessageInner::Login { private_key: "k".to_string() }),
    );
    assert!(matches!(d, Dispatch::Delegate(_)));
}

#[test]
fn topic_strings_renders_in_order() {
    assert_eq!(topic_strings(&vec![Motd, Blocks]), vec!["motd".to_string(), "blocks".to_string()]);
}

#[test]
fn heartbeat_closes_after_missed_deadlines() {
    let mut h = Heartbeat::new(0);
    assert_eq!(h.on_tick(5_000, true), HeartbeatAction::Continue);
    assert_eq!(h.on_tick(10_000, true), HeartbeatAction::Continue);
    assert_eq!(h.on_tick(15_000, true), HeartbeatAction::Close);
    h.record_pong(12_000);
    assert_eq!(h.on_tick(15_000, true), HeartbeatAction::Continue);
    assert_eq!(h.on_tick(20_000, true), HeartbeatAction::Continue);
    assert_eq!(h.on_tick(25_000, true), HeartbeatAction::Close);
}

#[test]
fn heartbeat_stops_when_ping_fails() {
    let h = Heartbeat::new(100);
    assert_eq!(h.on_tick(105, false), HeartbeatAction::Stop);
    assert_eq!(h.on_tick(50_000, false), HeartbeatAction::Stop);
}

#[test]
fn handshake_credentials() {
    let g = token_data_for(None);
    assert_eq!(g.address, "guest");
    assert_eq!(g.private_key, None);
    let g = token_data_for(Some(WebSocketStartConnectionBody::default()));
    assert_eq!(g.address, "guest");
    let a = token_data_for(Some(WebSocketStartConnectionBody { private_key: Some("secret".to_string()) }));
    assert_eq!(a.address, "dummyaddr");
    assert_eq!(a.private_key, Some("secret".to_string()));
}

#[test]
fn start_response_embeds_hyphenated_token() {
    let r = start_response(0x550e8400_e29b_41d4_a716_446655440000);
    assert!(r.ok);
    assert_eq!(r.expires, 30);
    assert_eq!(r.url, "ws://127.0.0.1:8080/gateway/550e8400-e29b-41d4-a716-446655440000");
}

#[test]
fn end_to_end_guest_session_answers_work() {
    let mut s = WebSocketServer::new();
    let (issued, resp) = start_ws(&mut s, None, 0);
    assert!(resp.ok);
    assert_eq!(resp.expires, 30);
    let token = resp.url.strip_prefix(GATEWAY_URL).unwrap().to_string();
    assert_eq!(token, uuid::Uuid::from_u128(issued).to_string());
    let conn = open_session(&mut s, &token, 1_000).unwrap();
    let who = s.session_credentials(conn).unwrap();
    assert_eq!(who.address, "guest");
    assert_eq!(who.private_key, None);
    assert_eq!(s.get_subscription_list(conn), vec![OwnTransactions, Blocks]);
    let m = reply_of(handle_websocket_message(&mut s, conn, message(WebSocketMessageInner::Work)));
    assert_eq!(m.ok, Some(true));
    match m.kind {
        WebSocketMessageInner::Response { responding_to, data } => {
            assert_eq!(responding_to, "work");
            assert!(matches!(data, WebSocketMessageResponse::Work { work } if work == WORK));
            assert_eq!(WORK, 69420);
        }
        other => panic!("expected a response, got {:?}", other),
    }
    let again = open_session(&mut s, &token, 1_001);
    assert_eq!(again, Err(UpgradeError::TokenNotFound));
}

#[test]
fn end_to_end_expired_token_opens_nothing() {
    let mut s = WebSocketServer::new();
    let (_, resp) = start_ws(&mut s, None, 0);
    let token = resp.url.strip_prefix(GATEWAY_URL).unwrap().to_string();
    assert_eq!(open_session(&mut s, &token, 31_000), Err(UpgradeError::TokenNotFound));
    assert!(s.broadcast_targets().is_empty());
}

#[test]
fn malformed_token_is_bad_request() {
    let mut s = WebSocketServer::new();
    assert_eq!(open_session(&mut s, "not-a-uuid", 0), Err(UpgradeError::MalformedToken));
    assert!(s.broadcast_targets().is_empty());
}

#[test]
fn upgrade_uses_given_connection_id() {
    let mut s = WebSocketServer::new();
    s.issue_token(77, guest(), 0);
    assert_eq!(open_session_with(&mut s, Some(77), 500, 10), Ok(500));
    assert_eq!(s.broadcast_targets(), vec![500]);
    assert_eq!(open_session_with(&mut s, None, 501, 10), Err(UpgradeError::MalformedToken));
}

#[test]
fn upgrade_parses_uppercase_and_simple_forms() {
    let mut s = WebSocketServer::new();
    s.issue_token(0x550e8400_e29b_41d4_a716_446655440000, guest(), 0);
    assert!(open_session(&mut s, "550E8400E29B41D4A716446655440000", 0).is_ok());
}

#[test]
fn connection_end_removes_session() {
    let mut s = WebSocketServer::new();
    session(&mut s, 1);
    session(&mut s, 2);
    let mut h = Heartbeat::new(0);
    assert_eq!(connection_step(&mut s, &mut h, 1, ConnectionEvent::Ping, 10), ConnectionAction::SendPong);
    assert_eq!(connection_step(&mut s, &mut h, 1, ConnectionEvent::Binary, 10), ConnectionAction::Nothing);
    assert_eq!(connection_step(&mut s, &mut h, 1, ConnectionEvent::Pong, 4_000), ConnectionAction::Nothing);
    assert_eq!(h.last_pong, 4_000);
    assert_eq!(h.on_tick(14_000, true), HeartbeatAction::Continue);
    let mut targets = s.broadcast_targets();
    targets.sort();
    assert_eq!(targets, vec![1, 2]);
    assert_eq!(connection_step(&mut s, &mut h, 1, ConnectionEvent::Undecodable, 20), ConnectionAction::Terminate);
    assert_eq!(s.broadcast_targets(), vec![2]);
    assert_eq!(connection_step(&mut s, &mut h, 2, ConnectionEvent::Closed, 20), ConnectionAction::Terminate);
    assert!(s.broadcast_targets().is_empty());
    assert_eq!(connection_step(&mut s, &mut h, 2, ConnectionEvent::Gone, 20), ConnectionAction::Terminate);
    assert_eq!(h.last_pong, 4_000);
}

#[test]
fn fresh_id_keeps_an_unused_draw() {
    let mut s = WebSocketServer::new();
    s.issue_token(10, guest(), 0);
    session(&mut s, 11);
    assert_eq!(s.fresh_id_from(500), 500);
}

#[test]
fn fresh_id_skips_used_identifiers() {
    let mut s = WebSocketServer::new();
    s.issue_token(10, guest(), 0);
    session(&mut s, 11);
    s.issue_token(12, guest(), 0);
    assert_eq!(s.fresh_id_from(10), 13);
    assert_eq!(s.fresh_id_from(11), 13);
}

#[test]
fn fresh_id_near_the_top_of_the_range() {
    let mut s = WebSocketServer::new();
    s.issue_token(u128::MAX, guest(), 0);
    session(&mut s, u128::MAX - 2);
    let id = s.fresh_id_from(u128::MAX);
    assert!(id != u128::MAX && id != u128::MAX - 2);
    assert!(id >= u128::MAX - 2);
}

#[test]
fn issued_tokens_are_distinct() {
    let mut s = WebSocketServer::new();
    let mut seen = Vec::new();
    for i in 0..50u64 {
        let t = s.obtain_token(guest(), i);
        assert!(!seen.contains(&t));
        seen.push(t);
    }
}

#[test]
fn connection_id_differs_from_token() {
    let mut s = WebSocketServer::new();
    let (token, resp) = start_ws(
        &mut s,
        Some(WebSocketStartConnectionBody { private_key: Some("pk".to_string()) }),
        0,
    );
    let text = resp.url.strip_prefix(GATEWAY_URL).unwrap().to_string();
    let conn = open_session(&mut s, &text, 10).unwrap();
    assert_ne!(conn, token);
    let who = s.session_credentials(conn).unwrap();
    assert_eq!(who.address, "dummyaddr");
    assert_eq!(who.private_key, Some("pk".to_string()));
}

#[test]
fn domain_error_answers_the_request_kind() {
    let request = WebSocketMessage {
        ok: None,
        id: Some(3),
        kind: WebSocketMessageInner::Address { address: "k123".to_string(), fetch_names: None },
    };
    let m = domain_error_reply(&request, "unsupported".to_string());
    assert_eq!(m.ok, Some(false));
    assert_eq!(m.id, Some(3));
    match m.kind {
        WebSocketMessageInner::Response { responding_to, data } => {
            assert_eq!(responding_to, "address");
            assert!(matches!(data, WebSocketMessageResponse::Error { error } if error == "unsupported"));
        }
        other => panic!("expected a response, got {:?}", other),
    }
    assert_eq!(WebSocketMessageInner::MakeTransaction {
        private_key: "k".to_string(),
        to: "t".to_string(),
        amount: 1,
        metadata: None,
    }
    .kind_text(), "make_transaction");
    assert_eq!(WebSocketMessageInner::GetValidSubscriptionLevels.kind_text(), "get_valid_subscription_levels");
}
