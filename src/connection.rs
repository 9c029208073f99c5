use vstd::prelude::*;

use crate::broker::WebSocketServer;
use crate::heartbeat::Heartbeat;

verus! {

/// What arrived on a connection, other than a decoded message.
#[derive(Clone, Copy, Debug, PartialEq, Eq, Structural)]
pub enum ConnectionEvent {
    /// A ping from the client.
    Ping,
    /// A pong from the client.
    Pong,
    /// A binary frame, which the protocol does not use.
    Binary,
    /// A text frame that is not a well-formed message.
    Undecodable,
    /// The client closed the connection.
    Closed,
    /// The connection failed or its stream ended.
    Gone,
}

/// What the connection does next.
#[derive(Clone, Copy, Debug, PartialEq, Eq, Structural)]
pub enum ConnectionAction {
    /// Answer the ping with a pong.
    SendPong,
    /// Nothing to send; wait for the next frame.
    Nothing,
    /// Close the connection and stop; its session is already gone.
    Terminate,
}

/// Whether an event ends the connection.
pub open spec fn ends_connection(e: ConnectionEvent) -> bool {
    match e {
        ConnectionEvent::Undecodable => true,
        ConnectionEvent::Closed => true,
        ConnectionEvent::Gone => true,
        _ => false,
    }
}

/// Handles one event on connection `conn` at `now`. A pong renews the
/// heartbeat; an event that ends the connection removes its session, so no
/// exit leaves the session behind.
pub fn connection_step(
    server: &mut WebSocketServer,
    heartbeat: &mut Heartbeat,
    conn: u128,
    event: ConnectionEvent,
    now: u64,
) -> (r: ConnectionAction)
    requires
        old(server).wf(),
    ensures
        final(server).wf(),
        final(server).tokens() == old(server).tokens(),
        final(server).sessions() == if ends_connection(event) {
            old(server).sessions().remove(conn)
        } else {
            old(server).sessions()
        },
        final(heartbeat).last_pong == if event == ConnectionEvent::Pong {
            now
        } else {
            old(heartbeat).last_pong
        },
        r == match event {
            ConnectionEvent::Ping => ConnectionAction::SendPong,
            ConnectionEvent::Pong => ConnectionAction::Nothing,
            ConnectionEvent::Binary => ConnectionAction::Nothing,
            _ => ConnectionAction::Terminate,
        },
{
    match event {
        ConnectionEvent::Ping => ConnectionAction::SendPong,
        ConnectionEvent::Pong => {
            heartbeat.record_pong(now);
            ConnectionAction::Nothing
        },
        ConnectionEvent::Binary => ConnectionAction::Nothing,
        _ => {
            server.cleanup_session(conn);
            ConnectionAction::Terminate
        },
    }
}

} // verus!
