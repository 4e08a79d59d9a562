//! Real-time collaboration: the presence service and the port of the
//! local WebSocket server that clients connect to.

use vstd::prelude::*;

use crate::text::{decimal, push_decimal};

verus! {

/// The presence service of the team (of whatever type the application
/// uses), and the port of the local WebSocket server.
pub struct RealtimeState<P> {
    pub presence: P,
    pub websocket_port: u16,
}

impl<P> RealtimeState<P> {
    /// The state around a presence service and a WebSocket port.
    pub fn new(presence: P, websocket_port: u16) -> (r: Self)
        ensures
            r.presence == presence,
            r.websocket_port == websocket_port,
    {
        RealtimeState { presence, websocket_port }
    }

    /// The URL a client connects to: the WebSocket server on the loopback
    /// address.
    pub fn websocket_url(&self) -> (r: String)
        ensures
            r@ == "ws://127.0.0.1:"@ + decimal(self.websocket_port as nat),
    {
        let mut r = "ws://127.0.0.1:".to_owned();
        push_decimal(&mut r, self.websocket_port as u64);
        r
    }
}

} // verus!
