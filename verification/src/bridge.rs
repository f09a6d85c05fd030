//! Relaying opaque bytes between a local socket and a tunnel stream, in both directions.

use vstd::prelude::*;

verus! {

/// What one of the two sides has delivered.
#[derive(Clone, Copy, Debug, PartialEq, Eq, Structural)]
pub enum BridgeEvent {
    /// The socket was read; zero bytes mean that it has ended.
    SocketRead(usize),
    /// The tunnel delivered this many bytes.
    TunnelData(usize),
    /// The tunnel stream has ended.
    TunnelEnd,
    /// The tunnel stream failed.
    TunnelFailed,
}

/// What is to be done.
#[derive(Clone, Copy, Debug, PartialEq, Eq, Structural)]
pub enum BridgeAction {
    /// Send what was read into the tunnel, unchanged.
    ForwardToTunnel(usize),
    /// End the sending direction of the tunnel stream.
    EndTunnel,
    /// Write what was delivered to the socket, unchanged, then give the tunnel room for as much.
    ForwardToSocket(usize),
    /// Shut the sending direction of the socket down.
    EndSocket,
    /// Give up.
    Fail,
}

/// Which directions have ended.
#[derive(Clone, Copy, Debug, PartialEq, Eq, Structural)]
pub struct Bridge {
    pub socket_done: bool,
    pub tunnel_done: bool,
}

impl Bridge {
    /// A bridge with both directions open.
    pub fn new() -> (bridge: Self)
        ensures
            bridge == (Bridge { socket_done: false, tunnel_done: false }),
    {
        Bridge { socket_done: false, tunnel_done: false }
    }

    /// Whether both directions have ended.
    pub fn finished(&self) -> (finished: bool)
        ensures
            finished == (self.socket_done && self.tunnel_done),
    {
        self.socket_done && self.tunnel_done
    }

    /// What an event leads to. Bytes go to the other side; the end of one direction is passed
    /// on and leaves the other direction open.
    pub open spec fn spec_step(self, event: BridgeEvent) -> (Bridge, BridgeAction) {
        match event {
            BridgeEvent::SocketRead(count) => if count == 0 {
                (Bridge { socket_done: true, ..self }, BridgeAction::EndTunnel)
            } else {
                (self, BridgeAction::ForwardToTunnel(count))
            },
            BridgeEvent::TunnelData(count) => (self, BridgeAction::ForwardToSocket(count)),
            BridgeEvent::TunnelEnd => (
                Bridge { tunnel_done: true, ..self },
                BridgeAction::EndSocket,
            ),
            BridgeEvent::TunnelFailed => (self, BridgeAction::Fail),
        }
    }

    /// Takes an event in.
    pub fn step(&mut self, event: BridgeEvent) -> (action: BridgeAction)
        ensures
            (*final(self), action) == old(self).spec_step(event),
    {
        match event {
            BridgeEvent::SocketRead(count) => {
                if count == 0 {
                    self.socket_done = true;
                    BridgeAction::EndTunnel
                } else {
                    BridgeAction::ForwardToTunnel(count)
                }
            },
            BridgeEvent::TunnelData(count) => BridgeAction::ForwardToSocket(count),
            BridgeEvent::TunnelEnd => {
                self.tunnel_done = true;
                BridgeAction::EndSocket
            },
            BridgeEvent::TunnelFailed => BridgeAction::Fail,
        }
    }
}

/// A direction that has ended stays ended.
pub proof fn law_ended_stays_ended(bridge: Bridge, event: BridgeEvent)
    ensures
        bridge.socket_done ==> bridge.spec_step(event).0.socket_done,
        bridge.tunnel_done ==> bridge.spec_step(event).0.tunnel_done,
{
}

/// Every byte that is read goes into the tunnel, and every byte that the tunnel delivers to the
/// socket. The end of one direction ends just that direction, once; a failure ends nothing well.
pub proof fn law_both_directions_are_carried(bridge: Bridge, event: BridgeEvent)
    ensures
        ({
            let (after, action) = bridge.spec_step(event);
            let socket_ended = event == BridgeEvent::SocketRead(0);
            let tunnel_ended = event is TunnelEnd;
            &&& after.socket_done == (bridge.socket_done || socket_ended)
            &&& after.tunnel_done == (bridge.tunnel_done || tunnel_ended)
            &&& action is EndTunnel <==> socket_ended
            &&& action is EndSocket <==> tunnel_ended
            &&& action is Fail <==> event is TunnelFailed
            &&& event matches BridgeEvent::SocketRead(count) ==> count > 0 ==> action
                == BridgeAction::ForwardToTunnel(count)
            &&& event matches BridgeEvent::TunnelData(count) ==> action
                == BridgeAction::ForwardToSocket(count)
        }),
{
}

} // verus!
