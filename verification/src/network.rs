//! What travels from the listeners to the canvas.

use vstd::prelude::*;
use crate::draw::DrawOperation;

verus! {

/// One decoded message: the operations that a layer is to show from now
/// on, and for how long.
#[derive(Clone, Debug)]
pub struct Command {
    /// The layer addressed; layer 0 where none is named.
    pub layer: Option<i32>,
    /// The layer's lifetime in milliseconds; unlimited where none is given.
    pub timeout_ms: Option<u64>,
    pub operations: Vec<DrawOperation>,
}

impl Command {
    /// The layer that the command addresses.
    pub open spec fn layer_id(&self) -> i32 {
        match self.layer {
            Some(id) => id,
            None => 0,
        }
    }

    /// The instant at which a layer set at `now` runs out, if it ever does.
    pub open spec fn expiry_at(&self, now: u64) -> Option<int> {
        match self.timeout_ms {
            Some(ms) => Some(now + ms),
            None => None,
        }
    }
}

/// The endpoints to listen on: a port for datagrams, a path for a local
/// stream socket, or both.
#[derive(Clone, Debug)]
pub struct Endpoints {
    pub udp: Option<u16>,
    pub socket: Option<String>,
}

impl Endpoints {
    /// Whether there is an endpoint to listen on. A server without one
    /// could never be told anything, and is not to start.
    pub fn any(&self) -> (any: bool)
        ensures
            any == (self.udp is Some || self.socket is Some),
    {
        self.udp.is_some() || self.socket.is_some()
    }
}

} // verus!
