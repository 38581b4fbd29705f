use vstd::prelude::*;

use crate::wire::copy_range;

verus! {

/// The protocol stage a connection is in. Every connection starts in
/// `Handshaking`; `Status` and `Login` are reachable only through the
/// handshake's next-state field; `Play` is a named terminus that nothing in
/// this core transitions into.
#[derive(Debug, Clone, Copy, PartialEq, Eq, Structural)]
pub enum State {
    Handshaking,
    Status,
    Login,
    Play,
}

/// Which peer a packet id belongs to, seen from the proxy.
#[derive(Debug, Clone, Copy, PartialEq, Eq, Structural)]
pub enum PacketDirection {
    /// Client to proxy.
    Clientbound,
    /// Proxy to server.
    Serverbound,
}

/// One protocol message: an id and an opaque payload. A value type: built by
/// a decoder or a builder, never mutated afterwards.
#[derive(Debug)]
pub struct Packet {
    pub id: i32,
    pub data: Vec<u8>,
}

impl Packet {
    pub fn new(id: i32, data: Vec<u8>) -> (r: Packet)
        ensures
            r.id == id,
            r.data@ == data@,
    {
        Packet { id, data }
    }

    /// A copy with the same id and payload bytes.
    pub fn duplicate(&self) -> (r: Packet)
        ensures
            r.id == self.id,
            r.data@ == self.data@,
    {
        let data = copy_range(&self.data, 0, self.data.len());
        proof {
            assert(self.data@.subrange(0, self.data@.len() as int) =~= self.data@);
        }
        Packet { id: self.id, data }
    }
}

} // verus!
