use vstd::prelude::*;

verus! {

/// An immutable descriptor of a downstream game server: a display name and
/// the address to dial. Opening a transport to it, and probing whether it
/// answers, happen at the connection edge outside this core.
#[derive(Debug)]
pub struct BackendServer {
    pub name: String,
    pub address: String,
}

impl BackendServer {
    pub fn new(name: String, address: String) -> (r: BackendServer)
        ensures
            r.name@ == name@,
            r.address@ == address@,
    {
        BackendServer { name, address }
    }
}

} // verus!
