use vstd::prelude::*;

verus! {

/// The next node in the ring, the only peer this node ever calls: the host and
/// port at which its roll-call operations are served. Fixed for the life of the
/// process.
pub struct Remote {
    host: String,
    port: u16,
}

impl Remote {
    pub fn new(host: String, port: u16) -> (r: Remote)
        ensures
            r.host_view() == host@,
            r.port_view() == port,
    {
        Remote { host, port }
    }

    pub closed spec fn host_view(&self) -> Seq<char> {
        self.host@
    }

    pub closed spec fn port_view(&self) -> u16 {
        self.port
    }

    pub fn host(&self) -> (r: &str)
        ensures
            r@ == self.host_view(),
    {
        self.host.as_str()
    }

    pub fn port(&self) -> (r: u16)
        ensures
            r == self.port_view(),
    {
        self.port
    }
}

} // verus!
