//! Networking pieces that do not touch the wire: the client options, the
//! byte counts of a connection and the receiving side of a connection.
use vstd::prelude::*;

verus! {

/// Command-line options of a simple networked game.
#[derive(Debug, Clone)]
pub struct Opt {
    pub addr: Option<String>,
    pub server: bool,
    pub with_server: bool,
}

/// The server address used when none is given.
pub const DEFAULT_SERVER_ADDR: &'static str = "127.0.0.1:1155";

impl Opt {
    /// The server address: the one given; else the one the program was
    /// built with (`build_addr`: the `SERVER_ADDR` of the build environment,
    /// which the caller reads at compile time); else the default one.
    pub fn addr<'a>(&'a self, build_addr: Option<&'static str>) -> (r: &'a str)
        ensures
            r@ == (match &self.addr {
                Some(a) => a@,
                None => match build_addr {
                    Some(b) => b@,
                    None => DEFAULT_SERVER_ADDR@,
                },
            }),
    {
        match &self.addr {
            Some(addr) => addr.as_str(),
            None => match build_addr {
                Some(b) => b,
                None => DEFAULT_SERVER_ADDR,
            },
        }
    }
}

/// How many bytes a connection has received and sent.
#[derive(Debug, Clone, Copy, PartialEq, Eq, Structural)]
pub struct Traffic {
    pub inbound: usize,
    pub outbound: usize,
}

impl Traffic {
    /// Nothing received or sent yet.
    pub fn new() -> (r: Self)
        ensures
            r.inbound == 0,
            r.outbound == 0,
    {
        Traffic { inbound: 0, outbound: 0 }
    }

    /// A message of `len` bytes was sent.
    pub fn sent(&mut self, len: usize)
        requires
            old(self).outbound + len <= usize::MAX,
        ensures
            final(self).outbound == old(self).outbound + len,
            final(self).inbound == old(self).inbound,
    {
        self.outbound = self.outbound + len;
    }

    /// A message of `len` bytes was received.
    pub fn received(&mut self, len: usize)
        requires
            old(self).inbound + len <= usize::MAX,
        ensures
            final(self).inbound == old(self).inbound + len,
            final(self).outbound == old(self).outbound,
    {
        self.inbound = self.inbound + len;
    }
}

/// Something that handles the messages of a connection.
pub trait Receiver<T> {
    fn handle(&mut self, message: T);
}

} // verus!
