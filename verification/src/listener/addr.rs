//! Addresses of peers and of bound sockets.

use vstd::prelude::*;

verus! {

/// An IP address, as the integer its bytes spell in network order.
#[derive(Clone, Copy, Debug, PartialEq, Eq, Structural)]
pub enum Ip {
    V4(u32),
    V6(u128),
}

/// Which child of a combined acceptor.
#[derive(Clone, Copy, Debug, PartialEq, Eq, Structural)]
pub enum Side {
    Left,
    Right,
}

impl Side {
    /// The other child.
    pub open spec fn flip(self) -> Side {
        match self {
            Side::Left => Side::Right,
            Side::Right => Side::Left,
        }
    }

    /// The other child.
    pub fn other(self) -> (side: Side)
        ensures
            side == self.flip(),
    {
        match self {
            Side::Left => Side::Right,
            Side::Right => Side::Left,
        }
    }
}

/// The address of a peer, tagged by the way its connection came in.
#[derive(Debug, PartialEq, Eq)]
pub enum Address {
    /// A plain TCP peer.
    Tcp(Ip, u16),
    /// A peer behind a TLS session, with the protocol negotiated, if any.
    Tls(Box<Address>, Option<Vec<u8>>),
    /// A peer that came in through one child of a combined acceptor.
    Combined(Side, Box<Address>),
}

impl Address {
    /// The children passed on the way from the outermost combined acceptor
    /// down to the leaf that produced the connection, outermost first.
    pub open spec fn route(self) -> Seq<Side>
        decreases self,
    {
        match self {
            Address::Tcp(_, _) => Seq::empty(),
            Address::Tls(inner, _) => inner.route(),
            Address::Combined(side, inner) => seq![side] + inner.route(),
        }
    }

    /// The socket address of the peer itself.
    pub open spec fn peer(self) -> (Ip, u16)
        decreases self,
    {
        match self {
            Address::Tcp(ip, port) => (ip, port),
            Address::Tls(inner, _) => inner.peer(),
            Address::Combined(_, inner) => inner.peer(),
        }
    }

    /// Tags `inner` as having come in through `side`.
    pub fn through(side: Side, inner: Address) -> (addr: Address)
        ensures
            addr == Address::Combined(side, Box::new(inner)),
            addr.route() == seq![side] + inner.route(),
            addr.peer() == inner.peer(),
    {
        Address::Combined(side, Box::new(inner))
    }

    /// The socket address of the peer itself, whatever the nesting.
    pub fn peer_addr(&self) -> (at: (Ip, u16))
        ensures
            at == self.peer(),
        decreases *self,
    {
        match self {
            Address::Tcp(ip, port) => (*ip, *port),
            Address::Tls(inner, _) => inner.peer_addr(),
            Address::Combined(_, inner) => inner.peer_addr(),
        }
    }

    /// The children passed from the outermost combined acceptor to the leaf.
    pub fn branches(&self) -> (path: Vec<Side>)
        ensures
            path@ == self.route(),
        decreases *self,
    {
        match self {
            Address::Tcp(_, _) => Vec::new(),
            Address::Tls(inner, _) => inner.branches(),
            Address::Combined(side, inner) => {
                let mut path: Vec<Side> = Vec::new();
                path.push(*side);
                let mut rest = inner.branches();
                path.append(&mut rest);
                path
            },
        }
    }
}

/// Where an acceptor listens: one socket, or the two children of a combined
/// acceptor.
#[derive(Debug, PartialEq, Eq)]
pub enum LocalAddr {
    /// One bound socket.
    Socket(Ip, u16),
    /// The addresses of the left and of the right child.
    Pair(Box<LocalAddr>, Box<LocalAddr>),
}

impl Clone for LocalAddr {
    fn clone(&self) -> (copy: Self)
        ensures
            copy == *self,
        decreases *self,
    {
        match self {
            LocalAddr::Socket(ip, port) => LocalAddr::Socket(*ip, *port),
            LocalAddr::Pair(left, right) => {
                let l: LocalAddr = (**left).clone();
                let r: LocalAddr = (**right).clone();
                LocalAddr::Pair(Box::new(l), Box::new(r))
            },
        }
    }
}

} // verus!
