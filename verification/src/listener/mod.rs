//! Commonly used listeners.
//!
//! An acceptor owns a bound listening socket and hands out established
//! connections one at a time. Acceptors compose: two of them merge into one
//! ([`CombinedAcceptor`]), and every connection carries an [`Address`] that
//! tells which leaf produced it.

pub mod addr;
pub mod combined;
pub mod tls;

pub use addr::{Address, Ip, LocalAddr, Side};
pub use combined::{CombinedAcceptor, CombinedListener, CombinedStream};
pub use tls::{
    Cleartext, HandshakeError, HandshakeFailure, Handshaker, InFlight, Shaken, TlsAcceptor,
    TlsConfig, TlsListener,
};
use std::task::Context;
use vstd::prelude::*;

verus! {

/// `std::task::Context`: handed through to the leaves, which register the
/// task's waker with it. Nothing is claimed about what it holds.
#[verifier::external_type_specification]
#[verifier::external_body]
pub struct ExContext<'a>(Context<'a>);

/// What one poll of a suspending operation found.
#[derive(Debug, PartialEq, Eq)]
pub enum Poll<T> {
    /// The operation finished with this value.
    Ready(T),
    /// Nothing yet: the operation stays outstanding and is polled again later.
    Pending,
}

/// Why a listener could not be brought up.
#[derive(Clone, Copy, Debug, PartialEq, Eq, Structural)]
pub enum BindError {
    /// Another socket already holds the address.
    AddressInUse,
    /// The process may not bind the address.
    PermissionDenied,
    /// The certificate chain or the private key was refused.
    InvalidCertificate,
    /// Any other failure of the operating system, by its error number.
    Os(i32),
}

/// A failure of the listening socket itself. It ends the accept loop.
#[derive(Clone, Copy, Debug, PartialEq, Eq, Structural)]
pub enum AcceptError {
    /// The listening socket was closed or destroyed.
    Closed,
    /// Any other failure of the operating system, by its error number.
    Os(i32),
}

/// What a poll of an acceptor returns: nothing yet, a connection with the
/// address of its peer, or the failure that ends the loop.
pub type Accepted<Io> = Poll<Result<(Io, Address), AcceptError>>;

/// Represents a acceptor type.
pub trait Acceptor: Sized {
    /// IO stream type.
    type Io;

    /// What `local_addr` may report of this acceptor. An implementation
    /// that says nothing leaves every report open.
    open spec fn reports(&self, addr: Result<LocalAddr, BindError>) -> bool {
        true
    }

    /// The steps this acceptor can take: polled in state `pre` it may answer
    /// `polled` and be left in state `post`. Each implementation says what its
    /// own steps are; nothing is asked of them here.
    open spec fn accepts(pre: Self, post: Self, polled: Accepted<Self::Io>) -> bool {
        true
    }

    /// Returns the local address that this listener is bound to.
    fn local_addr(&self) -> (addr: Result<LocalAddr, BindError>)
        ensures
            self.reports(addr),
    ;

    /// Polls for a new incoming connection from this listener.
    ///
    /// Answers `Ready` once a connection is established, with the IO stream
    /// and the remote peer's address, or once the listener has failed.
    fn poll_accept(&mut self, cx: &mut Context<'_>) -> (polled: Accepted<Self::Io>)
        ensures
            Self::accepts(*old(self), *final(self), polled),
            forall|addr: Result<LocalAddr, BindError>| #[trigger]
                final(self).reports(addr) == old(self).reports(addr),
    ;
}

/// Represents a type that can be converted to a acceptor.
pub trait IntoAcceptor: Sized {
    /// The acceptor type.
    type Acceptor: Acceptor;

    /// The outcomes of binding: `made` is what `into_acceptor` may return for
    /// this listener.
    open spec fn binds(self, made: Result<Self::Acceptor, BindError>) -> bool {
        true
    }

    /// Create a acceptor instance. This is the only step that binds anything.
    fn into_acceptor(self) -> (made: Result<Self::Acceptor, BindError>)
        ensures
            self.binds(made),
    ;

    /// Combine two listeners.
    ///
    /// You can call this function multiple times to combine more listeners.
    fn combine<T>(self, other: T) -> (both: CombinedListener<Self, T>)
        ensures
            both.left() == self,
            both.right() == other,
    {
        CombinedListener::new(self, other)
    }

    /// Consume this listener and return a new TLS listener, whose handshakes
    /// `engine` does.
    fn tls<H>(self, config: TlsConfig, engine: H) -> (secured: TlsListener<Self, H>)
        ensures
            secured.inner() == self,
            secured.config() == config,
            secured.engine() == engine,
    {
        TlsListener::new(config, self, engine)
    }
}

} // verus!
