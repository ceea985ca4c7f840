//! TLS in front of an acceptor.

use super::{Accepted, AcceptError, Acceptor, Address, BindError, IntoAcceptor, LocalAddr, Poll};
use std::task::{Context, Waker};
use vstd::prelude::*;
use vstd::string::StringExecFns;

verus! {

/// Why a TLS handshake failed. Such a failure ends one connection attempt
/// and nothing else.
#[derive(Debug, Clone, PartialEq, Eq)]
pub struct HandshakeError {
    /// What the TLS implementation said of the failure.
    pub description: String,
}

/// What a handshake needs: the certificate chain, the private key, and the
/// protocols offered for negotiation, most wanted first.
pub struct TlsConfig {
    cert: Vec<u8>,
    key: Vec<u8>,
    alpn: Vec<Vec<u8>>,
}

impl TlsConfig {
    /// The certificate chain.
    pub closed spec fn certificate(self) -> Seq<u8> {
        self.cert@
    }

    /// The private key.
    pub closed spec fn private_key(self) -> Seq<u8> {
        self.key@
    }

    /// The protocols offered, most wanted first.
    pub closed spec fn protocols(self) -> Seq<Vec<u8>> {
        self.alpn@
    }

    /// Create a new tls config object.
    pub fn new() -> (config: Self)
        ensures
            config.certificate() == Seq::<u8>::empty(),
            config.private_key() == Seq::<u8>::empty(),
            config.protocols() == Seq::<Vec<u8>>::empty(),
    {
        TlsConfig { cert: Vec::new(), key: Vec::new(), alpn: Vec::new() }
    }

    /// Sets the certificate chain.
    pub fn cert(self, cert: Vec<u8>) -> (config: Self)
        ensures
            config.certificate() == cert@,
            config.private_key() == self.private_key(),
            config.protocols() == self.protocols(),
    {
        TlsConfig { cert, key: self.key, alpn: self.alpn }
    }

    /// Sets the private key.
    pub fn key(self, key: Vec<u8>) -> (config: Self)
        ensures
            config.certificate() == self.certificate(),
            config.private_key() == key@,
            config.protocols() == self.protocols(),
    {
        TlsConfig { cert: self.cert, key, alpn: self.alpn }
    }

    /// Sets the protocols offered for negotiation, most wanted first.
    pub fn alpn(self, protocols: Vec<Vec<u8>>) -> (config: Self)
        ensures
            config.certificate() == self.certificate(),
            config.private_key() == self.private_key(),
            config.protocols() == protocols@,
    {
        TlsConfig { cert: self.cert, key: self.key, alpn: protocols }
    }

    /// The certificate chain.
    pub fn cert_bytes(&self) -> (cert: &Vec<u8>)
        ensures
            cert@ == self.certificate(),
    {
        &self.cert
    }

    /// The private key.
    pub fn key_bytes(&self) -> (key: &Vec<u8>)
        ensures
            key@ == self.private_key(),
    {
        &self.key
    }

    /// The protocols offered, most wanted first.
    pub fn alpn_protocols(&self) -> (protocols: &Vec<Vec<u8>>)
        ensures
            protocols@ == self.protocols(),
    {
        &self.alpn
    }
}

/// What one poll of a handshake returns.
pub type Shaken<Stream> = Poll<Result<Stream, HandshakeError>>;

/// The TLS implementation that does the handshakes on streams of type `Io`.
///
/// Each implementation says what its own steps are; nothing is asked of
/// them here, so what is proved of an acceptor holds whatever they return.
pub trait Handshaker<Io> {
    /// The encrypted stream that a handshake gives.
    type Stream;

    /// A handshake in progress.
    type Session;

    /// What `accepts_config` may say of `config`.
    open spec fn judges(&self, config: TlsConfig, usable: bool) -> bool {
        true
    }

    /// What `start` may return for `io` under `config`.
    open spec fn starts(&self, io: Io, config: TlsConfig, session: Self::Session) -> bool {
        true
    }

    /// The steps a handshake can take: polled in state `pre` it may answer
    /// `polled` and be left in state `post`.
    open spec fn advances(
        &self,
        pre: Self::Session,
        post: Self::Session,
        polled: Shaken<Self::Stream>,
    ) -> bool {
        true
    }

    /// Whether the certificate chain and the private key of `config` can be
    /// used.
    fn accepts_config(&self, config: &TlsConfig) -> (usable: bool)
        ensures
            self.judges(*config, usable),
    ;

    /// Begins a handshake on `io` with the configuration as it is now.
    fn start(&self, io: Io, config: &TlsConfig) -> (session: Self::Session)
        ensures
            self.starts(io, *config, session),
    ;

    /// Drives the handshake on.
    fn poll_handshake(&self, session: &mut Self::Session, cx: &mut Context<'_>) -> (polled: Shaken<
        Self::Stream,
    >)
        ensures
            self.advances(*old(session), *final(session), polled),
    ;
}

/// A handshaker that does no handshake: the stream is handed on as it is,
/// at the first poll. For a listener behind a proxy that has ended TLS
/// already.
pub struct Cleartext;

impl<Io> Handshaker<Io> for Cleartext {
    type Stream = Io;

    /// The stream, until it is handed on.
    type Session = Option<Io>;

    /// Any configuration will do, since none is read.
    open spec fn judges(&self, config: TlsConfig, usable: bool) -> bool {
        usable
    }

    open spec fn starts(&self, io: Io, config: TlsConfig, session: Option<Io>) -> bool {
        session == Some(io)
    }

    /// The first poll hands the stream on. A session that is polled again
    /// has nothing left to give and fails.
    open spec fn advances(&self, pre: Option<Io>, post: Option<Io>, polled: Shaken<Io>) -> bool {
        &&& post is None
        &&& match pre {
            Some(io) => polled == Poll::<Result<Io, HandshakeError>>::Ready(Ok(io)),
            None => polled is Ready && polled->Ready_0 is Err,
        }
    }

    fn accepts_config(&self, config: &TlsConfig) -> (usable: bool) {
        true
    }

    fn start(&self, io: Io, config: &TlsConfig) -> (session: Option<Io>) {
        Some(io)
    }

    fn poll_handshake(&self, session: &mut Option<Io>, cx: &mut Context<'_>) -> (polled: Shaken<
        Io,
    >) {
        match session.take() {
            Some(io) => Poll::Ready(Ok(io)),
            None => Poll::Ready(
                Err(HandshakeError { description: String::from_str("the stream was handed on") }),
            ),
        }
    }
}

/// A connection that was accepted and whose handshake is in progress.
pub struct InFlight<S> {
    /// The handshake.
    pub session: S,
    /// The address that the inner acceptor gave for the connection.
    pub addr: Address,
}

/// A handshake that failed, with the address of the peer.
#[derive(Debug, PartialEq, Eq)]
pub struct HandshakeFailure {
    /// The address that the inner acceptor gave for the connection.
    pub addr: Address,
    /// Why the handshake failed.
    pub error: HandshakeError,
}

/// One pass over the handshakes in progress, in their order: each is polled
/// once, until one has finished well. `pre` are the handshakes before the
/// pass, `post` those still in progress after it, `failed` the failures met
/// on the way, and `delivered` the stream of the handshake that finished
/// well, with the address its connection had, if one did.
///
/// A handshake that fails leaves the list and is recorded. A handshake that
/// finishes well leaves the list and ends the pass; those behind it are not
/// polled.
pub open spec fn scanned<Io, H: Handshaker<Io>>(
    engine: H,
    pre: Seq<InFlight<H::Session>>,
    post: Seq<InFlight<H::Session>>,
    failed: Seq<HandshakeFailure>,
    delivered: Option<(H::Stream, Address)>,
) -> bool
    decreases pre.len(),
{
    if pre.len() == 0 {
        post.len() == 0 && failed.len() == 0 && delivered is None
    } else {
        exists|after: H::Session, polled: Shaken<H::Stream>| #[trigger]
            engine.advances(pre[0].session, after, polled) && match polled {
                Poll::Ready(Ok(stream)) => {
                    &&& delivered == Some((stream, pre[0].addr))
                    &&& post == pre.skip(1)
                    &&& failed.len() == 0
                },
                Poll::Ready(Err(error)) => {
                    &&& failed.len() > 0
                    &&& failed[0] == (HandshakeFailure { addr: pre[0].addr, error })
                    &&& scanned::<Io, H>(engine, pre.skip(1), post, failed.skip(1), delivered)
                },
                Poll::Pending => {
                    &&& post.len() > 0
                    &&& post[0] == (InFlight { session: after, addr: pre[0].addr })
                    &&& scanned::<Io, H>(engine, pre.skip(1), post.skip(1), failed, delivered)
                },
            }
    }
}

/// Polls the handshakes in progress once each, in their order, until one has
/// finished well.
fn scan<Io, H: Handshaker<Io>>(
    engine: &H,
    pending: &mut Vec<InFlight<H::Session>>,
    failures: &mut Vec<HandshakeFailure>,
    cx: &mut Context<'_>,
) -> (delivered: Option<(H::Stream, Address)>)
    ensures
        final(failures)@.len() >= old(failures)@.len(),
        final(failures)@.take(old(failures)@.len() as int) == old(failures)@,
        scanned::<Io, H>(
            *engine,
            old(pending)@,
            final(pending)@,
            final(failures)@.skip(old(failures)@.len() as int),
            delivered,
        ),
{
    let ghost orig = pending@;
    let ghost base = failures@;
    let mut i: usize = 0;
    proof {
        assert(pending@.skip(0) =~= orig);
        assert forall|p: Seq<InFlight<H::Session>>, f: Seq<HandshakeFailure>, d: Option<(H::Stream, Address)>| #[trigger]
            scanned::<Io, H>(*engine, pending@.skip(0), p, f, d) implies scanned::<Io, H>(
            *engine,
            orig,
            pending@.take(0) + p,
            failures@.skip(base.len() as int) + f,
            d,
        ) by {
            assert(pending@.take(0) + p =~= p);
            assert(failures@.skip(base.len() as int) + f =~= f);
        }
    }
    while i < pending.len()
        invariant
            i <= pending.len(),
            orig == old(pending)@,
            base == old(failures)@,
            failures@.len() >= base.len(),
            failures@.take(base.len() as int) == base,
            forall|p: Seq<InFlight<H::Session>>, f: Seq<HandshakeFailure>, d: Option<(H::Stream, Address)>| #[trigger]
                scanned::<Io, H>(*engine, pending@.skip(i as int), p, f, d) ==> scanned::<Io, H>(
                    *engine,
                    orig,
                    pending@.take(i as int) + p,
                    failures@.skip(base.len() as int) + f,
                    d,
                ),
        decreases pending.len() - i,
    {
        let ghost before = pending@;
        let ghost fails = failures@.skip(base.len() as int);
        let polled = engine.poll_handshake(&mut pending[i].session, cx);
        let ghost polled_now = pending@;
        let ghost rest = before.skip(i as int);
        let ghost kept = before.take(i as int);
        proof {
            assert(rest.len() > 0 && rest[0] == before[i as int]);
            assert(polled_now.take(i as int) =~= kept);
            assert(polled_now.skip(i + 1) =~= rest.skip(1));
        }
        match polled {
            Poll::Pending => {
                proof {
                    let stays = polled_now[i as int];
                    assert forall|p: Seq<InFlight<H::Session>>, f: Seq<HandshakeFailure>, d: Option<(H::Stream, Address)>| #[trigger]
                        scanned::<Io, H>(*engine, pending@.skip(i + 1), p, f, d) implies scanned::<Io, H>(
                        *engine,
                        orig,
                        pending@.take(i + 1) + p,
                        failures@.skip(base.len() as int) + f,
                        d,
                    ) by {
                        let longer = seq![stays] + p;
                        assert(longer.skip(1) =~= p);
                        assert(engine.advances(rest[0].session, stays.session, polled));
                        assert(scanned::<Io, H>(*engine, rest, longer, f, d));
                        assert(kept + longer =~= pending@.take(i + 1) + p);
                    }
                }
                i += 1;
            },
            Poll::Ready(Err(error)) => {
                let flight = pending.remove(i);
                failures.push(HandshakeFailure { addr: flight.addr, error });
                proof {
                    let record = HandshakeFailure { addr: flight.addr, error };
                    assert(pending@.skip(i as int) =~= rest.skip(1));
                    assert(pending@.take(i as int) =~= kept);
                    assert(failures@.take(base.len() as int) =~= base);
                    assert(failures@.skip(base.len() as int) =~= fails.push(record));
                    assert forall|p: Seq<InFlight<H::Session>>, f: Seq<HandshakeFailure>, d: Option<(H::Stream, Address)>| #[trigger]
                        scanned::<Io, H>(*engine, pending@.skip(i as int), p, f, d) implies scanned::<Io, H>(
                        *engine,
                        orig,
                        pending@.take(i as int) + p,
                        failures@.skip(base.len() as int) + f,
                        d,
                    ) by {
                        let longer = seq![record] + f;
                        assert(longer.skip(1) =~= f);
                        assert(engine.advances(rest[0].session, flight.session, polled));
                        assert(scanned::<Io, H>(*engine, rest, p, longer, d));
                        assert(fails + longer =~= failures@.skip(base.len() as int) + f);
                    }
                }
            },
            Poll::Ready(Ok(stream)) => {
                let flight = pending.remove(i);
                proof {
                    let d = Some((stream, flight.addr));
                    let none = Seq::<HandshakeFailure>::empty();
                    assert(engine.advances(rest[0].session, flight.session, polled));
                    assert(scanned::<Io, H>(*engine, rest, rest.skip(1), none, d));
                    assert(kept + rest.skip(1) =~= pending@);
                    assert(fails + none =~= failures@.skip(base.len() as int));
                }
                return Some((stream, flight.addr));
            },
        }
    }
    proof {
        let none = Seq::<HandshakeFailure>::empty();
        let nothing = Seq::<InFlight<H::Session>>::empty();
        assert(pending@.skip(i as int) =~= nothing);
        assert(scanned::<Io, H>(*engine, pending@.skip(i as int), nothing, none, None));
        assert(pending@.take(i as int) + nothing =~= pending@);
        assert(failures@.skip(base.len() as int) + none =~= failures@.skip(base.len() as int));
    }
    None
}

/// `std::task::Waker`: the handle that wakes the task that polls.
#[verifier::external_type_specification]
#[verifier::external_body]
pub struct ExWaker(Waker);

/// `Context::waker`: the waker of the task that polls.
pub assume_specification<'a>[ Context::<'a>::waker ](cx: &Context<'a>) -> (waker: &'a Waker);

/// `Waker::wake_by_ref`: asks that the task be polled again.
pub assume_specification[ Waker::wake_by_ref ](waker: &Waker);

/// A wrapper around an underlying listener which implements the TLS protocol.
pub struct TlsListener<T, H> {
    inner: T,
    config: TlsConfig,
    engine: H,
}

impl<T, H> TlsListener<T, H> {
    /// The listener whose connections are wrapped.
    pub closed spec fn inner(self) -> T {
        self.inner
    }

    /// The configuration that handshakes start with.
    pub closed spec fn config(self) -> TlsConfig {
        self.config
    }

    /// The TLS implementation.
    pub closed spec fn engine(self) -> H {
        self.engine
    }

    /// Puts TLS in front of `inner`. Nothing is bound or checked yet.
    pub fn new(config: TlsConfig, inner: T, engine: H) -> (listener: Self)
        ensures
            listener.inner() == inner,
            listener.config() == config,
            listener.engine() == engine,
    {
        TlsListener { inner, config, engine }
    }
}

/// A TLS or SSL protected acceptor.
pub struct TlsAcceptor<T: Acceptor, H: Handshaker<T::Io>> {
    inner: T,
    engine: H,
    config: TlsConfig,
    pending: Vec<InFlight<H::Session>>,
    failures: Vec<HandshakeFailure>,
}

impl<T: Acceptor, H: Handshaker<T::Io>> TlsAcceptor<T, H> {
    /// The acceptor whose connections are wrapped.
    pub closed spec fn inner(self) -> T {
        self.inner
    }

    /// The TLS implementation.
    pub closed spec fn engine(self) -> H {
        self.engine
    }

    /// The configuration that the next handshake starts with.
    pub closed spec fn config(self) -> TlsConfig {
        self.config
    }

    /// The handshakes in progress, oldest first.
    pub closed spec fn in_flight(self) -> Seq<InFlight<H::Session>> {
        self.pending@
    }

    /// The failed handshakes that nobody has collected yet, oldest first.
    pub closed spec fn failed(self) -> Seq<HandshakeFailure> {
        self.failures@
    }

    /// Puts TLS in front of `inner`.
    pub fn new(inner: T, engine: H, config: TlsConfig) -> (acceptor: Self)
        ensures
            acceptor.inner() == inner,
            acceptor.engine() == engine,
            acceptor.config() == config,
            acceptor.in_flight().len() == 0,
            acceptor.failed().len() == 0,
    {
        TlsAcceptor { inner, engine, config, pending: Vec::new(), failures: Vec::new() }
    }

    /// Replaces the configuration. Handshakes that start from now on read
    /// the new one; those in progress go on with what they started with.
    pub fn reload(&mut self, config: TlsConfig)
        ensures
            final(self).config() == config,
            final(self).in_flight() == old(self).in_flight(),
            final(self).failed() == old(self).failed(),
            final(self).inner() == old(self).inner(),
            final(self).engine() == old(self).engine(),
    {
        self.config = config;
    }

    /// How many handshakes are in progress.
    pub fn handshakes_in_flight(&self) -> (n: usize)
        ensures
            n == self.in_flight().len(),
    {
        self.pending.len()
    }

    /// Hands over the failed handshakes met since the last call, oldest
    /// first.
    pub fn take_failures(&mut self) -> (failures: Vec<HandshakeFailure>)
        ensures
            failures@ == old(self).failed(),
            final(self).failed().len() == 0,
            final(self).in_flight() == old(self).in_flight(),
            final(self).config() == old(self).config(),
            final(self).inner() == old(self).inner(),
            final(self).engine() == old(self).engine(),
    {
        let mut failures: Vec<HandshakeFailure> = Vec::new();
        std::mem::swap(&mut self.failures, &mut failures);
        failures
    }

    /// The handshakes in progress once the inner acceptor has answered
    /// `polled`: a new connection starts a handshake, with the configuration
    /// as it is then, behind those in progress.
    pub open spec fn admitted(
        pre: Self,
        polled: Accepted<T::Io>,
        now: Seq<InFlight<H::Session>>,
    ) -> bool {
        match polled {
            Poll::Ready(Ok((io, addr))) => exists|session: H::Session| #[trigger]
                pre.engine().starts(io, pre.config(), session) && now == pre.in_flight().push(
                    InFlight { session, addr },
                ),
            _ => now == pre.in_flight(),
        }
    }

    /// The answer when the pass over the handshakes has `delivered`.
    pub open spec fn answered(delivered: Option<(H::Stream, Address)>) -> Accepted<H::Stream> {
        match delivered {
            Some(conn) => Poll::Ready(Ok(conn)),
            None => Poll::Pending,
        }
    }

    /// A step in which the inner acceptor answers `polled` and has not
    /// failed.
    pub open spec fn goes_on(
        pre: Self,
        post: Self,
        polled: Accepted<T::Io>,
        answer: Accepted<H::Stream>,
    ) -> bool {
        exists|now: Seq<InFlight<H::Session>>, delivered: Option<(H::Stream, Address)>|
            {
                &&& #[trigger] Self::admitted(pre, polled, now)
                &&& post.failed().len() >= pre.failed().len()
                &&& post.failed().take(pre.failed().len() as int) == pre.failed()
                &&& #[trigger] scanned::<T::Io, H>(
                    pre.engine(),
                    now,
                    post.in_flight(),
                    post.failed().skip(pre.failed().len() as int),
                    delivered,
                )
                &&& answer == Self::answered(delivered)
            }
    }
}

impl<T: Acceptor, H: Handshaker<T::Io>> Acceptor for TlsAcceptor<T, H> {
    type Io = H::Stream;

    /// The address of the inner acceptor.
    open spec fn reports(&self, addr: Result<LocalAddr, BindError>) -> bool {
        self.inner().reports(addr)
    }

    /// One poll asks the inner acceptor once. If it has failed, that is the
    /// answer, and nothing else has changed. Else a connection that it gave
    /// starts a handshake, and the handshakes in progress are polled in their
    /// order: the first that has finished well gives the answer, a stream
    /// with the address that the inner acceptor gave for it; those that have
    /// failed are dropped and recorded, and never give an answer.
    open spec fn accepts(pre: Self, post: Self, answer: Accepted<Self::Io>) -> bool {
        &&& post.config() == pre.config()
        &&& post.engine() == pre.engine()
        &&& exists|polled: Accepted<T::Io>| #[trigger]
            T::accepts(pre.inner(), post.inner(), polled) && match polled {
                Poll::Ready(Err(e)) => {
                    &&& answer == Poll::<Result<(H::Stream, Address), AcceptError>>::Ready(Err(e))
                    &&& post.in_flight() == pre.in_flight()
                    &&& post.failed() == pre.failed()
                },
                _ => Self::goes_on(pre, post, polled, answer),
            }
    }

    fn local_addr(&self) -> (addr: Result<LocalAddr, BindError>) {
        self.inner.local_addr()
    }

    fn poll_accept(&mut self, cx: &mut Context<'_>) -> (answer: Accepted<Self::Io>) {
        let polled = self.inner.poll_accept(cx);
        assert(T::accepts(old(self).inner(), self.inner(), polled));
        let admitted = match polled {
            Poll::Ready(Err(e)) => {
                return Poll::Ready(Err(e));
            },
            Poll::Ready(Ok((io, addr))) => {
                let session = self.engine.start(io, &self.config);
                self.pending.push(InFlight { session, addr });
                assert(old(self).engine().starts(io, old(self).config(), session));
                assert(Self::admitted(*old(self), polled, self.pending@));
                true
            },
            Poll::Pending => {
                assert(Self::admitted(*old(self), polled, self.pending@));
                false
            },
        };
        let ghost now = self.pending@;
        let delivered = scan::<T::Io, H>(&self.engine, &mut self.pending, &mut self.failures, cx);
        let answer = match delivered {
            Some(conn) => Poll::Ready(Ok(conn)),
            None => {
                if admitted {
                    cx.waker().wake_by_ref();
                }
                Poll::Pending
            },
        };
        assert(Self::goes_on(*old(self), *self, polled, answer)) by {
            assert(Self::admitted(*old(self), polled, now));
            assert(scanned::<T::Io, H>(
                old(self).engine(),
                now,
                self.in_flight(),
                self.failed().skip(old(self).failed().len() as int),
                delivered,
            ));
        }
        assert(T::accepts(old(self).inner(), self.inner(), polled));
        answer
    }
}

impl<T: IntoAcceptor, H: Handshaker<<T::Acceptor as Acceptor>::Io>> IntoAcceptor for TlsListener<
    T,
    H,
> {
    type Acceptor = TlsAcceptor<T::Acceptor, H>;

    /// The inner listener is bound first, and its error is the outcome if it
    /// fails. Then the TLS implementation judges the configuration: if it
    /// cannot use it, the outcome is `InvalidCertificate`; else it is an
    /// acceptor with no handshake in progress.
    open spec fn binds(self, made: Result<Self::Acceptor, BindError>) -> bool {
        match made {
            Ok(acceptor) => {
                &&& self.inner().binds(Ok(acceptor.inner()))
                &&& self.engine().judges(self.config(), true)
                &&& acceptor.engine() == self.engine()
                &&& acceptor.config() == self.config()
                &&& acceptor.in_flight().len() == 0
                &&& acceptor.failed().len() == 0
            },
            Err(e) => {
                ||| self.inner().binds(Err(e))
                ||| e == BindError::InvalidCertificate && self.engine().judges(self.config(), false)
                    && exists|inner: T::Acceptor| self.inner().binds(Ok(inner))
            },
        }
    }

    fn into_acceptor(self) -> (made: Result<Self::Acceptor, BindError>) {
        match self.inner.into_acceptor() {
            Err(e) => Err(e),
            Ok(inner) => {
                if self.engine.accepts_config(&self.config) {
                    Ok(TlsAcceptor::new(inner, self.engine, self.config))
                } else {
                    assert(self.inner().binds(Ok(inner)));
                    Err(BindError::InvalidCertificate)
                }
            },
        }
    }
}

/// No connection is lost in a pass: each handshake that was in progress
/// before it is still in progress, has failed and is recorded, or is the one
/// delivered.
pub proof fn lemma_scan_accounts_for_all<Io, H: Handshaker<Io>>(
    engine: H,
    pre: Seq<InFlight<H::Session>>,
    post: Seq<InFlight<H::Session>>,
    failed: Seq<HandshakeFailure>,
    delivered: Option<(H::Stream, Address)>,
)
    requires
        scanned::<Io, H>(engine, pre, post, failed, delivered),
    ensures
        pre.len() == post.len() + failed.len() + (if delivered is Some {
            1nat
        } else {
            0nat
        }),
    decreases pre.len(),
{
    if pre.len() > 0 {
        let (after, polled) = choose|after: H::Session, polled: Shaken<H::Stream>| #[trigger]
            engine.advances(pre[0].session, after, polled) && match polled {
                Poll::Ready(Ok(stream)) => {
                    &&& delivered == Some((stream, pre[0].addr))
                    &&& post == pre.skip(1)
                    &&& failed.len() == 0
                },
                Poll::Ready(Err(error)) => {
                    &&& failed.len() > 0
                    &&& failed[0] == (HandshakeFailure { addr: pre[0].addr, error })
                    &&& scanned::<Io, H>(engine, pre.skip(1), post, failed.skip(1), delivered)
                },
                Poll::Pending => {
                    &&& post.len() > 0
                    &&& post[0] == (InFlight { session: after, addr: pre[0].addr })
                    &&& scanned::<Io, H>(engine, pre.skip(1), post.skip(1), failed, delivered)
                },
            };
        match polled {
            Poll::Ready(Ok(_)) => {},
            Poll::Ready(Err(_)) => {
                lemma_scan_accounts_for_all::<Io, H>(
                    engine,
                    pre.skip(1),
                    post,
                    failed.skip(1),
                    delivered,
                );
            },
            Poll::Pending => {
                lemma_scan_accounts_for_all::<Io, H>(
                    engine,
                    pre.skip(1),
                    post.skip(1),
                    failed,
                    delivered,
                );
            },
        }
    }
}

/// The stream that a pass delivers carries the address of one of the
/// handshakes that were in progress, as it was, and that handshake had
/// finished well.
pub proof fn lemma_scan_delivers_one_of_them<Io, H: Handshaker<Io>>(
    engine: H,
    pre: Seq<InFlight<H::Session>>,
    post: Seq<InFlight<H::Session>>,
    failed: Seq<HandshakeFailure>,
    stream: H::Stream,
    addr: Address,
)
    requires
        scanned::<Io, H>(engine, pre, post, failed, Some((stream, addr))),
    ensures
        exists|i: int, after: H::Session|
            0 <= i < pre.len() && pre[i].addr == addr && #[trigger] engine.advances(
                pre[i].session,
                after,
                Poll::Ready(Ok(stream)),
            ),
    decreases pre.len(),
{
    let delivered = Some((stream, addr));
    let (after, polled) = choose|after: H::Session, polled: Shaken<H::Stream>| #[trigger]
        engine.advances(pre[0].session, after, polled) && match polled {
            Poll::Ready(Ok(stream)) => {
                &&& delivered == Some((stream, pre[0].addr))
                &&& post == pre.skip(1)
                &&& failed.len() == 0
            },
            Poll::Ready(Err(error)) => {
                &&& failed.len() > 0
                &&& failed[0] == (HandshakeFailure { addr: pre[0].addr, error })
                &&& scanned::<Io, H>(engine, pre.skip(1), post, failed.skip(1), delivered)
            },
            Poll::Pending => {
                &&& post.len() > 0
                &&& post[0] == (InFlight { session: after, addr: pre[0].addr })
                &&& scanned::<Io, H>(engine, pre.skip(1), post.skip(1), failed, delivered)
            },
        };
    match polled {
        Poll::Ready(Ok(_)) => {
            assert(pre[0].addr == addr && engine.advances(
                pre[0].session,
                after,
                Poll::Ready(Ok(stream)),
            ));
        },
        Poll::Ready(Err(_)) => {
            lemma_scan_delivers_one_of_them::<Io, H>(
                engine,
                pre.skip(1),
                post,
                failed.skip(1),
                stream,
                addr,
            );
            let (i, later) = choose|i: int, later: H::Session|
                0 <= i < pre.skip(1).len() && pre.skip(1)[i].addr == addr
                    && #[trigger] engine.advances(
                    pre.skip(1)[i].session,
                    later,
                    Poll::Ready(Ok(stream)),
                );
            assert(pre[i + 1].addr == addr && engine.advances(
                pre[i + 1].session,
                later,
                Poll::Ready(Ok(stream)),
            ));
        },
        Poll::Pending => {
            lemma_scan_delivers_one_of_them::<Io, H>(
                engine,
                pre.skip(1),
                post.skip(1),
                failed,
                stream,
                addr,
            );
            let (i, later) = choose|i: int, later: H::Session|
                0 <= i < pre.skip(1).len() && pre.skip(1)[i].addr == addr
                    && #[trigger] engine.advances(
                    pre.skip(1)[i].session,
                    later,
                    Poll::Ready(Ok(stream)),
                );
            assert(pre[i + 1].addr == addr && engine.advances(
                pre[i + 1].session,
                later,
                Poll::Ready(Ok(stream)),
            ));
        },
    }
}

/// A failed handshake is never fatal: when a TLS acceptor answers with an
/// error, the inner acceptor has given that error in this very step, and no
/// handshake was touched.
pub proof fn lemma_only_the_listener_is_fatal<T: Acceptor, H: Handshaker<T::Io>>(
    pre: TlsAcceptor<T, H>,
    post: TlsAcceptor<T, H>,
    e: AcceptError,
)
    requires
        TlsAcceptor::<T, H>::accepts(pre, post, Poll::Ready(Err(e))),
    ensures
        T::accepts(pre.inner(), post.inner(), Poll::Ready(Err(e))),
        post.in_flight() == pre.in_flight(),
        post.failed() == pre.failed(),
{
}

/// The address passes through TLS unchanged: the address that comes with a
/// stream is the one that the inner acceptor gave for its connection, in
/// this step or in an earlier one.
pub proof fn lemma_address_passes_through<T: Acceptor, H: Handshaker<T::Io>>(
    pre: TlsAcceptor<T, H>,
    post: TlsAcceptor<T, H>,
    stream: H::Stream,
    addr: Address,
)
    requires
        TlsAcceptor::<T, H>::accepts(pre, post, Poll::Ready(Ok((stream, addr)))),
    ensures
        ({
            ||| exists|i: int| 0 <= i < pre.in_flight().len() && #[trigger] pre.in_flight()[i].addr == addr
            ||| exists|io: T::Io| #[trigger]
                T::accepts(pre.inner(), post.inner(), Poll::Ready(Ok((io, addr))))
        }),
{
    let answer: Accepted<H::Stream> = Poll::Ready(Ok((stream, addr)));
    let polled = choose|polled: Accepted<T::Io>| #[trigger]
        T::accepts(pre.inner(), post.inner(), polled) && match polled {
            Poll::Ready(Err(e)) => {
                &&& answer == Poll::<Result<(H::Stream, Address), AcceptError>>::Ready(Err(e))
                &&& post.in_flight() == pre.in_flight()
                &&& post.failed() == pre.failed()
            },
            _ => TlsAcceptor::<T, H>::goes_on(pre, post, polled, answer),
        };
    assert(TlsAcceptor::<T, H>::goes_on(pre, post, polled, answer));
    let (now, delivered) = choose|
        now: Seq<InFlight<H::Session>>,
        delivered: Option<(H::Stream, Address)>,
    |
        {
            &&& #[trigger] TlsAcceptor::<T, H>::admitted(pre, polled, now)
            &&& post.failed().len() >= pre.failed().len()
            &&& post.failed().take(pre.failed().len() as int) == pre.failed()
            &&& #[trigger] scanned::<T::Io, H>(
                pre.engine(),
                now,
                post.in_flight(),
                post.failed().skip(pre.failed().len() as int),
                delivered,
            )
            &&& answer == TlsAcceptor::<T, H>::answered(delivered)
        };
    assert(delivered == Some((stream, addr)));
    lemma_scan_delivers_one_of_them::<T::Io, H>(
        pre.engine(),
        now,
        post.in_flight(),
        post.failed().skip(pre.failed().len() as int),
        stream,
        addr,
    );
    let (i, after) = choose|i: int, after: H::Session|
        0 <= i < now.len() && now[i].addr == addr && #[trigger] pre.engine().advances(
            now[i].session,
            after,
            Poll::Ready(Ok(stream)),
        );
    if i < pre.in_flight().len() {
        assert(pre.in_flight()[i].addr == addr);
    } else {
        match polled {
            Poll::Ready(Ok((io, given))) => {
                assert(given == addr);
                assert(T::accepts(pre.inner(), post.inner(), Poll::Ready(Ok((io, addr)))));
            },
            _ => {},
        }
    }
}

/// Without a handshake nothing waits: when no connection is in flight and
/// the inner acceptor gives a connection, a cleartext acceptor hands that
/// connection out in the same step, with the address it came with, and
/// nothing is in flight afterwards.
pub proof fn lemma_cleartext_delivers_at_once<T: Acceptor>(
    pre: TlsAcceptor<T, Cleartext>,
    post: TlsAcceptor<T, Cleartext>,
    io: T::Io,
    addr: Address,
    answer: Accepted<T::Io>,
)
    requires
        TlsAcceptor::<T, Cleartext>::accepts(pre, post, answer),
        pre.in_flight().len() == 0,
        forall|after: T, polled: Accepted<T::Io>| #[trigger]
            T::accepts(pre.inner(), after, polled) ==> polled == Poll::<
                Result<(T::Io, Address), AcceptError>,
            >::Ready(Ok((io, addr))),
    ensures
        answer == Poll::<Result<(T::Io, Address), AcceptError>>::Ready(Ok((io, addr))),
        post.in_flight().len() == 0,
        post.failed() == pre.failed(),
{
    let polled = choose|polled: Accepted<T::Io>| #[trigger]
        T::accepts(pre.inner(), post.inner(), polled) && match polled {
            Poll::Ready(Err(e)) => {
                &&& answer == Poll::<Result<(T::Io, Address), AcceptError>>::Ready(Err(e))
                &&& post.in_flight() == pre.in_flight()
                &&& post.failed() == pre.failed()
            },
            _ => TlsAcceptor::<T, Cleartext>::goes_on(pre, post, polled, answer),
        };
    assert(TlsAcceptor::<T, Cleartext>::goes_on(pre, post, polled, answer));
    let (now, delivered) = choose|
        now: Seq<InFlight<Option<T::Io>>>,
        delivered: Option<(T::Io, Address)>,
    |
        {
            &&& #[trigger] TlsAcceptor::<T, Cleartext>::admitted(pre, polled, now)
            &&& post.failed().len() >= pre.failed().len()
            &&& post.failed().take(pre.failed().len() as int) == pre.failed()
            &&& #[trigger] scanned::<T::Io, Cleartext>(
                pre.engine(),
                now,
                post.in_flight(),
                post.failed().skip(pre.failed().len() as int),
                delivered,
            )
            &&& answer == TlsAcceptor::<T, Cleartext>::answered(delivered)
        };
    let session = choose|session: Option<T::Io>| #[trigger]
        pre.engine().starts(io, pre.config(), session) && now == pre.in_flight().push(
            InFlight { session, addr },
        );
    assert(now.len() == 1 && now[0] == (InFlight { session: Some(io), addr }));
    assert(post.failed() =~= pre.failed());
}

} // verus!
