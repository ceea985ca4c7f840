use poem::listener::{
    AcceptError, Accepted, Acceptor, Address, BindError, Cleartext, HandshakeError,
    HandshakeFailure, Handshaker, IntoAcceptor, Ip, LocalAddr, Poll, Shaken, TlsAcceptor,
    TlsConfig, TlsListener,
};
use std::cell::RefCell;
use std::collections::VecDeque;
use std::rc::Rc;
use std::task::{Context, Wake, Waker};
use std::sync::atomic::{AtomicUsize, Ordering};
use std::sync::Arc;

const LOCALHOST: Ip = Ip::V4(0x7f00_0001);

/// What a client does once it is connected.
#[derive(Clone, Debug, PartialEq)]
enum Client {
    /// Completes the handshake after so many polls that find nothing.
    Valid(usize),
    /// Sends bytes that are no TLS.
    Garbage,
    /// Never sends anything.
    Silent,
}

/// A plaintext stream: the number of the connection and what its client does.
#[derive(Debug, PartialEq)]
struct Plain(u32, Client);

/// An encrypted stream: the number of the connection, and the certificate
/// that the handshake was made with.
#[derive(Debug, PartialEq)]
struct Secure(u32, Vec<u8>);

struct Session {
    id: u32,
    client: Client,
    cert: Vec<u8>,
}

struct Engine;

impl Handshaker<Plain> for Engine {
    type Stream = Secure;
    type Session = Session;

    fn accepts_config(&self, config: &TlsConfig) -> bool {
        !config.cert_bytes().is_empty() && !config.key_bytes().is_empty()
    }

    fn start(&self, io: Plain, config: &TlsConfig) -> Session {
        Session { id: io.0, client: io.1, cert: config.cert_bytes().clone() }
    }

    fn poll_handshake(&self, session: &mut Session, _cx: &mut Context<'_>) -> Shaken<Secure> {
        match &mut session.client {
            Client::Valid(0) => Poll::Ready(Ok(Secure(session.id, session.cert.clone()))),
            Client::Valid(n) => {
                *n -= 1;
                Poll::Pending
            }
            Client::Garbage => Poll::Ready(Err(HandshakeError {
                description: String::from("received corrupt message"),
            })),
            Client::Silent => Poll::Pending,
        }
    }
}

struct Backlog {
    queue: VecDeque<Result<(Plain, Address), AcceptError>>,
}

impl Backlog {
    fn new() -> Self {
        Backlog { queue: VecDeque::new() }
    }

    fn connect(&mut self, id: u32, client: Client) {
        self.queue.push_back(Ok((Plain(id, client), peer(id))));
    }
}

fn peer(id: u32) -> Address {
    Address::Tcp(LOCALHOST, 50000 + id as u16)
}

struct Shared(Rc<RefCell<Backlog>>);

impl Acceptor for Shared {
    type Io = Plain;

    fn local_addr(&self) -> Result<LocalAddr, BindError> {
        Ok(LocalAddr::Socket(LOCALHOST, 8443))
    }

    fn poll_accept(&mut self, _cx: &mut Context<'_>) -> Accepted<Plain> {
        match self.0.borrow_mut().queue.pop_front() {
            Some(answer) => Poll::Ready(answer),
            None => Poll::Pending,
        }
    }
}

fn config(cert: &[u8]) -> TlsConfig {
    TlsConfig::new().cert(cert.to_vec()).key(b"key".to_vec())
}

fn acceptor() -> (Rc<RefCell<Backlog>>, TlsAcceptor<Shared, Engine>) {
    let backlog = Rc::new(RefCell::new(Backlog::new()));
    let acceptor = TlsAcceptor::new(Shared(backlog.clone()), Engine, config(b"cert-1"));
    (backlog, acceptor)
}

/// Polls long enough for every handshake that can finish to finish.
fn drain(
    acceptor: &mut TlsAcceptor<Shared, Engine>,
    backlog: &Rc<RefCell<Backlog>>,
) -> Vec<Result<(Secure, Address), AcceptError>> {
    let mut cx = Context::from_waker(Waker::noop());
    let mut out = Vec::new();
    let polls = backlog.borrow().queue.len() + 20;
    for _ in 0..polls {
        if let Poll::Ready(answer) = acceptor.poll_accept(&mut cx) {
            out.push(answer);
        }
    }
    out
}

#[test]
fn a_valid_client_gets_a_stream_and_its_address() {
    let (backlog, mut acceptor) = acceptor();
    backlog.borrow_mut().connect(1, Client::Valid(0));
    let mut cx = Context::from_waker(Waker::noop());
    assert_eq!(
        acceptor.poll_accept(&mut cx),
        Poll::Ready(Ok((Secure(1, b"cert-1".to_vec()), peer(1))))
    );
    assert_eq!(acceptor.handshakes_in_flight(), 0);
    assert_eq!(acceptor.poll_accept(&mut cx), Poll::Pending);
}

#[test]
fn garbage_fails_one_connection_and_the_next_client_succeeds() {
    let (backlog, mut acceptor) = acceptor();
    backlog.borrow_mut().connect(1, Client::Garbage);
    backlog.borrow_mut().connect(2, Client::Valid(0));
    let out = drain(&mut acceptor, &backlog);
    assert_eq!(out, vec![Ok((Secure(2, b"cert-1".to_vec()), peer(2)))]);
    assert_eq!(
        acceptor.take_failures(),
        vec![HandshakeFailure {
            addr: peer(1),
            error: HandshakeError { description: String::from("received corrupt message") },
        }]
    );
    assert_eq!(acceptor.take_failures(), vec![]);
    assert_eq!(acceptor.handshakes_in_flight(), 0);
}

#[test]
fn many_bad_clients_never_end_the_loop() {
    let (backlog, mut acceptor) = acceptor();
    for id in 0..100 {
        backlog.borrow_mut().connect(id, Client::Garbage);
    }
    backlog.borrow_mut().connect(100, Client::Valid(0));
    let out = drain(&mut acceptor, &backlog);
    assert_eq!(out, vec![Ok((Secure(100, b"cert-1".to_vec()), peer(100)))]);
    assert_eq!(acceptor.take_failures().len(), 100);
}

#[test]
fn a_hung_handshake_holds_up_no_other_connection() {
    let (backlog, mut acceptor) = acceptor();
    backlog.borrow_mut().connect(1, Client::Silent);
    backlog.borrow_mut().connect(2, Client::Valid(3));
    backlog.borrow_mut().connect(3, Client::Valid(0));
    let out = drain(&mut acceptor, &backlog);
    assert_eq!(
        out,
        vec![
            Ok((Secure(3, b"cert-1".to_vec()), peer(3))),
            Ok((Secure(2, b"cert-1".to_vec()), peer(2))),
        ]
    );
    assert_eq!(acceptor.handshakes_in_flight(), 1);
    assert_eq!(acceptor.take_failures(), vec![]);
}

#[test]
fn a_failure_of_the_listener_is_fatal() {
    let (backlog, mut acceptor) = acceptor();
    backlog.borrow_mut().connect(1, Client::Silent);
    backlog.borrow_mut().queue.push_back(Err(AcceptError::Closed));
    let mut cx = Context::from_waker(Waker::noop());
    assert_eq!(acceptor.poll_accept(&mut cx), Poll::Pending);
    assert_eq!(acceptor.poll_accept(&mut cx), Poll::Ready(Err(AcceptError::Closed)));
    // The handshake in progress was not touched.
    assert_eq!(acceptor.handshakes_in_flight(), 1);
}

#[test]
fn a_handshake_keeps_the_configuration_it_started_with() {
    let (backlog, mut acceptor) = acceptor();
    backlog.borrow_mut().connect(1, Client::Valid(2));
    let mut cx = Context::from_waker(Waker::noop());
    assert_eq!(acceptor.poll_accept(&mut cx), Poll::Pending);
    acceptor.reload(config(b"cert-2"));
    backlog.borrow_mut().connect(2, Client::Valid(0));
    let out = drain(&mut acceptor, &backlog);
    assert_eq!(
        out,
        vec![
            Ok((Secure(2, b"cert-2".to_vec()), peer(2))),
            Ok((Secure(1, b"cert-1".to_vec()), peer(1))),
        ]
    );
}

struct Count(AtomicUsize);

impl Wake for Count {
    fn wake(self: Arc<Self>) {
        self.0.fetch_add(1, Ordering::SeqCst);
    }
}

#[test]
fn the_task_is_woken_when_a_connection_was_taken_and_nothing_is_ready() {
    let (backlog, mut acceptor) = acceptor();
    let count = Arc::new(Count(AtomicUsize::new(0)));
    let waker = Waker::from(count.clone());
    let mut cx = Context::from_waker(&waker);
    backlog.borrow_mut().connect(1, Client::Silent);
    assert_eq!(acceptor.poll_accept(&mut cx), Poll::Pending);
    assert_eq!(count.0.load(Ordering::SeqCst), 1);
    // With nothing new, the wakers registered by the leaves are enough.
    assert_eq!(acceptor.poll_accept(&mut cx), Poll::Pending);
    assert_eq!(count.0.load(Ordering::SeqCst), 1);
}

#[test]
fn local_addr_is_that_of_the_inner_acceptor() {
    let (_, acceptor) = acceptor();
    assert_eq!(acceptor.local_addr(), Ok(LocalAddr::Socket(LOCALHOST, 8443)));
}

struct Plan(Result<(), BindError>);

impl IntoAcceptor for Plan {
    type Acceptor = Shared;

    fn into_acceptor(self) -> Result<Shared, BindError> {
        self.0.map(|_| Shared(Rc::new(RefCell::new(Backlog::new()))))
    }
}

#[test]
fn tls_listener_makes_an_acceptor_without_handshakes() {
    let listener = Plan(Ok(())).tls(config(b"cert"), Engine);
    match listener.into_acceptor() {
        Ok(acceptor) => {
            assert_eq!(acceptor.handshakes_in_flight(), 0);
            assert_eq!(acceptor.local_addr(), Ok(LocalAddr::Socket(LOCALHOST, 8443)));
        }
        Err(_) => panic!("the listener binds"),
    }
}

#[test]
fn tls_listener_refuses_a_configuration_the_engine_cannot_use() {
    let listener = TlsListener::new(TlsConfig::new(), Plan(Ok(())), Engine);
    assert!(matches!(listener.into_acceptor(), Err(BindError::InvalidCertificate)));
}

#[test]
fn tls_listener_reports_the_failure_of_the_inner_listener() {
    let listener = Plan(Err(BindError::AddressInUse)).tls(config(b"cert"), Engine);
    assert!(matches!(listener.into_acceptor(), Err(BindError::AddressInUse)));
    let listener = Plan(Err(BindError::Os(98))).tls(TlsConfig::new(), Engine);
    assert!(matches!(listener.into_acceptor(), Err(BindError::Os(98))));
}

#[test]
fn tls_config_keeps_what_it_was_given() {
    let config = TlsConfig::new()
        .cert(b"chain".to_vec())
        .key(b"secret".to_vec())
        .alpn(vec![b"h2".to_vec(), b"http/1.1".to_vec()]);
    assert_eq!(config.cert_bytes(), &b"chain".to_vec());
    assert_eq!(config.key_bytes(), &b"secret".to_vec());
    assert_eq!(config.alpn_protocols(), &vec![b"h2".to_vec(), b"http/1.1".to_vec()]);
    let empty = TlsConfig::new();
    assert!(empty.cert_bytes().is_empty());
    assert!(empty.key_bytes().is_empty());
    assert!(empty.alpn_protocols().is_empty());
}

#[test]
fn cleartext_hands_each_connection_on_at_once() {
    let backlog = Rc::new(RefCell::new(Backlog::new()));
    let mut acceptor = TlsAcceptor::new(Shared(backlog.clone()), Cleartext, TlsConfig::new());
    backlog.borrow_mut().connect(1, Client::Garbage);
    backlog.borrow_mut().connect(2, Client::Silent);
    let mut cx = Context::from_waker(Waker::noop());
    assert_eq!(
        acceptor.poll_accept(&mut cx),
        Poll::Ready(Ok((Plain(1, Client::Garbage), peer(1))))
    );
    assert_eq!(acceptor.handshakes_in_flight(), 0);
    assert_eq!(
        acceptor.poll_accept(&mut cx),
        Poll::Ready(Ok((Plain(2, Client::Silent), peer(2))))
    );
    assert_eq!(acceptor.poll_accept(&mut cx), Poll::Pending);
    assert_eq!(acceptor.take_failures(), vec![]);
}

#[test]
fn cleartext_needs_no_certificate() {
    let listener = Plan(Ok(())).tls(TlsConfig::new(), Cleartext);
    assert!(listener.into_acceptor().is_ok());
    let mut session = Handshaker::<u8>::start(&Cleartext, 7, &TlsConfig::new());
    let mut cx = Context::from_waker(Waker::noop());
    assert_eq!(Cleartext.poll_handshake(&mut session, &mut cx), Poll::Ready(Ok(7)));
    assert!(matches!(
        Handshaker::<u8>::poll_handshake(&Cleartext, &mut session, &mut cx),
        Poll::Ready(Err(_))
    ));
}
