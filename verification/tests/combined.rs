use poem::listener::{
    AcceptError, Accepted, Acceptor, Address, BindError, CombinedAcceptor, CombinedListener,
    CombinedStream, IntoAcceptor, Ip, LocalAddr, Poll, Side,
};
use std::cell::RefCell;
use std::collections::VecDeque;
use std::rc::Rc;
use std::task::{Context, Waker};

const LOCALHOST: Ip = Ip::V4(0x7f00_0001);

/// An acceptor over a queue that stands for the backlog of a listening
/// socket. A stream is the number of its connection.
struct Backlog {
    port: u16,
    queue: VecDeque<Result<(u32, Address), AcceptError>>,
    polls: usize,
}

impl Backlog {
    fn new(port: u16) -> Self {
        Backlog { port, queue: VecDeque::new(), polls: 0 }
    }

    fn connect(&mut self, id: u32) {
        self.queue.push_back(Ok((id, Address::Tcp(LOCALHOST, 40000 + (id % 1000) as u16))));
    }

    fn fail(&mut self, error: AcceptError) {
        self.queue.push_back(Err(error));
    }
}

impl Acceptor for Backlog {
    type Io = u32;

    fn local_addr(&self) -> Result<LocalAddr, BindError> {
        Ok(LocalAddr::Socket(LOCALHOST, self.port))
    }

    fn poll_accept(&mut self, _cx: &mut Context<'_>) -> Accepted<u32> {
        self.polls += 1;
        match self.queue.pop_front() {
            Some(answer) => Poll::Ready(answer),
            None => Poll::Pending,
        }
    }
}

/// An acceptor whose backlog the test keeps a handle on.
struct Shared(Rc<RefCell<Backlog>>);

impl Acceptor for Shared {
    type Io = u32;

    fn local_addr(&self) -> Result<LocalAddr, BindError> {
        self.0.borrow().local_addr()
    }

    fn poll_accept(&mut self, cx: &mut Context<'_>) -> Accepted<u32> {
        self.0.borrow_mut().poll_accept(cx)
    }
}

fn shared(port: u16) -> (Rc<RefCell<Backlog>>, Shared) {
    let backlog = Rc::new(RefCell::new(Backlog::new(port)));
    (backlog.clone(), Shared(backlog))
}

fn accepted<A, B>(polled: Accepted<CombinedStream<A, B>>) -> (CombinedStream<A, B>, Side, Address) {
    match polled {
        Poll::Ready(Ok((io, Address::Combined(side, inner)))) => (io, side, *inner),
        Poll::Ready(Ok(_)) => panic!("the address carries no tag"),
        Poll::Ready(Err(_)) => panic!("the acceptor failed"),
        Poll::Pending => panic!("no connection was ready"),
    }
}

#[test]
fn combined_tags_each_connection_with_its_child() {
    let mut a = Backlog::new(1);
    let mut b = Backlog::new(2);
    a.connect(10);
    b.connect(20);
    let mut both = CombinedAcceptor::new(a, b);
    let mut cx = Context::from_waker(Waker::noop());
    let (io, side, inner) = accepted(both.poll_accept(&mut cx));
    assert_eq!(io, CombinedStream::A(10));
    assert_eq!(side, Side::Left);
    assert_eq!(inner, Address::Tcp(LOCALHOST, 40010));
    let (io, side, inner) = accepted(both.poll_accept(&mut cx));
    assert_eq!(io, CombinedStream::B(20));
    assert_eq!(side, Side::Right);
    assert_eq!(inner, Address::Tcp(LOCALHOST, 40020));
    assert_eq!(both.poll_accept(&mut cx), Poll::Pending);
}

#[test]
fn thousand_interleaved_connections_are_each_seen_once() {
    let (left, a) = shared(1);
    let (right, b) = shared(2);
    let mut both = CombinedAcceptor::new(a, b);
    let mut cx = Context::from_waker(Waker::noop());
    let mut seen_left: Vec<u32> = Vec::new();
    let mut seen_right: Vec<u32> = Vec::new();
    let mut issued = 0u32;
    // Connections come in bursts of uneven size, now on one side, now on the
    // other, while the acceptor is polled in between.
    while issued < 1000 {
        let burst = 1 + issued % 7;
        for _ in 0..burst {
            if issued < 1000 {
                if issued % 2 == 0 {
                    left.borrow_mut().connect(issued);
                } else {
                    right.borrow_mut().connect(issued);
                }
                issued += 1;
            }
        }
        for _ in 0..(issued % 5) {
            match both.poll_accept(&mut cx) {
                Poll::Ready(Ok((CombinedStream::A(id), Address::Combined(Side::Left, _)))) => {
                    seen_left.push(id)
                }
                Poll::Ready(Ok((CombinedStream::B(id), Address::Combined(Side::Right, _)))) => {
                    seen_right.push(id)
                }
                Poll::Ready(_) => panic!("a connection came out with the wrong tag"),
                Poll::Pending => {}
            }
        }
    }
    loop {
        match both.poll_accept(&mut cx) {
            Poll::Ready(Ok((CombinedStream::A(id), Address::Combined(Side::Left, _)))) => {
                seen_left.push(id)
            }
            Poll::Ready(Ok((CombinedStream::B(id), Address::Combined(Side::Right, _)))) => {
                seen_right.push(id)
            }
            Poll::Ready(_) => panic!("a connection came out with the wrong tag"),
            Poll::Pending => break,
        }
    }
    let expected_left: Vec<u32> = (0..1000).filter(|id| id % 2 == 0).collect();
    let expected_right: Vec<u32> = (0..1000).filter(|id| id % 2 == 1).collect();
    assert_eq!(seen_left, expected_left);
    assert_eq!(seen_right, expected_right);
    assert_eq!(seen_left.len() + seen_right.len(), 1000);
}

#[test]
fn neither_child_is_passed_over_twice_in_a_row() {
    for trial in 0..50u32 {
        let mut a = Backlog::new(1);
        let mut b = Backlog::new(2);
        for id in 0..100 {
            a.connect(id);
            b.connect(1000 + id);
        }
        let mut both = CombinedAcceptor::new(a, b);
        let mut cx = Context::from_waker(Waker::noop());
        let mut last: Option<Side> = None;
        let mut skipped_left = 0;
        let mut skipped_right = 0;
        for _ in 0..(100 + trial) {
            let (_, side, _) = accepted(both.poll_accept(&mut cx));
            match side {
                Side::Left => {
                    skipped_left = 0;
                    skipped_right += 1;
                }
                Side::Right => {
                    skipped_right = 0;
                    skipped_left += 1;
                }
            }
            assert!(skipped_left <= 1);
            assert!(skipped_right <= 1);
            assert_ne!(last, Some(side));
            last = Some(side);
        }
    }
}

#[test]
fn the_turn_passes_only_after_a_connection() {
    let mut both = CombinedAcceptor::new(Backlog::new(1), Backlog::new(2));
    let mut cx = Context::from_waker(Waker::noop());
    assert_eq!(both.polled_first(), Side::Left);
    assert_eq!(both.poll_accept(&mut cx), Poll::Pending);
    assert_eq!(both.polled_first(), Side::Left);
}

#[test]
fn a_connection_of_the_second_child_gives_the_turn_to_the_first() {
    let a = Backlog::new(1);
    let mut b = Backlog::new(2);
    b.connect(7);
    b.connect(8);
    let mut both = CombinedAcceptor::new(a, b);
    let mut cx = Context::from_waker(Waker::noop());
    let (io, side, _) = accepted(both.poll_accept(&mut cx));
    assert_eq!(io, CombinedStream::B(7));
    assert_eq!(side, Side::Right);
    assert_eq!(both.polled_first(), Side::Left);
}

#[test]
fn the_child_that_is_not_needed_is_not_polled() {
    let (left, a) = shared(1);
    let (right, b) = shared(2);
    left.borrow_mut().connect(1);
    right.borrow_mut().connect(2);
    let mut both = CombinedAcceptor::new(a, b);
    let mut cx = Context::from_waker(Waker::noop());
    let _ = accepted(both.poll_accept(&mut cx));
    assert_eq!(left.borrow().polls, 1);
    assert_eq!(right.borrow().polls, 0);
    assert_eq!(right.borrow().queue.len(), 1);
    let _ = accepted(both.poll_accept(&mut cx));
    assert_eq!(left.borrow().polls, 1);
    assert_eq!(right.borrow().polls, 1);
}

#[test]
fn an_abandoned_call_loses_no_connection() {
    let (left, a) = shared(1);
    let (right, b) = shared(2);
    let mut both = CombinedAcceptor::new(a, b);
    let mut cx = Context::from_waker(Waker::noop());
    // The call finds nothing and is given up.
    assert_eq!(both.poll_accept(&mut cx), Poll::Pending);
    // Meanwhile the operating system queues a connection on each side.
    right.borrow_mut().connect(2);
    left.borrow_mut().connect(1);
    // A fresh call surfaces both.
    let (io, side, _) = accepted(both.poll_accept(&mut cx));
    assert_eq!((io, side), (CombinedStream::A(1), Side::Left));
    let (io, side, _) = accepted(both.poll_accept(&mut cx));
    assert_eq!((io, side), (CombinedStream::B(2), Side::Right));
    assert_eq!(both.poll_accept(&mut cx), Poll::Pending);
}

#[test]
fn a_failure_of_a_child_is_the_failure_of_both() {
    let mut a = Backlog::new(1);
    let mut b = Backlog::new(2);
    a.fail(AcceptError::Closed);
    b.connect(5);
    let mut both = CombinedAcceptor::new(a, b);
    let mut cx = Context::from_waker(Waker::noop());
    assert_eq!(both.poll_accept(&mut cx), Poll::Ready(Err(AcceptError::Closed)));
    // The turn stays, and the connection of the other child is still there.
    assert_eq!(both.polled_first(), Side::Left);
    let (io, side, _) = accepted(both.poll_accept(&mut cx));
    assert_eq!((io, side), (CombinedStream::B(5), Side::Right));
}

#[test]
fn a_failure_of_the_second_child_comes_out_when_the_first_has_nothing() {
    let a = Backlog::new(1);
    let mut b = Backlog::new(2);
    b.fail(AcceptError::Os(24));
    let mut both = CombinedAcceptor::new(a, b);
    let mut cx = Context::from_waker(Waker::noop());
    assert_eq!(both.poll_accept(&mut cx), Poll::Ready(Err(AcceptError::Os(24))));
}

#[test]
fn local_addr_is_there_before_any_accept() {
    let both = CombinedAcceptor::new(Backlog::new(8080), Backlog::new(8443));
    assert_eq!(
        both.local_addr(),
        Ok(LocalAddr::Pair(
            Box::new(LocalAddr::Socket(LOCALHOST, 8080)),
            Box::new(LocalAddr::Socket(LOCALHOST, 8443)),
        ))
    );
    // Asking again gives the same.
    assert_eq!(both.local_addr(), both.local_addr());
}

#[test]
fn local_addr_stays_after_accepting() {
    let mut a = Backlog::new(8080);
    a.connect(1);
    let mut both = CombinedAcceptor::new(a, Backlog::new(8443));
    let before = both.local_addr();
    let mut cx = Context::from_waker(Waker::noop());
    let _ = accepted(both.poll_accept(&mut cx));
    assert_eq!(both.local_addr(), before);
}

#[test]
fn nested_acceptors_tag_the_whole_route() {
    let a = Backlog::new(1);
    let b = Backlog::new(2);
    let mut c = Backlog::new(3);
    c.connect(33);
    let inner = CombinedAcceptor::new(b, c);
    let mut outer = CombinedAcceptor::new(a, inner);
    let mut cx = Context::from_waker(Waker::noop());
    match outer.poll_accept(&mut cx) {
        Poll::Ready(Ok((io, addr))) => {
            assert_eq!(io, CombinedStream::B(CombinedStream::B(33)));
            assert_eq!(addr.branches(), vec![Side::Right, Side::Right]);
            assert_eq!(addr.peer_addr(), (LOCALHOST, 40033));
            assert_eq!(
                addr,
                Address::Combined(
                    Side::Right,
                    Box::new(Address::Combined(
                        Side::Right,
                        Box::new(Address::Tcp(LOCALHOST, 40033))
                    ))
                )
            );
        }
        _ => panic!("the connection of the innermost child comes out"),
    }
    assert_eq!(
        outer.local_addr(),
        Ok(LocalAddr::Pair(
            Box::new(LocalAddr::Socket(LOCALHOST, 1)),
            Box::new(LocalAddr::Pair(
                Box::new(LocalAddr::Socket(LOCALHOST, 2)),
                Box::new(LocalAddr::Socket(LOCALHOST, 3)),
            )),
        ))
    );
}

#[test]
fn address_helpers() {
    let leaf = Address::Tcp(Ip::V6(1), 443);
    let secured = Address::Tls(Box::new(leaf), Some(b"h2".to_vec()));
    assert_eq!(secured.peer_addr(), (Ip::V6(1), 443));
    assert_eq!(secured.branches(), Vec::<Side>::new());
    let tagged = Address::through(Side::Left, secured);
    assert_eq!(tagged.branches(), vec![Side::Left]);
    assert_eq!(tagged.peer_addr(), (Ip::V6(1), 443));
    assert_eq!(Side::Left.other(), Side::Right);
    assert_eq!(Side::Right.other(), Side::Left);
    let copy = LocalAddr::Pair(
        Box::new(LocalAddr::Socket(LOCALHOST, 1)),
        Box::new(LocalAddr::Socket(LOCALHOST, 2)),
    );
    assert_eq!(copy.clone(), copy);
}

/// A listener that binds a backlog, or fails, and notes when it was asked.
struct Plan {
    port: u16,
    outcome: Result<(), BindError>,
    log: Rc<RefCell<Vec<u16>>>,
}

impl IntoAcceptor for Plan {
    type Acceptor = Backlog;

    fn into_acceptor(self) -> Result<Backlog, BindError> {
        self.log.borrow_mut().push(self.port);
        self.outcome.map(|_| Backlog::new(self.port))
    }
}

fn plan(port: u16, outcome: Result<(), BindError>, log: &Rc<RefCell<Vec<u16>>>) -> Plan {
    Plan { port, outcome, log: log.clone() }
}

#[test]
fn combine_binds_nothing_until_asked() {
    let log = Rc::new(RefCell::new(Vec::new()));
    let both = plan(1, Ok(()), &log).combine(plan(2, Ok(()), &log));
    assert!(log.borrow().is_empty());
    let acceptor = both.into_acceptor();
    assert_eq!(*log.borrow(), vec![1, 2]);
    match acceptor {
        Ok(acceptor) => {
            assert_eq!(acceptor.polled_first(), Side::Left);
            assert_eq!(
                acceptor.local_addr(),
                Ok(LocalAddr::Pair(
                    Box::new(LocalAddr::Socket(LOCALHOST, 1)),
                    Box::new(LocalAddr::Socket(LOCALHOST, 2)),
                ))
            );
        }
        Err(_) => panic!("both listeners bind"),
    }
}

#[test]
fn combine_stops_at_the_first_listener_that_fails() {
    let log = Rc::new(RefCell::new(Vec::new()));
    let both = CombinedListener::new(
        plan(1, Err(BindError::AddressInUse), &log),
        plan(2, Ok(()), &log),
    );
    assert!(matches!(both.into_acceptor(), Err(BindError::AddressInUse)));
    assert_eq!(*log.borrow(), vec![1]);
}

#[test]
fn combine_reports_the_failure_of_the_second_listener() {
    let log = Rc::new(RefCell::new(Vec::new()));
    let both = plan(1, Ok(()), &log).combine(plan(2, Err(BindError::PermissionDenied), &log));
    assert!(matches!(both.into_acceptor(), Err(BindError::PermissionDenied)));
    assert_eq!(*log.borrow(), vec![1, 2]);
}

#[test]
fn combine_can_be_repeated() {
    let log = Rc::new(RefCell::new(Vec::new()));
    let all = plan(1, Ok(()), &log).combine(plan(2, Ok(()), &log)).combine(plan(3, Ok(()), &log));
    let mut acceptor = match all.into_acceptor() {
        Ok(acceptor) => acceptor,
        Err(_) => panic!("all listeners bind"),
    };
    assert_eq!(*log.borrow(), vec![1, 2, 3]);
    let mut cx = Context::from_waker(Waker::noop());
    assert!(matches!(acceptor.poll_accept(&mut cx), Poll::Pending));
}
