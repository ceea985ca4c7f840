//! Two acceptors merged into one.

use super::{Accepted, Acceptor, Address, BindError, IntoAcceptor, LocalAddr, Poll, Side};
use std::task::Context;
use vstd::prelude::*;

verus! {

/// Listener for the [`combine`](IntoAcceptor::combine) method.
pub struct CombinedListener<A, B> {
    a: A,
    b: B,
}

impl<A, B> CombinedListener<A, B> {
    /// The listener that becomes the left child.
    pub closed spec fn left(self) -> A {
        self.a
    }

    /// The listener that becomes the right child.
    pub closed spec fn right(self) -> B {
        self.b
    }

    /// Puts two listeners side by side. Nothing is bound yet.
    pub fn new(a: A, b: B) -> (both: Self)
        ensures
            both.left() == a,
            both.right() == b,
    {
        CombinedListener { a, b }
    }
}

/// A IO stream for CombinedAcceptor.
#[derive(Debug, PartialEq, Eq)]
pub enum CombinedStream<A, B> {
    /// A stream of the left child.
    A(A),
    /// A stream of the right child.
    B(B),
}

/// Used to combine two different acceptors.
///
/// The two children take turns. A poll asks first the child whose turn it
/// is, and the other one only if the first has nothing. A child that is not
/// asked is not touched: what it has waiting stays with it. After a
/// connection the turn passes to the child that did not give it, so that
/// while both have connections waiting they are served alternately and
/// neither is passed over twice in a row. A poll that gives no connection
/// leaves the turn where it was. The left child has the first turn.
///
/// The acceptor keeps nothing but its children and the turn. A poll that
/// answers `Pending` has therefore taken nothing, and a caller may give up
/// waiting at any time.
pub struct CombinedAcceptor<A, B> {
    a: A,
    b: B,
    first: Side,
}

impl<A: Acceptor, B: Acceptor> CombinedAcceptor<A, B> {
    /// The left child.
    pub closed spec fn left(self) -> A {
        self.a
    }

    /// The right child.
    pub closed spec fn right(self) -> B {
        self.b
    }

    /// The child that the next poll asks first.
    pub closed spec fn first(self) -> Side {
        self.first
    }

    /// Merges two acceptors. The left child is asked first on the first poll.
    pub fn new(a: A, b: B) -> (both: Self)
        ensures
            both.left() == a,
            both.right() == b,
            both.first() == Side::Left,
    {
        CombinedAcceptor { a, b, first: Side::Left }
    }

    /// The child that the next poll asks first.
    pub fn polled_first(&self) -> (side: Side)
        ensures
            side == self.first(),
    {
        self.first
    }

    /// What the combined acceptor answers when its left child has answered
    /// `polled`: the same, with the stream and the address tagged `Left`.
    pub open spec fn from_left(polled: Accepted<A::Io>) -> Accepted<CombinedStream<A::Io, B::Io>> {
        match polled {
            Poll::Pending => Poll::Pending,
            Poll::Ready(Err(e)) => Poll::Ready(Err(e)),
            Poll::Ready(Ok((io, addr))) => Poll::Ready(
                Ok((CombinedStream::A(io), Address::Combined(Side::Left, Box::new(addr)))),
            ),
        }
    }

    /// What the combined acceptor answers when its right child has answered
    /// `polled`: the same, with the stream and the address tagged `Right`.
    pub open spec fn from_right(polled: Accepted<B::Io>) -> Accepted<CombinedStream<A::Io, B::Io>> {
        match polled {
            Poll::Pending => Poll::Pending,
            Poll::Ready(Err(e)) => Poll::Ready(Err(e)),
            Poll::Ready(Ok((io, addr))) => Poll::Ready(
                Ok((CombinedStream::B(io), Address::Combined(Side::Right, Box::new(addr)))),
            ),
        }
    }

    /// The child asked first on the poll after one that answered `polled`
    /// when `first` was asked first and `served` gave the answer: after a
    /// connection it is the child that did not give it, else it stays.
    pub open spec fn next_first<Io>(first: Side, served: Side, polled: Accepted<Io>) -> Side {
        match polled {
            Poll::Ready(Ok(_)) => served.flip(),
            _ => first,
        }
    }

    /// A step in which the left child is asked and answers at once: the right
    /// child is left exactly as it was.
    pub open spec fn left_answers(pre: Self, post: Self, polled: Accepted<A::Io>) -> bool {
        &&& polled is Ready
        &&& A::accepts(pre.left(), post.left(), polled)
        &&& post.right() == pre.right()
        &&& post.first() == Self::next_first(pre.first(), Side::Left, polled)
    }

    /// A step in which the right child is asked and answers at once: the left
    /// child is left exactly as it was.
    pub open spec fn right_answers(pre: Self, post: Self, polled: Accepted<B::Io>) -> bool {
        &&& polled is Ready
        &&& B::accepts(pre.right(), post.right(), polled)
        &&& post.left() == pre.left()
        &&& post.first() == Self::next_first(pre.first(), Side::Right, polled)
    }

    /// A step in which the left child has nothing and the right child is
    /// asked after it.
    pub open spec fn left_then_right(pre: Self, post: Self, polled: Accepted<B::Io>) -> bool {
        &&& A::accepts(pre.left(), post.left(), Poll::Pending)
        &&& B::accepts(pre.right(), post.right(), polled)
        &&& post.first() == Self::next_first(pre.first(), Side::Right, polled)
    }

    /// A step in which the right child has nothing and the left child is
    /// asked after it.
    pub open spec fn right_then_left(pre: Self, post: Self, polled: Accepted<A::Io>) -> bool {
        &&& B::accepts(pre.right(), post.right(), Poll::Pending)
        &&& A::accepts(pre.left(), post.left(), polled)
        &&& post.first() == Self::next_first(pre.first(), Side::Left, polled)
    }
}

impl<A: Acceptor, B: Acceptor> Acceptor for CombinedAcceptor<A, B> {
    type Io = CombinedStream<A::Io, B::Io>;

    /// Both children's reports, as a pair; the error of the first child
    /// that reports one.
    open spec fn reports(&self, addr: Result<LocalAddr, BindError>) -> bool {
        match addr {
            Ok(LocalAddr::Pair(l, r)) => self.left().reports(Ok(*l)) && self.right().reports(
                Ok(*r),
            ),
            Ok(_) => false,
            Err(e) => {
                ||| self.left().reports(Err(e))
                ||| exists|l: LocalAddr|
                    self.left().reports(Ok(l)) && self.right().reports(Err(e))
            },
        }
    }

    /// One poll asks the child whose turn it is, and the other child only if
    /// the first has nothing. The first answer that is ready is returned,
    /// tagged with the child it came from; after a connection the turn passes
    /// to the other child.
    open spec fn accepts(pre: Self, post: Self, polled: Accepted<Self::Io>) -> bool {
        match pre.first() {
            Side::Left => {
                ||| exists|l: Accepted<A::Io>|
                    Self::left_answers(pre, post, l) && polled == Self::from_left(l)
                ||| exists|r: Accepted<B::Io>|
                    Self::left_then_right(pre, post, r) && polled == Self::from_right(r)
            },
            Side::Right => {
                ||| exists|r: Accepted<B::Io>|
                    Self::right_answers(pre, post, r) && polled == Self::from_right(r)
                ||| exists|l: Accepted<A::Io>|
                    Self::right_then_left(pre, post, l) && polled == Self::from_left(l)
            },
        }
    }

    fn local_addr(&self) -> (addr: Result<LocalAddr, BindError>) {
        match self.a.local_addr() {
            Err(e) => Err(e),
            Ok(l) => match self.b.local_addr() {
                Err(e) => {
                    assert(self.left().reports(Ok(l)) && self.right().reports(Err(e)));
                    Err(e)
                },
                Ok(r) => Ok(LocalAddr::Pair(Box::new(l), Box::new(r))),
            },
        }
    }

    fn poll_accept(&mut self, cx: &mut Context<'_>) -> (polled: Accepted<Self::Io>) {
        let polled = match self.first {
            Side::Left => {
                let l = self.a.poll_accept(cx);
                match l {
                    Poll::Ready(Ok((io, addr))) => {
                        self.first = Side::Right;
                        let polled: Accepted<Self::Io> = Poll::Ready(Ok((CombinedStream::A(io), Address::through(Side::Left, addr))));
                        assert(Self::left_answers(*old(self), *self, l) && polled == Self::from_left(l));
                        polled
                    },
                    Poll::Ready(Err(e)) => {
                        let polled: Accepted<Self::Io> = Poll::Ready(Err(e));
                        assert(Self::left_answers(*old(self), *self, l) && polled == Self::from_left(l));
                        polled
                    },
                    Poll::Pending => {
                        let r = self.b.poll_accept(cx);
                        match r {
                            Poll::Ready(Ok((io, addr))) => {
                                self.first = Side::Left;
                                let polled: Accepted<Self::Io> = Poll::Ready(
                                    Ok((CombinedStream::B(io), Address::through(Side::Right, addr))),
                                );
                                assert(Self::left_then_right(*old(self), *self, r) && polled == Self::from_right(r));
                                polled
                            },
                            Poll::Ready(Err(e)) => {
                                let polled: Accepted<Self::Io> = Poll::Ready(Err(e));
                                assert(Self::left_then_right(*old(self), *self, r) && polled == Self::from_right(r));
                                polled
                            },
                            Poll::Pending => {
                                let polled: Accepted<Self::Io> = Poll::Pending;
                                assert(Self::left_then_right(*old(self), *self, r) && polled == Self::from_right(r));
                                polled
                            },
                        }
                    },
                }
            },
            Side::Right => {
                let r = self.b.poll_accept(cx);
                match r {
                    Poll::Ready(Ok((io, addr))) => {
                        self.first = Side::Left;
                        let polled: Accepted<Self::Io> = Poll::Ready(Ok((CombinedStream::B(io), Address::through(Side::Right, addr))));
                        assert(Self::right_answers(*old(self), *self, r) && polled == Self::from_right(r));
                        polled
                    },
                    Poll::Ready(Err(e)) => {
                        let polled: Accepted<Self::Io> = Poll::Ready(Err(e));
                        assert(Self::right_answers(*old(self), *self, r) && polled == Self::from_right(r));
                        polled
                    },
                    Poll::Pending => {
                        let l = self.a.poll_accept(cx);
                        match l {
                            Poll::Ready(Ok((io, addr))) => {
                                self.first = Side::Right;
                                let polled: Accepted<Self::Io> = Poll::Ready(
                                    Ok((CombinedStream::A(io), Address::through(Side::Left, addr))),
                                );
                                assert(Self::right_then_left(*old(self), *self, l) && polled == Self::from_left(l));
                                polled
                            },
                            Poll::Ready(Err(e)) => {
                                let polled: Accepted<Self::Io> = Poll::Ready(Err(e));
                                assert(Self::right_then_left(*old(self), *self, l) && polled == Self::from_left(l));
                                polled
                            },
                            Poll::Pending => {
                                let polled: Accepted<Self::Io> = Poll::Pending;
                                assert(Self::right_then_left(*old(self), *self, l) && polled == Self::from_left(l));
                                polled
                            },
                        }
                    },
                }
            },
        };
        proof {
            lemma_reports_follow_children(*old(self), *self);
        }
        polled
    }
}

impl<A: IntoAcceptor, B: IntoAcceptor> IntoAcceptor for CombinedListener<A, B> {
    type Acceptor = CombinedAcceptor<A::Acceptor, B::Acceptor>;

    /// The left listener is bound first. If it fails, its error is the
    /// outcome and the right listener is never bound. Else the right listener
    /// is bound, and its error, or the two acceptors merged, is the outcome.
    open spec fn binds(self, made: Result<Self::Acceptor, BindError>) -> bool {
        match made {
            Ok(both) => {
                &&& self.left().binds(Ok(both.left()))
                &&& self.right().binds(Ok(both.right()))
                &&& both.first() == Side::Left
            },
            Err(e) => {
                ||| self.left().binds(Err(e))
                ||| exists|a: A::Acceptor|
                    self.left().binds(Ok(a)) && self.right().binds(Err(e))
            },
        }
    }

    fn into_acceptor(self) -> (made: Result<Self::Acceptor, BindError>) {
        match self.a.into_acceptor() {
            Err(e) => Err(e),
            Ok(a) => match self.b.into_acceptor() {
                Err(e) => {
                    assert(self.left().binds(Ok(a)) && self.right().binds(Err(e)));
                    Err(e)
                },
                Ok(b) => Ok(CombinedAcceptor::new(a, b)),
            },
        }
    }
}

/// A combined acceptor reports what its children report: while theirs stay,
/// its own stays.
pub proof fn lemma_reports_follow_children<A: Acceptor, B: Acceptor>(
    pre: CombinedAcceptor<A, B>,
    post: CombinedAcceptor<A, B>,
)
    requires
        forall|addr: Result<LocalAddr, BindError>| #[trigger]
            post.left().reports(addr) == pre.left().reports(addr),
        forall|addr: Result<LocalAddr, BindError>| #[trigger]
            post.right().reports(addr) == pre.right().reports(addr),
    ensures
        forall|addr: Result<LocalAddr, BindError>| #[trigger]
            post.reports(addr) == pre.reports(addr),
{
    assert forall|addr: Result<LocalAddr, BindError>| #[trigger]
        post.reports(addr) == pre.reports(addr) by {
        match addr {
            Ok(LocalAddr::Pair(l, r)) => {
                assert(post.left().reports(Ok(*l)) == pre.left().reports(Ok(*l)));
                assert(post.right().reports(Ok(*r)) == pre.right().reports(Ok(*r)));
            },
            Ok(_) => {},
            Err(e) => {
                assert(post.left().reports(Err(e)) == pre.left().reports(Err(e)));
                assert(post.right().reports(Err(e)) == pre.right().reports(Err(e)));
                if exists|l: LocalAddr| pre.left().reports(Ok(l)) && pre.right().reports(Err(e)) {
                    let l = choose|l: LocalAddr|
                        pre.left().reports(Ok(l)) && pre.right().reports(Err(e));
                    assert(post.left().reports(Ok(l)) == pre.left().reports(Ok(l)));
                }
                if exists|l: LocalAddr|
                    post.left().reports(Ok(l)) && post.right().reports(Err(e)) {
                    let l = choose|l: LocalAddr|
                        post.left().reports(Ok(l)) && post.right().reports(Err(e));
                    assert(post.left().reports(Ok(l)) == pre.left().reports(Ok(l)));
                }
            },
        }
    }
}

/// Whether a connection is waiting at `acceptor`: every step it can take
/// hands one out.
pub open spec fn waiting<T: Acceptor>(acceptor: T) -> bool {
    forall|post: T, polled: Accepted<T::Io>| #[trigger]
        T::accepts(acceptor, post, polled) ==> polled is Ready && polled->Ready_0 is Ok
}

/// The child that a connection handed out by a combined acceptor came from.
pub open spec fn came_from(addr: Address) -> Option<Side> {
    match addr {
        Address::Combined(side, _) => Some(side),
        _ => None,
    }
}

/// Every connection that a combined acceptor hands out was handed out by
/// exactly one of its children in the same step, and carries that child's tag
/// in front of the address the child gave. The other child either was not
/// asked at all, or was asked and had nothing: it handed out no connection
/// that could have been lost.
pub proof fn lemma_connection_from_one_child<A: Acceptor, B: Acceptor>(
    pre: CombinedAcceptor<A, B>,
    post: CombinedAcceptor<A, B>,
    io: CombinedStream<A::Io, B::Io>,
    addr: Address,
)
    requires
        CombinedAcceptor::<A, B>::accepts(pre, post, Poll::Ready(Ok((io, addr)))),
    ensures
        addr is Combined,
        addr.route() == seq![addr->Combined_0] + addr->Combined_1.route(),
        addr->Combined_0 == Side::Left ==> {
            &&& io is A
            &&& A::accepts(pre.left(), post.left(), Poll::Ready(Ok((io->A_0, *addr->Combined_1))))
            &&& post.right() == pre.right() || B::accepts(pre.right(), post.right(), Poll::Pending)
        },
        addr->Combined_0 == Side::Right ==> {
            &&& io is B
            &&& B::accepts(pre.right(), post.right(), Poll::Ready(Ok((io->B_0, *addr->Combined_1))))
            &&& post.left() == pre.left() || A::accepts(pre.left(), post.left(), Poll::Pending)
        },
        post.first() == addr->Combined_0.flip(),
{
}

/// Abandoning a call that has not resolved loses nothing: a poll that
/// answers `Pending` asked each child once, each had nothing, and the turn
/// is where it was. The combined acceptor itself never holds a connection,
/// so the next poll starts as if this one had not been made.
pub proof fn lemma_pending_consumes_nothing<A: Acceptor, B: Acceptor>(
    pre: CombinedAcceptor<A, B>,
    post: CombinedAcceptor<A, B>,
)
    requires
        CombinedAcceptor::<A, B>::accepts(pre, post, Poll::Pending),
    ensures
        A::accepts(pre.left(), post.left(), Poll::Pending),
        B::accepts(pre.right(), post.right(), Poll::Pending),
        post.first() == pre.first(),
{
}

/// The tie-break: while a connection is waiting at both children, the child
/// whose turn it is gives the connection, and the turn passes to the other.
pub proof fn lemma_turn_decides_a_tie<A: Acceptor, B: Acceptor>(
    pre: CombinedAcceptor<A, B>,
    post: CombinedAcceptor<A, B>,
    polled: Accepted<CombinedStream<A::Io, B::Io>>,
)
    requires
        CombinedAcceptor::<A, B>::accepts(pre, post, polled),
        waiting(pre.left()),
        waiting(pre.right()),
    ensures
        polled is Ready,
        polled->Ready_0 is Ok,
        came_from(polled->Ready_0->Ok_0.1) == Some(pre.first()),
        post.first() == pre.first().flip(),
        pre.first() == Side::Left ==> post.right() == pre.right(),
        pre.first() == Side::Right ==> post.left() == pre.left(),
{
}

/// Fairness: a child at which a connection is waiting is passed over at most
/// once in a row. If a connection waits at `side` before two polls that
/// follow each other, and the first poll hands out a connection of the other
/// child, then the second poll hands out one of `side`.
pub proof fn lemma_skipped_at_most_once<A: Acceptor, B: Acceptor>(
    side: Side,
    s0: CombinedAcceptor<A, B>,
    s1: CombinedAcceptor<A, B>,
    s2: CombinedAcceptor<A, B>,
    first: Accepted<CombinedStream<A::Io, B::Io>>,
    second: Accepted<CombinedStream<A::Io, B::Io>>,
)
    requires
        CombinedAcceptor::<A, B>::accepts(s0, s1, first),
        CombinedAcceptor::<A, B>::accepts(s1, s2, second),
        side == Side::Left ==> waiting(s0.left()) && waiting(s1.left()),
        side == Side::Right ==> waiting(s0.right()) && waiting(s1.right()),
        first is Ready,
        first->Ready_0 is Ok,
        came_from(first->Ready_0->Ok_0.1) != Some(side),
    ensures
        second is Ready,
        second->Ready_0 is Ok,
        came_from(second->Ready_0->Ok_0.1) == Some(side),
{
}

} // verus!
