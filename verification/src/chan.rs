//! Session-typed channel endpoints. A `Chan<E, P, M>` stands at protocol `P`
//! in environment `E` and carries messages of type `M`; each operation
//! consumes the endpoint and hands back the endpoint at the next step of the
//! protocol. Ghost state records the frames that this endpoint's operations
//! report having put on the wire and taken from it.

use core::marker::PhantomData;
use vstd::prelude::*;
use crate::proto::{Action, step};
use crate::types::{Choose, Environment, Eps, Offer, Peano, Protocol, Rec, Recv, S, Send, Var, Z};
use crate::wire::{Frame, wire_recv, wire_send, wire_try_recv};

verus! {

/// The branch that the other endpoint picked at an `Offer`: `Left` for the
/// first, `Right` for the second.
pub enum Branch<L, R> {
    Left(L),
    Right(R),
}

/// `n` frames that each pick the second branch.
pub open spec fn skips<M>(n: nat) -> Seq<Frame<M>> {
    Seq::new(n, |i: int| Frame::Pick(false))
}

/// One endpoint of a session.
#[verifier::reject_recursive_types(M)]
pub struct Chan<E, P, M> {
    tx: crossbeam_channel::Sender<Frame<M>>,
    rx: crossbeam_channel::Receiver<Frame<M>>,
    sent: Ghost<Seq<Frame<M>>>,
    got: Ghost<Seq<Frame<M>>>,
    marker: PhantomData<(E, P)>,
}

impl<E, P, M> Chan<E, P, M> {
    /// The frames this endpoint has put on the wire, oldest first.
    pub closed spec fn sent(&self) -> Seq<Frame<M>> {
        self.sent@
    }

    /// The frames this endpoint has taken from the wire, oldest first.
    pub closed spec fn got(&self) -> Seq<Frame<M>> {
        self.got@
    }

    /// The sending end of the wire.
    pub closed spec fn tx_end(&self) -> crossbeam_channel::Sender<Frame<M>> {
        self.tx
    }

    /// The receiving end of the wire.
    pub closed spec fn rx_end(&self) -> crossbeam_channel::Receiver<Frame<M>> {
        self.rx
    }

    /// The receiving end of the wire, to select on.
    pub(crate) fn receiver(&self) -> (r: &crossbeam_channel::Receiver<Frame<M>>)
        ensures
            *r == self.rx_end(),
    {
        &self.rx
    }

    /// Whether `other` uses the same two channels as this endpoint.
    pub closed spec fn same_wire<E2, P2>(&self, other: &Chan<E2, P2, M>) -> bool {
        self.tx == other.tx && self.rx == other.rx
    }

    /// Whether `other` is this endpoint at another step: the same wire and
    /// the same history.
    pub closed spec fn moved<E2, P2>(&self, other: &Chan<E2, P2, M>) -> bool {
        &&& self.same_wire(other)
        &&& self.sent() == other.sent()
        &&& self.got() == other.got()
    }

    /// A fresh endpoint over the given channels, with no history.
    pub(crate) fn from_wire(
        tx: crossbeam_channel::Sender<Frame<M>>,
        rx: crossbeam_channel::Receiver<Frame<M>>,
    ) -> (r: Chan<E, P, M>)
        ensures
            r.tx_end() == tx,
            r.rx_end() == rx,
            r.sent() == Seq::<Frame<M>>::empty(),
            r.got() == Seq::<Frame<M>>::empty(),
    {
        Chan { tx, rx, sent: Ghost(Seq::empty()), got: Ghost(Seq::empty()), marker: PhantomData }
    }

    /// The same endpoint, retyped.
    pub(crate) fn retype<E2, P2>(self) -> (r: Chan<E2, P2, M>)
        ensures
            r.moved(&self),
    {
        Chan { tx: self.tx, rx: self.rx, sent: self.sent, got: self.got, marker: PhantomData }
    }

    fn advance<E2, P2>(self, sent: Ghost<Seq<Frame<M>>>, got: Ghost<Seq<Frame<M>>>) -> (r: Chan<E2, P2, M>)
        ensures
            r.same_wire(&self),
            r.sent() == sent@,
            r.got() == got@,
    {
        Chan { tx: self.tx, rx: self.rx, sent, got, marker: PhantomData }
    }

    /// Puts a pick of branch `b` on the wire; `None` when the other endpoint is gone.
    fn pick<E2, P2>(self, b: bool) -> (r: Option<Chan<E2, P2, M>>)
        ensures
            r matches Some(c) ==> {
                &&& c.same_wire(&self)
                &&& c.sent() == self.sent().push(Frame::Pick(b))
                &&& c.got() == self.got()
            },
    {
        let ok = wire_send(&self.tx, Frame::Pick(b));
        self.after_write(Ghost(Frame::Pick(b)), ok)
    }

    /// What a write of frame `f` leaves, for each outcome `ok` of the write:
    /// the endpoint at the next step with `f` recorded as sent when the frame
    /// went on the wire, `None` when it did not.
    fn after_write<E2, P2>(self, f: Ghost<Frame<M>>, ok: bool) -> (r: Option<Chan<E2, P2, M>>)
        ensures
            r is Some <==> ok,
            r matches Some(c) ==> {
                &&& c.same_wire(&self)
                &&& c.sent() == self.sent().push(f@)
                &&& c.got() == self.got()
            },
    {
        if ok {
            let sent = Ghost(self.sent@.push(f@));
            let got = Ghost(self.got@);
            Some(self.advance(sent, got))
        } else {
            None
        }
    }

    /// What a read leaves, for each frame `f` that the read gave: the
    /// endpoint at the next step with the message recorded as got, and the
    /// message, when `f` is a message; `None` otherwise.
    fn after_read<E2, P2>(self, f: Option<Frame<M>>) -> (r: Option<(Chan<E2, P2, M>, M)>)
        ensures
            r is Some <==> f matches Some(Frame::Msg(_)),
            r matches Some((c, v)) ==> {
                &&& f == Some(Frame::Msg(v))
                &&& c.same_wire(&self)
                &&& c.got() == self.got().push(Frame::Msg(v))
                &&& c.sent() == self.sent()
            },
    {
        match f {
            Some(Frame::Msg(v)) => {
                let sent = Ghost(self.sent@);
                let got = Ghost(self.got@.push(Frame::Msg(v)));
                Some((self.advance(sent, got), v))
            },
            _ => None,
        }
    }

    /// What a read leaves at an offer, for each frame `f` that the read gave:
    /// the endpoint at the first branch (`Left`) for a pick of the first
    /// branch, at the second (`Right`) for a pick of the second, with the
    /// pick recorded as got; `None` when `f` is not a pick.
    fn after_pick_read<E2, R2, S2>(self, f: Option<Frame<M>>) -> (r: Option<
        Branch<Chan<E2, R2, M>, Chan<E2, S2, M>>,
    >)
        ensures
            r is Some <==> f matches Some(Frame::Pick(_)),
            r matches Some(Branch::Left(c)) ==> {
                &&& f == Some(Frame::<M>::Pick(true))
                &&& c.same_wire(&self)
                &&& c.got() == self.got().push(Frame::Pick(true))
                &&& c.sent() == self.sent()
            },
            r matches Some(Branch::Right(c)) ==> {
                &&& f == Some(Frame::<M>::Pick(false))
                &&& c.same_wire(&self)
                &&& c.got() == self.got().push(Frame::Pick(false))
                &&& c.sent() == self.sent()
            },
    {
        match f {
            Some(Frame::Pick(b)) => {
                let sent = Ghost(self.sent@);
                let got = Ghost(self.got@.push(Frame::Pick(b)));
                if b {
                    Some(Branch::Left(self.advance(sent, got)))
                } else {
                    Some(Branch::Right(self.advance(sent, got)))
                }
            },
            _ => None,
        }
    }
}

impl<E, M> Chan<E, Eps, M> {
    /// Ends the session on this side.
    pub fn close(self) {
    }
}

impl<E, T, M> Chan<E, Send<M, T>, M> {
    /// Sends `v` and continues as `T`; `None` when the other endpoint is gone.
    pub fn send(self, v: M) -> (r: Option<Chan<E, T, M>>)
        ensures
            r matches Some(c) ==> {
                &&& c.same_wire(&self)
                &&& c.sent() == self.sent().push(Frame::Msg(v))
                &&& c.got() == self.got()
            },
    {
        let f = Ghost(Frame::Msg(v));
        let ok = wire_send(&self.tx, Frame::Msg(v));
        self.after_write(f, ok)
    }
}

impl<E, T, M> Chan<E, Recv<M, T>, M> {
    /// Waits for a message and continues as `T`; `None` when the other
    /// endpoint is gone, or put a pick where a message belongs.
    pub fn recv(self) -> (r: Option<(Chan<E, T, M>, M)>)
        ensures
            r matches Some((c, v)) ==> {
                &&& c.same_wire(&self)
                &&& c.got() == self.got().push(Frame::Msg(v))
                &&& c.sent() == self.sent()
            },
    {
        let f = wire_recv(&self.rx);
        self.after_read(f)
    }

    /// Takes a message if one is waiting and continues as `T`; otherwise
    /// hands this endpoint back unchanged.
    pub fn try_recv(self) -> (r: Result<(Chan<E, T, M>, M), Chan<E, Recv<M, T>, M>>)
        ensures
            r matches Ok((c, v)) ==> {
                &&& c.same_wire(&self)
                &&& c.got() == self.got().push(Frame::Msg(v))
                &&& c.sent() == self.sent()
            },
            r matches Err(c) ==> c == self,
    {
        let f = wire_try_recv(&self.rx);
        self.after_try_read(f)
    }

    /// What a non-blocking read leaves, for each frame `f` that it gave: the
    /// endpoint at the next step with the message recorded as got, and the
    /// message, when `f` is a message; this endpoint unchanged otherwise.
    fn after_try_read(self, f: Option<Frame<M>>) -> (r: Result<(Chan<E, T, M>, M), Chan<E, Recv<M, T>, M>>)
        ensures
            r is Ok <==> f matches Some(Frame::Msg(_)),
            r matches Ok((c, v)) ==> {
                &&& f == Some(Frame::Msg(v))
                &&& c.same_wire(&self)
                &&& c.got() == self.got().push(Frame::Msg(v))
                &&& c.sent() == self.sent()
            },
            r matches Err(c) ==> c == self,
    {
        match f {
            Some(Frame::Msg(v)) => {
                let sent = Ghost(self.sent@);
                let got = Ghost(self.got@.push(Frame::Msg(v)));
                Ok((self.advance(sent, got), v))
            },
            _ => Err(self),
        }
    }
}

impl<E, R, S, M> Chan<E, Choose<R, S>, M> {
    /// Picks the first branch; `None` when the other endpoint is gone.
    pub fn sel1(self) -> (r: Option<Chan<E, R, M>>)
        ensures
            r matches Some(c) ==> {
                &&& c.same_wire(&self)
                &&& c.sent() == self.sent().push(Frame::Pick(true))
                &&& c.got() == self.got()
            },
    {
        self.pick(true)
    }

    /// Picks the second branch; `None` when the other endpoint is gone.
    pub fn sel2(self) -> (r: Option<Chan<E, S, M>>)
        ensures
            r matches Some(c) ==> {
                &&& c.same_wire(&self)
                &&& c.sent() == self.sent().push(Frame::Pick(false))
                &&& c.got() == self.got()
            },
    {
        self.pick(false)
    }
}

impl<Z, A, B, M> Chan<Z, Choose<A, B>, M> {
    /// Skips the first branch: `sel2`.
    pub fn skip(self) -> (r: Option<Chan<Z, B, M>>)
        ensures
            r matches Some(c) ==> {
                &&& c.same_wire(&self)
                &&& c.sent() == self.sent() + skips::<M>(1)
                &&& c.got() == self.got()
            },
    {
        let r = self.sel2();
        assert(self.sent().push(Frame::Pick(false)) =~= self.sent() + skips::<M>(1));
        r
    }
}

impl<Z, A, B, C, M> Chan<Z, Choose<A, Choose<B, C>>, M> {
    /// Skips two branches: `sel2` twice.
    pub fn skip2(self) -> (r: Option<Chan<Z, C, M>>)
        ensures
            r matches Some(c) ==> {
                &&& c.same_wire(&self)
                &&& c.sent() == self.sent() + skips::<M>(2)
                &&& c.got() == self.got()
            },
    {
        match self.skip() {
            Some(c) => {
                let r = c.skip();
                assert(self.sent() + skips::<M>(1) + skips::<M>(1) =~= self.sent() + skips::<M>(2));
                r
            },
            None => None,
        }
    }
}

impl<Z, A, B, C, D, M> Chan<Z, Choose<A, Choose<B, Choose<C, D>>>, M> {
    /// Skips 3 branches: `sel2` 3 times.
    pub fn skip3(self) -> (r: Option<Chan<Z, D, M>>)
        ensures
            r matches Some(c) ==> {
                &&& c.same_wire(&self)
                &&& c.sent() == self.sent() + skips::<M>(3)
                &&& c.got() == self.got()
            },
    {
        match self.sel2() {
            Some(c) => {
                let r = c.skip2();
                assert(self.sent().push(Frame::Pick(false)) + skips::<M>(2) =~= self.sent() + skips::<M>(3));
                r
            },
            None => None,
        }
    }
}

impl<Z, A, B, C, D, E, M> Chan<Z, Choose<A, Choose<B, Choose<C, Choose<D, E>>>>, M> {
    /// Skips 4 branches: `sel2` 4 times.
    pub fn skip4(self) -> (r: Option<Chan<Z, E, M>>)
        ensures
            r matches Some(c) ==> {
                &&& c.same_wire(&self)
                &&& c.sent() == self.sent() + skips::<M>(4)
                &&& c.got() == self.got()
            },
    {
        match self.sel2() {
            Some(c) => {
                let r = c.skip3();
                assert(self.sent().push(Frame::Pick(false)) + skips::<M>(3) =~= self.sent() + skips::<M>(4));
                r
            },
            None => None,
        }
    }
}

impl<Z, A, B, C, D, E, F, M> Chan<Z, Choose<A, Choose<B, Choose<C, Choose<D, Choose<E, F>>>>>, M> {
    /// Skips 5 branches: `sel2` 5 times.
    pub fn skip5(self) -> (r: Option<Chan<Z, F, M>>)
        ensures
            r matches Some(c) ==> {
                &&& c.same_wire(&self)
                &&& c.sent() == self.sent() + skips::<M>(5)
                &&& c.got() == self.got()
            },
    {
        match self.sel2() {
            Some(c) => {
                let r = c.skip4();
                assert(self.sent().push(Frame::Pick(false)) + skips::<M>(4) =~= self.sent() + skips::<M>(5));
                r
            },
            None => None,
        }
    }
}

impl<Z, A, B, C, D, E, F, G, M> Chan<Z, Choose<A, Choose<B, Choose<C, Choose<D, Choose<E, Choose<F, G>>>>>>, M> {
    /// Skips 6 branches: `sel2` 6 times.
    pub fn skip6(self) -> (r: Option<Chan<Z, G, M>>)
        ensures
            r matches Some(c) ==> {
                &&& c.same_wire(&self)
                &&& c.sent() == self.sent() + skips::<M>(6)
                &&& c.got() == self.got()
            },
    {
        match self.sel2() {
            Some(c) => {
                let r = c.skip5();
                assert(self.sent().push(Frame::Pick(false)) + skips::<M>(5) =~= self.sent() + skips::<M>(6));
                r
            },
            None => None,
        }
    }
}

impl<Z, A, B, C, D, E, F, G, H, M> Chan<Z, Choose<A, Choose<B, Choose<C, Choose<D, Choose<E, Choose<F, Choose<G, H>>>>>>>, M> {
    /// Skips 7 branches: `sel2` 7 times.
    pub fn skip7(self) -> (r: Option<Chan<Z, H, M>>)
        ensures
            r matches Some(c) ==> {
                &&& c.same_wire(&self)
                &&& c.sent() == self.sent() + skips::<M>(7)
                &&& c.got() == self.got()
            },
    {
        match self.sel2() {
            Some(c) => {
                let r = c.skip6();
                assert(self.sent().push(Frame::Pick(false)) + skips::<M>(6) =~= self.sent() + skips::<M>(7));
                r
            },
            None => None,
        }
    }
}

impl<E, R, S, M> Chan<E, Offer<R, S>, M> {
    /// Waits for the other endpoint's pick: `Left` at the first branch,
    /// `Right` at the second; `None` when the other endpoint is gone, or put a
    /// message where a pick belongs.
    pub fn offer(self) -> (r: Option<Branch<Chan<E, R, M>, Chan<E, S, M>>>)
        ensures
            r matches Some(Branch::Left(c)) ==> {
                &&& c.same_wire(&self)
                &&& c.got() == self.got().push(Frame::Pick(true))
                &&& c.sent() == self.sent()
            },
            r matches Some(Branch::Right(c)) ==> {
                &&& c.same_wire(&self)
                &&& c.got() == self.got().push(Frame::Pick(false))
                &&& c.sent() == self.sent()
            },
    {
        let f = wire_recv(&self.rx);
        self.after_pick_read(f)
    }
}

impl<E, R, M> Chan<E, Rec<R>, M> {
    /// Enters the recursive protocol: its body goes on top of the environment.
    pub fn enter(self) -> (r: Chan<(R, E), R, M>)
        ensures
            r.moved(&self),
    {
        self.retype()
    }
}

impl<E, R, M> Chan<(R, E), Var<Z>, M> {
    /// Goes back to the innermost recursion body.
    pub fn zero(self) -> (r: Chan<(R, E), R, M>)
        ensures
            r.moved(&self),
    {
        self.retype()
    }
}

impl<E, R, V, M> Chan<(R, E), Var<S<V>>, M> {
    /// Leaves the innermost recursion body: it comes off the environment.
    pub fn succ(self) -> (r: Chan<E, Var<V>, M>)
        ensures
            r.moved(&self),
    {
        self.retype()
    }
}

/// `send` and `recv` move an endpoint one `Send`/`Recv` step of the model.
pub proof fn lemma_send_recv_are_steps<E: Environment, A, T: Protocol>()
    ensures
        step(E::env(), <Send<A, T> as Protocol>::proto(), Action::Send) == Some((E::env(), T::proto())),
        step(E::env(), <Recv<A, T> as Protocol>::proto(), Action::Recv) == Some((E::env(), T::proto())),
{
}

/// `sel1`/`sel2` and the two outcomes of `offer` move an endpoint one step of
/// the model, to the first or the second branch.
pub proof fn lemma_choice_is_step<E: Environment, R: Protocol, T: Protocol>()
    ensures
        step(E::env(), <Choose<R, T> as Protocol>::proto(), Action::Sel(true)) == Some((E::env(), R::proto())),
        step(E::env(), <Choose<R, T> as Protocol>::proto(), Action::Sel(false)) == Some((E::env(), T::proto())),
        step(E::env(), <Offer<R, T> as Protocol>::proto(), Action::Offer(true)) == Some((E::env(), R::proto())),
        step(E::env(), <Offer<R, T> as Protocol>::proto(), Action::Offer(false)) == Some((E::env(), T::proto())),
{
}

/// `enter`, `zero` and `succ` move an endpoint one step of the model: from
/// `Chan<E, Rec<R>>` to `Chan<(R, E), R>`, from `Chan<(R, E), Var<Z>>` to
/// `Chan<(R, E), R>`, and from `Chan<(R, E), Var<S<V>>>` to `Chan<E, Var<V>>`.
pub proof fn lemma_recursion_is_step<E: Environment, R: Protocol, V: Peano>()
    requires
        V::value() < u64::MAX,
    ensures
        step(E::env(), <Rec<R> as Protocol>::proto(), Action::Enter) == Some((<(R, E) as Environment>::env(), R::proto())),
        step(<(R, E) as Environment>::env(), <Var<Z> as Protocol>::proto(), Action::Zero) == Some((<(R, E) as Environment>::env(), R::proto())),
        step(<(R, E) as Environment>::env(), <Var<S<V>> as Protocol>::proto(), Action::Succ) == Some((E::env(), <Var<V> as Protocol>::proto())),
{
    assert((<(R, E) as Environment>::env()).drop_first() =~= E::env());
}

} // verus!
