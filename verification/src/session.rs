//! Opening sessions: a pair of endpoints at once, or one endpoint handed to
//! a peer over a std channel.

use vstd::prelude::*;
use crate::chan::Chan;
use crate::proto::{dual, env_dual};
use crate::types::{Dual, EnvDual};
use crate::wire::{Frame, mpsc_recv, mpsc_send, wire};

verus! {

/// Two fresh endpoints of one session, the second at the dual protocol in
/// the dual environment. Each sends on the channel that the other receives on.
pub fn session_channel<E, E_, R, S, M>() -> (r: (Chan<E, R, M>, Chan<E_, S, M>)) where
    (R, S): Dual,
    (E, E_): EnvDual,
    ensures
        r.0.sent() == Seq::<Frame<M>>::empty(),
        r.0.got() == Seq::<Frame<M>>::empty(),
        r.1.sent() == Seq::<Frame<M>>::empty(),
        r.1.got() == Seq::<Frame<M>>::empty(),
        dual(<(R, S) as Dual>::lhs()) == <(R, S) as Dual>::rhs(),
        env_dual(<(E, E_) as EnvDual>::lhs(), <(E, E_) as EnvDual>::rhs()),
{
    proof {
        <(R, S) as Dual>::lemma_dual();
        <(E, E_) as EnvDual>::lemma_env_dual();
    }
    let (tx1, rx1) = wire::<M>();
    let (tx2, rx2) = wire::<M>();
    let c1 = Chan::from_wire(tx1, rx2);
    let c2 = Chan::from_wire(tx2, rx1);
    (c1, c2)
}

/// Offers a session over `tx` and keeps one endpoint; see `borrow_accept`.
pub fn accept<E: std::marker::Send + 'static, R: std::marker::Send + 'static, M>(
    tx: std::sync::mpsc::Sender<Chan<E, R, M>>,
) -> (r: Option<Chan<E, R, M>>)
    ensures
        r matches Some(c) ==> {
            &&& c.sent() == Seq::<Frame<M>>::empty()
            &&& c.got() == Seq::<Frame<M>>::empty()
        },
{
    borrow_accept(&tx)
}

/// Makes a fresh session, sends one endpoint over `tx` for a peer to
/// `request`, and keeps the other; `None` when nobody receives on `tx`.
pub fn borrow_accept<E: std::marker::Send + 'static, R: std::marker::Send + 'static, M>(
    tx: &std::sync::mpsc::Sender<Chan<E, R, M>>,
) -> (r: Option<Chan<E, R, M>>)
    ensures
        r matches Some(c) ==> {
            &&& c.sent() == Seq::<Frame<M>>::empty()
            &&& c.got() == Seq::<Frame<M>>::empty()
        },
{
    let (tx1, rx1) = wire::<M>();
    let (tx2, rx2) = wire::<M>();
    let c1: Chan<E, R, M> = Chan::from_wire(tx1, rx2);
    let c2: Chan<E, R, M> = Chan::from_wire(tx2, rx1);
    let ok = mpsc_send(tx, c1);
    keep_if_sent(ok, c2)
}

/// What offering a session leaves, for each outcome `ok` of sending the
/// peer's endpoint: the kept endpoint when it was sent, `None` when not.
fn keep_if_sent<E, R, M>(ok: bool, kept: Chan<E, R, M>) -> (r: Option<Chan<E, R, M>>)
    ensures
        r is Some <==> ok,
        r matches Some(c) ==> c == kept,
{
    if ok {
        Some(kept)
    } else {
        None
    }
}

/// What waiting for an offered endpoint leaves, for each outcome `got` of
/// the wait: the endpoint received, at the dual protocol, or `None`.
fn take_received<E, E_, R, S, M>(got: Option<Chan<E, R, M>>) -> (r: Option<Chan<E_, S, M>>)
    ensures
        r is Some <==> got is Some,
        r matches Some(c) ==> c.moved(&got->0),
{
    match got {
        Some(c) => Some(c.retype()),
        None => None,
    }
}

/// Takes the endpoint that a peer offered with `accept`; see `borrow_request`.
pub fn request<E: std::marker::Send + 'static, E_, R: std::marker::Send + 'static, S, M>(
    rx: std::sync::mpsc::Receiver<Chan<E, R, M>>,
) -> (r: Option<Chan<E_, S, M>>) where
    (R, S): Dual,
    (E, E_): EnvDual,
    ensures
        dual(<(R, S) as Dual>::lhs()) == <(R, S) as Dual>::rhs(),
        env_dual(<(E, E_) as EnvDual>::lhs(), <(E, E_) as EnvDual>::rhs()),
{
    proof {
        <(R, S) as Dual>::lemma_dual();
        <(E, E_) as EnvDual>::lemma_env_dual();
    }
    borrow_request::<E, E_, R, S, M>(&rx)
}

/// Waits for the endpoint that a peer offered with `accept` and takes it at
/// the dual protocol, in the dual environment; `None` when the peer is gone.
pub fn borrow_request<E: std::marker::Send + 'static, E_, R: std::marker::Send + 'static, S, M>(
    rx: &std::sync::mpsc::Receiver<Chan<E, R, M>>,
) -> (r: Option<Chan<E_, S, M>>) where
    (R, S): Dual,
    (E, E_): EnvDual,
    ensures
        dual(<(R, S) as Dual>::lhs()) == <(R, S) as Dual>::rhs(),
        env_dual(<(E, E_) as EnvDual>::lhs(), <(E, E_) as EnvDual>::rhs()),
{
    proof {
        <(R, S) as Dual>::lemma_dual();
        <(E, E_) as EnvDual>::lemma_env_dual();
    }
    let got = mpsc_recv(rx);
    take_received::<E, E_, R, S, M>(got)
}

} // verus!
