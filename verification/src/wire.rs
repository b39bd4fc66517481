//! The wire under a session: a pair of crossbeam channels carrying frames,
//! and the selection over several receiving ends. Everything here that
//! touches crossbeam or std's channels is a trusted item.
//!
//! The channels of a session are crossbeam's rather than std's because
//! waiting on several receivers at once needs a selection, and std's
//! `std::sync::mpsc::Select` has been removed from std; crossbeam's `Select`
//! does the same work. Opening a session over `accept`/`request` still uses
//! std's `std::sync::mpsc` channels.

use vstd::prelude::*;

verus! {

/// What travels between the two endpoints of a session: a message, or the
/// branch that a `Choose` picked (`true` for the first branch).
pub enum Frame<M> {
    Msg(M),
    Pick(bool),
}

#[verifier::external_type_specification]
#[verifier::external_body]
#[verifier::reject_recursive_types(T)]
pub struct ExWireSender<T>(crossbeam_channel::Sender<T>);

#[verifier::external_type_specification]
#[verifier::external_body]
#[verifier::reject_recursive_types(T)]
pub struct ExWireReceiver<T>(crossbeam_channel::Receiver<T>);

#[verifier::external_type_specification]
#[verifier::external_body]
pub struct ExSelect<'a>(crossbeam_channel::Select<'a>);

#[verifier::external_type_specification]
#[verifier::external_body]
#[verifier::reject_recursive_types(T)]
pub struct ExMpscSender<T>(std::sync::mpsc::Sender<T>);

#[verifier::external_type_specification]
#[verifier::external_body]
#[verifier::reject_recursive_types(T)]
pub struct ExMpscReceiver<T>(std::sync::mpsc::Receiver<T>);

/// The number of operations that have been added to a crossbeam `Select`.
pub uninterp spec fn select_ops(sel: crossbeam_channel::Select) -> nat;

/// Calls `crossbeam_channel::unbounded`: a fresh channel, as its sending and
/// receiving end. Nothing is stated of the pair: that the two ends belong to
/// one channel cannot be named here, for the ends are generic.
#[verifier::external_body]
pub(crate) fn wire<M>() -> (r: (crossbeam_channel::Sender<Frame<M>>, crossbeam_channel::Receiver<Frame<M>>)) {
    crossbeam_channel::unbounded()
}

/// Calls `crossbeam_channel::Sender::send`: `true` when the frame was put on
/// the channel, `false` when every receiving end is gone. Which of the two
/// happens rests on the other endpoint, so nothing is stated of it.
#[verifier::external_body]
pub(crate) fn wire_send<M>(tx: &crossbeam_channel::Sender<Frame<M>>, f: Frame<M>) -> (ok: bool) {
    tx.send(f).is_ok()
}

/// Calls `crossbeam_channel::Receiver::recv`: blocks until a frame comes and
/// returns it, or `None` once the channel is empty and every sending end is
/// gone. What comes rests on the other endpoint, so nothing is stated of it.
#[verifier::external_body]
pub(crate) fn wire_recv<M>(rx: &crossbeam_channel::Receiver<Frame<M>>) -> (r: Option<Frame<M>>) {
    rx.recv().ok()
}

/// Calls `crossbeam_channel::Receiver::try_recv`: a frame if one is waiting,
/// else `None` at once. What comes rests on the other endpoint, so nothing is
/// stated of it.
#[verifier::external_body]
pub(crate) fn wire_try_recv<M>(rx: &crossbeam_channel::Receiver<Frame<M>>) -> (r: Option<Frame<M>>) {
    rx.try_recv().ok()
}

/// Calls `crossbeam_channel::Select::new`: a selection with no operations.
#[verifier::external_body]
pub(crate) fn selector<'a>() -> (sel: crossbeam_channel::Select<'a>)
    ensures
        select_ops(sel) == 0,
{
    crossbeam_channel::Select::new()
}

/// Calls `crossbeam_channel::Select::recv`: adds a receive operation on `rx`
/// and returns its index, which is the number of operations added before.
#[verifier::external_body]
pub(crate) fn select_add<'a, M>(
    sel: &mut crossbeam_channel::Select<'a>,
    rx: &'a crossbeam_channel::Receiver<Frame<M>>,
) -> (i: usize)
    ensures
        i == select_ops(*old(sel)),
        select_ops(*final(sel)) == select_ops(*old(sel)) + 1,
{
    sel.recv(rx)
}

/// Calls `crossbeam_channel::Select::ready`: blocks until one of the added
/// operations is ready (a frame waits, or the channel is disconnected) and
/// returns its index. It panics when no operation was added, so `requires`
/// leaves that out. Which operation is ready rests on the other endpoints.
#[verifier::external_body]
pub(crate) fn select_ready(sel: &mut crossbeam_channel::Select) -> (i: usize)
    requires
        select_ops(*old(sel)) > 0,
    ensures
        i < select_ops(*old(sel)),
        select_ops(*final(sel)) == select_ops(*old(sel)),
{
    sel.ready()
}

/// Calls `std::sync::mpsc::Sender::send`: `true` when the value was sent,
/// `false` when the receiving end is gone (the value is then dropped).
#[verifier::external_body]
pub(crate) fn mpsc_send<T>(tx: &std::sync::mpsc::Sender<T>, v: T) -> (ok: bool) {
    tx.send(v).is_ok()
}

/// Calls `std::sync::mpsc::Receiver::recv`: blocks until a value comes and
/// returns it, or `None` once every sending end is gone.
#[verifier::external_body]
pub(crate) fn mpsc_recv<T>(rx: &std::sync::mpsc::Receiver<T>) -> (r: Option<T>) {
    rx.recv().ok()
}

} // verus!
