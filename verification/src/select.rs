//! Waiting on several endpoints at once, for the first one with something
//! to receive.

use vstd::prelude::*;
use crate::chan::Chan;
use crate::types::Recv;
use crate::wire::{select_add, select_ops, select_ready, selector};

verus! {

/// The index of an endpoint of `chans` that is ready to receive (a message
/// waits, or the other endpoint is gone). Blocks until there is one.
pub fn iselect<E, P, A>(chans: &Vec<Chan<E, Recv<A, P>, A>>) -> (i: usize)
    requires
        chans.len() > 0,
    ensures
        i < chans.len(),
{
    let mut sel = selector();
    let mut k: usize = 0;
    while k < chans.len()
        invariant
            k <= chans.len(),
            select_ops(sel) == k,
        decreases chans.len() - k,
    {
        let _ = select_add(&mut sel, chans[k].receiver());
        k = k + 1;
    }
    select_ready(&mut sel)
}

/// Homogeneous select: takes out of `chans` an endpoint that is ready to
/// receive, and returns it together with the others, in their order.
pub fn hselect<E, P, A>(chans: Vec<Chan<E, Recv<A, P>, A>>) -> (r: (
    Chan<E, Recv<A, P>, A>,
    Vec<Chan<E, Recv<A, P>, A>>,
))
    requires
        chans.len() > 0,
    ensures
        exists|i: int|
            0 <= i < chans.len() && r.0 == chans@[i] && r.1@ == chans@.remove(i),
{
    let mut chans = chans;
    let i = iselect(&chans);
    let c = chans.remove(i);
    (c, chans)
}

/// Heterogeneous select: endpoints, each with a value to hand back when it
/// is the one that is ready to receive.
pub struct ChanSelect<'c, T> {
    sel: crossbeam_channel::Select<'c>,
    ret: Vec<T>,
}

impl<'c, T> ChanSelect<'c, T> {
    /// The values registered so far, in the order of registration.
    pub closed spec fn rets(&self) -> Seq<T> {
        self.ret@
    }

    /// One selection operation per registered value.
    pub closed spec fn wf(&self) -> bool {
        select_ops(self.sel) == self.ret.len()
    }

    /// An empty selection.
    pub fn new() -> (r: ChanSelect<'c, T>)
        ensures
            r.wf(),
            r.rets() == Seq::<T>::empty(),
    {
        ChanSelect { sel: selector(), ret: Vec::new() }
    }

    /// Registers an endpoint whose next step is to receive, with the value
    /// `ret` to hand back when it is ready.
    pub fn add_ret<E, R, A>(&mut self, chan: &'c Chan<E, Recv<A, R>, A>, ret: T)
        requires
            old(self).wf(),
        ensures
            final(self).wf(),
            final(self).rets() == old(self).rets().push(ret),
    {
        self.ret.push(ret);
        let _ = select_add(&mut self.sel, chan.receiver());
    }

    /// Registers an endpoint whose next step is to receive, with the value
    /// `ret` to hand back when it is ready. The same as `add_ret`.
    pub fn add_recv_ret<E, R, A>(&mut self, chan: &'c Chan<E, Recv<A, R>, A>, ret: T)
        requires
            old(self).wf(),
        ensures
            final(self).wf(),
            final(self).rets() == old(self).rets().push(ret),
    {
        self.add_ret(chan, ret);
    }

    /// Blocks until one of the registered endpoints is ready to receive (a
    /// message waits, or its other endpoint is gone), and hands back its value.
    pub fn wait(self) -> (r: T)
        requires
            self.wf(),
            self.rets().len() > 0,
        ensures
            exists|i: int| 0 <= i < self.rets().len() && r == self.rets()[i],
    {
        let mut this = self;
        let i = select_ready(&mut this.sel);
        this.ret.remove(i)
    }
}

impl<'c> ChanSelect<'c, usize> {
    /// Registers an endpoint whose next step is to receive; its value is its
    /// position among the registered endpoints. The same as `add`.
    pub fn add_recv<E, R, A>(&mut self, c: &'c Chan<E, Recv<A, R>, A>)
        requires
            old(self).wf(),
        ensures
            final(self).wf(),
            final(self).rets() == old(self).rets().push(old(self).rets().len() as usize),
    {
        self.add(c);
    }

    /// Registers an endpoint whose next step is to receive; its value is its
    /// position among the registered endpoints.
    pub fn add<E, R, A>(&mut self, c: &'c Chan<E, Recv<A, R>, A>)
        requires
            old(self).wf(),
        ensures
            final(self).wf(),
            final(self).rets() == old(self).rets().push(old(self).rets().len() as usize),
    {
        let index = self.ret.len();
        self.add_ret(c, index);
    }
}

/// Whether every entry of `rets` is its own position.
pub open spec fn holds_positions(rets: Seq<usize>) -> bool {
    forall|i: int| 0 <= i < rets.len() ==> rets[i] == i
}

/// Registering with `add` keeps a selection whose values are their own
/// positions so: the new endpoint gets the next position.
pub proof fn lemma_add_keeps_positions(before: Seq<usize>, after: Seq<usize>)
    requires
        holds_positions(before),
        before.len() < usize::MAX,
        after == before.push(before.len() as usize),
    ensures
        holds_positions(after),
{
}

/// On a selection whose values are their own positions, what `wait` hands
/// back is the position of the endpoint that was ready.
pub proof fn lemma_wait_gives_position(rets: Seq<usize>, r: usize)
    requires
        holds_positions(rets),
        exists|i: int| 0 <= i < rets.len() && r == rets[i],
    ensures
        r < rets.len(),
        rets[r as int] == r,
{
}

} // verus!
