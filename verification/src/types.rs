//! The protocol types, the Peano numbers that index recursion variables,
//! and the duality relations between protocols and between environments.
//! Each protocol type has a model in `crate::proto::Proto`, and each rule of
//! duality carries a proof that it agrees with `crate::proto::dual`.

use core::marker::PhantomData;
use vstd::prelude::*;
use crate::sealed::Sealed;
use crate::proto::{Proto, dual, env_dual, lemma_dual_involutive, lemma_env_dual_symmetric};

verus! {

/// Zero, for indexing recursion variables.
pub struct Z;

/// Successor, for indexing recursion variables.
pub struct S<P>(PhantomData<P>);

/// The end of a protocol.
pub struct Eps;

/// Receive an `A`, then continue as `R`.
pub struct Recv<A, R>(PhantomData<(A, R)>);

/// Send an `A`, then continue as `R`.
pub struct Send<A, R>(PhantomData<(A, R)>);

/// Choose between continuing as `R` or as `S`.
pub struct Choose<R, S>(PhantomData<(R, S)>);

/// Let the other side choose between `R` and `S`.
pub struct Offer<R, S>(PhantomData<(R, S)>);

/// A marker that carries a type; it takes no part in any protocol rule.
pub struct OfferTrait<T>(PhantomData<T>);

/// A recursive protocol with body `R`.
pub struct Rec<R>(PhantomData<R>);

/// A reference to an enclosing `Rec` body, counted by a Peano number.
pub struct Var<V>(PhantomData<V>);

/// The Peano numbers `Z`, `S<Z>`, ... and their values.
pub trait Peano {
    spec fn value() -> nat;
}

impl Peano for Z {
    open spec fn value() -> nat {
        0
    }
}

impl<N: Peano> Peano for S<N> {
    open spec fn value() -> nat {
        N::value() + 1
    }
}

/// A protocol type and its model.
pub trait Protocol {
    spec fn proto() -> Proto;
}

impl Protocol for Eps {
    open spec fn proto() -> Proto {
        Proto::Eps
    }
}

impl<A, P: Protocol> Protocol for Send<A, P> {
    open spec fn proto() -> Proto {
        Proto::Send(Box::new(P::proto()))
    }
}

impl<A, P: Protocol> Protocol for Recv<A, P> {
    open spec fn proto() -> Proto {
        Proto::Recv(Box::new(P::proto()))
    }
}

impl<P: Protocol, Q: Protocol> Protocol for Choose<P, Q> {
    open spec fn proto() -> Proto {
        Proto::Choose(Box::new(P::proto()), Box::new(Q::proto()))
    }
}

impl<P: Protocol, Q: Protocol> Protocol for Offer<P, Q> {
    open spec fn proto() -> Proto {
        Proto::Offer(Box::new(P::proto()), Box::new(Q::proto()))
    }
}

impl<P: Protocol> Protocol for Rec<P> {
    open spec fn proto() -> Proto {
        Proto::Rec(Box::new(P::proto()))
    }
}

impl<N: Peano> Protocol for Var<N> {
    open spec fn proto() -> Proto {
        Proto::Var(N::value() as u64)
    }
}

/// A protocol type with its dual protocol type.
pub trait HasDual: Protocol + Sealed {
    type Dual: Protocol;

    /// The dual type is modelled by the dual protocol.
    proof fn lemma_dual_proto()
        ensures
            <Self::Dual as Protocol>::proto() == dual(Self::proto()),
    ;
}

impl HasDual for Eps {
    type Dual = Eps;

    proof fn lemma_dual_proto() {
    }
}

impl<A, P: HasDual> HasDual for Send<A, P> {
    type Dual = Recv<A, P::Dual>;

    proof fn lemma_dual_proto() {
        P::lemma_dual_proto();
    }
}

impl<A, P: HasDual> HasDual for Recv<A, P> {
    type Dual = Send<A, P::Dual>;

    proof fn lemma_dual_proto() {
        P::lemma_dual_proto();
    }
}

impl<P: HasDual, Q: HasDual> HasDual for Choose<P, Q> {
    type Dual = Offer<P::Dual, Q::Dual>;

    proof fn lemma_dual_proto() {
        P::lemma_dual_proto();
        Q::lemma_dual_proto();
    }
}

impl<P: HasDual, Q: HasDual> HasDual for Offer<P, Q> {
    type Dual = Choose<P::Dual, Q::Dual>;

    proof fn lemma_dual_proto() {
        P::lemma_dual_proto();
        Q::lemma_dual_proto();
    }
}

impl<P: HasDual> HasDual for Rec<P> {
    type Dual = Rec<P::Dual>;

    proof fn lemma_dual_proto() {
        P::lemma_dual_proto();
    }
}

impl<N: Peano> HasDual for Var<N> {
    type Dual = Var<N>;

    proof fn lemma_dual_proto() {
    }
}

/// The variable one further out than the variable `p` (other protocols are
/// left as they are).
pub open spec fn outer_var(p: Proto) -> Proto {
    match p {
        Proto::Var(n) => Proto::Var((n + 1) as u64),
        _ => p,
    }
}

/// Pairs `(L, R)` of protocol types that may stand at the two ends of one
/// session. Each rule carries its models `lhs` and `rhs` and a proof that
/// `rhs` is the dual of `lhs`.
pub trait Dual {
    spec fn lhs() -> Proto;

    spec fn rhs() -> Proto;

    /// The right-hand protocol is the dual of the left-hand one.
    proof fn lemma_dual()
        ensures
            dual(Self::lhs()) == Self::rhs(),
    ;
}

impl Dual for (Eps, Eps) {
    open spec fn lhs() -> Proto {
        Proto::Eps
    }

    open spec fn rhs() -> Proto {
        Proto::Eps
    }

    proof fn lemma_dual() {
    }
}

impl<A, T, U> Dual for (Send<A, T>, Recv<A, U>) where (T, U): Dual {
    open spec fn lhs() -> Proto {
        Proto::Send(Box::new(<(T, U) as Dual>::lhs()))
    }

    open spec fn rhs() -> Proto {
        Proto::Recv(Box::new(<(T, U) as Dual>::rhs()))
    }

    proof fn lemma_dual() {
        <(T, U) as Dual>::lemma_dual();
    }
}

impl<A, T, U> Dual for (Recv<A, T>, Send<A, U>) where (T, U): Dual {
    open spec fn lhs() -> Proto {
        Proto::Recv(Box::new(<(T, U) as Dual>::lhs()))
    }

    open spec fn rhs() -> Proto {
        Proto::Send(Box::new(<(T, U) as Dual>::rhs()))
    }

    proof fn lemma_dual() {
        <(T, U) as Dual>::lemma_dual();
    }
}

impl<R, S, Rn, Sn> Dual for (Choose<R, Rn>, Offer<S, Sn>) where (R, S): Dual, (Rn, Sn): Dual {
    open spec fn lhs() -> Proto {
        Proto::Choose(Box::new(<(R, S) as Dual>::lhs()), Box::new(<(Rn, Sn) as Dual>::lhs()))
    }

    open spec fn rhs() -> Proto {
        Proto::Offer(Box::new(<(R, S) as Dual>::rhs()), Box::new(<(Rn, Sn) as Dual>::rhs()))
    }

    proof fn lemma_dual() {
        <(R, S) as Dual>::lemma_dual();
        <(Rn, Sn) as Dual>::lemma_dual();
    }
}

impl<R, S, Rn, Sn> Dual for (Offer<R, Rn>, Choose<S, Sn>) where (R, S): Dual, (Rn, Sn): Dual {
    open spec fn lhs() -> Proto {
        Proto::Offer(Box::new(<(R, S) as Dual>::lhs()), Box::new(<(Rn, Sn) as Dual>::lhs()))
    }

    open spec fn rhs() -> Proto {
        Proto::Choose(Box::new(<(R, S) as Dual>::rhs()), Box::new(<(Rn, Sn) as Dual>::rhs()))
    }

    proof fn lemma_dual() {
        <(R, S) as Dual>::lemma_dual();
        <(Rn, Sn) as Dual>::lemma_dual();
    }
}

impl Dual for (Var<Z>, Var<Z>) {
    open spec fn lhs() -> Proto {
        Proto::Var(0)
    }

    open spec fn rhs() -> Proto {
        Proto::Var(0)
    }

    proof fn lemma_dual() {
    }
}

impl<N> Dual for (Var<S<N>>, Var<S<N>>) where (Var<N>, Var<N>): Dual {
    open spec fn lhs() -> Proto {
        outer_var(<(Var<N>, Var<N>) as Dual>::lhs())
    }

    open spec fn rhs() -> Proto {
        outer_var(<(Var<N>, Var<N>) as Dual>::rhs())
    }

    proof fn lemma_dual() {
        <(Var<N>, Var<N>) as Dual>::lemma_dual();
        let l = <(Var<N>, Var<N>) as Dual>::lhs();
        match l {
            Proto::Var(n) => {},
            _ => {},
        }
    }
}

impl<T, U> Dual for (Rec<T>, Rec<U>) where (T, U): Dual {
    open spec fn lhs() -> Proto {
        Proto::Rec(Box::new(<(T, U) as Dual>::lhs()))
    }

    open spec fn rhs() -> Proto {
        Proto::Rec(Box::new(<(T, U) as Dual>::rhs()))
    }

    proof fn lemma_dual() {
        <(T, U) as Dual>::lemma_dual();
    }
}

/// Pairs `(E, E_)` of environments that may stand at the two ends of one
/// session: equally deep stacks of recursion bodies, dual entry by entry.
pub trait EnvDual {
    spec fn lhs() -> Seq<Proto>;

    spec fn rhs() -> Seq<Proto>;

    /// The two environments are dual.
    proof fn lemma_env_dual()
        ensures
            env_dual(Self::lhs(), Self::rhs()),
    ;
}

impl EnvDual for ((), ()) {
    open spec fn lhs() -> Seq<Proto> {
        Seq::empty()
    }

    open spec fn rhs() -> Seq<Proto> {
        Seq::empty()
    }

    proof fn lemma_env_dual() {
    }
}

impl<R, R_, T, T_> EnvDual for ((R, T), (R_, T_)) where (R, R_): Dual, (T, T_): EnvDual {
    open spec fn lhs() -> Seq<Proto> {
        seq![<(R, R_) as Dual>::lhs()] + <(T, T_) as EnvDual>::lhs()
    }

    open spec fn rhs() -> Seq<Proto> {
        seq![<(R, R_) as Dual>::rhs()] + <(T, T_) as EnvDual>::rhs()
    }

    proof fn lemma_env_dual() {
        <(R, R_) as Dual>::lemma_dual();
        <(T, T_) as EnvDual>::lemma_env_dual();
        let l = Self::lhs();
        let r = Self::rhs();
        let tl = <(T, T_) as EnvDual>::lhs();
        let tr = <(T, T_) as EnvDual>::rhs();
        assert forall|i: int| 0 <= i < l.len() implies #[trigger] r[i] == dual(l[i]) by {
            if i > 0 {
                assert(l[i] == tl[i - 1]);
                assert(r[i] == tr[i - 1]);
            }
        }
    }
}

/// An environment type (`()`, or a recursion body `R` on top of `E` as
/// `(R, E)`) and its model, innermost body first.
pub trait Environment {
    spec fn env() -> Seq<Proto>;
}

impl Environment for () {
    open spec fn env() -> Seq<Proto> {
        Seq::empty()
    }
}

impl<R: Protocol, E: Environment> Environment for (R, E) {
    open spec fn env() -> Seq<Proto> {
        seq![R::proto()] + E::env()
    }
}

/// The dual of the dual of a protocol type is modelled by the protocol itself.
pub proof fn lemma_dual_of_dual<P: HasDual>() where P::Dual: HasDual
    ensures
        <<P::Dual as HasDual>::Dual as Protocol>::proto() == P::proto(),
{
    P::lemma_dual_proto();
    <P::Dual as HasDual>::lemma_dual_proto();
    lemma_dual_involutive(P::proto());
}

/// The rules of `Dual` are symmetric: the left-hand protocol of a pair is the
/// dual of its right-hand one.
pub proof fn lemma_dual_pair_symmetric<T: Dual>()
    ensures
        dual(T::rhs()) == T::lhs(),
{
    T::lemma_dual();
    lemma_dual_involutive(T::lhs());
}

/// The rules of `EnvDual` are symmetric.
pub proof fn lemma_env_dual_pair_symmetric<T: EnvDual>()
    ensures
        env_dual(T::rhs(), T::lhs()),
{
    T::lemma_env_dual();
    lemma_env_dual_symmetric(T::lhs(), T::rhs());
}

} // verus!
