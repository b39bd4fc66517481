//! A trait that only the protocol types of this crate implement, so that
//! `HasDual` cannot be implemented from outside. (`Dual` and `EnvDual` hold
//! of pairs only, which no other crate may implement a trait of this one for.)

use vstd::prelude::*;
use crate::types::{Choose, Eps, Offer, Rec, Recv, S, Send, Var, Z};

verus! {

/// Implemented by the protocol types and the Peano numbers.
pub trait Sealed {}

impl Sealed for Z {}

impl<N> Sealed for S<N> {}

impl Sealed for Eps {}

impl<A, R> Sealed for Recv<A, R> {}

impl<A, R> Sealed for Send<A, R> {}

impl<R, T> Sealed for Choose<R, T> {}

impl<R, T> Sealed for Offer<R, T> {}

impl<R> Sealed for Rec<R> {}

impl<V> Sealed for Var<V> {}

} // verus!
