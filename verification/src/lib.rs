//! Session-typed channels: two endpoints that follow dual protocols, with
//! the duality of protocols proved against a value-level model.

pub mod chan;
pub mod codegen;
pub mod proto;
mod sealed;
pub mod select;
pub mod session;
pub mod types;
pub mod wire;

pub use chan::{Branch, Chan};
pub use proto::{Action, Proto, is_dual, is_env_dual, try_step};
pub use select::{ChanSelect, hselect, iselect};
pub use session::{accept, borrow_accept, borrow_request, request, session_channel};
pub use types::{
    Choose, Dual, EnvDual, Environment, Eps, HasDual, Offer, OfferTrait, Peano, Protocol, Rec, Recv, S, Send, Var,
    Z,
};
pub use wire::Frame;
