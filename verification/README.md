# session_types

Session-typed channels for Rust, verified with Verus.

Two endpoints of a session follow dual protocols built from `Send`, `Recv`,
`Choose`, `Offer`, `Rec`, `Var` and `Eps`. Each operation on a `Chan<E, P, M>`
consumes the endpoint and returns it at the next step of its protocol, so a
program that uses an endpoint out of protocol does not compile. Messages of a
session have the type `M`.

Layout:

- `src/proto.rs`: a value-level model of protocols, their duals and the steps
  of an endpoint, with the proof that dual endpoints taking matching steps stay
  dual.
- `src/types.rs`: the protocol types, `HasDual`, and the duality rules `Dual`
  and `EnvDual`, each proved to agree with the model.
- `src/chan.rs`: the endpoint and its operations; ghost state records the
  frames that each endpoint's operations report having put on the wire and
  taken from it.
- `src/session.rs`: opening sessions (`session_channel`, `accept`, `request`).
- `src/select.rs`: waiting on several endpoints (`iselect`, `hselect`,
  `ChanSelect`).
- `src/wire.rs`: the crossbeam and std channels under a session (trusted).
- `src/codegen.rs`: the source text of the n-ary branch items.
- `app/lib.rs`: `connect` (two threads), and the `offer!` and `chan_select!`
  macros.
