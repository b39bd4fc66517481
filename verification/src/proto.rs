//! A value-level model of session protocols: the shape of a protocol type,
//! its dual, environments of recursion bodies, and the steps that the
//! operations of a channel take on a protocol.

use vstd::prelude::*;

verus! {

/// The shape of a protocol type. `Send`/`Recv` carry the continuation,
/// `Choose`/`Offer` the two branches, `Rec` its body, and `Var(n)` refers
/// to the `n`-th enclosing `Rec` body (counted from the innermost).
pub enum Proto {
    Eps,
    Send(Box<Proto>),
    Recv(Box<Proto>),
    Choose(Box<Proto>, Box<Proto>),
    Offer(Box<Proto>, Box<Proto>),
    Rec(Box<Proto>),
    Var(u64),
}

/// What an endpoint does at one step of a protocol.
#[derive(Clone, Copy)]
pub enum Action {
    Send,
    Recv,
    /// Pick the first (`true`) or second (`false`) branch of a `Choose`.
    Sel(bool),
    /// Be told the first (`true`) or second (`false`) branch of an `Offer`.
    Offer(bool),
    Enter,
    Zero,
    Succ,
}

/// The dual protocol: every send becomes a receive and every choice an offer.
pub open spec fn dual(p: Proto) -> Proto
    decreases p,
{
    match p {
        Proto::Eps => Proto::Eps,
        Proto::Send(k) => Proto::Recv(Box::new(dual(*k))),
        Proto::Recv(k) => Proto::Send(Box::new(dual(*k))),
        Proto::Choose(l, r) => Proto::Offer(Box::new(dual(*l)), Box::new(dual(*r))),
        Proto::Offer(l, r) => Proto::Choose(Box::new(dual(*l)), Box::new(dual(*r))),
        Proto::Rec(b) => Proto::Rec(Box::new(dual(*b))),
        Proto::Var(n) => Proto::Var(n),
    }
}

/// Two environments (stacks of recursion bodies, innermost first) are dual
/// when they have the same depth and are dual entry by entry.
pub open spec fn env_dual(e1: Seq<Proto>, e2: Seq<Proto>) -> bool {
    &&& e1.len() == e2.len()
    &&& forall|i: int| 0 <= i < e1.len() ==> #[trigger] e2[i] == dual(e1[i])
}

/// The action that the other endpoint takes at the same step.
pub open spec fn co_action(a: Action) -> Action {
    match a {
        Action::Send => Action::Recv,
        Action::Recv => Action::Send,
        Action::Sel(b) => Action::Offer(b),
        Action::Offer(b) => Action::Sel(b),
        Action::Enter => Action::Enter,
        Action::Zero => Action::Zero,
        Action::Succ => Action::Succ,
    }
}

/// One step of an endpoint in environment `env` at protocol `p`; `None` when
/// the protocol does not permit the action.
pub open spec fn step(env: Seq<Proto>, p: Proto, a: Action) -> Option<(Seq<Proto>, Proto)> {
    match (p, a) {
        (Proto::Send(k), Action::Send) => Some((env, *k)),
        (Proto::Recv(k), Action::Recv) => Some((env, *k)),
        (Proto::Choose(l, r), Action::Sel(b)) => Some((env, if b { *l } else { *r })),
        (Proto::Offer(l, r), Action::Offer(b)) => Some((env, if b { *l } else { *r })),
        (Proto::Rec(body), Action::Enter) => Some((seq![*body] + env, *body)),
        (Proto::Var(n), Action::Zero) => if n == 0 && env.len() > 0 {
            Some((env, env[0]))
        } else {
            None
        },
        (Proto::Var(n), Action::Succ) => if n > 0 && env.len() > 0 {
            Some((env.drop_first(), Proto::Var((n - 1) as u64)))
        } else {
            None
        },
        _ => None,
    }
}

/// A sequence of steps; `None` as soon as one is not permitted.
pub open spec fn run(env: Seq<Proto>, p: Proto, acts: Seq<Action>) -> Option<(Seq<Proto>, Proto)>
    decreases acts.len(),
{
    if acts.len() == 0 {
        Some((env, p))
    } else {
        match step(env, p, acts[0]) {
            Some((e, q)) => run(e, q, acts.drop_first()),
            None => None,
        }
    }
}

/// The actions of the other endpoint, step for step.
pub open spec fn co_actions(acts: Seq<Action>) -> Seq<Action> {
    acts.map_values(|a: Action| co_action(a))
}

/// Taking the dual twice gives back the protocol.
pub proof fn lemma_dual_involutive(p: Proto)
    ensures
        dual(dual(p)) == p,
    decreases p,
{
    match p {
        Proto::Eps => {},
        Proto::Send(k) => lemma_dual_involutive(*k),
        Proto::Recv(k) => lemma_dual_involutive(*k),
        Proto::Choose(l, r) => {
            lemma_dual_involutive(*l);
            lemma_dual_involutive(*r);
        },
        Proto::Offer(l, r) => {
            lemma_dual_involutive(*l);
            lemma_dual_involutive(*r);
        },
        Proto::Rec(b) => lemma_dual_involutive(*b),
        Proto::Var(n) => {},
    }
}

/// Duality is symmetric: if `q` is the dual of `p`, then `p` is the dual of `q`.
pub proof fn lemma_dual_symmetric(p: Proto, q: Proto)
    requires
        dual(p) == q,
    ensures
        dual(q) == p,
{
    lemma_dual_involutive(p);
}

/// A protocol has one dual: two duals of the same protocol are equal.
pub proof fn lemma_dual_unique(p: Proto, q1: Proto, q2: Proto)
    requires
        dual(p) == q1,
        dual(p) == q2,
    ensures
        q1 == q2,
{
}

/// Duality of environments is symmetric.
pub proof fn lemma_env_dual_symmetric(e1: Seq<Proto>, e2: Seq<Proto>)
    requires
        env_dual(e1, e2),
    ensures
        env_dual(e2, e1),
{
    assert forall|i: int| 0 <= i < e2.len() implies #[trigger] e1[i] == dual(e2[i]) by {
        lemma_dual_involutive(e1[i]);
    }
}

/// Session fidelity for one step: when two endpoints stand at dual protocols
/// in dual environments and one of them takes a permitted step, the other can
/// take the matching step, and the two stand at dual protocols in dual
/// environments again.
pub proof fn lemma_step_preserves_duality(e1: Seq<Proto>, p1: Proto, e2: Seq<Proto>, p2: Proto, a: Action)
    requires
        env_dual(e1, e2),
        dual(p1) == p2,
        step(e1, p1, a) is Some,
    ensures
        step(e2, p2, co_action(a)) is Some,
        env_dual(step(e1, p1, a).unwrap().0, step(e2, p2, co_action(a)).unwrap().0),
        dual(step(e1, p1, a).unwrap().1) == step(e2, p2, co_action(a)).unwrap().1,
{
    match (p1, a) {
        (Proto::Choose(l, r), Action::Sel(b)) => {},
        (Proto::Offer(l, r), Action::Offer(b)) => {},
        (Proto::Rec(body), Action::Enter) => {
            let n1 = seq![*body] + e1;
            let n2 = seq![dual(*body)] + e2;
            assert forall|i: int| 0 <= i < n1.len() implies #[trigger] n2[i] == dual(n1[i]) by {
                if i > 0 {
                    assert(n1[i] == e1[i - 1]);
                    assert(n2[i] == e2[i - 1]);
                }
            }
        },
        (Proto::Var(n), Action::Zero) => {
            assert(e2[0] == dual(e1[0]));
        },
        (Proto::Var(n), Action::Succ) => {
            let d1 = e1.drop_first();
            let d2 = e2.drop_first();
            assert forall|i: int| 0 <= i < d1.len() implies #[trigger] d2[i] == dual(d1[i]) by {
                assert(d1[i] == e1[i + 1]);
                assert(d2[i] == e2[i + 1]);
            }
        },
        _ => {},
    }
}

/// Session fidelity for a whole run: if one endpoint can run a sequence of
/// actions, the dual endpoint can run the matching actions, and they end at
/// dual protocols in dual environments.
pub proof fn lemma_run_preserves_duality(e1: Seq<Proto>, p1: Proto, e2: Seq<Proto>, p2: Proto, acts: Seq<Action>)
    requires
        env_dual(e1, e2),
        dual(p1) == p2,
        run(e1, p1, acts) is Some,
    ensures
        run(e2, p2, co_actions(acts)) is Some,
        env_dual(run(e1, p1, acts).unwrap().0, run(e2, p2, co_actions(acts)).unwrap().0),
        dual(run(e1, p1, acts).unwrap().1) == run(e2, p2, co_actions(acts)).unwrap().1,
    decreases acts.len(),
{
    if acts.len() > 0 {
        lemma_step_preserves_duality(e1, p1, e2, p2, acts[0]);
        let (f1, q1) = step(e1, p1, acts[0]).unwrap();
        let (f2, q2) = step(e2, p2, co_action(acts[0])).unwrap();
        assert(co_actions(acts)[0] == co_action(acts[0]));
        assert(co_actions(acts).drop_first() =~= co_actions(acts.drop_first()));
        lemma_run_preserves_duality(f1, q1, f2, q2, acts.drop_first());
    }
}

/// The co-action of the co-action of an action is the action itself.
pub proof fn lemma_co_action_involutive(a: Action)
    ensures
        co_action(co_action(a)) == a,
{
}

impl Clone for Proto {
    fn clone(&self) -> (r: Proto)
        ensures
            r == *self,
        decreases self,
    {
        match self {
            Proto::Eps => Proto::Eps,
            Proto::Send(k) => Proto::Send(Box::new((**k).clone())),
            Proto::Recv(k) => Proto::Recv(Box::new((**k).clone())),
            Proto::Choose(l, r) => Proto::Choose(Box::new((**l).clone()), Box::new((**r).clone())),
            Proto::Offer(l, r) => Proto::Offer(Box::new((**l).clone()), Box::new((**r).clone())),
            Proto::Rec(b) => Proto::Rec(Box::new((**b).clone())),
            Proto::Var(n) => Proto::Var(*n),
        }
    }
}

impl Proto {
    /// The dual of this protocol.
    pub fn to_dual(&self) -> (r: Proto)
        ensures
            r == dual(*self),
        decreases self,
    {
        match self {
            Proto::Eps => Proto::Eps,
            Proto::Send(k) => Proto::Recv(Box::new(k.to_dual())),
            Proto::Recv(k) => Proto::Send(Box::new(k.to_dual())),
            Proto::Choose(l, r) => Proto::Offer(Box::new(l.to_dual()), Box::new(r.to_dual())),
            Proto::Offer(l, r) => Proto::Choose(Box::new(l.to_dual()), Box::new(r.to_dual())),
            Proto::Rec(b) => Proto::Rec(Box::new(b.to_dual())),
            Proto::Var(n) => Proto::Var(*n),
        }
    }
}

/// Whether `q` is the dual of `p`, that is, whether two endpoints may follow
/// `p` and `q` against each other.
pub fn is_dual(p: &Proto, q: &Proto) -> (b: bool)
    ensures
        b == (dual(*p) == *q),
    decreases p,
{
    match (p, q) {
        (Proto::Eps, Proto::Eps) => true,
        (Proto::Send(a), Proto::Recv(b)) => is_dual(a, b),
        (Proto::Recv(a), Proto::Send(b)) => is_dual(a, b),
        (Proto::Choose(a1, a2), Proto::Offer(b1, b2)) => is_dual(a1, b1) && is_dual(a2, b2),
        (Proto::Offer(a1, a2), Proto::Choose(b1, b2)) => is_dual(a1, b1) && is_dual(a2, b2),
        (Proto::Rec(a), Proto::Rec(b)) => is_dual(a, b),
        (Proto::Var(n), Proto::Var(m)) => *n == *m,
        _ => false,
    }
}

/// Whether two environments are dual entry by entry.
pub fn is_env_dual(e1: &Vec<Proto>, e2: &Vec<Proto>) -> (b: bool)
    ensures
        b == env_dual(e1@, e2@),
{
    if e1.len() != e2.len() {
        return false;
    }
    let mut i: usize = 0;
    while i < e1.len()
        invariant
            e1.len() == e2.len(),
            i <= e1.len(),
            forall|j: int| 0 <= j < i ==> #[trigger] e2@[j] == dual(e1@[j]),
        decreases e1.len() - i,
    {
        if !is_dual(&e1[i], &e2[i]) {
            return false;
        }
        i = i + 1;
    }
    true
}

fn copy_env(env: &Vec<Proto>) -> (r: Vec<Proto>)
    ensures
        r@ == env@,
{
    let mut r: Vec<Proto> = Vec::new();
    let mut i: usize = 0;
    while i < env.len()
        invariant
            i <= env.len(),
            r@ == env@.take(i as int),
        decreases env.len() - i,
    {
        r.push(env[i].clone());
        i = i + 1;
        assert(r@ =~= env@.take(i as int));
    }
    assert(env@.take(env.len() as int) =~= env@);
    r
}

/// One step of an endpoint, computed: the new environment and protocol when
/// the protocol permits the action, `None` when it does not.
pub fn try_step(env: &Vec<Proto>, p: &Proto, a: Action) -> (r: Option<(Vec<Proto>, Proto)>)
    ensures
        match r {
            Some((e, q)) => step(env@, *p, a) == Some((e@, q)),
            None => step(env@, *p, a) is None,
        },
{
    match (p, a) {
        (Proto::Send(k), Action::Send) => Some((copy_env(env), (**k).clone())),
        (Proto::Recv(k), Action::Recv) => Some((copy_env(env), (**k).clone())),
        (Proto::Choose(l, r), Action::Sel(b)) => Some(
            (copy_env(env), if b { (**l).clone() } else { (**r).clone() }),
        ),
        (Proto::Offer(l, r), Action::Offer(b)) => Some(
            (copy_env(env), if b { (**l).clone() } else { (**r).clone() }),
        ),
        (Proto::Rec(body), Action::Enter) => {
            let mut e = copy_env(env);
            e.insert(0, (**body).clone());
            assert(e@ =~= seq![**body] + env@);
            Some((e, (**body).clone()))
        },
        (Proto::Var(n), Action::Zero) => {
            if *n == 0 && env.len() > 0 {
                Some((copy_env(env), env[0].clone()))
            } else {
                None
            }
        },
        (Proto::Var(n), Action::Succ) => {
            if *n > 0 && env.len() > 0 {
                let mut e = copy_env(env);
                let _ = e.remove(0);
                assert(e@ =~= env@.drop_first());
                Some((e, Proto::Var(*n - 1)))
            } else {
                None
            }
        },
        _ => None,
    }
}

} // verus!
