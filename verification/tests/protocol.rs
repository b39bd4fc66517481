use session_types::{is_dual, is_env_dual, try_step, Action, Proto};

fn b(p: Proto) -> Box<Proto> {
    Box::new(p)
}

// Offers: close, or receive a value, send one back and start over.
fn server() -> Proto {
    Proto::Rec(b(Proto::Offer(
        b(Proto::Eps),
        b(Proto::Recv(b(Proto::Send(b(Proto::Var(0)))))),
    )))
}

#[test]
fn dual_of_dual_is_the_protocol() {
    let p = server();
    let d = p.to_dual();
    assert!(is_dual(&p, &d));
    assert!(is_dual(&d, &p));
    let dd = d.to_dual();
    assert!(is_dual(&d, &dd));
    // dd has the shape of p: its dual is d again.
    assert!(is_dual(&dd, &d));
}

#[test]
fn dual_swaps_sends_and_choices() {
    let client = Proto::Rec(b(Proto::Choose(
        b(Proto::Eps),
        b(Proto::Send(b(Proto::Recv(b(Proto::Var(0)))))),
    )));
    assert!(is_dual(&server(), &client));
    let wrong = Proto::Rec(b(Proto::Choose(
        b(Proto::Eps),
        b(Proto::Recv(b(Proto::Send(b(Proto::Var(0)))))),
    )));
    assert!(!is_dual(&server(), &wrong));
    assert!(!is_dual(&Proto::Var(0), &Proto::Var(1)));
    assert!(is_dual(&Proto::Var(3), &Proto::Var(3)));
}

#[test]
fn env_dual_checks_depth_and_entries() {
    let e1 = vec![server(), Proto::Eps];
    let e2 = vec![server().to_dual(), Proto::Eps];
    assert!(is_env_dual(&e1, &e2));
    assert!(is_env_dual(&e2, &e1));
    assert!(!is_env_dual(&e1, &vec![server().to_dual()]));
    assert!(!is_env_dual(&e1, &e1));
    assert!(is_env_dual(&Vec::new(), &Vec::new()));
}

// Two endpoints at dual protocols take matching steps and stay dual.
#[test]
fn matching_steps_keep_duality() {
    let acts = [
        Action::Enter,
        Action::Offer(false),
        Action::Recv,
        Action::Send,
        Action::Zero,
        Action::Offer(true),
    ];
    let co = [
        Action::Enter,
        Action::Sel(false),
        Action::Send,
        Action::Recv,
        Action::Zero,
        Action::Sel(true),
    ];
    let mut e1: Vec<Proto> = Vec::new();
    let mut p1 = server();
    let mut e2: Vec<Proto> = Vec::new();
    let mut p2 = server().to_dual();
    for k in 0..acts.len() {
        let (f1, q1) = try_step(&e1, &p1, acts[k]).unwrap();
        let (f2, q2) = try_step(&e2, &p2, co[k]).unwrap();
        assert!(is_dual(&q1, &q2));
        assert!(is_env_dual(&f1, &f2));
        e1 = f1;
        p1 = q1;
        e2 = f2;
        p2 = q2;
    }
    assert!(is_dual(&p1, &Proto::Eps));
    assert_eq!(e1.len(), 1);
}

#[test]
fn recursion_steps() {
    let env: Vec<Proto> = Vec::new();
    let (e, p) = try_step(&env, &server(), Action::Enter).unwrap();
    assert_eq!(e.len(), 1);
    assert!(is_dual(&e[0].to_dual(), &p));
    // Var(1) leaves the innermost body.
    let (e2, p2) = try_step(&e, &Proto::Var(1), Action::Succ).unwrap();
    assert!(e2.is_empty());
    assert!(is_dual(&p2, &Proto::Var(0)));
    // Var(0) cannot leave, and nothing is entered on an empty environment.
    assert!(try_step(&e, &Proto::Var(0), Action::Succ).is_none());
    assert!(try_step(&env, &Proto::Var(0), Action::Zero).is_none());
    assert!(try_step(&e, &Proto::Var(1), Action::Zero).is_none());
    // Var(0) goes back to the body.
    let (e3, p3) = try_step(&e, &Proto::Var(0), Action::Zero).unwrap();
    assert_eq!(e3.len(), 1);
    assert!(is_dual(&p3, &p.to_dual()));
}

#[test]
fn choice_steps_pick_branches() {
    let env: Vec<Proto> = Vec::new();
    let c = Proto::Choose(b(Proto::Eps), b(Proto::Send(b(Proto::Eps))));
    let (_, first) = try_step(&env, &c, Action::Sel(true)).unwrap();
    assert!(is_dual(&first, &Proto::Eps));
    let (_, second) = try_step(&env, &c, Action::Sel(false)).unwrap();
    assert!(is_dual(&second, &Proto::Recv(b(Proto::Eps))));
    assert!(try_step(&env, &c, Action::Offer(true)).is_none());
    assert!(try_step(&env, &Proto::Eps, Action::Send).is_none());
}
