use session_types::{is_dual, try_step, Action, Proto};

fn recv_eps() -> Proto {
    Proto::Recv(Box::new(Proto::Eps))
}

fn send_eps() -> Proto {
    Proto::Send(Box::new(Proto::Eps))
}

// The misuses that the protocol types rule out at compile time, checked on
// the protocol model: each is a pair that is not dual, or a step that the
// protocol does not permit.
#[test]
fn compile_test() {
    // incompatible-sessions: both ends receive; only `recv` is a step of `Recv`.
    assert!(!is_dual(&recv_eps(), &recv_eps()));
    assert!(is_dual(&send_eps(), &recv_eps()));
    let env: Vec<Proto> = Vec::new();
    for a in [
        Action::Send,
        Action::Sel(true),
        Action::Sel(false),
        Action::Offer(true),
        Action::Offer(false),
        Action::Enter,
        Action::Zero,
        Action::Succ,
    ] {
        assert!(try_step(&env, &recv_eps(), a).is_none());
    }
    let (e, next) = try_step(&env, &recv_eps(), Action::Recv).unwrap();
    assert!(e.is_empty());
    assert!(is_dual(&next, &Proto::Eps));

    // send-on-recv: the dual of `Send<u8, Eps>` receives, so it cannot send.
    let dual = send_eps().to_dual();
    assert!(is_dual(&send_eps(), &dual));
    assert!(try_step(&env, &dual, Action::Send).is_none());
    assert!(try_step(&env, &dual, Action::Recv).is_some());

    // complete: after `Send<i64, Send<bool, Eps>>` nothing more may be sent.
    let messenger = Proto::Send(Box::new(send_eps()));
    let (e, p) = try_step(&env, &messenger, Action::Send).unwrap();
    let (e, p) = try_step(&e, &p, Action::Send).unwrap();
    assert!(try_step(&e, &p, Action::Send).is_none());
}
