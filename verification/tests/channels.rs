use session_types::{
    accept, borrow_accept, hselect, iselect, request, session_channel, Chan, ChanSelect, Choose,
    Branch, Eps, HasDual, Offer, Rec, Recv, Send, Var, S, Z,
};
use std::sync::mpsc::channel;

// Offers: close, or receive a number and send it back doubled, then again.
type Srv = Rec<Offer<Eps, Recv<i64, Send<i64, Var<Z>>>>>;
type Cli = Rec<Choose<Eps, Send<i64, Recv<i64, Var<Z>>>>>;

#[test]
fn what_one_side_sends_the_other_receives() {
    let (a, b) = session_channel::<(), (), Send<u8, Send<u8, Eps>>, Recv<u8, Recv<u8, Eps>>, u8>();
    let a = a.send(7).unwrap().send(9).unwrap();
    a.close();
    let (b, x) = b.recv().unwrap();
    let (b, y) = b.recv().unwrap();
    assert_eq!((x, y), (7, 9));
    b.close();
}

#[test]
fn sel1_and_sel2_decide_the_offer() {
    let (srv, cli) = session_channel::<(), (), Srv, Cli, i64>();
    let srv = srv.enter();
    let cli = cli.enter();
    let cli = cli.sel2().unwrap().send(21).unwrap();
    let srv = match srv.offer().unwrap() {
        Branch::Left(_) => panic!("the client picked the second branch"),
        Branch::Right(srv) => srv,
    };
    let (srv, n) = srv.recv().unwrap();
    let srv = srv.send(2 * n).unwrap().zero();
    let (cli, m) = cli.recv().unwrap();
    assert_eq!(m, 42);
    let cli = cli.zero();
    cli.sel1().unwrap().close();
    match srv.offer().unwrap() {
        Branch::Left(srv) => srv.close(),
        Branch::Right(_) => panic!("the client picked the first branch"),
    }
}

fn left<L, R>(b: Branch<L, R>) -> L {
    match b {
        Branch::Left(l) => l,
        Branch::Right(_) => panic!("expected the first branch"),
    }
}

fn right<L, R>(b: Branch<L, R>) -> R {
    match b {
        Branch::Left(_) => panic!("expected the second branch"),
        Branch::Right(r) => r,
    }
}

type Five = Choose<Eps, Choose<Eps, Choose<Eps, Choose<Send<u8, Eps>, Eps>>>>;
type FiveDual = Offer<Eps, Offer<Eps, Offer<Eps, Offer<Recv<u8, Eps>, Eps>>>>;

#[test]
fn skip3_is_three_sel2() {
    let (c, s) = session_channel::<(), (), Five, FiveDual, u8>();
    let c = c.skip3().unwrap().sel1().unwrap().send(5).unwrap();
    c.close();
    let s = right(s.offer().unwrap());
    let s = right(s.offer().unwrap());
    let s = right(s.offer().unwrap());
    // Only the last offer of the chain lands on the `Recv` branch.
    let s = left(s.offer().unwrap());
    let (s, v) = s.recv().unwrap();
    assert_eq!(v, 5);
    s.close();
}

type Seven = Choose<Eps, Choose<Eps, Choose<Eps, Choose<Eps, Choose<Eps, Choose<Eps, Choose<Eps, Send<u8, Eps>>>>>>>>;
type SevenDual =
    Offer<Eps, Offer<Eps, Offer<Eps, Offer<Eps, Offer<Eps, Offer<Eps, Offer<Eps, Recv<u8, Eps>>>>>>>>;

#[test]
fn skip7_reaches_the_last_branch() {
    let (c, s) = session_channel::<(), (), Seven, SevenDual, u8>();
    c.skip7().unwrap().send(1).unwrap().close();
    let s = right(s.offer().unwrap());
    let s = right(s.offer().unwrap());
    let s = right(s.offer().unwrap());
    let s = right(s.offer().unwrap());
    let s = right(s.offer().unwrap());
    let s = right(s.offer().unwrap());
    let s = right(s.offer().unwrap());
    let (s, v) = s.recv().unwrap();
    assert_eq!(v, 1);
    s.close();
}

// `succ` leaves the inner recursion for the outer one.
type Nested = Rec<Send<u8, Rec<Send<u8, Var<S<Z>>>>>>;
type NestedDual = Rec<Recv<u8, Rec<Recv<u8, Var<S<Z>>>>>>;

#[test]
fn enter_zero_succ() {
    let (c, s) = session_channel::<(), (), Nested, NestedDual, u8>();
    let c = c.enter().send(1).unwrap().enter().send(2).unwrap().succ().zero();
    let c = c.send(3).unwrap();
    drop(c);
    let s = s.enter();
    let (s, a) = s.recv().unwrap();
    let (s, b) = s.enter().recv().unwrap();
    let (_s, d) = s.succ().zero().recv().unwrap();
    assert_eq!((a, b, d), (1, 2, 3));
}

#[test]
fn a_gone_peer_ends_recv_and_send() {
    let (a, b) = session_channel::<(), (), Send<u8, Eps>, Recv<u8, Eps>, u8>();
    drop(a);
    assert!(b.recv().is_none());
    let (a, b) = session_channel::<(), (), Send<u8, Eps>, Recv<u8, Eps>, u8>();
    drop(b);
    assert!(a.send(1).is_none());
    let (a, b) = session_channel::<(), (), Choose<Eps, Eps>, Offer<Eps, Eps>, u8>();
    drop(a);
    assert!(b.offer().is_none());
}

#[test]
fn try_recv_waits_for_nothing() {
    let (a, b) = session_channel::<(), (), Send<u8, Eps>, Recv<u8, Eps>, u8>();
    let b = match b.try_recv() {
        Ok(_) => panic!("nothing was sent yet"),
        Err(b) => b,
    };
    a.send(3).unwrap().close();
    let (b, v) = match b.try_recv() {
        Ok(r) => r,
        Err(_) => panic!("a message was sent"),
    };
    assert_eq!(v, 3);
    b.close();
}

#[test]
fn accept_and_request_open_dual_endpoints() {
    let (tx, rx) = channel();
    let acc: Chan<(), Send<u16, Eps>, u16> = accept(tx).unwrap();
    let req: Chan<(), Recv<u16, Eps>, u16> =
        request::<(), (), Send<u16, Eps>, Recv<u16, Eps>, u16>(rx).unwrap();
    acc.send(300).unwrap().close();
    let (req, v) = req.recv().unwrap();
    assert_eq!(v, 300);
    req.close();
}

#[test]
fn accept_without_a_receiver_fails() {
    let (tx, rx) = channel::<Chan<(), Send<u8, Eps>, u8>>();
    drop(rx);
    assert!(borrow_accept(&tx).is_none());
}

#[test]
fn iselect_and_hselect_pick_a_ready_endpoint() {
    let (t1, r1) = session_channel::<(), (), Send<u8, Eps>, Recv<u8, Eps>, u8>();
    let (t2, r2) = session_channel::<(), (), Send<u8, Eps>, Recv<u8, Eps>, u8>();
    let (t3, r3) = session_channel::<(), (), Send<u8, Eps>, Recv<u8, Eps>, u8>();
    t2.send(2).unwrap().close();
    let chans = vec![r1, r2, r3];
    assert_eq!(iselect(&chans), 1);
    let (ready, rest) = hselect(chans);
    let (ready, v) = ready.recv().unwrap();
    assert_eq!(v, 2);
    ready.close();
    assert_eq!(rest.len(), 2);
    t1.send(1).unwrap().close();
    t3.send(3).unwrap().close();
    let mut got = Vec::new();
    for r in rest {
        let (r, v) = r.recv().unwrap();
        got.push(v);
        r.close();
    }
    assert_eq!(got, vec![1, 3]);
}

#[test]
fn chan_select_add_numbers_positions() {
    let (t1, r1) = session_channel::<(), (), Send<u8, Eps>, Recv<u8, Eps>, u8>();
    let (t2, r2) = session_channel::<(), (), Send<u8, Eps>, Recv<u8, Eps>, u8>();
    let (t3, r3) = session_channel::<(), (), Send<u8, Eps>, Recv<u8, Eps>, u8>();
    t3.send(9).unwrap().close();
    let index = {
        let mut sel = ChanSelect::new();
        sel.add(&r1);
        sel.add(&r2);
        sel.add(&r3);
        sel.wait()
    };
    assert_eq!(index, 2);
    drop((t1, t2, r1, r2, r3));
}

// An endpoint travels over another session.
#[test]
fn endpoints_can_be_sent() {
    let (a, b) = session_channel::<(), (), Send<u8, Eps>, Recv<u8, Eps>, u8>();
    let (x, y) = session_channel::<
        (),
        (),
        Send<Chan<(), Send<u8, Eps>, u8>, Eps>,
        Recv<Chan<(), Send<u8, Eps>, u8>, Eps>,
        Chan<(), Send<u8, Eps>, u8>,
    >();
    x.send(a).unwrap().close();
    let (y, a) = y.recv().unwrap();
    y.close();
    a.send(4).unwrap().close();
    let (b, v) = b.recv().unwrap();
    assert_eq!(v, 4);
    b.close();
}

fn assert_send<T: std::marker::Send>() {}

// Endpoints can move to other threads.
#[test]
fn endpoints_are_send() {
    assert_send::<Chan<(), Send<u8, Eps>, u8>>();
    assert_send::<Chan<(Send<u8, Var<Z>>, ()), Recv<u8, Var<Z>>, u8>>();
}

type Echo = Recv<i64, Send<i64, Eps>>;
type EchoClient = <Echo as HasDual>::Dual;

// The dual protocol type from `HasDual` is the client side of the session.
#[test]
fn has_dual_gives_the_client_protocol() {
    let (srv, cli) = session_channel::<(), (), Echo, EchoClient, i64>();
    let cli = cli.send(-5).unwrap();
    let (srv, n) = srv.recv().unwrap();
    srv.send(-n).unwrap().close();
    let (cli, m) = cli.recv().unwrap();
    assert_eq!(m, 5);
    cli.close();
}
