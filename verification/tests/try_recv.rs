use session_types::{session_channel, Chan, Eps, Recv, Send};

enum Msg {
    U64(u64),
}

fn client(n: u64, c: Chan<(), Send<Msg, Eps>, Msg>) {
    let n = Msg::U64(n);
    c.send(n).unwrap().close()
}

#[test]
fn try_recv_main() {
    let n = 42;
    let (c1, c2) =
        session_channel::<(), (), Send<Msg, Eps>, Recv<Msg, Eps>, Msg>();

    let res = c2.try_recv();
    assert!(res.is_err());
    let c2 = res.err().unwrap();

    client(n, c1);

    let res = c2.try_recv();
    assert!(res.is_ok());
    let (c, Msg::U64(n_)) = res.ok().unwrap();
    assert_eq!(n, n_);

    c.close();
}
