use session_types::{session_channel, Chan, Eps, Recv, Send};

enum Msg {
    U64(u64),
}

fn client(n: u64, c: Chan<(), Send<Msg, Eps>, Msg>) {
    let n = Msg::U64(n);
    c.send(n).unwrap().close()
}

#[test]
fn send_recv_main() {
    let n = 42;
    let (c1, c2) =
        session_channel::<(), (), Send<Msg, Eps>, Recv<Msg, Eps>, Msg>();
    // The client runs to its end first: the channel buffers what it sent.
    client(n, c1);

    let (c, Msg::U64(n_)) = c2.recv().unwrap();
    c.close();
    assert_eq!(n, n_);
}
