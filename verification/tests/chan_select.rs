use session_types::{session_channel, Chan, ChanSelect, Eps, Recv, Send};
use std::borrow::ToOwned;

// Receives one value, checks it, and closes the channel.
fn recv_assert_eq_close<A: PartialEq + std::fmt::Debug>(expected: A, c: Chan<(), Recv<A, Eps>, A>) {
    let (c, v) = c.recv().unwrap();
    assert_eq!(expected, v);
    c.close();
}

fn send_str(c: Chan<(), Send<String, Eps>, String>) {
    c.send("Hello, World!".to_string()).unwrap().close();
}

fn send_usize(c: Chan<(), Send<usize, Eps>, usize>) {
    c.send(42).unwrap().close();
}

#[test]
fn chan_select_simple() {
    let (tcs, rcs) =
        session_channel::<(), (), Send<String, Eps>, Recv<String, Eps>, String>();
    let (tcu, rcu) =
        session_channel::<(), (), Send<usize, Eps>, Recv<usize, Eps>, usize>();

    send_str(tcs);

    let index = {
        let mut sel = ChanSelect::new();
        sel.add_recv(&rcs); // Assigned 0
        sel.add_recv(&rcu); // Assigned 1
        sel.wait()
    };

    assert_eq!(0, index);
    recv_assert_eq_close("Hello, World!".to_owned(), rcs);

    let (tcs, rcs) =
        session_channel::<(), (), Send<String, Eps>, Recv<String, Eps>, String>();

    send_usize(tcu);

    let index = {
        let mut sel = ChanSelect::new();
        sel.add_recv(&rcs);
        sel.add_recv(&rcu);
        sel.wait()
    };

    assert_eq!(1, index);
    recv_assert_eq_close(42, rcu);

    send_str(tcs);
    recv_assert_eq_close("Hello, World!".to_owned(), rcs);
}

#[test]
fn chan_select_add_ret() {
    enum ChanToRead {
        Str,
        Usize,
    }

    let (tcs, rcs) =
        session_channel::<(), (), Send<String, Eps>, Recv<String, Eps>, String>();
    let (tcu, rcu) =
        session_channel::<(), (), Send<usize, Eps>, Recv<usize, Eps>, usize>();

    // The sender runs to its end first: the channel buffers what it sent.
    send_str(tcs);

    let chan_to_read = {
        let mut sel = ChanSelect::new();
        sel.add_recv_ret(&rcs, ChanToRead::Str); // Assigned 0
        sel.add_recv_ret(&rcu, ChanToRead::Usize); // Assigned 1
        sel.wait()
    };

    send_usize(tcu);

    match chan_to_read {
        ChanToRead::Str => {
            recv_assert_eq_close("Hello, World!".to_owned(), rcs);
            recv_assert_eq_close(42, rcu);
        }
        ChanToRead::Usize => {
            panic!("Unexpected read of usize chan before str chan!");
        }
    }
}
