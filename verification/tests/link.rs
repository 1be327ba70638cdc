use ring_bcc::link::{BlockKind, Link, Poll};

fn ferry(from: &mut Link, to: &mut Link) {
    for msg in from.drain_outgoing() {
        to.deliver(&msg);
    }
}

fn connected_pair() -> (Link, Link) {
    let mut a = Link::new();
    let mut b = Link::new();
    a.set_connected(0);
    b.set_connected(1);
    (a, b)
}

#[test]
fn clean_handshake_and_barrier() {
    let (mut a, mut b) = connected_pair();
    a.open_handshake(0);
    b.open_handshake(0);
    ferry(&mut a, &mut b);
    ferry(&mut b, &mut a);
    assert_eq!(a.peer_block(BlockKind::Mode).unwrap(), vec![0]);
    assert_eq!(b.peer_block(BlockKind::Mode).unwrap(), vec![0]);

    a.stage_block(BlockKind::Record, b"AAAAAAAA".to_vec());
    b.stage_block(BlockKind::Record, b"BBBBBBBB".to_vec());
    ferry(&mut a, &mut b);
    ferry(&mut b, &mut a);
    assert_eq!(a.peer_block(BlockKind::Record).unwrap(), b"BBBBBBBB");
    assert_eq!(b.peer_block(BlockKind::Record).unwrap(), b"AAAAAAAA");

    // Word rendezvous: both publish (the child's word is a zero don't-care),
    // both wait for the other's.
    a.stage_block(BlockKind::Word, vec![0x34, 0x12, 0x03, 0x00]);
    b.stage_block(BlockKind::Word, vec![0, 0, 0, 0]);
    assert!(a.peer_block(BlockKind::Word).is_none());
    ferry(&mut a, &mut b);
    ferry(&mut b, &mut a);
    assert_eq!(b.peer_block(BlockKind::Word).unwrap(), vec![0x34, 0x12, 0x03, 0x00]);
    assert_eq!(a.peer_block(BlockKind::Word).unwrap(), vec![0, 0, 0, 0]);

    for byte in [1u8, 2, 3] {
        a.push_barrier(byte);
    }
    ferry(&mut a, &mut b);
    for want in [1u8, 2, 3] {
        match b.poll_barrier() {
            Poll::Byte(got) => assert_eq!(got, want),
            _ => panic!("expected byte"),
        }
    }
    assert!(matches!(b.poll_barrier(), Poll::Waiting));
}

#[test]
fn mode_mismatch_is_visible_to_both() {
    // The game compares the peer's mode itself; the link just relays.
    let (mut a, mut b) = connected_pair();
    a.open_handshake(1);
    b.open_handshake(2);
    ferry(&mut a, &mut b);
    ferry(&mut b, &mut a);
    assert_eq!(a.peer_block(BlockKind::Mode).unwrap(), vec![2]);
    assert_eq!(b.peer_block(BlockKind::Mode).unwrap(), vec![1]);
}

#[test]
fn cancel_reenter_race_converges() {
    let (mut a, mut b) = connected_pair();
    // Session 1 completes a mode + record exchange.
    a.open_handshake(0);
    b.open_handshake(0);
    a.stage_block(BlockKind::Record, b"ADECK1".to_vec());
    b.stage_block(BlockKind::Record, b"BDECK1".to_vec());
    ferry(&mut a, &mut b);
    ferry(&mut b, &mut a);
    assert!(a.peer_block(BlockKind::Record).is_some());
    assert!(b.peer_block(BlockKind::Record).is_some());

    // A enters again, ships its blocks, cancels, re-enters, while B starts
    // its handshake against the stale generation.
    a.open_handshake(0);
    a.stage_block(BlockKind::Record, b"ADECK2".to_vec());
    ferry(&mut a, &mut b); // the doomed blocks reach B
    a.open_handshake(0); // A is now a generation ahead
    b.open_handshake(0); // B still on the stale one
    // B's record exchange completes at once off the abandoned record.
    assert_eq!(b.peer_block(BlockKind::Record).unwrap(), b"ADECK2");
    // A stages its new blocks; B learns A's generation from them, and B's
    // next phase moves forward, so that B's staged blocks leave again under
    // the new tag and A unblocks.
    b.stage_block(BlockKind::Record, b"BDECK2".to_vec());
    ferry(&mut b, &mut a);
    a.stage_block(BlockKind::Record, b"ADECK3".to_vec());
    assert!(a.peer_block(BlockKind::Record).is_none());
    ferry(&mut a, &mut b);
    b.stage_block(BlockKind::Ident, b"BIDENT2xxxxxxxxx".to_vec());
    ferry(&mut b, &mut a);
    assert_eq!(a.peer_block(BlockKind::Record).unwrap(), b"BDECK2");
    a.stage_block(BlockKind::Ident, b"AIDENT3xxxxxxxxx".to_vec());
    ferry(&mut a, &mut b);
    assert_eq!(b.peer_block(BlockKind::Ident).unwrap(), b"AIDENT3xxxxxxxxx");
    ferry(&mut b, &mut a);
    assert_eq!(a.peer_block(BlockKind::Ident).unwrap(), b"BIDENT2xxxxxxxxx");
}

#[test]
fn stale_generation_barrier_bytes_are_dropped() {
    let (mut a, mut b) = connected_pair();
    a.open_handshake(0);
    b.open_handshake(0);
    a.push_barrier(0x55); // in flight from a session about to die
    a.open_handshake(0); // new session
    b.open_handshake(0);
    ferry(&mut a, &mut b); // the stale byte arrives with the dead generation
    assert!(matches!(b.poll_barrier(), Poll::Waiting));
}
