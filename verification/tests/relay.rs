use ring_bcc::link::{BlockKind, Link, Poll, TAG_BARRIER};

fn pair() -> (Link, Link) {
    let mut a = Link::new();
    let mut b = Link::new();
    a.set_connected(0);
    b.set_connected(1);
    (a, b)
}

fn ferry(from: &mut Link, to: &mut Link) {
    for msg in from.drain_outgoing() {
        to.deliver(&msg);
    }
}

fn bytes_heard(link: &mut Link) -> Vec<u8> {
    let mut heard = Vec::new();
    while let Poll::Byte(byte) = link.poll_barrier() {
        heard.push(byte);
    }
    heard
}

#[test]
fn a_fresh_link_is_unplugged_and_in_no_handshake() {
    let mut link = Link::new();
    assert_eq!(link.side(), 0);
    assert!(!link.is_connected());
    assert!(!link.has_error());
    assert_eq!(link.handshake_gen(), 0);
    assert!(link.peer_block(BlockKind::Mode).is_none());
    assert!(matches!(link.poll_barrier(), Poll::Waiting));
    assert!(link.drain_outgoing().is_empty());
}

#[test]
fn plugging_in_clears_an_error() {
    let mut link = Link::new();
    link.set_error();
    assert!(link.has_error());
    assert!(!link.is_connected());
    assert!(matches!(link.poll_barrier(), Poll::Error));
    link.set_connected(1);
    assert!(!link.has_error());
    assert!(link.is_connected());
    assert_eq!(link.side(), 1);
}

#[test]
fn opening_a_handshake_clears_an_error() {
    let mut link = Link::new();
    link.set_error();
    link.open_handshake(0);
    assert!(!link.has_error());
    assert!(!link.is_connected());
    assert!(matches!(link.poll_barrier(), Poll::Waiting));
}

#[test]
fn a_handshake_sends_its_mode_and_counts_generations() {
    let mut link = Link::new();
    link.set_connected(0);
    link.open_handshake(7);
    assert_eq!(link.handshake_gen(), 1);
    let first = link.drain_outgoing();
    assert_eq!(first, vec![vec![1, 1, 0, 7]]);
    // Shipped blocks do not leave again.
    assert!(link.drain_outgoing().is_empty());
    link.open_handshake(7);
    assert_eq!(link.handshake_gen(), 2);
}

#[test]
fn barrier_bytes_of_one_handshake_leave_together() {
    let mut link = Link::new();
    link.set_connected(0);
    link.open_handshake(0);
    link.drain_outgoing();
    link.push_barrier(0x11);
    link.push_barrier(0xff);
    link.push_barrier(0x00);
    assert_eq!(link.drain_outgoing(), vec![vec![TAG_BARRIER, 1, 0, 0x11, 0xff, 0x00]]);
    assert!(link.drain_outgoing().is_empty());
}

#[test]
fn an_unplugged_link_still_hands_out_what_it_has() {
    let mut link = Link::new();
    link.open_handshake(3);
    link.push_barrier(9);
    assert_eq!(link.drain_outgoing(), vec![vec![1, 1, 0, 3], vec![0, 1, 0, 9]]);
}

#[test]
fn the_barrier_is_read_in_the_order_it_was_written() {
    let (mut a, mut b) = pair();
    a.open_handshake(0);
    b.open_handshake(0);
    ferry(&mut a, &mut b);
    ferry(&mut b, &mut a);
    for byte in 0..=255u8 {
        a.push_barrier(byte);
        if byte % 3 == 0 {
            ferry(&mut a, &mut b);
        }
    }
    ferry(&mut a, &mut b);
    assert_eq!(bytes_heard(&mut b), (0..=255u8).collect::<Vec<u8>>());
    assert!(bytes_heard(&mut a).is_empty());
}

#[test]
fn bytes_that_come_early_wait_for_their_handshake() {
    let (mut a, mut b) = pair();
    a.open_handshake(0);
    a.open_handshake(0);
    a.push_barrier(0x42);
    ferry(&mut a, &mut b);
    assert_eq!(b.handshake_gen(), 0);
    assert!(matches!(b.poll_barrier(), Poll::Waiting));
    // The next handshake joins the peer's, and the byte is there.
    b.open_handshake(0);
    assert_eq!(b.handshake_gen(), 2);
    assert_eq!(bytes_heard(&mut b), vec![0x42]);
}

#[test]
fn bytes_of_a_skipped_handshake_are_forgotten() {
    let (mut a, mut b) = pair();
    a.open_handshake(0);
    a.push_barrier(0x01);
    ferry(&mut a, &mut b);
    a.open_handshake(0);
    a.push_barrier(0x02);
    ferry(&mut a, &mut b);
    a.open_handshake(0);
    a.push_barrier(0x03);
    ferry(&mut a, &mut b);
    b.open_handshake(0);
    b.stage_block(BlockKind::Record, vec![1]);
    assert_eq!(b.handshake_gen(), 3);
    assert_eq!(bytes_heard(&mut b), vec![0x03]);
}

#[test]
fn junk_is_not_delivered() {
    let (_, mut b) = pair();
    b.open_handshake(0);
    b.drain_outgoing();
    b.deliver(&[]);
    b.deliver(&[1, 0]);
    b.deliver(&[9, 1, 0, 1, 2]);
    assert!(matches!(b.poll_barrier(), Poll::Waiting));
    for kind in [BlockKind::Mode, BlockKind::Record, BlockKind::Ident, BlockKind::Word] {
        assert!(b.peer_block(kind).is_none());
    }
}

#[test]
fn a_block_may_be_empty() {
    let (mut a, mut b) = pair();
    a.open_handshake(0);
    b.open_handshake(0);
    a.stage_block(BlockKind::Ident, Vec::new());
    ferry(&mut a, &mut b);
    assert_eq!(b.peer_block(BlockKind::Ident).unwrap(), Vec::<u8>::new());
}

#[test]
fn the_same_block_twice_leaves_once() {
    let (mut a, _) = pair();
    a.open_handshake(0);
    a.drain_outgoing();
    a.stage_block(BlockKind::Record, vec![5, 6]);
    assert_eq!(a.drain_outgoing(), vec![vec![2, 1, 0, 5, 6]]);
    a.stage_block(BlockKind::Record, vec![5, 6]);
    assert!(a.drain_outgoing().is_empty());
}

#[test]
fn blocks_of_an_old_handshake_do_not_show() {
    let (mut a, mut b) = pair();
    a.open_handshake(0);
    b.open_handshake(0);
    a.stage_block(BlockKind::Record, vec![1]);
    ferry(&mut a, &mut b);
    assert_eq!(b.peer_block(BlockKind::Record).unwrap(), vec![1]);
    b.open_handshake(0);
    assert!(b.peer_block(BlockKind::Record).is_none());
    assert!(b.peer_block(BlockKind::Mode).is_none());
}

#[test]
fn a_reconnect_starts_the_next_handshake_clean() {
    let (mut a, mut b) = pair();
    a.open_handshake(0);
    b.open_handshake(0);
    ferry(&mut a, &mut b);
    ferry(&mut b, &mut a);
    a.push_barrier(1);
    a.push_barrier(2);
    // The transport dies with these on the way.
    a.drain_outgoing();
    a.set_error();
    b.set_error();
    assert!(matches!(b.poll_barrier(), Poll::Error));
    // The roles may swap.
    a.set_connected(1);
    b.set_connected(0);
    a.open_handshake(1);
    b.open_handshake(1);
    a.push_barrier(3);
    ferry(&mut a, &mut b);
    ferry(&mut b, &mut a);
    assert_eq!(a.handshake_gen(), b.handshake_gen());
    assert_eq!(a.peer_block(BlockKind::Mode).unwrap(), vec![1]);
    assert_eq!(bytes_heard(&mut b), vec![3]);
}

#[test]
fn generations_never_go_back() {
    let (mut a, mut b) = pair();
    let mut last = 0;
    for round in 0..5u8 {
        a.open_handshake(round);
        ferry(&mut a, &mut b);
        b.peer_block(BlockKind::Mode);
        assert!(b.handshake_gen() >= last);
        last = b.handshake_gen();
        // An old message does not bring an old generation back.
        b.deliver(&[0, 1, 0, 0x99]);
        b.peer_block(BlockKind::Mode);
        assert_eq!(b.handshake_gen(), last);
    }
    assert_eq!(last, 5);
}

#[test]
fn an_end_that_waits_across_a_reconnect_catches_up() {
    let (mut a, mut b) = pair();
    a.open_handshake(0);
    b.open_handshake(0);
    b.stage_block(BlockKind::Record, vec![7]);
    // Everything that is on the way dies with the transport.
    a.drain_outgoing();
    b.drain_outgoing();
    a.set_connected(1);
    b.set_connected(0);
    // One player opens a new handshake, while the other's game still waits.
    a.open_handshake(0);
    assert_eq!((a.handshake_gen(), b.handshake_gen()), (2, 1));
    ferry(&mut a, &mut b);
    assert_eq!(b.peer_block(BlockKind::Mode).unwrap(), vec![0]);
    assert_eq!(b.handshake_gen(), 2);
    // What it had staged leaves again, in the new generation.
    ferry(&mut b, &mut a);
    assert_eq!(a.peer_block(BlockKind::Record).unwrap(), vec![7]);
    assert_eq!(a.peer_block(BlockKind::Mode).unwrap(), vec![0]);
}
