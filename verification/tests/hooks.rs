use ring_bcc::hooks::{A89E_00, A89J_00, fire, traps, Effect, Hook, COMM_ERROR, STILL_EXCHANGING};
use ring_bcc::link::Link;

const COMM: u32 = 0x0200bd20;

fn go(hook: Hook, link: &mut Link, r0: u32, staged: &[u8]) -> Effect {
    fire(hook, COMM, link, r0, staged.to_vec())
}

fn writes(effect: &Effect) -> Vec<(u32, Vec<u8>)> {
    effect.writes.iter().map(|w| (w.addr, w.bytes.clone())).collect()
}

fn ferry(from: &mut Link, to: &mut Link) {
    for msg in from.drain_outgoing() {
        to.deliver(&msg);
    }
}

fn pair() -> (Link, Link) {
    let mut a = Link::new();
    let mut b = Link::new();
    a.set_connected(0);
    b.set_connected(1);
    (a, b)
}

#[test]
fn the_traps_of_the_us_build() {
    let list = traps(&A89E_00());
    assert_eq!(list.len(), 15);
    assert_eq!(list[0].addr, 0x0804ad4c);
    assert!(matches!(list[0].hook, Hook::LinkPump));
    assert_eq!(list[1].addr, 0x0804a3c4);
    assert!(matches!(list[1].hook, Hook::SideLatch));
    assert_eq!(list[2].addr, 0x0804a494);
    assert!(matches!(list[2].hook, Hook::DrvALoader));
    assert_eq!(list[6].addr, 0x0804aa94);
    assert!(matches!(list[6].hook, Hook::DrvD));
    assert_eq!(list[10].addr, 0x0804ad24);
    assert!(matches!(list[10].hook, Hook::BarrierSend));
    assert_eq!(list[14].addr, 0x0804ad3c);
    assert!(matches!(list[14].hook, Hook::BarrierPoll));
}

#[test]
fn the_jp_build_is_the_us_one_shifted() {
    let us = traps(&A89E_00());
    let jp = traps(&A89J_00());
    assert_eq!(us.len(), jp.len());
    for (u, j) in us.iter().zip(jp.iter()) {
        assert_eq!(u.addr - j.addr, 0x2f8);
        assert!(u.hook == j.hook);
    }
    assert_eq!(A89E_00().ewram.comm_struct, COMM);
    assert_eq!(A89J_00().ewram.comm_struct, COMM);
}

#[test]
fn staging_areas() {
    assert_eq!(Hook::DrvB.staging(COMM), Some((0x0200bda4, 8)));
    assert_eq!(Hook::DrvC.staging(COMM), Some((0x0200bdac, 16)));
    assert_eq!(Hook::DrvD.staging(COMM), Some((0x0200bdbc, 4)));
    assert_eq!(Hook::DrvA.staging(COMM), None);
    assert_eq!(Hook::BarrierSend.staging(COMM), None);
}

#[test]
fn the_cable_is_always_there() {
    let mut link = Link::new();
    let e = go(Hook::LinkPump, &mut link, 99, &[]);
    assert_eq!(e.ret, Some(0));
    assert!(e.writes.is_empty());
    link.set_connected(1);
    let e = go(Hook::SideLatch, &mut link, 99, &[]);
    assert_eq!(e.ret, Some(0));
    assert_eq!(writes(&e), vec![(0x0200bda2, vec![1])]);
}

#[test]
fn the_mode_poll_waits_for_the_peer() {
    let (mut a, mut b) = pair();
    let e = go(Hook::DrvALoader, &mut a, 0xabcd_ef02, &[]);
    assert_eq!(e.ret, None);
    assert_eq!(a.handshake_gen(), 1);
    assert_eq!(go(Hook::DrvA, &mut a, 0, &[]).ret, Some(STILL_EXCHANGING));
    go(Hook::DrvALoader, &mut b, 3, &[]);
    ferry(&mut a, &mut b);
    ferry(&mut b, &mut a);
    let e = go(Hook::DrvA, &mut a, 0, &[]);
    assert_eq!(e.ret, Some(3));
    assert_eq!(writes(&e), vec![(0x0200bda2, vec![0])]);
    let e = go(Hook::DrvA, &mut b, 0, &[]);
    assert_eq!(e.ret, Some(2));
    assert_eq!(writes(&e), vec![(0x0200bda2, vec![1])]);
}

#[test]
fn an_empty_mode_counts_as_zero() {
    let mut link = Link::new();
    link.set_connected(0);
    link.open_handshake(1);
    link.deliver(&[1, 1, 0]);
    assert_eq!(go(Hook::DrvA, &mut link, 0, &[]).ret, Some(0));
}

#[test]
fn blocks_are_exchanged_and_injected() {
    let (mut a, mut b) = pair();
    go(Hook::DrvALoader, &mut a, 0, &[]);
    go(Hook::DrvALoader, &mut b, 0, &[]);
    for (hook, mine, theirs) in [
        (Hook::DrvB, [1u8; 8].to_vec(), [2u8; 8].to_vec()),
        (Hook::DrvC, [3u8; 16].to_vec(), [4u8; 16].to_vec()),
    ] {
        let e = go(hook, &mut a, 0x0300_0000, &mine);
        assert_eq!(e.ret, Some(STILL_EXCHANGING));
        assert!(e.writes.is_empty());
        go(hook, &mut b, 0x0300_0000, &theirs);
        ferry(&mut a, &mut b);
        ferry(&mut b, &mut a);
        let e = go(hook, &mut a, 0x0300_0000, &mine);
        assert_eq!(e.ret, Some(0));
        assert_eq!(writes(&e), vec![(0x0300_0000, theirs.clone())]);
        let e = go(hook, &mut b, 0x0300_0010, &theirs);
        assert_eq!(e.ret, Some(0));
        assert_eq!(writes(&e), vec![(0x0300_0010, mine)]);
    }
}

#[test]
fn the_parents_word_wins() {
    let (mut parent, mut child) = pair();
    go(Hook::DrvALoader, &mut parent, 0, &[]);
    go(Hook::DrvALoader, &mut child, 0, &[]);
    let word = [0x34, 0x12, 3, 0];
    assert_eq!(go(Hook::DrvD, &mut parent, 0x0300_0000, &word).ret, Some(STILL_EXCHANGING));
    assert_eq!(go(Hook::DrvD, &mut child, 0x0300_0000, &[0; 4]).ret, Some(STILL_EXCHANGING));
    ferry(&mut parent, &mut child);
    ferry(&mut child, &mut parent);
    let want = vec![(0x0300_0000, word.to_vec()), (0x0200bdbc, word.to_vec())];
    let e = go(Hook::DrvD, &mut parent, 0x0300_0000, &word);
    assert_eq!(e.ret, Some(0));
    assert_eq!(writes(&e), want);
    let e = go(Hook::DrvD, &mut child, 0x0300_0000, &[0; 4]);
    assert_eq!(e.ret, Some(0));
    assert_eq!(writes(&e), want);
}

#[test]
fn barrier_bytes_come_out_signed() {
    let (mut a, mut b) = pair();
    go(Hook::DrvALoader, &mut a, 0, &[]);
    go(Hook::DrvALoader, &mut b, 0, &[]);
    for byte in [0x00u32, 0x7f, 0x80, 0xfd, 0x1234_5601] {
        assert_eq!(go(Hook::BarrierSend, &mut a, byte, &[]).ret, None);
    }
    ferry(&mut a, &mut b);
    for want in [0, 0x7f, 0xffff_ff80, 0xffff_fffd, 1, STILL_EXCHANGING] {
        assert_eq!(go(Hook::BarrierPoll, &mut b, 0, &[]).ret, Some(want));
    }
}

#[test]
fn a_dead_transport_fails_every_poll() {
    let mut link = Link::new();
    link.set_connected(0);
    link.open_handshake(0);
    link.set_error();
    for hook in [Hook::DrvA, Hook::DrvB, Hook::DrvC, Hook::DrvD, Hook::BarrierPoll] {
        let e = go(hook, &mut link, 0x0300_0000, &[1, 2, 3, 4]);
        assert_eq!(e.ret, Some(COMM_ERROR));
        assert!(e.writes.is_empty());
    }
}
