use ring_bcc::link::Link;
use ring_bcc::net::{
    check_hello, finish, hello, resolve_side, session_id, Connection, Failure, Phase, Report,
    Status, HELLO_VERSION, KEEPALIVE, PROTOCOL_VERSION,
};

fn reason(status: &Status) -> String {
    match status {
        Status::Lost(reason) => reason.clone(),
        _ => panic!("not lost"),
    }
}

fn failure(r: Result<bool, Failure>) -> String {
    match r {
        Ok(_) => panic!("taken"),
        Err(e) => e.message(),
    }
}

fn ended(outcome: Option<Result<(), Failure>>) -> String {
    match outcome {
        Some(Err(e)) => e.message(),
        Some(Ok(())) => "left".to_owned(),
        None => panic!("still going"),
    }
}

fn ferrying(rom_crc32: u32, offered: Option<bool>, peer_crc32: u32) -> (Connection, Link) {
    let (mut conn, _) = Connection::new(rom_crc32);
    let mut link = Link::new();
    conn.advance(&mut link, Report::Registered);
    conn.advance(&mut link, Report::Paired(offered));
    let peer_side = 1 - resolve_side(offered);
    conn.advance(&mut link, Report::Message(hello(peer_crc32, peer_side)));
    assert!(matches!(conn.phase, Phase::Ferrying));
    (conn, link)
}

#[test]
fn the_session_is_namespaced_and_in_lower_case() {
    assert_eq!(session_id("my-code"), "bcclink-my-code");
    assert_eq!(session_id("  My-CODE 7\t"), "bcclink-my-code 7");
    assert_eq!(session_id("   "), "bcclink-");
    assert_eq!(session_id(""), "bcclink-");
    assert_eq!(session_id("ÄÖÜ"), "bcclink-äöü");
    assert_eq!(PROTOCOL_VERSION, 1);
}

#[test]
fn white_space_is_what_unicode_says_it_is() {
    let white = |c: char| {
        matches!(
            c as u32,
            0x09..=0x0d
                | 0x20
                | 0x85
                | 0xa0
                | 0x1680
                | 0x2000..=0x200a
                | 0x2028
                | 0x2029
                | 0x202f
                | 0x205f
                | 0x3000
        )
    };
    for c in '\0'..=char::MAX {
        assert_eq!(session_id(&c.to_string()) == "bcclink-", white(c), "{c:?}");
    }
    assert_eq!(session_id("\u{3000}\u{85}a\u{a0}b\u{2028} "), "bcclink-a\u{a0}b");
}

#[test]
fn the_offerer_is_the_parent() {
    assert_eq!(resolve_side(Some(true)), 0);
    assert_eq!(resolve_side(Some(false)), 1);
    assert_eq!(resolve_side(None), 1);
}

#[test]
fn a_hello_is_thirteen_bytes() {
    assert_eq!(
        hello(0x26be44fd, 1),
        vec![b'B', b'C', b'C', b'L', b'I', b'N', b'K', 3, 0xfd, 0x44, 0xbe, 0x26, 1]
    );
}

#[test]
fn hellos_of_both_builds_are_taken() {
    assert!(!check_hello(&hello(0x26be44fd, 1), 0x26be44fd, 0).unwrap_or(true));
    assert!(check_hello(&hello(0x9217fb18, 1), 0x26be44fd, 0).unwrap_or(false));
    assert!(check_hello(&hello(0x26be44fd, 0), 0x9217fb18, 1).unwrap_or(false));
}

#[test]
fn a_bad_hello_is_refused() {
    let odd = "peer is not a compatible bcclink instance";
    assert_eq!(failure(check_hello(&[], 1, 0)), odd);
    assert_eq!(failure(check_hello(&hello(1, 1)[..12], 1, 0)), odd);
    let mut long = hello(1, 1);
    long.push(0);
    assert_eq!(failure(check_hello(&long, 1, 0)), odd);
    for i in 0..7 {
        let mut wrong = hello(1, 1);
        wrong[i] ^= 1;
        assert_eq!(failure(check_hello(&wrong, 1, 0)), odd);
    }
    let mut old = hello(1, 1);
    old[7] = 12;
    assert_eq!(
        failure(check_hello(&old, 1, 0)),
        "peer bcclink version differs (their hello v12, ours v3)"
    );
    assert_eq!(HELLO_VERSION, 3);
    assert_eq!(
        failure(check_hello(&hello(1, 0), 1, 0)),
        "role conflict (both sides resolved side 0); reconnect"
    );
}

#[test]
fn a_connection_goes_from_dialing_to_ferrying() {
    let (mut conn, status) = Connection::new(0x26be44fd);
    assert!(matches!(status, Status::Signaling));
    assert!(matches!(conn.phase, Phase::Dialing));
    let mut link = Link::new();

    let d = conn.advance(&mut link, Report::Registered);
    assert!(matches!(d.status, Some(Status::WaitingForPeer)));
    assert!(d.send.is_empty() && d.end.is_none());

    let d = conn.advance(&mut link, Report::Paired(Some(true)));
    assert_eq!(d.send, vec![hello(0x26be44fd, 0)]);
    assert!(!link.is_connected());

    let d = conn.advance(&mut link, Report::Message(hello(0x9217fb18, 1)));
    assert!(matches!(d.status, Some(Status::Connected { side: 0, cross_version: true })));
    assert!(d.end.is_none());
    assert!(link.is_connected());
    assert_eq!(link.side(), 0);
}

#[test]
fn each_failure_is_named() {
    let mut link = Link::new();

    let (mut conn, _) = Connection::new(1);
    let d = conn.advance(&mut link, Report::NotRegistered("no route".to_owned()));
    assert_eq!(ended(d.end), "matchmaking: no route");
    assert!(matches!(conn.phase, Phase::Over));

    let (mut conn, _) = Connection::new(1);
    conn.advance(&mut link, Report::Registered);
    let d = conn.advance(&mut link, Report::NotPaired("ice".to_owned()));
    assert_eq!(ended(d.end), "webrtc: ice");

    let (mut conn, _) = Connection::new(1);
    conn.advance(&mut link, Report::Registered);
    let d = conn.advance(&mut link, Report::NoChannel);
    assert_eq!(ended(d.end), "no data channel");

    for (report, text) in [
        (Report::SendFailed("broken pipe".to_owned()), "broken pipe"),
        (Report::Silence, "timed out waiting for hello"),
        (Report::Closed, "channel closed during hello"),
        (Report::Message(vec![1]), "peer is not a compatible bcclink instance"),
        (
            Report::Message(hello(1, 1)),
            "role conflict (both sides resolved side 1); reconnect",
        ),
    ] {
        let (mut conn, _) = Connection::new(1);
        conn.advance(&mut link, Report::Registered);
        conn.advance(&mut link, Report::Paired(None));
        let d = conn.advance(&mut link, report);
        assert_eq!(ended(d.end), text);
        assert!(!link.is_connected());
    }

    for (report, text) in [
        (Report::SendFailed("reset".to_owned()), "send: reset"),
        (Report::Silence, "peer stopped responding"),
        (Report::Closed, "left"),
        (Report::Tick(true), "left"),
    ] {
        let (mut conn, mut link) = ferrying(1, Some(true), 1);
        let d = conn.advance(&mut link, report);
        assert_eq!(ended(d.end), text);
        assert!(matches!(conn.phase, Phase::Over));
    }
}

#[test]
fn a_report_out_of_turn_changes_nothing() {
    let mut link = Link::new();
    let (mut conn, _) = Connection::new(1);
    let d = conn.advance(&mut link, Report::Message(hello(1, 1)));
    assert!(d.status.is_none() && d.send.is_empty() && d.end.is_none());
    assert!(matches!(conn.phase, Phase::Dialing));

    conn.advance(&mut link, Report::NotRegistered(String::new()));
    let d = conn.advance(&mut link, Report::Registered);
    assert!(d.status.is_none() && d.send.is_empty() && d.end.is_none());
    assert!(matches!(conn.phase, Phase::Over));
}

#[test]
fn a_keepalive_leaves_once_a_second() {
    let (mut conn, mut link) = ferrying(1, Some(true), 1);
    for round in 0..3 {
        for tick in 1..=250 {
            let d = conn.advance(&mut link, Report::Tick(false));
            if tick == 250 {
                assert_eq!(d.send, vec![vec![KEEPALIVE]], "round {round}");
            } else {
                assert!(d.send.is_empty(), "round {round} tick {tick}");
            }
        }
    }
}

#[test]
fn a_keepalive_is_heard_and_changes_nothing() {
    let (mut conn, mut link) = ferrying(1, Some(true), 1);
    link.open_handshake(0);
    let d = conn.advance(&mut link, Report::Message(vec![KEEPALIVE]));
    assert!(d.status.is_none() && d.send.is_empty() && d.end.is_none());
    assert_eq!(link.handshake_gen(), 1);
    assert!(matches!(conn.phase, Phase::Ferrying));
}

#[test]
fn the_ferry_carries_every_message() {
    let (mut conn_a, mut a) = ferrying(1, Some(true), 2);
    let (mut conn_b, mut b) = ferrying(2, Some(false), 1);
    a.open_handshake(4);
    b.open_handshake(5);
    a.push_barrier(0xff);
    for msg in conn_a.advance(&mut a, Report::Tick(false)).send {
        conn_b.advance(&mut b, Report::Message(msg));
    }
    for msg in conn_b.advance(&mut b, Report::Tick(false)).send {
        conn_a.advance(&mut a, Report::Message(msg));
    }
    assert_eq!(a.peer_block(ring_bcc::link::BlockKind::Mode).unwrap(), vec![5]);
    assert_eq!(b.peer_block(ring_bcc::link::BlockKind::Mode).unwrap(), vec![4]);
    assert!(matches!(b.poll_barrier(), ring_bcc::link::Poll::Byte(0xff)));
}

#[test]
fn the_end_is_reported_unless_the_player_hung_up() {
    let mut link = Link::new();
    link.set_connected(0);
    let status = finish(&mut link, Ok(()), false);
    assert_eq!(reason(&status), "opponent disconnected");
    assert!(link.has_error());

    let mut link = Link::new();
    let status = finish(&mut link, Err(Failure::Unresponsive), false);
    assert_eq!(reason(&status), "peer stopped responding");

    let mut link = Link::new();
    let status = finish(&mut link, Err(Failure::Unresponsive), true);
    assert!(matches!(status, Status::Idle));
    assert!(link.has_error());
}
