//! The transport's side of the link: pairing, the hello, and the ferry.
//!
//! Both players enter the same link code; the code is namespaced
//! (`bcclink-<code>`) so that it can never pair with another program on the
//! shared server. The offerer is the parent (side 0) and the answerer the
//! child. After the channel opens both sides exchange a hello, `"BCCLINK" |
//! version u8 | rom_crc32 u32le | side u8`. The checksum is informational:
//! the two regional builds may play each other. Then every message is a
//! [`Link`] wire message verbatim, with keepalives in between, which catch a
//! peer that vanished.
//!
//! [`Connection`] is one connection from the first dial to its end. It does
//! no I/O: its driver performs what it directs and reports back what
//! happened.

use crate::link::Link;
#[allow(unused_imports)]
use crate::link::messages;
#[allow(unused_imports)]
use crate::relay::law_outgoing_is_readable;
#[allow(unused_imports)]
use crate::state::LinkState;
#[allow(unused_imports)]
use crate::text::{all_ascii, ascii_lowered, decimal_text, is_graphic, lemma_visible_ends, lowercase_of, trimmed};
use crate::text::{push_decimal, to_lowercase, trim, two};
use vstd::prelude::*;
use vstd::string::*;

verus! {

/// The version that the matchmaking server is told.
pub const PROTOCOL_VERSION: u32 = 1;

/// The version that a hello carries.
pub const HELLO_VERSION: u8 = 3;

/// The one byte of a keepalive message.
pub const KEEPALIVE: u8 = 0xff;

/// How often the link is drained, in milliseconds.
pub const DRAIN_INTERVAL_MS: u64 = 4;

/// How often a keepalive is sent, in milliseconds.
pub const KEEPALIVE_INTERVAL_MS: u64 = 1000;

/// How long a silent peer is waited for, in milliseconds.
pub const RECEIVE_TIMEOUT_MS: u64 = 10000;

/// How a connection stands.
#[derive(Clone)]
pub enum Status {
    Idle,
    /// Dialing the matchmaking server.
    Signaling,
    /// Registered under the link code; the peer has not shown up yet.
    WaitingForPeer,
    /// Channel open and hello exchanged. `side` is ours (0 = parent), and
    /// `cross_version` flags a peer with another supported ROM version.
    Connected { side: u8, cross_version: bool },
    /// The connection ended (peer left, transport died, or hello failed).
    Lost(String),
}

/// A [`Status`], with its text as characters.
pub enum StatusView {
    Idle,
    Signaling,
    WaitingForPeer,
    Connected { side: u8, cross_version: bool },
    Lost(Seq<char>),
}

impl View for Status {
    type V = StatusView;

    open spec fn view(&self) -> StatusView {
        match self {
            Status::Idle => StatusView::Idle,
            Status::Signaling => StatusView::Signaling,
            Status::WaitingForPeer => StatusView::WaitingForPeer,
            Status::Connected { side, cross_version } => StatusView::Connected {
                side: *side,
                cross_version: *cross_version,
            },
            Status::Lost(reason) => StatusView::Lost(reason@),
        }
    }
}

/// What a connection is made with.
pub struct ConnectParams {
    pub endpoint: String,
    pub link_code: String,
    pub rom_crc32: u32,
}

/// Why a connection ended badly.
pub enum Failure {
    /// The matchmaking server refused or could not be reached.
    Matchmaking(String),
    /// The peer connection could not be set up.
    Webrtc(String),
    /// The peer connection came without a data channel.
    NoChannel,
    /// Our hello could not be sent.
    HelloNotSent(String),
    /// No hello came in time.
    HelloTimeout,
    /// The channel closed before a hello came.
    HelloClosed,
    /// What came is no hello of this program.
    NotCompatible,
    /// The peer's hello has this other version.
    VersionDiffers(u8),
    /// Both ends took this side.
    RoleConflict(u8),
    /// A message could not be sent.
    Send(String),
    /// The peer fell silent.
    Unresponsive,
}

/// A [`Failure`], with its text as characters.
pub enum FailureView {
    Matchmaking(Seq<char>),
    Webrtc(Seq<char>),
    NoChannel,
    HelloNotSent(Seq<char>),
    HelloTimeout,
    HelloClosed,
    NotCompatible,
    VersionDiffers(u8),
    RoleConflict(u8),
    Send(Seq<char>),
    Unresponsive,
}

impl View for Failure {
    type V = FailureView;

    open spec fn view(&self) -> FailureView {
        match self {
            Failure::Matchmaking(e) => FailureView::Matchmaking(e@),
            Failure::Webrtc(e) => FailureView::Webrtc(e@),
            Failure::NoChannel => FailureView::NoChannel,
            Failure::HelloNotSent(e) => FailureView::HelloNotSent(e@),
            Failure::HelloTimeout => FailureView::HelloTimeout,
            Failure::HelloClosed => FailureView::HelloClosed,
            Failure::NotCompatible => FailureView::NotCompatible,
            Failure::VersionDiffers(v) => FailureView::VersionDiffers(*v),
            Failure::RoleConflict(side) => FailureView::RoleConflict(*side),
            Failure::Send(e) => FailureView::Send(e@),
            Failure::Unresponsive => FailureView::Unresponsive,
        }
    }
}

impl FailureView {
    /// What the player is told.
    pub open spec fn text(self) -> Seq<char> {
        match self {
            FailureView::Matchmaking(e) => "matchmaking: "@ + e,
            FailureView::Webrtc(e) => "webrtc: "@ + e,
            FailureView::NoChannel => "no data channel"@,
            FailureView::HelloNotSent(e) => e,
            FailureView::HelloTimeout => "timed out waiting for hello"@,
            FailureView::HelloClosed => "channel closed during hello"@,
            FailureView::NotCompatible => "peer is not a compatible bcclink instance"@,
            FailureView::VersionDiffers(v) => "peer bcclink version differs (their hello v"@
                + decimal_text(v as nat) + ", ours v"@ + decimal_text(HELLO_VERSION as nat) + ")"@,
            FailureView::RoleConflict(side) => "role conflict (both sides resolved side "@
                + decimal_text(side as nat) + "); reconnect"@,
            FailureView::Send(e) => "send: "@ + e,
            FailureView::Unresponsive => "peer stopped responding"@,
        }
    }
}

impl Failure {
    /// What the player is told.
    pub fn message(&self) -> (text: String)
        ensures
            text@ == self@.text(),
    {
        match self {
            Failure::Matchmaking(e) => two("matchmaking: ", e.as_str()),
            Failure::Webrtc(e) => two("webrtc: ", e.as_str()),
            Failure::NoChannel => "no data channel".to_owned(),
            Failure::HelloNotSent(e) => e.clone(),
            Failure::HelloTimeout => "timed out waiting for hello".to_owned(),
            Failure::HelloClosed => "channel closed during hello".to_owned(),
            Failure::NotCompatible => "peer is not a compatible bcclink instance".to_owned(),
            Failure::VersionDiffers(v) => {
                let mut text: String = "peer bcclink version differs (their hello v".to_owned();
                push_decimal(&mut text, *v as u32);
                text.append(", ours v");
                push_decimal(&mut text, HELLO_VERSION as u32);
                text.append(")");
                text
            },
            Failure::RoleConflict(side) => {
                let mut text: String = "role conflict (both sides resolved side ".to_owned();
                push_decimal(&mut text, *side as u32);
                text.append("); reconnect");
                text
            },
            Failure::Send(e) => two("send: ", e.as_str()),
            Failure::Unresponsive => "peer stopped responding".to_owned(),
        }
    }
}

/// The name under which two players with this link code meet.
pub open spec fn session_name(link_code: Seq<char>) -> Seq<char> {
    "bcclink-"@ + lowercase_of(trimmed(link_code))
}

/// A link code of visible ASCII characters only.
pub open spec fn is_plain(link_code: Seq<char>) -> bool {
    forall|i: int| 0 <= i < link_code.len() ==> is_graphic(#[trigger] link_code[i])
}

/// The name under which two players with this link code meet on the
/// matchmaking server: the code in lower case without blanks around it,
/// namespaced so that it cannot collide with another program's.
pub fn session_id(link_code: &str) -> (id: String)
    ensures
        id@ == session_name(link_code@),
        id@ == "bcclink-"@ + lowercase_of(trimmed(link_code@)),
        is_plain(link_code@) ==> id@ == "bcclink-"@ + ascii_lowered(link_code@),
{
    let bare = trim(link_code);
    proof {
        if is_plain(link_code@) {
            lemma_visible_ends(link_code@);
            assert(all_ascii(bare@));
        }
    }
    let code = to_lowercase(bare);
    two("bcclink-", code.as_str())
}

/// The side that a console plays on. `offered` says whether its local
/// description is an offer, if it has one.
pub open spec fn side_of(offered: Option<bool>) -> u8 {
    if offered == Some(true) {
        0
    } else {
        1
    }
}

/// The side that a console plays on: the offerer is the parent (0), the
/// answerer the child (1).
pub fn resolve_side(offered: Option<bool>) -> (side: u8)
    ensures
        side == side_of(offered),
        side == 0 <==> offered == Some(true),
        side <= 1,
{
    match offered {
        Some(true) => 0,
        _ => 1,
    }
}

/// The seven letters that a hello starts with.
pub open spec fn magic() -> Seq<u8> {
    seq![0x42, 0x43, 0x43, 0x4c, 0x49, 0x4e, 0x4b]
}

/// A number as four bytes, the lowest first.
pub open spec fn u32_bytes(n: u32) -> Seq<u8> {
    seq![
        (n % 0x100) as u8,
        (n / 0x100 % 0x100) as u8,
        (n / 0x10000 % 0x100) as u8,
        (n / 0x1000000) as u8,
    ]
}

/// The hello of a console on `side` that runs the ROM with this checksum.
pub open spec fn hello_bytes(rom_crc32: u32, side: u8) -> Seq<u8> {
    magic() + seq![HELLO_VERSION] + u32_bytes(rom_crc32) + seq![side]
}

/// The hello of a console on `side` that runs the ROM with this checksum.
pub fn hello(rom_crc32: u32, side: u8) -> (msg: Vec<u8>)
    ensures
        msg@ == hello_bytes(rom_crc32, side),
{
    let mut msg: Vec<u8> = Vec::new();
    msg.push(0x42);
    msg.push(0x43);
    msg.push(0x43);
    msg.push(0x4c);
    msg.push(0x49);
    msg.push(0x4e);
    msg.push(0x4b);
    msg.push(HELLO_VERSION);
    msg.push((rom_crc32 % 0x100) as u8);
    msg.push((rom_crc32 / 0x100 % 0x100) as u8);
    msg.push((rom_crc32 / 0x10000 % 0x100) as u8);
    msg.push((rom_crc32 / 0x1000000) as u8);
    msg.push(side);
    assert(msg@ =~= hello_bytes(rom_crc32, side));
    msg
}

/// The ROM checksum in a hello of full length.
pub open spec fn hello_crc32(peer: Seq<u8>) -> int {
    peer[8] + 0x100 * peer[9] + 0x10000 * peer[10] + 0x1000000 * peer[11]
}

/// What is made of a peer's hello: why it will not do, or whether the peer
/// runs another version of the ROM.
pub open spec fn judge(peer: Seq<u8>, rom_crc32: u32, side: u8) -> Result<bool, FailureView> {
    if peer.len() != 13 || peer.take(7) != magic() {
        Err(FailureView::NotCompatible)
    } else if peer[7] != HELLO_VERSION {
        Err(FailureView::VersionDiffers(peer[7]))
    } else if peer[12] == side {
        Err(FailureView::RoleConflict(side))
    } else {
        Ok(hello_crc32(peer) != rom_crc32)
    }
}

/// The outcome of judging a hello, with its failure seen as characters.
pub open spec fn verdict(r: Result<bool, Failure>) -> Result<bool, FailureView> {
    match r {
        Ok(cross_version) => Ok(cross_version),
        Err(e) => Err(e@),
    }
}

/// Whether the peer's hello will do for a console on `side` that runs the
/// ROM with this checksum, and if so whether the peer runs another version.
/// Another checksum is allowed; the same side is not.
pub fn check_hello(peer: &[u8], rom_crc32: u32, side: u8) -> (r: Result<bool, Failure>)
    ensures
        verdict(r) == judge(peer@, rom_crc32, side),
{
    if peer.len() != 13 {
        return Err(Failure::NotCompatible);
    }
    let known = peer[0] == 0x42 && peer[1] == 0x43 && peer[2] == 0x43 && peer[3] == 0x4c && peer[4]
        == 0x49 && peer[5] == 0x4e && peer[6] == 0x4b;
    proof {
        let head = peer@.take(7);
        if known {
            assert(head =~= magic());
        } else {
            assert(head[0] != magic()[0] || head[1] != magic()[1] || head[2] != magic()[2]
                || head[3] != magic()[3] || head[4] != magic()[4] || head[5] != magic()[5]
                || head[6] != magic()[6]);
        }
    }
    if !known {
        return Err(Failure::NotCompatible);
    }
    if peer[7] != HELLO_VERSION {
        return Err(Failure::VersionDiffers(peer[7]));
    }
    let peer_crc: u32 = peer[8] as u32 + 0x100 * (peer[9] as u32) + 0x10000 * (peer[10] as u32)
        + 0x1000000 * (peer[11] as u32);
    let cross_version = peer_crc != rom_crc32;
    if peer[12] == side {
        return Err(Failure::RoleConflict(side));
    }
    Ok(cross_version)
}

/// How far a connection has come.
#[derive(Clone, Copy, PartialEq, Eq, Structural)]
pub enum Phase {
    /// Dialing the matchmaking server.
    Dialing,
    /// Registered; waiting for the peer connection.
    Pairing,
    /// The channel is open and our hello is out; waiting for the peer's.
    Greeting { side: u8 },
    /// The link is up, and its messages go back and forth.
    Ferrying,
    /// The connection has ended.
    Over,
}

/// One connection, from the first dial to its end.
pub struct Connection {
    pub phase: Phase,
    /// The checksum of the ROM that this console runs.
    pub rom_crc32: u32,
    /// How long ago the last keepalive was sent.
    pub since_keepalive_ms: u64,
}

/// What a connection's driver reports to it.
pub enum Report {
    /// The matchmaking server took us in.
    Registered,
    /// The matchmaking server did not.
    NotRegistered(String),
    /// The peer connection is up with a data channel. Says whether our local
    /// description is an offer, if there is one.
    Paired(Option<bool>),
    /// The peer connection could not be set up.
    NotPaired(String),
    /// The peer connection has no data channel.
    NoChannel,
    /// What we wanted to send could not be sent.
    SendFailed(String),
    /// A message came in.
    Message(Vec<u8>),
    /// Nothing came in for the receive timeout.
    Silence,
    /// The channel closed.
    Closed,
    /// The drain interval has passed. Says whether the player hung up.
    Tick(bool),
}

/// What a connection's driver is to do.
pub struct Directive {
    /// Show this status from now on.
    pub status: Option<Status>,
    /// Send these messages, in order.
    pub send: Vec<Vec<u8>>,
    /// Stop, with this outcome.
    pub end: Option<Result<(), Failure>>,
}

/// A [`Directive`], with its texts and messages as sequences.
pub struct DirectiveView {
    pub status: Option<StatusView>,
    pub send: Seq<Seq<u8>>,
    pub end: Option<Result<(), FailureView>>,
}

impl View for Directive {
    type V = DirectiveView;

    open spec fn view(&self) -> DirectiveView {
        DirectiveView {
            status: match self.status {
                Some(status) => Some(status@),
                None => None,
            },
            send: messages(self.send@),
            end: match self.end {
                Some(outcome) => Some(outcome_view(outcome)),
                None => None,
            },
        }
    }
}

/// How a connection ended, with its failure seen as characters.
pub open spec fn outcome_view(outcome: Result<(), Failure>) -> Result<(), FailureView> {
    match outcome {
        Ok(()) => Ok(()),
        Err(e) => Err(e@),
    }
}

impl DirectiveView {
    /// Carry on.
    pub open spec fn nothing() -> DirectiveView {
        DirectiveView { status: None, send: Seq::empty(), end: None }
    }

    /// Show a status.
    pub open spec fn show(status: StatusView) -> DirectiveView {
        DirectiveView { status: Some(status), send: Seq::empty(), end: None }
    }

    /// Send messages.
    pub open spec fn transmit(send: Seq<Seq<u8>>) -> DirectiveView {
        DirectiveView { status: None, send, end: None }
    }

    /// Stop.
    pub open spec fn stop(outcome: Result<(), FailureView>) -> DirectiveView {
        DirectiveView { status: None, send: Seq::empty(), end: Some(outcome) }
    }
}

/// A connection, the link it serves, and what its driver is to do next.
pub struct Advance {
    pub conn: Connection,
    pub link: LinkState,
    pub directive: DirectiveView,
}

/// The message is a keepalive.
pub open spec fn is_keepalive(msg: Seq<u8>) -> bool {
    msg.len() > 0 && msg[0] == KEEPALIVE
}

impl Connection {
    /// Less than a keepalive interval has passed since the last keepalive, and
    /// a console that has said hello is the parent or the child.
    pub open spec fn wf(self) -> bool {
        &&& self.since_keepalive_ms < KEEPALIVE_INTERVAL_MS
        &&& self.phase matches Phase::Greeting { side } ==> side <= 1
    }

    /// The connection in another phase.
    pub open spec fn at(self, phase: Phase) -> Connection {
        Connection { phase, ..self }
    }

    /// The connection has ended and the link is as it was.
    pub open spec fn ended(self, link: LinkState, outcome: Result<(), FailureView>) -> Advance {
        Advance { conn: self.at(Phase::Over), link, directive: DirectiveView::stop(outcome) }
    }

    /// One more drain interval has passed on a live link: what has to leave
    /// leaves, with a keepalive behind it if one is due.
    pub open spec fn ticked(self, link: LinkState) -> Advance {
        let since = self.since_keepalive_ms + DRAIN_INTERVAL_MS;
        if since >= KEEPALIVE_INTERVAL_MS {
            Advance {
                conn: Connection { since_keepalive_ms: 0, ..self },
                link: link.drained(),
                directive: DirectiveView::transmit(link.outgoing().push(seq![KEEPALIVE])),
            }
        } else {
            Advance {
                conn: Connection { since_keepalive_ms: since as u64, ..self },
                link: link.drained(),
                directive: DirectiveView::transmit(link.outgoing()),
            }
        }
    }

    /// What a report leads to. A report that does not belong to the phase
    /// leads to nothing.
    pub open spec fn advanced(self, link: LinkState, report: Report) -> Advance {
        match (self.phase, report) {
            (Phase::Dialing, Report::Registered) => Advance {
                conn: self.at(Phase::Pairing),
                link,
                directive: DirectiveView::show(StatusView::WaitingForPeer),
            },
            (Phase::Dialing, Report::NotRegistered(e)) => self.ended(
                link,
                Err(FailureView::Matchmaking(e@)),
            ),
            (Phase::Pairing, Report::Paired(offered)) => Advance {
                conn: self.at(Phase::Greeting { side: side_of(offered) }),
                link,
                directive: DirectiveView::transmit(
                    seq![hello_bytes(self.rom_crc32, side_of(offered))],
                ),
            },
            (Phase::Pairing, Report::NotPaired(e)) => self.ended(
                link,
                Err(FailureView::Webrtc(e@)),
            ),
            (Phase::Pairing, Report::NoChannel) => self.ended(link, Err(FailureView::NoChannel)),
            (Phase::Greeting { side }, Report::SendFailed(e)) => self.ended(
                link,
                Err(FailureView::HelloNotSent(e@)),
            ),
            (Phase::Greeting { side }, Report::Silence) => self.ended(
                link,
                Err(FailureView::HelloTimeout),
            ),
            (Phase::Greeting { side }, Report::Closed) => self.ended(
                link,
                Err(FailureView::HelloClosed),
            ),
            (Phase::Greeting { side }, Report::Message(peer)) => match judge(
                peer@,
                self.rom_crc32,
                side,
            ) {
                Ok(cross_version) => Advance {
                    conn: self.at(Phase::Ferrying),
                    link: link.plugged(side),
                    directive: DirectiveView::show(StatusView::Connected { side, cross_version }),
                },
                Err(e) => self.ended(link, Err(e)),
            },
            (Phase::Ferrying, Report::Tick(hung_up)) => if hung_up {
                self.ended(link, Ok(()))
            } else {
                self.ticked(link)
            },
            (Phase::Ferrying, Report::SendFailed(e)) => self.ended(link, Err(FailureView::Send(e@))),
            (Phase::Ferrying, Report::Silence) => self.ended(link, Err(FailureView::Unresponsive)),
            (Phase::Ferrying, Report::Closed) => self.ended(link, Ok(())),
            (Phase::Ferrying, Report::Message(msg)) => Advance {
                conn: self,
                link: if is_keepalive(msg@) {
                    link
                } else {
                    link.delivered(msg@)
                },
                directive: DirectiveView::nothing(),
            },
            _ => Advance { conn: self, link, directive: DirectiveView::nothing() },
        }
    }

    /// A connection that is about to dial, and the status to show for it.
    pub fn new(rom_crc32: u32) -> (r: (Connection, Status))
        ensures
            r.0.wf(),
            r.0 == (Connection { phase: Phase::Dialing, rom_crc32, since_keepalive_ms: 0 }),
            r.1@ == StatusView::Signaling,
    {
        (Connection { phase: Phase::Dialing, rom_crc32, since_keepalive_ms: 0 }, Status::Signaling)
    }

    /// Take a report, and say what to do next.
    pub fn advance(&mut self, link: &mut Link, report: Report) -> (directive: Directive)
        requires
            old(self).wf(),
            old(link).wf(),
        ensures
            final(self).wf(),
            final(link).wf(),
            old(self).advanced(old(link)@, report) == (Advance {
                conn: *final(self),
                link: final(link)@,
                directive: directive@,
            }),
    {
        match self.phase {
            Phase::Dialing => match report {
                Report::Registered => {
                    self.phase = Phase::Pairing;
                    Directive::show(Status::WaitingForPeer)
                },
                Report::NotRegistered(e) => self.fail(Failure::Matchmaking(e)),
                _ => Directive::nothing(),
            },
            Phase::Pairing => match report {
                Report::Paired(offered) => {
                    let side: u8 = resolve_side(offered);
                    self.phase = Phase::Greeting { side };
                    let mut send: Vec<Vec<u8>> = Vec::new();
                    send.push(hello(self.rom_crc32, side));
                    assert(messages(send@) =~= seq![hello_bytes(self.rom_crc32, side)]);
                    Directive::transmit(send)
                },
                Report::NotPaired(e) => self.fail(Failure::Webrtc(e)),
                Report::NoChannel => self.fail(Failure::NoChannel),
                _ => Directive::nothing(),
            },
            Phase::Greeting { side } => match report {
                Report::SendFailed(e) => self.fail(Failure::HelloNotSent(e)),
                Report::Silence => self.fail(Failure::HelloTimeout),
                Report::Closed => self.fail(Failure::HelloClosed),
                Report::Message(peer) => match check_hello(peer.as_slice(), self.rom_crc32, side) {
                    Ok(cross_version) => {
                        self.phase = Phase::Ferrying;
                        link.set_connected(side);
                        Directive::show(Status::Connected { side, cross_version })
                    },
                    Err(e) => self.fail(e),
                },
                _ => Directive::nothing(),
            },
            Phase::Ferrying => match report {
                Report::Tick(hung_up) => if hung_up {
                    self.hang_up()
                } else {
                    self.tick(link)
                },
                Report::SendFailed(e) => self.fail(Failure::Send(e)),
                Report::Silence => self.fail(Failure::Unresponsive),
                Report::Closed => self.hang_up(),
                Report::Message(msg) => {
                    if msg.len() == 0 || msg[0] != KEEPALIVE {
                        link.deliver(msg.as_slice());
                    }
                    Directive::nothing()
                },
                _ => Directive::nothing(),
            },
            Phase::Over => Directive::nothing(),
        }
    }

    fn fail(&mut self, failure: Failure) -> (directive: Directive)
        ensures
            *final(self) == old(self).at(Phase::Over),
            directive@ == DirectiveView::stop(Err(failure@)),
    {
        self.phase = Phase::Over;
        let directive = Directive { status: None, send: Vec::new(), end: Some(Err(failure)) };
        assert(directive@.send =~= Seq::<Seq<u8>>::empty());
        directive
    }

    fn hang_up(&mut self) -> (directive: Directive)
        ensures
            *final(self) == old(self).at(Phase::Over),
            directive@ == DirectiveView::stop(Ok(())),
    {
        self.phase = Phase::Over;
        let directive = Directive { status: None, send: Vec::new(), end: Some(Ok(())) };
        assert(directive@.send =~= Seq::<Seq<u8>>::empty());
        directive
    }

    fn tick(&mut self, link: &mut Link) -> (directive: Directive)
        requires
            old(self).wf(),
            old(link).wf(),
        ensures
            final(self).wf(),
            final(link).wf(),
            old(self).ticked(old(link)@) == (Advance {
                conn: *final(self),
                link: final(link)@,
                directive: directive@,
            }),
    {
        let mut send: Vec<Vec<u8>> = link.drain_outgoing();
        let ghost drained = send@;
        self.since_keepalive_ms = self.since_keepalive_ms + DRAIN_INTERVAL_MS;
        if self.since_keepalive_ms >= KEEPALIVE_INTERVAL_MS {
            self.since_keepalive_ms = 0;
            let mut keepalive: Vec<u8> = Vec::new();
            keepalive.push(KEEPALIVE);
            assert(keepalive@ =~= seq![KEEPALIVE]);
            send.push(keepalive);
            assert(messages(send@) =~= messages(drained).push(seq![KEEPALIVE]));
        }
        Directive::transmit(send)
    }
}

impl Directive {
    fn nothing() -> (directive: Directive)
        ensures
            directive@ == DirectiveView::nothing(),
    {
        let directive = Directive { status: None, send: Vec::new(), end: None };
        assert(directive@.send =~= Seq::<Seq<u8>>::empty());
        directive
    }

    fn show(status: Status) -> (directive: Directive)
        ensures
            directive@ == DirectiveView::show(status@),
    {
        let directive = Directive { status: Some(status), send: Vec::new(), end: None };
        assert(directive@.send =~= Seq::<Seq<u8>>::empty());
        directive
    }

    fn transmit(send: Vec<Vec<u8>>) -> (directive: Directive)
        ensures
            directive@ == DirectiveView::transmit(messages(send@)),
    {
        Directive { status: None, send, end: None }
    }
}

/// What is shown once a connection has ended.
pub open spec fn epitaph(outcome: Result<(), FailureView>, cancelled: bool) -> StatusView {
    match outcome {
        Ok(()) => StatusView::Lost("opponent disconnected"@),
        Err(e) => if cancelled {
            StatusView::Idle
        } else {
            StatusView::Lost(e.text())
        },
    }
}

/// A connection has ended: the link reports an error, so that the game backs
/// out, and the status says why. A failure is not shown to a player who had
/// hung up; that the opponent left is.
pub fn finish(link: &mut Link, outcome: Result<(), Failure>, cancelled: bool) -> (status: Status)
    requires
        old(link).wf(),
    ensures
        final(link).wf(),
        final(link)@ == old(link)@.unplugged(),
        status@ == epitaph(outcome_view(outcome), cancelled),
{
    link.set_error();
    match outcome {
        Ok(()) => Status::Lost("opponent disconnected".to_owned()),
        Err(e) => {
            if cancelled {
                Status::Idle
            } else {
                Status::Lost(e.message())
            }
        },
    }
}

/// The hello of one console is taken by the other, whatever ROM versions
/// they run, exactly if they are on different sides; and it tells whether the
/// versions differ.
pub proof fn law_hellos_agree(rom_crc32: u32, side: u8, peer_crc32: u32, peer_side: u8)
    ensures
        judge(hello_bytes(peer_crc32, peer_side), rom_crc32, side) == (if peer_side == side {
            Err(FailureView::RoleConflict(side))
        } else {
            Ok(peer_crc32 != rom_crc32)
        }),
{
    let peer = hello_bytes(peer_crc32, peer_side);
    assert(peer.take(7) =~= magic());
    assert(peer[7] == HELLO_VERSION);
    assert(peer[8] == u32_bytes(peer_crc32)[0]);
    assert(peer[9] == u32_bytes(peer_crc32)[1]);
    assert(peer[10] == u32_bytes(peer_crc32)[2]);
    assert(peer[11] == u32_bytes(peer_crc32)[3]);
    assert(peer[12] == peer_side);
    assert(hello_crc32(peer) == peer_crc32);
}

/// Of two consoles of which one offered and the other did not, one is the
/// parent and the other the child.
pub proof fn law_sides_are_complementary(answer: Option<bool>)
    requires
        answer != Some(true),
    ensures
        side_of(Some(true)) == 0,
        side_of(answer) == 1,
{
}

/// Two connections that were paired, one as the offerer, take each other's
/// hello: both links come up, one as the parent and the other as the child,
/// and both ends know whether their ROM versions differ.
pub proof fn law_two_connections_meet(
    a: Connection,
    link_a: LinkState,
    hello_a: Vec<u8>,
    b: Connection,
    link_b: LinkState,
    hello_b: Vec<u8>,
    answer: Option<bool>,
)
    requires
        a.phase is Pairing,
        b.phase is Pairing,
        answer != Some(true),
        a.advanced(link_a, Report::Paired(Some(true))).directive.send == seq![hello_a@],
        b.advanced(link_b, Report::Paired(answer)).directive.send == seq![hello_b@],
    ensures
        a.advanced(link_a, Report::Paired(Some(true))).conn.advanced(
            link_a,
            Report::Message(hello_b),
        ) == (Advance {
            conn: a.at(Phase::Ferrying),
            link: link_a.plugged(0),
            directive: DirectiveView::show(
                StatusView::Connected { side: 0, cross_version: a.rom_crc32 != b.rom_crc32 },
            ),
        }),
        b.advanced(link_b, Report::Paired(answer)).conn.advanced(
            link_b,
            Report::Message(hello_a),
        ) == (Advance {
            conn: b.at(Phase::Ferrying),
            link: link_b.plugged(1),
            directive: DirectiveView::show(
                StatusView::Connected { side: 1, cross_version: a.rom_crc32 != b.rom_crc32 },
            ),
        }),
{
    law_hellos_agree(a.rom_crc32, 0, b.rom_crc32, 1);
    law_hellos_agree(b.rom_crc32, 1, a.rom_crc32, 0);
    assert(seq![hello_a@][0] == hello_bytes(a.rom_crc32, 0));
    assert(seq![hello_b@][0] == hello_bytes(b.rom_crc32, 1));
}

/// A link comes up as the parent or as the child.
pub proof fn law_sides_are_parent_and_child(conn: Connection, link: LinkState, report: Report)
    requires
        conn.wf(),
    ensures
        conn.advanced(link, report).conn.wf(),
        conn.advanced(link, report).directive.status matches Some(
            StatusView::Connected { side, .. },
        ) ==> side <= 1,
{
}

/// Everything that leaves one link reaches the other: none of its messages
/// is taken for a keepalive.
pub proof fn law_ferry_delivers_every_message(
    sender: LinkState,
    i: int,
    conn: Connection,
    receiver: LinkState,
    msg: Vec<u8>,
)
    requires
        sender.inv(),
        0 <= i < sender.outgoing().len(),
        msg@ == sender.outgoing()[i],
        conn.phase is Ferrying,
    ensures
        conn.advanced(receiver, Report::Message(msg)) == (Advance {
            conn,
            link: receiver.delivered(msg@),
            directive: DirectiveView::nothing(),
        }),
{
    law_outgoing_is_readable(sender);
}

/// A keepalive is heard and changes nothing.
pub proof fn law_keepalive_changes_nothing(conn: Connection, link: LinkState, msg: Vec<u8>)
    requires
        conn.phase is Ferrying,
        is_keepalive(msg@),
    ensures
        conn.advanced(link, Report::Message(msg)) == (Advance {
            conn,
            link,
            directive: DirectiveView::nothing(),
        }),
{
}

/// A link comes up only by a good hello of the peer, on the side that was
/// resolved before.
pub proof fn law_only_a_good_hello_connects(conn: Connection, link: LinkState, report: Report)
    requires
        !link.connected,
        conn.advanced(link, report).link.connected,
    ensures
        conn.phase matches Phase::Greeting { side } && report matches Report::Message(peer)
            && judge(peer@, conn.rom_crc32, side) is Ok && conn.advanced(link, report).link.side
            == side,
{
}

/// A connection that is over stays over and touches nothing.
pub proof fn law_over_is_over(conn: Connection, link: LinkState, report: Report)
    requires
        conn.phase is Over,
    ensures
        conn.advanced(link, report) == (Advance {
            conn,
            link,
            directive: DirectiveView::nothing(),
        }),
{
}

/// A live connection after `n` more drain intervals.
pub open spec fn after_ticks(conn: Connection, link: LinkState, n: nat) -> Connection
    decreases n,
{
    if n == 0 {
        conn
    } else {
        after_ticks(conn, link, (n - 1) as nat).ticked(link).conn
    }
}

/// One keepalive leaves in every second: with the last one just sent, each
/// 250th drain interval brings the next, and no other does.
pub proof fn law_keepalive_once_a_second(conn: Connection, link: LinkState, n: nat)
    requires
        conn.since_keepalive_ms == 0,
    ensures
        after_ticks(conn, link, n).since_keepalive_ms == DRAIN_INTERVAL_MS * (n % 250),
        after_ticks(conn, link, n).ticked(link).directive.send == (if (n + 1) % 250 == 0 {
            link.outgoing().push(seq![KEEPALIVE])
        } else {
            link.outgoing()
        }),
    decreases n,
{
    let here = after_ticks(conn, link, n);
    if n > 0 {
        let prev = after_ticks(conn, link, (n - 1) as nat);
        law_keepalive_once_a_second(conn, link, (n - 1) as nat);
        lemma_next_of_250((n - 1) as nat);
        assert(here == prev.ticked(link).conn);
    }
    lemma_next_of_250(n);
    assert(here.since_keepalive_ms + DRAIN_INTERVAL_MS >= KEEPALIVE_INTERVAL_MS <==> n % 250
        == 249);
}

proof fn lemma_next_of_250(n: nat)
    ensures
        (n + 1) % 250 == (if n % 250 == 249 {
            0nat
        } else {
            n % 250 + 1
        }),
{
}

/// A hello is thirteen bytes: the seven letters `BCCLINK`, the version, the
/// ROM's checksum with the low byte first, and the side.
pub proof fn law_hellos_are_laid_out(rom_crc32: u32, side: u8)
    ensures
        ({
            let h = hello_bytes(rom_crc32, side);
            &&& h.len() == 13
            &&& h.take(7) == seq![0x42u8, 0x43, 0x43, 0x4c, 0x49, 0x4e, 0x4b]
            &&& h[7] == 3
            &&& h[8] + 0x100 * h[9] + 0x10000 * h[10] + 0x1000000 * h[11] == rom_crc32
            &&& h[12] == side
        }),
{
    law_hellos_agree(0, side, rom_crc32, side);
    assert(hello_bytes(rom_crc32, side).take(7) =~= seq![
        0x42u8,
        0x43,
        0x43,
        0x4c,
        0x49,
        0x4e,
        0x4b,
    ]);
    let h = hello_bytes(rom_crc32, side);
    assert(h[8] == u32_bytes(rom_crc32)[0]);
    assert(h[9] == u32_bytes(rom_crc32)[1]);
    assert(h[10] == u32_bytes(rom_crc32)[2]);
    assert(h[11] == u32_bytes(rom_crc32)[3]);
}

/// Which hellos are taken, and why the others are not: whatever comes is no
/// hello, a hello of another version, one of the same side, or taken; and if
/// it is taken, the checksums tell whether the ROM versions differ.
pub proof fn law_hellos_are_judged(peer: Seq<u8>, rom_crc32: u32, side: u8)
    ensures
        ({
            let known = peer.len() == 13 && peer[0] == 0x42 && peer[1] == 0x43 && peer[2] == 0x43
                && peer[3] == 0x4c && peer[4] == 0x49 && peer[5] == 0x4e && peer[6] == 0x4b;
            let crc = peer[8] + 0x100 * peer[9] + 0x10000 * peer[10] + 0x1000000 * peer[11];
            &&& !known ==> judge(peer, rom_crc32, side) == Err::<bool, FailureView>(
                FailureView::NotCompatible,
            )
            &&& known && peer[7] != 3 ==> judge(peer, rom_crc32, side) == Err::<bool, FailureView>(
                FailureView::VersionDiffers(peer[7]),
            )
            &&& known && peer[7] == 3 && peer[12] == side ==> judge(peer, rom_crc32, side) == Err::<
                bool,
                FailureView,
            >(FailureView::RoleConflict(side))
            &&& known && peer[7] == 3 && peer[12] != side ==> judge(peer, rom_crc32, side) == Ok::<
                bool,
                FailureView,
            >(crc != rom_crc32)
        }),
{
    let head = peer.take(7);
    if peer.len() == 13 {
        if peer[0] == 0x42 && peer[1] == 0x43 && peer[2] == 0x43 && peer[3] == 0x4c && peer[4]
            == 0x49 && peer[5] == 0x4e && peer[6] == 0x4b {
            assert(head =~= magic());
        } else {
            assert(head[0] != magic()[0] || head[1] != magic()[1] || head[2] != magic()[2]
                || head[3] != magic()[3] || head[4] != magic()[4] || head[5] != magic()[5]
                || head[6] != magic()[6]);
        }
    }
}

/// No report raises the link's error or pulls its plug: a connection does that
/// only once it has ended. And only a hello changes the side or the plug.
pub proof fn law_a_live_connection_keeps_the_link_up(
    conn: Connection,
    link: LinkState,
    report: Report,
)
    ensures
        ({
            let t = conn.advanced(link, report);
            &&& t.link.error ==> link.error
            &&& link.connected ==> t.link.connected
            &&& !(conn.phase is Greeting) ==> t.link.error == link.error && t.link.connected
                == link.connected && t.link.side == link.side
            &&& t.directive.end is Some ==> t.link == link && t.conn.phase is Over
            &&& t.directive.end is None ==> t.conn.phase is Over == conn.phase is Over
            &&& t.conn.rom_crc32 == conn.rom_crc32
        }),
{
}

/// While a connection ferries, a tick does to the link what a drain does, and
/// nothing else: everything that is outgoing is sent, in order, with at most a
/// keepalive behind it, and the connection goes on.
pub proof fn law_a_tick_only_drains(conn: Connection, link: LinkState)
    requires
        conn.wf(),
        conn.phase is Ferrying,
    ensures
        ({
            let t = conn.advanced(link, Report::Tick(false));
            let due = conn.since_keepalive_ms + 4 >= 1000;
            &&& t.link == link.drained()
            &&& t.conn.phase is Ferrying
            &&& t.directive.status is None && t.directive.end is None
            &&& due ==> t.directive.send == link.outgoing().push(seq![0xffu8])
                && t.conn.since_keepalive_ms == 0
            &&& !due ==> t.directive.send == link.outgoing() && t.conn.since_keepalive_ms
                == conn.since_keepalive_ms + 4
        }),
{
}

/// While a connection ferries, every message but a keepalive is delivered to
/// the link, as it came, and nothing else is done about it.
pub proof fn law_messages_are_delivered_as_they_came(
    conn: Connection,
    link: LinkState,
    msg: Vec<u8>,
)
    requires
        conn.phase is Ferrying,
    ensures
        ({
            let t = conn.advanced(link, Report::Message(msg));
            &&& t.conn == conn
            &&& t.link == (if msg@.len() > 0 && msg@[0] == 0xff {
                link
            } else {
                link.delivered(msg@)
            })
            &&& t.directive.status is None && t.directive.end is None && t.directive.send.len() == 0
        }),
{
}

/// A live connection ends if the player hangs up, the channel closes, the peer
/// falls silent or a message cannot be sent. The first two are no failure.
pub proof fn law_how_a_live_connection_ends(conn: Connection, link: LinkState, e: String)
    requires
        conn.phase is Ferrying,
    ensures
        conn.advanced(link, Report::Tick(true)).directive.end == Some(Ok::<(), FailureView>(())),
        conn.advanced(link, Report::Closed).directive.end == Some(Ok::<(), FailureView>(())),
        conn.advanced(link, Report::Silence).directive.end == Some(
            Err::<(), FailureView>(FailureView::Unresponsive),
        ),
        conn.advanced(link, Report::SendFailed(e)).directive.end == Some(
            Err::<(), FailureView>(FailureView::Send(e@)),
        ),
        conn.advanced(link, Report::Tick(true)).directive.send.len() == 0,
{
}

/// How a connection gets to say hello: once it is registered it waits for the
/// peer, and once it is paired it sends the hello of its side.
pub proof fn law_how_a_connection_says_hello(
    conn: Connection,
    link: LinkState,
    offered: Option<bool>,
    side: u8,
    e: String,
)
    requires
        offered == Some(true) ==> side == 0,
        offered != Some(true) ==> side == 1,
    ensures
        conn.phase is Dialing ==> {
            let t = conn.advanced(link, Report::Registered);
            &&& t.conn == (Connection { phase: Phase::Pairing, ..conn })
            &&& t.link == link
            &&& t.directive.status == Some(StatusView::WaitingForPeer)
            &&& t.directive.send.len() == 0 && t.directive.end is None
        },
        conn.phase is Dialing ==> conn.advanced(link, Report::NotRegistered(e)).directive.end
            == Some(Err::<(), FailureView>(FailureView::Matchmaking(e@))),
        conn.phase is Pairing ==> {
            let t = conn.advanced(link, Report::Paired(offered));
            &&& t.conn == (Connection { phase: Phase::Greeting { side }, ..conn })
            &&& t.link == link
            &&& t.directive.send == seq![hello_bytes(conn.rom_crc32, side)]
            &&& t.directive.status is None && t.directive.end is None
        },
        conn.phase is Pairing ==> conn.advanced(link, Report::NotPaired(e)).directive.end == Some(
            Err::<(), FailureView>(FailureView::Webrtc(e@)),
        ),
        conn.phase is Pairing ==> conn.advanced(link, Report::NoChannel).directive.end == Some(
            Err::<(), FailureView>(FailureView::NoChannel),
        ),
{
}

/// What becomes of the wait for the peer's hello: a good one brings the link
/// up on our side and is shown, and anything else ends the connection with the
/// reason.
pub proof fn law_how_a_hello_is_answered(
    conn: Connection,
    link: LinkState,
    side: u8,
    peer: Vec<u8>,
    e: String,
)
    requires
        conn.phase == (Phase::Greeting { side }),
    ensures
        ({
            let t = conn.advanced(link, Report::Message(peer));
            match judge(peer@, conn.rom_crc32, side) {
                Ok(cross_version) => {
                    &&& t.conn == (Connection { phase: Phase::Ferrying, ..conn })
                    &&& t.link == link.plugged(side)
                    &&& t.directive.status == Some(StatusView::Connected { side, cross_version })
                    &&& t.directive.send.len() == 0 && t.directive.end is None
                },
                Err(why) => t.directive.end == Some(Err::<(), FailureView>(why)),
            }
        }),
        conn.advanced(link, Report::SendFailed(e)).directive.end == Some(
            Err::<(), FailureView>(FailureView::HelloNotSent(e@)),
        ),
        conn.advanced(link, Report::Silence).directive.end == Some(
            Err::<(), FailureView>(FailureView::HelloTimeout),
        ),
        conn.advanced(link, Report::Closed).directive.end == Some(
            Err::<(), FailureView>(FailureView::HelloClosed),
        ),
{
}

/// A report belongs to a phase.
pub open spec fn belongs(phase: Phase, report: Report) -> bool {
    match report {
        Report::Registered => phase is Dialing,
        Report::NotRegistered(_) => phase is Dialing,
        Report::Paired(_) => phase is Pairing,
        Report::NotPaired(_) => phase is Pairing,
        Report::NoChannel => phase is Pairing,
        Report::SendFailed(_) => phase is Greeting || phase is Ferrying,
        Report::Message(_) => phase is Greeting || phase is Ferrying,
        Report::Silence => phase is Greeting || phase is Ferrying,
        Report::Closed => phase is Greeting || phase is Ferrying,
        Report::Tick(_) => phase is Ferrying,
    }
}

/// A report out of turn changes nothing, and nothing is done about it.
pub proof fn law_reports_out_of_turn_change_nothing(
    conn: Connection,
    link: LinkState,
    report: Report,
)
    requires
        !belongs(conn.phase, report),
    ensures
        ({
            let t = conn.advanced(link, report);
            &&& t.conn == conn && t.link == link
            &&& t.directive.status is None && t.directive.end is None && t.directive.send.len() == 0
        }),
{
}

/// What is shown once a connection has ended: that the opponent left, if there
/// was no failure; else the failure, unless the player had hung up.
pub proof fn law_the_end_is_shown(failure: FailureView, cancelled: bool)
    ensures
        epitaph(Ok(()), cancelled) == StatusView::Lost("opponent disconnected"@),
        cancelled ==> epitaph(Err(failure), cancelled) is Idle,
        !cancelled ==> epitaph(Err(failure), cancelled) == StatusView::Lost(failure.text()),
{
}

/// A failure that has a cause names it in full, and says what failed.
pub proof fn law_failures_name_their_cause(cause: Seq<char>, n: u8)
    ensures
        FailureView::Matchmaking(cause).text() == "matchmaking: "@ + cause,
        FailureView::Webrtc(cause).text() == "webrtc: "@ + cause,
        FailureView::HelloNotSent(cause).text() == cause,
        FailureView::Send(cause).text() == "send: "@ + cause,
        FailureView::VersionDiffers(n).text() == "peer bcclink version differs (their hello v"@
            + decimal_text(n as nat) + ", ours v"@ + decimal_text(3) + ")"@,
        FailureView::RoleConflict(n).text() == "role conflict (both sides resolved side "@
            + decimal_text(n as nat) + "); reconnect"@,
{
}

/// What is directed, shown and judged is seen as it is.
pub proof fn law_directives_are_what_they_hold(
    d: Directive,
    status: Status,
    reason: String,
    side: u8,
    cross_version: bool,
    failure: Failure,
)
    ensures
        d@.send == messages(d.send@),
        d.status is None <==> d@.status is None,
        d.status == Some(status) ==> d@.status == Some(status@),
        d.end is None <==> d@.end is None,
        d.end == Some(Ok::<(), Failure>(())) ==> d@.end == Some(Ok::<(), FailureView>(())),
        d.end == Some(Err::<(), Failure>(failure)) ==> d@.end == Some(
            Err::<(), FailureView>(failure@),
        ),
        outcome_view(Ok(())) == Ok::<(), FailureView>(()),
        outcome_view(Err(failure)) == Err::<(), FailureView>(failure@),
        verdict(Ok(cross_version)) == Ok::<bool, FailureView>(cross_version),
        verdict(Err(failure)) == Err::<bool, FailureView>(failure@),
        Status::Idle@ is Idle,
        Status::Signaling@ is Signaling,
        Status::WaitingForPeer@ is WaitingForPeer,
        (Status::Connected { side, cross_version })@ == (StatusView::Connected {
            side,
            cross_version,
        }),
        Status::Lost(reason)@ == StatusView::Lost(reason@),
        Failure::Matchmaking(reason)@ == FailureView::Matchmaking(reason@),
        Failure::Webrtc(reason)@ == FailureView::Webrtc(reason@),
        Failure::NoChannel@ is NoChannel,
        Failure::HelloNotSent(reason)@ == FailureView::HelloNotSent(reason@),
        Failure::HelloTimeout@ is HelloTimeout,
        Failure::HelloClosed@ is HelloClosed,
        Failure::NotCompatible@ is NotCompatible,
        Failure::VersionDiffers(side)@ == FailureView::VersionDiffers(side),
        Failure::RoleConflict(side)@ == FailureView::RoleConflict(side),
        Failure::Send(reason)@ == FailureView::Send(reason@),
        Failure::Unresponsive@ is Unresponsive,
{
}

/// The link is drained many times between two keepalives, and a peer is given
/// up only after many keepalives of its have failed to come.
pub proof fn law_a_peer_is_given_time()
    ensures
        KEEPALIVE_INTERVAL_MS == 250 * DRAIN_INTERVAL_MS,
        RECEIVE_TIMEOUT_MS == 10 * KEEPALIVE_INTERVAL_MS,
        KEEPALIVE_INTERVAL_MS == 1000,
{
}

} // verus!
