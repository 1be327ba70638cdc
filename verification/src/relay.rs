//! Two links and the cable between them.
//!
//! [`Cable`] holds both ends and everything that was ever put on the wire in
//! either direction. [`after`] is where any sequence of events leads: what
//! either game does, when either end drains or receives, and when the
//! transport is torn down and set up again. The laws below hold of every such
//! sequence, and so of every way in which two players can enter, cancel and
//! enter again.

use crate::link::{BlockKind, TAG_BARRIER};
use crate::state::{
    barrier_frames, frame_bytes, frame_gen, frame_payload, is_tagged, later,
    law_caught_up_keeps_inv, law_delivered_keeps_inv, law_drained_keeps_inv, law_entered_keeps_inv,
    law_frame_round_trip, law_fresh_inv, law_opened_keeps_inv, law_plug_keeps_inv,
    law_poll_keeps_inv, law_with_block_keeps_inv, law_with_byte_keeps_inv, lemma_run_length,
    run_length, tagged_with, untagged, LinkState,
};
use vstd::prelude::*;

verus! {

/// One direction of the transport, which is reliable and ordered.
pub struct Wire {
    /// Every message that was handed to this direction, in order.
    pub sent: Seq<Seq<u8>>,
    /// How many of them the transport is done with: those that arrived, and
    /// those that a teardown lost.
    pub got: nat,
    /// The first generation that no teardown has touched.
    pub clean: int,
}

/// The two ends of the link and the two directions between them.
pub struct Cable {
    pub left: LinkState,
    pub right: LinkState,
    pub to_right: Wire,
    pub to_left: Wire,
}

/// One of the two ends.
pub enum End {
    Left,
    Right,
}

/// What can happen at one end.
pub enum Act {
    /// The game opens a handshake in this comm mode.
    Open(u8),
    /// The game publishes a block.
    Stage(BlockKind, Seq<u8>),
    /// The game looks for a block of the peer.
    Look,
    /// The game puts a byte on the barrier stream.
    Push(u8),
    /// The game asks for the peer's next byte.
    Poll,
    /// The transport takes the outgoing messages.
    Drain,
    /// The next message in flight arrives.
    Receive,
    /// The transport is up, with this end on the given side.
    Plug(u8),
    /// The transport is down.
    Unplug,
}

/// What can happen.
pub enum Event {
    At(End, Act),
    /// The transport is torn down, and all messages in flight are lost.
    Teardown,
}

impl Wire {
    /// A direction on which nothing was sent.
    pub open spec fn fresh() -> Wire {
        Wire { sent: Seq::empty(), got: 0, clean: 0 }
    }

    /// The messages still under way.
    pub open spec fn in_flight(self) -> Seq<Seq<u8>> {
        self.sent.skip(self.got as int)
    }

    /// Everything under way is lost. `gen` is the sender's generation.
    pub open spec fn torn(self, gen: u16) -> Wire {
        Wire { sent: self.sent, got: self.sent.len(), clean: gen + 1 }
    }
}

impl Cable {
    /// Two links that were never used.
    pub open spec fn fresh() -> Cable {
        Cable {
            left: LinkState::fresh(),
            right: LinkState::fresh(),
            to_right: Wire::fresh(),
            to_left: Wire::fresh(),
        }
    }

    /// The same cable, seen from behind.
    pub open spec fn mirrored(self) -> Cable {
        Cable {
            left: self.right,
            right: self.left,
            to_right: self.to_left,
            to_left: self.to_right,
        }
    }

    /// The cable after something happened at its left end. What cannot
    /// happen changes nothing: a handshake beyond the last generation, or an
    /// arrival with nothing in flight.
    pub open spec fn left_acted(self, act: Act) -> Cable {
        match act {
            Act::Open(mode) => if self.left.gen < u16::MAX {
                Cable { left: self.left.opened(mode), ..self }
            } else {
                self
            },
            Act::Stage(kind, block) => Cable { left: self.left.with_block(kind, block), ..self },
            Act::Look => Cable { left: self.left.caught_up(), ..self },
            Act::Push(byte) => Cable { left: self.left.with_byte(byte), ..self },
            Act::Poll => Cable { left: self.left.after_poll(), ..self },
            Act::Drain => Cable {
                left: self.left.drained(),
                to_right: Wire {
                    sent: self.to_right.sent + self.left.outgoing(),
                    ..self.to_right
                },
                ..self
            },
            Act::Receive => if self.to_left.got < self.to_left.sent.len() {
                Cable {
                    left: self.left.delivered(self.to_left.sent[self.to_left.got as int]),
                    to_left: Wire { got: self.to_left.got + 1, ..self.to_left },
                    ..self
                }
            } else {
                self
            },
            Act::Plug(side) => Cable { left: self.left.plugged(side), ..self },
            Act::Unplug => Cable { left: self.left.unplugged(), ..self },
        }
    }

    /// The cable after an event.
    pub open spec fn stepped(self, event: Event) -> Cable {
        match event {
            Event::At(End::Left, act) => self.left_acted(act),
            Event::At(End::Right, act) => self.mirrored().left_acted(act).mirrored(),
            Event::Teardown => Cable {
                to_right: self.to_right.torn(self.left.gen),
                to_left: self.to_left.torn(self.right.gen),
                ..self
            },
        }
    }

    /// Nothing is waiting to be drained and nothing is in flight.
    pub open spec fn quiet(self) -> bool {
        &&& self.left.outgoing().len() == 0
        &&& self.right.outgoing().len() == 0
        &&& self.to_right.got == self.to_right.sent.len()
        &&& self.to_left.got == self.to_left.sent.len()
    }
}

/// Where a sequence of events leads, from two links that were never used.
pub open spec fn after(events: Seq<Event>) -> Cable
    decreases events.len(),
{
    if events.len() == 0 {
        Cable::fresh()
    } else {
        after(events.drop_last()).stepped(events.last())
    }
}

/// A link after a list of messages arrived.
pub open spec fn delivered_all(link: LinkState, msgs: Seq<Seq<u8>>) -> LinkState
    decreases msgs.len(),
{
    if msgs.len() == 0 {
        link
    } else {
        delivered_all(link.delivered(msgs[0]), msgs.skip(1))
    }
}

/// The barrier bytes that one message carries for generation `gen`.
pub open spec fn bytes_of(msg: Seq<u8>, gen: u16) -> Seq<u8> {
    if msg[0] == TAG_BARRIER && frame_gen(msg) == gen {
        frame_payload(msg)
    } else {
        Seq::empty()
    }
}

/// The barrier bytes that a list of messages carries for generation `gen`,
/// in order.
pub open spec fn bytes_on(msgs: Seq<Seq<u8>>, gen: u16) -> Seq<u8>
    decreases msgs.len(),
{
    if msgs.len() == 0 {
        Seq::empty()
    } else {
        bytes_of(msgs[0], gen) + bytes_on(msgs.skip(1), gen)
    }
}

/// Every barrier byte that `link` captured under generation `gen`, in order.
pub open spec fn pushed(link: LinkState, gen: u16) -> Seq<u8> {
    tagged_with(link.tx, gen)
}

proof fn lemma_tagged_with_add(a: Seq<(u16, u8)>, b: Seq<(u16, u8)>, gen: u16)
    ensures
        tagged_with(a + b, gen) == tagged_with(a, gen) + tagged_with(b, gen),
{
    Seq::filter_distributes_over_add(a, b, is_tagged(gen));
    assert(tagged_with(a + b, gen) =~= tagged_with(a, gen) + tagged_with(b, gen));
}

/// A stream of one generation keeps all of its bytes under that generation,
/// and none under another.
proof fn lemma_tagged_with_run(bytes: Seq<(u16, u8)>, tag: u16, gen: u16)
    requires
        forall|i: int| 0 <= i < bytes.len() ==> (#[trigger] bytes[i]).0 == tag,
    ensures
        tagged_with(bytes, gen) == (if tag == gen {
            untagged(bytes)
        } else {
            Seq::<u8>::empty()
        }),
    decreases bytes.len(),
{
    reveal(Seq::filter);
    if bytes.len() > 0 {
        lemma_tagged_with_run(bytes.drop_last(), tag, gen);
        let f = bytes.drop_last().filter(is_tagged(gen));
        if tag == gen {
            assert(untagged(f.push(bytes.last())) =~= untagged(f).push(bytes.last().1));
            assert(untagged(bytes.drop_last()).push(bytes.last().1) =~= untagged(bytes));
        }
    }
    assert(tag == gen ==> tagged_with(bytes, gen) =~= untagged(bytes));
    assert(tag != gen ==> tagged_with(bytes, gen) =~= Seq::<u8>::empty());
}

proof fn lemma_bytes_on_add(a: Seq<Seq<u8>>, b: Seq<Seq<u8>>, gen: u16)
    ensures
        bytes_on(a + b, gen) == bytes_on(a, gen) + bytes_on(b, gen),
    decreases a.len(),
{
    if a.len() == 0 {
        assert(a + b =~= b);
        assert(bytes_on(a, gen) + bytes_on(b, gen) =~= bytes_on(b, gen));
    } else {
        lemma_bytes_on_add(a.skip(1), b, gen);
        assert((a + b).skip(1) =~= a.skip(1) + b);
        assert(bytes_on(a + b, gen) =~= bytes_on(a, gen) + bytes_on(b, gen));
    }
}

/// Cutting a stream of tagged bytes into messages loses nothing.
proof fn lemma_barrier_frames(bytes: Seq<(u16, u8)>, gen: u16)
    ensures
        bytes_on(barrier_frames(bytes), gen) == tagged_with(bytes, gen),
    decreases bytes.len(),
{
    if bytes.len() == 0 {
        reveal(Seq::filter);
        assert(tagged_with(bytes, gen) =~= Seq::<u8>::empty());
    } else {
        lemma_run_length(bytes);
        let n = run_length(bytes) as int;
        let tag = bytes[0].0;
        let head = bytes.take(n);
        let tail = bytes.skip(n);
        let msg = frame_bytes(TAG_BARRIER, tag, untagged(head));
        lemma_barrier_frames(tail, gen);
        law_frame_round_trip(TAG_BARRIER, tag, untagged(head));
        assert forall|i: int| 0 <= i < head.len() implies (#[trigger] head[i]).0 == tag by {
            assert(head[i] == bytes[i]);
        }
        lemma_tagged_with_run(head, tag, gen);
        lemma_tagged_with_add(head, tail, gen);
        assert(head + tail =~= bytes);
        let msgs = barrier_frames(bytes);
        assert(msgs =~= seq![msg] + barrier_frames(tail));
        assert(msgs[0] == msg);
        assert(msgs.skip(1) =~= barrier_frames(tail));
    }
}

/// What a drain puts out for the blocks: one message for each block that is
/// due, of the current generation, in order of kind.
proof fn lemma_blocks_due(s: LinkState, n: nat)
    requires
        n <= 4,
    ensures
        forall|i: int|
            0 <= i < s.blocks_due(n).len() ==> {
                let m = #[trigger] s.blocks_due(n)[i];
                1 <= m[0] <= n && s.due(m[0] - 1) && m == frame_bytes(
                    m[0],
                    s.gen,
                    s.staged[m[0] - 1]->0,
                )
            },
        forall|i: int, j: int|
            0 <= i < j < s.blocks_due(n).len() ==> (#[trigger] s.blocks_due(n)[i])[0] < (
            #[trigger] s.blocks_due(n)[j])[0],
        forall|k: int|
            0 <= k < n && #[trigger] s.due(k) ==> s.blocks_due(n).contains(
                frame_bytes((k + 1) as u8, s.gen, s.staged[k]->0),
            ),
    decreases n,
{
    if n > 0 {
        let k0 = n - 1;
        let head = s.blocks_due((n - 1) as nat);
        let last = s.block_frames(k0);
        lemma_blocks_due(s, (n - 1) as nat);
        let msg = frame_bytes((k0 + 1) as u8, s.gen, s.staged[k0]->0);
        law_frame_round_trip((k0 + 1) as u8, s.gen, s.staged[k0]->0);
        assert(s.blocks_due(n) == head + last);
        assert forall|k: int| 0 <= k < n && #[trigger] s.due(k) implies s.blocks_due(n).contains(
            frame_bytes((k + 1) as u8, s.gen, s.staged[k]->0),
        ) by {
            if k == k0 {
                assert(s.blocks_due(n)[head.len() as int] == msg);
            } else {
                let m = frame_bytes((k + 1) as u8, s.gen, s.staged[k]->0);
                let i = choose|i: int| 0 <= i < head.len() && head[i] == m;
                assert(s.blocks_due(n)[i] == m);
            }
        }
    }
}

/// What a drain puts out for the barrier: messages of no later generation
/// than the bytes have.
proof fn lemma_barrier_frames_shape(bytes: Seq<(u16, u8)>, gen: u16)
    requires
        forall|i: int| 0 <= i < bytes.len() ==> (#[trigger] bytes[i]).0 <= gen,
    ensures
        forall|i: int|
            0 <= i < barrier_frames(bytes).len() ==> {
                let m = #[trigger] barrier_frames(bytes)[i];
                m.len() >= 3 && m[0] == TAG_BARRIER && frame_gen(m) <= gen
            },
    decreases bytes.len(),
{
    if bytes.len() > 0 {
        lemma_run_length(bytes);
        let n = run_length(bytes) as int;
        let tail = bytes.skip(n);
        law_frame_round_trip(TAG_BARRIER, bytes[0].0, untagged(bytes.take(n)));
        assert forall|i: int| 0 <= i < tail.len() implies (#[trigger] tail[i]).0 <= gen by {
            assert(tail[i] == bytes[n + i]);
        }
        lemma_barrier_frames_shape(tail, gen);
        assert forall|i: int| 0 <= i < barrier_frames(bytes).len() implies {
            let m = #[trigger] barrier_frames(bytes)[i];
            m.len() >= 3 && m[0] == TAG_BARRIER && frame_gen(m) <= gen
        } by {
            if i > 0 {
                assert(barrier_frames(bytes)[i] == barrier_frames(tail)[i - 1]);
            }
        }
    }
}

/// Every message on a wire can be read, and is of no later generation than
/// its sender has reached.
pub open spec fn well_sent(src: LinkState, w: Wire) -> bool {
    &&& w.got <= w.sent.len()
    &&& forall|i: int|
        0 <= i < w.sent.len() ==> {
            let m = #[trigger] w.sent[i];
            m.len() >= 3 && m[0] <= 4 && frame_gen(m) <= src.gen
        }
}

/// Blocks of one kind leave under ever later generations, at most one each,
/// and the sender knows the last.
pub open spec fn in_order(src: LinkState, w: Wire) -> bool {
    &&& forall|i: int, j: int|
        0 <= i < j < w.sent.len() && (#[trigger] w.sent[i])[0] == (#[trigger] w.sent[j])[0]
            && w.sent[i][0] != TAG_BARRIER ==> frame_gen(w.sent[i]) < frame_gen(w.sent[j])
    &&& forall|i: int|
        0 <= i < w.sent.len() && (#[trigger] w.sent[i])[0] != TAG_BARRIER ==> (
        src.shipped[w.sent[i][0] - 1] matches Some(g) && frame_gen(w.sent[i]) <= g)
    &&& forall|k: int|
        0 <= k < 4 ==> (#[trigger] src.shipped[k] matches Some(g) ==> was_sent(w, k, g))
}

/// A block of the kind in slot `k` was sent under generation `gen`.
pub open spec fn was_sent(w: Wire, k: int, gen: u16) -> bool {
    exists|i: int|
        0 <= i < w.sent.len() && (#[trigger] w.sent[i])[0] == k + 1 && frame_gen(w.sent[i]) == gen
}

/// Some message was sent under generation `gen`.
pub open spec fn was_heard(w: Wire, gen: u16) -> bool {
    exists|i: int| 0 <= i < w.sent.len() && frame_gen(#[trigger] w.sent[i]) == gen
}

/// What the receiver holds of a generation and what is in flight for it make
/// up what left the sender under it.
pub open spec fn streams(src: LinkState, dst: LinkState, w: Wire) -> bool {
    forall|g: u16|
        g >= dst.gen && g >= w.clean ==> #[trigger] dst.held(g) + bytes_on(w.in_flight(), g)
            == tagged_with(src.tx.take(src.tx_shipped as int), g)
}

/// The receiver has blocks only from the sender, has the last of each kind
/// that arrived, and has heard of no generation but the sender's.
pub open spec fn blocks_arrive(src: LinkState, dst: LinkState, w: Wire) -> bool {
    &&& dst.peer_gen <= src.gen
    &&& forall|k: int|
        0 <= k < 4 ==> (#[trigger] dst.peer_blocks[k] matches Some(b) ==> w.sent.contains(
            frame_bytes((k + 1) as u8, b.0, b.1),
        ))
    &&& forall|i: int|
        0 <= i < w.got && frame_gen(#[trigger] w.sent[i]) >= w.clean ==> frame_gen(w.sent[i])
            <= dst.peer_gen
    &&& forall|i: int|
        0 <= i < w.got && frame_gen(#[trigger] w.sent[i]) >= w.clean && w.sent[i][0] != TAG_BARRIER
            ==> (dst.peer_blocks[w.sent[i][0] - 1] matches Some(b) && b.0 >= frame_gen(w.sent[i]))
}

/// A sender ahead of the receiver has told, or is about to tell.
pub open spec fn announced(src: LinkState, dst: LinkState, w: Wire) -> bool {
    ||| src.gen < w.clean
    ||| src.gen <= dst.gen
    ||| src.due(0)
    ||| was_heard(w, src.gen)
}

/// What holds of one direction at all times.
pub open spec fn direction_ok(src: LinkState, dst: LinkState, w: Wire) -> bool {
    &&& src.inv()
    &&& well_sent(src, w)
    &&& in_order(src, w)
    &&& streams(src, dst, w)
    &&& blocks_arrive(src, dst, w)
    &&& announced(src, dst, w)
}

/// What holds of a cable at all times.
pub open spec fn cable_ok(c: Cable) -> bool {
    direction_ok(c.left, c.right, c.to_right) && direction_ok(c.right, c.left, c.to_left)
}

/// The sender did something other than drain.
proof fn lemma_sender_acts(src: LinkState, src2: LinkState, dst: LinkState, w: Wire)
    requires
        direction_ok(src, dst, w),
        src2.inv(),
        src2.gen >= src.gen,
        src2.shipped == src.shipped,
        src2.tx_shipped == src.tx_shipped,
        src2.tx.take(src2.tx_shipped as int) == src.tx.take(src.tx_shipped as int),
        announced(src2, dst, w),
    ensures
        direction_ok(src2, dst, w),
{
}

/// The sender drained.
proof fn lemma_sender_drains(src: LinkState, dst: LinkState, w: Wire)
    requires
        direction_ok(src, dst, w),
        dst.inv(),
    ensures
        direction_ok(src.drained(), dst, Wire { sent: w.sent + src.outgoing(), ..w }),
{
    let out = src.outgoing();
    let blocks = src.blocks_due(4);
    let bytes = barrier_frames(src.unsent());
    let src2 = src.drained();
    let w2 = Wire { sent: w.sent + out, ..w };
    law_drained_keeps_inv(src);
    lemma_blocks_due(src, 4);
    assert forall|i: int| 0 <= i < src.unsent().len() implies (#[trigger] src.unsent()[i]).0
        <= src.gen by {
        assert(src.unsent()[i] == src.tx[src.tx_shipped + i]);
    }
    lemma_barrier_frames_shape(src.unsent(), src.gen);
    // What the new messages look like.
    assert forall|i: int| 0 <= i < out.len() implies {
        let m = #[trigger] out[i];
        &&& m.len() >= 3
        &&& m[0] <= 4
        &&& frame_gen(m) <= src.gen
        &&& m[0] != TAG_BARRIER ==> i < blocks.len() && src.due(m[0] - 1) && frame_gen(m)
            == src.gen
    } by {
        let m = out[i];
        if i < blocks.len() {
            assert(m == blocks[i]);
            law_frame_round_trip(m[0], src.gen, src.staged[m[0] - 1]->0);
        } else {
            assert(m == bytes[i - blocks.len()]);
        }
    }
    assert(well_sent(src2, w2)) by {
        assert forall|i: int| 0 <= i < w2.sent.len() implies {
            let m = #[trigger] w2.sent[i];
            m.len() >= 3 && m[0] <= 4 && frame_gen(m) <= src2.gen
        } by {
            if i < w.sent.len() {
                assert(w2.sent[i] == w.sent[i]);
            } else {
                assert(w2.sent[i] == out[i - w.sent.len()]);
            }
        }
    }
    assert(in_order(src2, w2)) by {
        assert forall|i: int, j: int|
            0 <= i < j < w2.sent.len() && (#[trigger] w2.sent[i])[0] == (#[trigger] w2.sent[j])[0]
                && w2.sent[i][0] != TAG_BARRIER implies frame_gen(w2.sent[i]) < frame_gen(
            w2.sent[j],
        ) by {
            let n = w.sent.len();
            if j < n {
                assert(w2.sent[i] == w.sent[i] && w2.sent[j] == w.sent[j]);
            } else {
                assert(w2.sent[j] == out[j - n]);
                if i < n {
                    assert(w2.sent[i] == w.sent[i]);
                } else {
                    assert(w2.sent[i] == out[i - n]);
                    assert(out[i - n] == blocks[i - n] && out[j - n] == blocks[j - n]);
                }
            }
        }
        assert forall|i: int|
            0 <= i < w2.sent.len() && (#[trigger] w2.sent[i])[0] != TAG_BARRIER implies (
        src2.shipped[w2.sent[i][0] - 1] matches Some(g) && frame_gen(w2.sent[i]) <= g) by {
            if i < w.sent.len() {
                assert(w2.sent[i] == w.sent[i]);
            } else {
                assert(w2.sent[i] == out[i - w.sent.len()]);
            }
        }
        assert forall|k: int| 0 <= k < 4 implies (#[trigger] src2.shipped[k] matches Some(g)
            ==> was_sent(w2, k, g)) by {
            if src.due(k) {
                let m = frame_bytes((k + 1) as u8, src.gen, src.staged[k]->0);
                law_frame_round_trip((k + 1) as u8, src.gen, src.staged[k]->0);
                let i = choose|i: int| 0 <= i < blocks.len() && blocks[i] == m;
                assert(w2.sent[w.sent.len() + i] == m);
            } else if src.shipped[k] is Some {
                let g = src.shipped[k]->0;
                assert(was_sent(w, k, g));
                let i = choose|i: int|
                    0 <= i < w.sent.len() && (#[trigger] w.sent[i])[0] == k + 1 && frame_gen(
                        w.sent[i],
                    ) == g;
                assert(w2.sent[i] == w.sent[i]);
            }
        }
    }
    assert(streams(src2, dst, w2)) by {
        assert(w2.in_flight() =~= w.in_flight() + blocks + bytes);
        assert forall|g: u16| g >= dst.gen && g >= w2.clean implies #[trigger] dst.held(g)
            + bytes_on(w2.in_flight(), g) == tagged_with(
            src2.tx.take(src2.tx_shipped as int),
            g,
        ) by {
            lemma_bytes_on_add(w.in_flight() + blocks, bytes, g);
            lemma_bytes_on_add(w.in_flight(), blocks, g);
            lemma_no_bytes(blocks, g);
            lemma_barrier_frames(src.unsent(), g);
            lemma_tagged_with_add(src.tx.take(src.tx_shipped as int), src.unsent(), g);
            assert(src.tx.take(src.tx_shipped as int) + src.unsent() =~= src2.tx.take(
                src2.tx_shipped as int,
            ));
            assert(dst.held(g) + bytes_on(w2.in_flight(), g) =~= (dst.held(g) + bytes_on(
                w.in_flight(),
                g,
            )) + bytes_on(bytes, g));
        }
    }
    assert(blocks_arrive(src2, dst, w2)) by {
        assert forall|k: int| 0 <= k < 4 implies (#[trigger] dst.peer_blocks[k] matches Some(b)
            ==> w2.sent.contains(frame_bytes((k + 1) as u8, b.0, b.1))) by {
            if dst.peer_blocks[k] is Some {
                let b = dst.peer_blocks[k]->0;
                let m = frame_bytes((k + 1) as u8, b.0, b.1);
                let i = choose|i: int| 0 <= i < w.sent.len() && w.sent[i] == m;
                assert(w2.sent[i] == m);
            }
        }
        assert forall|i: int| 0 <= i < w2.got implies #[trigger] w2.sent[i] == w.sent[i] by {}
    }
    assert(announced(src2, dst, w2)) by {
        if src.due(0) {
            let m = frame_bytes(1, src.gen, src.staged[0]->0);
            law_frame_round_trip(1, src.gen, src.staged[0]->0);
            let i = choose|i: int| 0 <= i < blocks.len() && blocks[i] == m;
            assert(w2.sent[w.sent.len() + i] == m);
        } else if was_heard(w, src.gen) {
            let i = choose|i: int|
                0 <= i < w.sent.len() && frame_gen(#[trigger] w.sent[i]) == src.gen;
            assert(w2.sent[i] == w.sent[i]);
        }
    }
}

/// Messages that are no barrier messages carry no barrier bytes.
proof fn lemma_no_bytes(msgs: Seq<Seq<u8>>, gen: u16)
    requires
        forall|i: int| 0 <= i < msgs.len() ==> (#[trigger] msgs[i])[0] != TAG_BARRIER,
    ensures
        bytes_on(msgs, gen) == Seq::<u8>::empty(),
    decreases msgs.len(),
{
    if msgs.len() > 0 {
        assert forall|i: int| 0 <= i < msgs.skip(1).len() implies (#[trigger] msgs.skip(1)[i])[0]
            != TAG_BARRIER by {
            assert(msgs.skip(1)[i] == msgs[i + 1]);
        }
        lemma_no_bytes(msgs.skip(1), gen);
        assert(bytes_on(msgs, gen) =~= Seq::<u8>::empty());
    }
}

/// The receiver did something other than receive.
proof fn lemma_receiver_acts(src: LinkState, dst: LinkState, dst2: LinkState, w: Wire)
    requires
        direction_ok(src, dst, w),
        dst2.gen >= dst.gen,
        dst2.peer_gen == dst.peer_gen,
        dst2.peer_blocks == dst.peer_blocks,
        forall|g: u16| g >= dst2.gen ==> #[trigger] dst2.held(g) == dst.held(g),
    ensures
        direction_ok(src, dst2, w),
{
}

/// Moving to a later generation keeps the bytes held for it and for those
/// after it.
proof fn lemma_entered_holds(s: LinkState, gen: u16, clear_staged: bool)
    requires
        s.inv(),
        gen > s.gen,
    ensures
        forall|g: u16| g >= gen ==> #[trigger] s.entered(gen, clear_staged).held(g) == s.held(g),
{
}

/// The receiver took the next message.
proof fn lemma_receiver_receives(src: LinkState, dst: LinkState, w: Wire)
    requires
        direction_ok(src, dst, w),
        dst.inv(),
        w.got < w.sent.len(),
    ensures
        direction_ok(
            src,
            dst.delivered(w.sent[w.got as int]),
            Wire { got: w.got + 1, ..w },
        ),
{
    let msg = w.sent[w.got as int];
    let dst2 = dst.delivered(msg);
    let w2 = Wire { got: w.got + 1, ..w };
    let h = frame_gen(msg);
    assert(msg.len() >= 3 && msg[0] <= 4 && h <= src.gen);
    assert(w.in_flight()[0] == msg);
    assert(w.in_flight().skip(1) =~= w2.in_flight());
    assert(streams(src, dst2, w2)) by {
        assert forall|g: u16| g >= dst2.gen && g >= w2.clean implies #[trigger] dst2.held(g)
            + bytes_on(w2.in_flight(), g) == tagged_with(
            src.tx.take(src.tx_shipped as int),
            g,
        ) by {
            assert(dst2.held(g) =~= dst.held(g) + bytes_of(msg, g));
            assert(dst2.held(g) + bytes_on(w2.in_flight(), g) =~= dst.held(g) + (bytes_of(msg, g)
                + bytes_on(w2.in_flight(), g)));
        }
    }
    assert(blocks_arrive(src, dst2, w2)) by {
        if msg[0] != TAG_BARRIER {
            assert(msg =~= frame_bytes(msg[0], h, frame_payload(msg))) by {
                assert(msg.skip(3).len() == msg.len() - 3);
                assert(h == msg[1] + 256 * msg[2]);
                assert(h % 256 == msg[1] && h / 256 == msg[2]);
            }
            assert(w.sent.contains(msg));
        }
        assert forall|i: int|
            0 <= i < w2.got && frame_gen(#[trigger] w2.sent[i]) >= w2.clean && w2.sent[i][0]
                != TAG_BARRIER implies (dst2.peer_blocks[w2.sent[i][0] - 1] matches Some(b) && b.0
            >= frame_gen(w2.sent[i])) by {
            let k = w2.sent[i][0] - 1;
            if i < w.got {
                assert(dst.peer_blocks[k] is Some);
            }
        }
    }
}

/// The transport was torn down.
proof fn lemma_torn(src: LinkState, dst: LinkState, w: Wire)
    requires
        direction_ok(src, dst, w),
        dst.inv(),
    ensures
        direction_ok(src, dst, w.torn(src.gen)),
{
    let w2 = w.torn(src.gen);
    assert(streams(src, dst, w2)) by {
        assert(w2.in_flight() =~= Seq::<Seq<u8>>::empty());
        assert forall|g: u16| g >= dst.gen && g >= w2.clean implies #[trigger] dst.held(g)
            + bytes_on(w2.in_flight(), g) == tagged_with(
            src.tx.take(src.tx_shipped as int),
            g,
        ) by {
            assert(g > src.gen && g > dst.peer_gen);
            assert(dst.held(g) =~= Seq::<u8>::empty());
            lemma_none_tagged(src.tx.take(src.tx_shipped as int), g);
            assert(dst.held(g) + bytes_on(w2.in_flight(), g) =~= Seq::<u8>::empty());
        }
    }
}

proof fn lemma_none_tagged(bytes: Seq<(u16, u8)>, gen: u16)
    requires
        forall|i: int| 0 <= i < bytes.len() ==> (#[trigger] bytes[i]).0 != gen,
    ensures
        tagged_with(bytes, gen) == Seq::<u8>::empty(),
    decreases bytes.len(),
{
    reveal(Seq::filter);
    if bytes.len() > 0 {
        lemma_none_tagged(bytes.drop_last(), gen);
    }
    assert(tagged_with(bytes, gen) =~= Seq::<u8>::empty());
}

/// Whatever happens at the left end keeps what holds of a cable.
proof fn lemma_left_acted(c: Cable, act: Act)
    requires
        cable_ok(c),
    ensures
        cable_ok(c.left_acted(act)),
{
    let l = c.left;
    let r = c.right;
    let d = c.left_acted(act);
    match act {
        Act::Open(mode) => {
            if l.gen < u16::MAX {
                law_opened_keeps_inv(l, mode);
                lemma_entered_holds(l, l.next_gen() as u16, true);
                assert(forall|g: u16| #[trigger]
                    d.left.held(g) == l.entered(l.next_gen() as u16, true).held(g));
                assert(d.left.due(0));
                lemma_sender_acts(l, d.left, r, c.to_right);
                lemma_receiver_acts(r, l, d.left, c.to_left);
            }
        },
        Act::Stage(kind, block) => {
            law_with_block_keeps_inv(l, kind, block);
            if l.peer_gen > l.gen {
                lemma_entered_holds(l, l.peer_gen, false);
            }
            assert(forall|g: u16| #[trigger] d.left.held(g) == l.caught_up().held(g));
            lemma_sender_acts(l, d.left, r, c.to_right);
            lemma_receiver_acts(r, l, d.left, c.to_left);
        },
        Act::Look => {
            law_caught_up_keeps_inv(l);
            if l.peer_gen > l.gen {
                lemma_entered_holds(l, l.peer_gen, false);
            }
            lemma_sender_acts(l, d.left, r, c.to_right);
            lemma_receiver_acts(r, l, d.left, c.to_left);
        },
        Act::Push(byte) => {
            law_with_byte_keeps_inv(l, byte);
            assert(d.left.tx.take(l.tx_shipped as int) =~= l.tx.take(l.tx_shipped as int));
            lemma_sender_acts(l, d.left, r, c.to_right);
            lemma_receiver_acts(r, l, d.left, c.to_left);
        },
        Act::Poll => {
            law_poll_keeps_inv(l);
            lemma_sender_acts(l, d.left, r, c.to_right);
            lemma_receiver_acts(r, l, d.left, c.to_left);
        },
        Act::Drain => {
            lemma_sender_drains(l, r, c.to_right);
            lemma_receiver_acts(r, l, d.left, c.to_left);
        },
        Act::Receive => {
            if c.to_left.got < c.to_left.sent.len() {
                law_delivered_keeps_inv(l, c.to_left.sent[c.to_left.got as int]);
                lemma_receiver_receives(r, l, c.to_left);
                lemma_sender_acts(l, d.left, r, c.to_right);
            }
        },
        Act::Plug(side) => {
            law_plug_keeps_inv(l, side);
            lemma_sender_acts(l, d.left, r, c.to_right);
            lemma_receiver_acts(r, l, d.left, c.to_left);
        },
        Act::Unplug => {
            law_plug_keeps_inv(l, 0);
            lemma_sender_acts(l, d.left, r, c.to_right);
            lemma_receiver_acts(r, l, d.left, c.to_left);
        },
    }
}

/// Both directions are in order at all times, whatever happens.
pub proof fn law_cable_ok(events: Seq<Event>)
    ensures
        cable_ok(after(events)),
    decreases events.len(),
{
    if events.len() == 0 {
        let c = Cable::fresh();
        law_fresh_inv();
        assert forall|g: u16| #[trigger] c.right.held(g) + bytes_on(c.to_right.in_flight(), g)
            == tagged_with(c.left.tx.take(0), g) by {
            lemma_none_tagged(c.left.tx.take(0), g);
            assert(c.right.held(g) + bytes_on(c.to_right.in_flight(), g) =~= Seq::<u8>::empty());
        }
    } else {
        let c = after(events.drop_last());
        law_cable_ok(events.drop_last());
        match events.last() {
            Event::At(End::Left, act) => {
                lemma_left_acted(c, act);
            },
            Event::At(End::Right, act) => {
                lemma_left_acted(c.mirrored(), act);
            },
            Event::Teardown => {
                lemma_torn(c.left, c.right, c.to_right);
                lemma_torn(c.right, c.left, c.to_left);
            },
        }
    }
}

/// The generation of neither end ever goes back.
pub proof fn law_generations_only_grow(c: Cable, event: Event)
    ensures
        c.left.gen <= c.stepped(event).left.gen,
        c.right.gen <= c.stepped(event).right.gen,
{
}

/// The barrier stream arrives complete and in order: in a generation that no
/// teardown has touched, what the right end holds, then what is in flight,
/// then what has not left yet, is exactly what the left game pushed under
/// that generation. Nothing is lost, doubled or moved, and no byte of
/// another generation slips in.
pub proof fn law_barrier_is_faithful(events: Seq<Event>, gen: u16)
    ensures
        ({
            let c = after(events);
            gen >= c.right.gen && gen >= c.to_right.clean ==> pushed(c.left, gen) == c.right.held(
                gen,
            ) + bytes_on(c.to_right.in_flight(), gen) + tagged_with(c.left.unsent(), gen)
        }),
        ({
            let c = after(events);
            gen >= c.left.gen && gen >= c.to_left.clean ==> pushed(c.right, gen) == c.left.held(gen)
                + bytes_on(c.to_left.in_flight(), gen) + tagged_with(c.right.unsent(), gen)
        }),
{
    law_cable_ok(events);
    let c = after(events);
    lemma_stream_split(c.left, c.right, c.to_right, gen);
    lemma_stream_split(c.right, c.left, c.to_left, gen);
}

proof fn lemma_stream_split(src: LinkState, dst: LinkState, w: Wire, gen: u16)
    requires
        direction_ok(src, dst, w),
    ensures
        gen >= dst.gen && gen >= w.clean ==> pushed(src, gen) == dst.held(gen) + bytes_on(
            w.in_flight(),
            gen,
        ) + tagged_with(src.unsent(), gen),
{
    lemma_tagged_with_add(src.tx.take(src.tx_shipped as int), src.unsent(), gen);
    assert(src.tx.take(src.tx_shipped as int) + src.unsent() =~= src.tx);
}

/// What a game has read in its current generation is what the other game
/// pushed first under that same generation, byte for byte.
pub proof fn law_read_is_what_was_pushed(events: Seq<Event>)
    ensures
        ({
            let c = after(events);
            c.to_right.clean <= c.right.gen ==> c.right.polled <= pushed(c.left, c.right.gen).len()
                && c.right.rx.take(c.right.polled as int) == pushed(c.left, c.right.gen).take(
                c.right.polled as int,
            )
        }),
        ({
            let c = after(events);
            c.to_left.clean <= c.left.gen ==> c.left.polled <= pushed(c.right, c.left.gen).len()
                && c.left.rx.take(c.left.polled as int) == pushed(c.right, c.left.gen).take(
                c.left.polled as int,
            )
        }),
{
    law_cable_ok(events);
    let c = after(events);
    law_barrier_is_faithful(events, c.right.gen);
    law_barrier_is_faithful(events, c.left.gen);
    if c.to_right.clean <= c.right.gen {
        assert(c.right.rx.take(c.right.polled as int) =~= pushed(c.left, c.right.gen).take(
            c.right.polled as int,
        ));
    }
    if c.to_left.clean <= c.left.gen {
        assert(c.left.rx.take(c.left.polled as int) =~= pushed(c.right, c.left.gen).take(
            c.left.polled as int,
        ));
    }
}

/// A block that a game sees in a generation is one that the other end sent
/// under that same generation: blocks of another generation never show.
pub proof fn law_visible_block_was_sent(events: Seq<Event>, kind: BlockKind)
    ensures
        after(events).right.visible(kind) matches Some(block) ==> after(
            events,
        ).to_right.sent.contains(
            frame_bytes((kind.ix() + 1) as u8, after(events).right.gen, block),
        ),
        after(events).left.visible(kind) matches Some(block) ==> after(
            events,
        ).to_left.sent.contains(
            frame_bytes((kind.ix() + 1) as u8, after(events).left.gen, block),
        ),
{
    law_cable_ok(events);
}

/// No end ever sends two blocks of one kind under one generation, so the
/// block that the other game sees in a generation does not change.
pub proof fn law_one_block_per_generation(events: Seq<Event>, i: int, j: int)
    requires
        0 <= i < j,
    ensures
        ({
            let sent = after(events).to_right.sent;
            j < sent.len() && sent[i][0] != TAG_BARRIER && sent[i][0] == sent[j][0] ==> frame_gen(
                sent[i],
            ) < frame_gen(sent[j])
        }),
        ({
            let sent = after(events).to_left.sent;
            j < sent.len() && sent[i][0] != TAG_BARRIER && sent[i][0] == sent[j][0] ==> frame_gen(
                sent[i],
            ) < frame_gen(sent[j])
        }),
{
    law_cable_ok(events);
}

/// Two players who enter, cancel and enter again any number of times end up
/// in one generation: once all messages have arrived, the next look at the
/// peer brings both ends to the same one. An end that is behind may have
/// waited there across any number of reconnects; only of an end that is ahead
/// must no teardown have touched the generation.
pub proof fn law_generations_converge(events: Seq<Event>)
    ensures
        ({
            let c = after(events);
            c.quiet() && (c.left.gen > c.right.gen ==> c.to_right.clean <= c.left.gen) && (
            c.right.gen > c.left.gen ==> c.to_left.clean <= c.right.gen) ==> c.left.caught_up().gen
                == c.right.caught_up().gen
        }),
{
    law_cable_ok(events);
    let c = after(events);
    if c.quiet() && (c.left.gen > c.right.gen ==> c.to_right.clean <= c.left.gen) && (c.right.gen
        > c.left.gen ==> c.to_left.clean <= c.right.gen) {
        law_caught_up_keeps_inv(c.left);
        law_caught_up_keeps_inv(c.right);
        lemma_nothing_due(c.left);
        lemma_nothing_due(c.right);
        if c.left.gen > c.right.gen {
            lemma_told(c.left, c.right, c.to_right);
        } else if c.right.gen > c.left.gen {
            lemma_told(c.right, c.left, c.to_left);
        }
    }
}

/// Where nothing is outgoing, no block is due.
proof fn lemma_nothing_due(s: LinkState)
    requires
        s.outgoing().len() == 0,
    ensures
        forall|k: int| 0 <= k < 4 ==> !#[trigger] s.due(k),
{
    lemma_blocks_due(s, 4);
    assert(s.outgoing().len() == s.blocks_due(4).len() + barrier_frames(s.unsent()).len());
}

/// A receiver that is behind, and to which everything has arrived, has heard
/// of the sender's generation.
proof fn lemma_told(src: LinkState, dst: LinkState, w: Wire)
    requires
        direction_ok(src, dst, w),
        src.gen > dst.gen,
        w.clean <= src.gen,
        !src.due(0),
        w.got == w.sent.len(),
    ensures
        dst.peer_gen == src.gen,
{
    let i = choose|i: int| 0 <= i < w.sent.len() && frame_gen(#[trigger] w.sent[i]) == src.gen;
    assert(frame_gen(w.sent[i]) <= dst.peer_gen);
}

/// No side is left waiting for a block that the other has staged: once all
/// messages have arrived and both ends are in one generation, every block
/// that one end has staged is there for the other to see, unless a teardown
/// has touched that generation on the way between them.
pub proof fn law_staged_blocks_show(events: Seq<Event>, kind: BlockKind)
    ensures
        ({
            let c = after(events);
            c.quiet() && c.left.gen == c.right.gen ==> {
                &&& c.to_right.clean <= c.left.gen && c.left.staged[kind.ix()] is Some
                    ==> c.right.visible(kind) is Some
                &&& c.to_left.clean <= c.right.gen && c.right.staged[kind.ix()] is Some
                    ==> c.left.visible(kind) is Some
            }
        }),
{
    law_cable_ok(events);
    let c = after(events);
    if c.quiet() && c.left.gen == c.right.gen {
        lemma_nothing_due(c.left);
        lemma_nothing_due(c.right);
        if c.to_right.clean <= c.left.gen {
            lemma_shows(c.left, c.right, c.to_right, kind);
        }
        if c.to_left.clean <= c.right.gen {
            lemma_shows(c.right, c.left, c.to_left, kind);
        }
    }
}

proof fn lemma_shows(src: LinkState, dst: LinkState, w: Wire, kind: BlockKind)
    requires
        direction_ok(src, dst, w),
        dst.inv(),
        src.gen == dst.gen,
        w.clean <= src.gen,
        !src.due(kind.ix()),
        w.got == w.sent.len(),
    ensures
        src.staged[kind.ix()] is Some ==> dst.visible(kind) is Some,
{
    let k = kind.ix();
    if src.staged[k] is Some {
        assert(src.shipped[k] == Some(src.gen));
        assert(was_sent(w, k, src.gen));
        let i = choose|i: int|
            0 <= i < w.sent.len() && (#[trigger] w.sent[i])[0] == k + 1 && frame_gen(w.sent[i])
                == src.gen;
        assert(dst.peer_blocks[w.sent[i][0] - 1] matches Some(b) && b.0 >= src.gen);
    }
}

/// A list of messages that can all be read, none of a later generation than
/// `gen`.
pub open spec fn all_readable(msgs: Seq<Seq<u8>>, gen: u16) -> bool {
    forall|i: int|
        0 <= i < msgs.len() ==> {
            let m = #[trigger] msgs[i];
            m.len() >= 3 && m[0] <= 4 && frame_gen(m) <= gen
        }
}

proof fn lemma_skip_readable(msgs: Seq<Seq<u8>>, gen: u16)
    requires
        all_readable(msgs, gen),
        msgs.len() > 0,
    ensures
        all_readable(msgs.skip(1), gen),
{
    assert forall|i: int| 0 <= i < msgs.skip(1).len() implies {
        let m = #[trigger] msgs.skip(1)[i];
        m.len() >= 3 && m[0] <= 4 && frame_gen(m) <= gen
    } by {
        assert(msgs.skip(1)[i] == msgs[i + 1]);
    }
}

/// After a list of messages arrived, a link holds what it held before and
/// then what the messages carry.
proof fn lemma_delivered_all_holds(s: LinkState, msgs: Seq<Seq<u8>>, limit: u16, gen: u16)
    requires
        s.inv(),
        all_readable(msgs, limit),
        gen >= s.gen,
    ensures
        delivered_all(s, msgs).held(gen) == s.held(gen) + bytes_on(msgs, gen),
    decreases msgs.len(),
{
    if msgs.len() == 0 {
        assert(s.held(gen) + bytes_on(msgs, gen) =~= s.held(gen));
    } else {
        let t = s.delivered(msgs[0]);
        law_delivered_keeps_inv(s, msgs[0]);
        lemma_skip_readable(msgs, limit);
        lemma_delivered_all_holds(t, msgs.skip(1), limit, gen);
        assert(t.held(gen) =~= s.held(gen) + bytes_of(msgs[0], gen));
        assert(delivered_all(s, msgs).held(gen) =~= s.held(gen) + bytes_on(msgs, gen));
    }
}

/// Messages about other kinds leave a block of the latest generation alone.
proof fn lemma_delivered_all_keeps(s: LinkState, msgs: Seq<Seq<u8>>, limit: u16, k: int)
    requires
        s.inv(),
        s.peer_gen == limit,
        0 <= k < 4,
        all_readable(msgs, limit),
        forall|i: int| 0 <= i < msgs.len() ==> (#[trigger] msgs[i])[0] != k + 1,
    ensures
        delivered_all(s, msgs).gen == s.gen,
        delivered_all(s, msgs).peer_gen == limit,
        delivered_all(s, msgs).peer_blocks[k] == s.peer_blocks[k],
    decreases msgs.len(),
{
    if msgs.len() > 0 {
        law_delivered_keeps_inv(s, msgs[0]);
        lemma_skip_readable(msgs, limit);
        assert forall|i: int| 0 <= i < msgs.skip(1).len() implies (#[trigger] msgs.skip(1)[i])[0]
            != k + 1 by {
            assert(msgs.skip(1)[i] == msgs[i + 1]);
        }
        lemma_delivered_all_keeps(s.delivered(msgs[0]), msgs.skip(1), limit, k);
    }
}

/// The last block of a kind in a list of messages, if none is of a later
/// generation, is the one that a link has afterwards.
proof fn lemma_delivered_all_block(
    s: LinkState,
    msgs: Seq<Seq<u8>>,
    limit: u16,
    k: int,
    block: Seq<u8>,
    j: int,
)
    requires
        s.inv(),
        s.peer_gen <= limit,
        0 <= k < 4,
        all_readable(msgs, limit),
        0 <= j < msgs.len(),
        msgs[j] == frame_bytes((k + 1) as u8, limit, block),
        forall|i: int| j < i < msgs.len() ==> (#[trigger] msgs[i])[0] != k + 1,
    ensures
        delivered_all(s, msgs).gen == s.gen,
        delivered_all(s, msgs).peer_gen == limit,
        delivered_all(s, msgs).peer_blocks[k] == Some((limit, block)),
    decreases msgs.len(),
{
    let t = s.delivered(msgs[0]);
    let rest = msgs.skip(1);
    law_delivered_keeps_inv(s, msgs[0]);
    law_frame_round_trip((k + 1) as u8, limit, block);
    lemma_skip_readable(msgs, limit);
    assert forall|i: int| j - 1 < i < rest.len() implies (#[trigger] rest[i])[0] != k + 1 by {
        assert(rest[i] == msgs[i + 1]);
    }
    if j == 0 {
        lemma_delivered_all_keeps(t, rest, limit, k);
    } else {
        assert(rest[j - 1] == msgs[j]);
        lemma_delivered_all_block(t, rest, limit, k, block, j - 1);
    }
}

/// One end has everything that the other has to say once the messages in
/// flight, and those that a drain would add, have arrived.
pub open spec fn ferried(src: LinkState, dst: LinkState, w: Wire) -> LinkState {
    delivered_all(dst, w.in_flight() + src.outgoing())
}

proof fn lemma_ferried(src: LinkState, dst: LinkState, w: Wire)
    requires
        direction_ok(src, dst, w),
        dst.inv(),
    ensures
        forall|kind: BlockKind|
            src.due(#[trigger] kind.ix()) && dst.gen <= src.gen ==> ferried(
                src,
                dst,
                w,
            ).caught_up().visible(kind) == src.staged[kind.ix()],
        forall|g: u16|
            g >= dst.gen && g >= w.clean ==> #[trigger] ferried(src, dst, w).held(g) == pushed(
                src,
                g,
            ),
{
    let out = src.outgoing();
    let blocks = src.blocks_due(4);
    let bytes = barrier_frames(src.unsent());
    let msgs = w.in_flight() + out;
    let n = w.in_flight().len();
    let end = ferried(src, dst, w);
    lemma_blocks_due(src, 4);
    assert forall|i: int| 0 <= i < src.unsent().len() implies (#[trigger] src.unsent()[i]).0
        <= src.gen by {
        assert(src.unsent()[i] == src.tx[src.tx_shipped + i]);
    }
    lemma_barrier_frames_shape(src.unsent(), src.gen);
    assert forall|i: int| 0 <= i < msgs.len() implies {
        let m = #[trigger] msgs[i];
        &&& m.len() >= 3
        &&& m[0] <= 4
        &&& frame_gen(m) <= src.gen
        &&& i >= n + blocks.len() ==> m[0] == TAG_BARRIER
    } by {
        let m = msgs[i];
        if i < n {
            assert(m == w.sent[w.got + i]);
        } else if i < n + blocks.len() {
            assert(m == blocks[i - n]);
            law_frame_round_trip(m[0], src.gen, src.staged[m[0] - 1]->0);
        } else {
            assert(m == bytes[i - n - blocks.len()]);
        }
    }
    assert(all_readable(msgs, src.gen));
    assert forall|kind: BlockKind| src.due(#[trigger] kind.ix()) && dst.gen <= src.gen implies end
        .caught_up().visible(kind) == src.staged[kind.ix()] by {
        let k = kind.ix();
        let m = frame_bytes((k + 1) as u8, src.gen, src.staged[k]->0);
        law_frame_round_trip((k + 1) as u8, src.gen, src.staged[k]->0);
        let i = choose|i: int| 0 <= i < blocks.len() && blocks[i] == m;
        assert(msgs[n + i] == m);
        assert forall|j: int| n + i < j < msgs.len() implies (#[trigger] msgs[j])[0] != k + 1 by {
            if j < n + blocks.len() {
                assert(msgs[j] == blocks[j - n]);
            }
        }
        lemma_delivered_all_block(dst, msgs, src.gen, k, src.staged[k]->0, n + i);
    }
    assert forall|g: u16| g >= dst.gen && g >= w.clean implies #[trigger] end.held(g) == pushed(
        src,
        g,
    ) by {
        lemma_delivered_all_holds(dst, msgs, src.gen, g);
        lemma_bytes_on_add(w.in_flight(), out, g);
        lemma_bytes_on_add(blocks, bytes, g);
        lemma_no_bytes(blocks, g);
        lemma_barrier_frames(src.unsent(), g);
        lemma_stream_split(src, dst, w, g);
        assert(end.held(g) =~= dst.held(g) + bytes_on(w.in_flight(), g) + tagged_with(
            src.unsent(),
            g,
        ));
    }
}

/// A block staged at one end and carried over is what the other game then
/// sees, byte for byte, unless that game is already in a later handshake.
pub proof fn law_block_is_relayed(events: Seq<Event>, kind: BlockKind)
    ensures
        ({
            let c = after(events);
            c.left.due(kind.ix()) && c.right.gen <= c.left.gen ==> ferried(
                c.left,
                c.right,
                c.to_right,
            ).caught_up().visible(kind) == c.left.staged[kind.ix()]
        }),
        ({
            let c = after(events);
            c.right.due(kind.ix()) && c.left.gen <= c.right.gen ==> ferried(
                c.right,
                c.left,
                c.to_left,
            ).caught_up().visible(kind) == c.right.staged[kind.ix()]
        }),
{
    law_cable_ok(events);
    let c = after(events);
    lemma_ferried(c.left, c.right, c.to_right);
    lemma_ferried(c.right, c.left, c.to_left);
}

/// Once carried over, the barrier stream of a generation is at the other end
/// in full.
pub proof fn law_barrier_is_relayed(events: Seq<Event>, gen: u16)
    ensures
        ({
            let c = after(events);
            gen >= c.right.gen && gen >= c.to_right.clean ==> ferried(
                c.left,
                c.right,
                c.to_right,
            ).held(gen) == pushed(c.left, gen)
        }),
        ({
            let c = after(events);
            gen >= c.left.gen && gen >= c.to_left.clean ==> ferried(
                c.right,
                c.left,
                c.to_left,
            ).held(gen) == pushed(c.right, gen)
        }),
{
    law_cable_ok(events);
    let c = after(events);
    lemma_ferried(c.left, c.right, c.to_right);
    lemma_ferried(c.right, c.left, c.to_left);
}

/// Arrivals alone neither plug the transport in or out, nor move the link to
/// another generation, nor read anything.
pub proof fn law_arrivals_only_add(link: LinkState, msgs: Seq<Seq<u8>>)
    ensures
        ({
            let t = delivered_all(link, msgs);
            &&& t.side == link.side && t.connected == link.connected && t.error == link.error
            &&& t.gen == link.gen && t.polled == link.polled
            &&& t.staged == link.staged && t.shipped == link.shipped
            &&& t.tx == link.tx && t.tx_shipped == link.tx_shipped
        }),
    decreases msgs.len(),
{
    if msgs.len() > 0 {
        law_arrivals_only_add(link.delivered(msgs[0]), msgs.skip(1));
    }
}

/// A message of a passed generation changes nothing that the game can see:
/// not the bytes to read, not the blocks, and not the generation.
pub proof fn law_stale_messages_do_not_show(s: LinkState, msg: Seq<u8>, kind: BlockKind)
    requires
        s.inv(),
        msg.len() >= 3,
        frame_gen(msg) < s.gen,
    ensures
        s.delivered(msg).rx == s.rx,
        s.delivered(msg).pending == s.pending,
        s.delivered(msg).polled == s.polled,
        s.delivered(msg).caught_up().gen == s.caught_up().gen,
        s.delivered(msg).caught_up().rx == s.caught_up().rx,
        s.delivered(msg).caught_up().visible(kind) == s.caught_up().visible(kind),
{
}

/// Each new handshake starts clean: no error is left, only its mode byte is
/// staged, nothing has been read, and nothing is there to read but what the
/// peer already sent for that very generation.
pub proof fn law_new_handshake_is_clean(s: LinkState, mode: u8, kind: BlockKind)
    requires
        s.inv(),
        s.gen < u16::MAX,
    ensures
        s.opened(mode).gen == later((s.gen + 1) as u16, s.peer_gen),
        s.opened(mode).staged[kind.ix()] == (if kind is Mode {
            Some(seq![mode])
        } else {
            None
        }),
        !s.opened(mode).error,
        s.opened(mode).due(0),
        s.opened(mode).polled == 0,
        s.opened(mode).rx == s.held(s.opened(mode).gen),
{
}

/// Every message that leaves a link can be read by the other one: it is long
/// enough, has one of the five tags, and is of no later generation than its
/// sender.
pub proof fn law_outgoing_is_readable(s: LinkState)
    requires
        s.inv(),
    ensures
        all_readable(s.outgoing(), s.gen),
{
    let blocks = s.blocks_due(4);
    let bytes = barrier_frames(s.unsent());
    lemma_blocks_due(s, 4);
    assert forall|i: int| 0 <= i < s.unsent().len() implies (#[trigger] s.unsent()[i]).0
        <= s.gen by {
        assert(s.unsent()[i] == s.tx[s.tx_shipped + i]);
    }
    lemma_barrier_frames_shape(s.unsent(), s.gen);
    assert forall|i: int| 0 <= i < s.outgoing().len() implies {
        let m = #[trigger] s.outgoing()[i];
        m.len() >= 3 && m[0] <= 4 && frame_gen(m) <= s.gen
    } by {
        let m = s.outgoing()[i];
        if i < blocks.len() {
            assert(m == blocks[i]);
            law_frame_round_trip(m[0], s.gen, s.staged[m[0] - 1]->0);
        } else {
            assert(m == bytes[i - blocks.len()]);
        }
    }
}

/// A byte that a game sends is the next one of its generation's stream, and
/// of no other.
pub proof fn law_a_byte_extends_its_stream(s: LinkState, byte: u8, gen: u16)
    ensures
        pushed(s.with_byte(byte), s.gen) == pushed(s, s.gen).push(byte),
        gen != s.gen ==> pushed(s.with_byte(byte), gen) == pushed(s, gen),
{
    lemma_tagged_with_push(s.tx, s.gen, byte, s.gen);
    lemma_tagged_with_push(s.tx, s.gen, byte, gen);
}

proof fn lemma_tagged_with_push(bytes: Seq<(u16, u8)>, tag: u16, byte: u8, gen: u16)
    ensures
        tagged_with(bytes.push((tag, byte)), gen) == (if tag == gen {
            tagged_with(bytes, gen).push(byte)
        } else {
            tagged_with(bytes, gen)
        }),
{
    reveal(Seq::filter);
    assert(bytes.push((tag, byte)).drop_last() =~= bytes);
    if tag == gen {
        assert(tagged_with(bytes.push((tag, byte)), gen) =~= tagged_with(bytes, gen).push(byte));
    }
}

/// The link at one end of a cable.
pub open spec fn link_at(c: Cable, end: End) -> LinkState {
    match end {
        End::Left => c.left,
        End::Right => c.right,
    }
}

/// What happened at one end, if it was there that something happened.
pub open spec fn act_at(event: Event, end: End) -> Option<Act> {
    match event {
        Event::At(e, act) => if e == end {
            Some(act)
        } else {
            None
        },
        Event::Teardown => None,
    }
}

/// The bytes that the game at one end sent while its link was in generation
/// `gen`, in order.
pub open spec fn bytes_sent_in(events: Seq<Event>, end: End, gen: u16) -> Seq<u8>
    decreases events.len(),
{
    if events.len() == 0 {
        Seq::empty()
    } else {
        let before = bytes_sent_in(events.drop_last(), end, gen);
        match act_at(events.last(), end) {
            Some(Act::Push(byte)) => if link_at(after(events.drop_last()), end).gen == gen {
                before.push(byte)
            } else {
                before
            },
            _ => before,
        }
    }
}

/// Of everything that happened, the stream that a link has captured under a
/// generation is what its game sent in that generation: every byte, in order,
/// and no other.
pub proof fn law_every_send_is_captured(events: Seq<Event>, end: End, gen: u16)
    ensures
        pushed(link_at(after(events), end), gen) == bytes_sent_in(events, end, gen),
    decreases events.len(),
{
    if events.len() == 0 {
        lemma_none_tagged(LinkState::fresh().tx, gen);
    } else {
        let c = after(events.drop_last());
        law_every_send_is_captured(events.drop_last(), end, gen);
        match act_at(events.last(), end) {
            Some(Act::Push(byte)) => {
                law_a_byte_extends_its_stream(link_at(c, end), byte, gen);
            },
            _ => {
                assert(link_at(after(events), end).tx == link_at(c, end).tx);
            },
        }
    }
}

/// The block of a kind that the game at one end published last in the
/// handshake that it is in. Opening a handshake publishes its mode, and
/// withdraws the rest.
pub open spec fn published(events: Seq<Event>, end: End, kind: BlockKind) -> Option<Seq<u8>>
    decreases events.len(),
{
    if events.len() == 0 {
        None
    } else {
        let before = published(events.drop_last(), end, kind);
        match act_at(events.last(), end) {
            Some(Act::Open(mode)) => if link_at(after(events.drop_last()), end).gen == u16::MAX {
                before
            } else if kind is Mode {
                Some(seq![mode])
            } else {
                None
            },
            Some(Act::Stage(k, block)) => if k == kind {
                Some(block)
            } else {
                before
            },
            _ => before,
        }
    }
}

/// Whatever else happened, connections that came up and went down included, a
/// link has staged what its game published last, byte for byte.
pub proof fn law_the_last_word_is_staged(events: Seq<Event>, end: End, kind: BlockKind)
    ensures
        link_at(after(events), end).staged[kind.ix()] == published(events, end, kind),
    decreases events.len(),
{
    if events.len() > 0 {
        law_cable_ok(events.drop_last());
        law_the_last_word_is_staged(events.drop_last(), end, kind);
        let c = after(events.drop_last());
        let link = link_at(c, end);
        match act_at(events.last(), end) {
            Some(Act::Open(mode)) => {},
            Some(Act::Stage(k, block)) => {},
            _ => {
                assert(link_at(after(events), end).staged == link.staged);
            },
        }
    }
}

/// The side of one end, whether it is plugged in, and whether it has an error
/// to report, as the last of what happened to its transport left them.
pub open spec fn plug_at(events: Seq<Event>, end: End) -> (u8, bool, bool)
    decreases events.len(),
{
    if events.len() == 0 {
        (0, false, false)
    } else {
        let before = plug_at(events.drop_last(), end);
        match act_at(events.last(), end) {
            Some(Act::Plug(side)) => (side, true, false),
            Some(Act::Unplug) => (before.0, false, true),
            Some(Act::Open(_)) => if link_at(after(events.drop_last()), end).gen == u16::MAX {
                before
            } else {
                (before.0, before.1, false)
            },
            _ => before,
        }
    }
}

/// Nothing but the transport itself, and a new handshake, touches the side,
/// the plug and the error.
pub proof fn law_the_plug_is_as_it_was_left(events: Seq<Event>, end: End)
    ensures
        ({
            let link = link_at(after(events), end);
            (link.side, link.connected, link.error) == plug_at(events, end)
        }),
    decreases events.len(),
{
    if events.len() > 0 {
        law_the_plug_is_as_it_was_left(events.drop_last(), end);
    }
}

/// No end ever hears of a generation that the other has not been in.
pub proof fn law_only_true_generations_are_heard(events: Seq<Event>)
    ensures
        after(events).right.peer_gen <= after(events).left.gen,
        after(events).left.peer_gen <= after(events).right.gen,
{
    law_cable_ok(events);
}

/// How far the game at one end has read in its generation: as many bytes as
/// it has polled for since, counting those polls alone that had a byte and a
/// transport.
pub open spec fn reads_at(events: Seq<Event>, end: End) -> nat
    decreases events.len(),
{
    if events.len() == 0 {
        0
    } else {
        let before = link_at(after(events.drop_last()), end);
        if link_at(after(events), end).gen != before.gen {
            0
        } else if act_at(events.last(), end) == Some(Act::Poll) && !before.error && before.polled
            < before.rx.len() {
            reads_at(events.drop_last(), end) + 1
        } else {
            reads_at(events.drop_last(), end)
        }
    }
}

/// Only polls read, and each reads one byte.
pub proof fn law_only_polls_read(events: Seq<Event>, end: End)
    ensures
        link_at(after(events), end).polled == reads_at(events, end),
    decreases events.len(),
{
    if events.len() > 0 {
        law_only_polls_read(events.drop_last(), end);
        law_cable_ok(events.drop_last());
    }
}

/// A link moves to another generation only as its game opens a handshake or
/// looks for the peer's block: then to the next one, or to the peer's if that
/// is further ahead.
pub proof fn law_only_games_change_generations(events: Seq<Event>, end: End)
    requires
        events.len() > 0,
    ensures
        ({
            let before = link_at(after(events.drop_last()), end);
            let now = link_at(after(events), end);
            match act_at(events.last(), end) {
                Some(Act::Open(_)) => before.gen < u16::MAX ==> now.gen > before.gen && now.gen
                    >= before.peer_gen && (now.gen == before.gen + 1 || now.gen == before.peer_gen),
                Some(Act::Stage(_, _)) => now.gen >= before.gen && now.gen >= before.peer_gen && (
                now.gen == before.gen || now.gen == before.peer_gen),
                Some(Act::Look) => now.gen >= before.gen && now.gen >= before.peer_gen && (now.gen
                    == before.gen || now.gen == before.peer_gen),
                _ => now.gen == before.gen,
            }
        }),
{
}

/// The barrier bytes that a list of messages spells out, each with its
/// generation, in order.
pub open spec fn spelled(msgs: Seq<Seq<u8>>) -> Seq<(u16, u8)>
    decreases msgs.len(),
{
    if msgs.len() == 0 {
        Seq::empty()
    } else {
        let msg = msgs[0];
        let rest = spelled(msgs.skip(1));
        if msg[0] == 0 {
            Seq::new(
                (msg.len() - 3) as nat,
                |i: int| ((msg[1] + 256 * msg[2]) as u16, msg[3 + i]),
            ) + rest
        } else {
            rest
        }
    }
}

proof fn lemma_spelled_add(a: Seq<Seq<u8>>, b: Seq<Seq<u8>>)
    ensures
        spelled(a + b) == spelled(a) + spelled(b),
    decreases a.len(),
{
    if a.len() == 0 {
        assert(a + b =~= b);
        assert(spelled(a) + spelled(b) =~= spelled(b));
    } else {
        lemma_spelled_add(a.skip(1), b);
        assert((a + b).skip(1) =~= a.skip(1) + b);
        assert((a + b)[0] == a[0]);
        assert(spelled(a + b) =~= spelled(a) + spelled(b));
    }
}

proof fn lemma_blocks_spell_nothing(msgs: Seq<Seq<u8>>)
    requires
        forall|i: int| 0 <= i < msgs.len() ==> (#[trigger] msgs[i])[0] != 0,
    ensures
        spelled(msgs) == Seq::<(u16, u8)>::empty(),
    decreases msgs.len(),
{
    if msgs.len() > 0 {
        assert forall|i: int| 0 <= i < msgs.skip(1).len() implies (#[trigger] msgs.skip(1)[i])[0]
            != 0 by {
            assert(msgs.skip(1)[i] == msgs[i + 1]);
        }
        lemma_blocks_spell_nothing(msgs.skip(1));
        assert(msgs[0][0] != 0);
    }
}

proof fn lemma_barrier_frames_spell(bytes: Seq<(u16, u8)>)
    ensures
        spelled(barrier_frames(bytes)) == bytes,
    decreases bytes.len(),
{
    if bytes.len() == 0 {
        assert(spelled(barrier_frames(bytes)) =~= bytes);
    } else {
        lemma_run_length(bytes);
        let n = run_length(bytes) as int;
        let tag = bytes[0].0;
        let msg = frame_bytes(TAG_BARRIER, tag, untagged(bytes.take(n)));
        let tail = bytes.skip(n);
        lemma_barrier_frames_spell(tail);
        let msgs = barrier_frames(bytes);
        assert(msgs =~= seq![msg] + barrier_frames(tail));
        assert(msgs[0] == msg);
        assert(msgs.skip(1) =~= barrier_frames(tail));
        assert(msg.len() == n + 3 && msg[0] == 0 && msg[1] + 256 * msg[2] == tag);
        assert forall|i: int| 0 <= i < n implies (tag, #[trigger] msg[3 + i]) == bytes[i] by {
            assert(msg[3 + i] == untagged(bytes.take(n))[i]);
            assert(bytes[i].0 == tag);
        }
        let head = Seq::new(
            (msg.len() - 3) as nat,
            |i: int| ((msg[1] + 256 * msg[2]) as u16, msg[3 + i]),
        );
        assert(head =~= bytes.take(n));
        assert(bytes.take(n) + tail =~= bytes);
    }
}

/// A drain spells out exactly the bytes that had not left, in order and each
/// under its own generation.
pub proof fn law_a_drain_spells_out_the_bytes(s: LinkState)
    requires
        s.inv(),
    ensures
        spelled(s.outgoing()) == s.tx.skip(s.tx_shipped as int),
{
    let blocks = s.blocks_due(4);
    lemma_blocks_due(s, 4);
    assert forall|i: int| 0 <= i < blocks.len() implies (#[trigger] blocks[i])[0] != 0 by {
        assert(1 <= blocks[i][0]);
    }
    lemma_blocks_spell_nothing(blocks);
    lemma_barrier_frames_spell(s.unsent());
    lemma_spelled_add(blocks, barrier_frames(s.unsent()));
    assert(spelled(s.outgoing()) =~= s.unsent());
}

/// A drain sends each block that is staged and has not left under the current
/// generation, and no other block: once, under that generation, with the tag
/// of its kind, byte for byte.
pub proof fn law_a_drain_sends_the_blocks(s: LinkState, kind: BlockKind)
    requires
        s.inv(),
    ensures
        ({
            let n: int = match kind {
                BlockKind::Mode => 1,
                BlockKind::Record => 2,
                BlockKind::Ident => 3,
                BlockKind::Word => 4,
            };
            let out = s.outgoing();
            &&& s.staged[n - 1] is Some && s.shipped[n - 1] != Some(s.gen) ==> exists|i: int|
                0 <= i < out.len() && (#[trigger] out[i])[0] == n
            &&& forall|i: int|
                0 <= i < out.len() && (#[trigger] out[i])[0] == n ==> {
                    &&& s.staged[n - 1] is Some && s.shipped[n - 1] != Some(s.gen)
                    &&& out[i].len() >= 3 && out[i][1] + 256 * out[i][2] == s.gen
                    &&& Some(out[i].skip(3)) == s.staged[n - 1]
                }
            &&& forall|i: int, j: int|
                0 <= i < out.len() && 0 <= j < out.len() && (#[trigger] out[i])[0] == n && (
                #[trigger] out[j])[0] == n ==> i == j
        }),
{
    let n: int = kind.ix() + 1;
    let out = s.outgoing();
    let blocks = s.blocks_due(4);
    let bytes = barrier_frames(s.unsent());
    lemma_blocks_due(s, 4);
    assert forall|i: int| 0 <= i < s.unsent().len() implies (#[trigger] s.unsent()[i]).0
        <= s.gen by {
        assert(s.unsent()[i] == s.tx[s.tx_shipped + i]);
    }
    lemma_barrier_frames_shape(s.unsent(), s.gen);
    assert forall|i: int| 0 <= i < out.len() && (#[trigger] out[i])[0] == n implies i < blocks.len()
        && out[i] == blocks[i] by {
        if i >= blocks.len() {
            assert(out[i] == bytes[i - blocks.len()]);
        }
    }
    if s.due(n - 1) {
        let m = frame_bytes(n as u8, s.gen, s.staged[n - 1]->0);
        assert(blocks.contains(m));
        let i = choose|i: int| 0 <= i < blocks.len() && blocks[i] == m;
        assert(out[i] == m);
        assert(out[i][0] == n);
    }
    assert forall|i: int| 0 <= i < out.len() && (#[trigger] out[i])[0] == n implies {
        &&& s.due(n - 1)
        &&& out[i].len() >= 3 && out[i][1] + 256 * out[i][2] == s.gen
        &&& Some(out[i].skip(3)) == s.staged[n - 1]
    } by {
        let m = blocks[i];
        law_frame_round_trip(n as u8, s.gen, s.staged[n - 1]->0);
        assert(m == frame_bytes(m[0], s.gen, s.staged[n - 1]->0));
        assert(m.skip(3) == s.staged[n - 1]->0);
    }
}

proof fn lemma_run_is_maximal(bytes: Seq<(u16, u8)>)
    requires
        bytes.len() > 0,
    ensures
        run_length(bytes) < bytes.len() ==> bytes[run_length(bytes) as int].0 != bytes[0].0,
    decreases bytes.len(),
{
    if bytes.len() > 1 && bytes[1].0 == bytes[0].0 {
        lemma_run_is_maximal(bytes.skip(1));
        lemma_run_length(bytes.skip(1));
    }
}

proof fn lemma_runs(bytes: Seq<(u16, u8)>)
    ensures
        ({
            let msgs = barrier_frames(bytes);
            &&& bytes.len() > 0 ==> msgs.len() > 0 && msgs[0][1] + 256 * msgs[0][2] == bytes[0].0
            &&& forall|i: int| 0 <= i < msgs.len() ==> (#[trigger] msgs[i]).len() > 3
            &&& forall|i: int, j: int|
                0 <= i && j == i + 1 && j < msgs.len() ==> (#[trigger] msgs[i])[1] + 256
                    * msgs[i][2] != (#[trigger] msgs[j])[1] + 256 * msgs[j][2]
        }),
    decreases bytes.len(),
{
    if bytes.len() > 0 {
        lemma_run_length(bytes);
        lemma_run_is_maximal(bytes);
        let n = run_length(bytes) as int;
        let tail = bytes.skip(n);
        let msg = frame_bytes(TAG_BARRIER, bytes[0].0, untagged(bytes.take(n)));
        let msgs = barrier_frames(bytes);
        lemma_runs(tail);
        assert(msgs =~= seq![msg] + barrier_frames(tail));
        assert(msg.len() == n + 3 && msg[1] + 256 * msg[2] == bytes[0].0);
        assert forall|i: int| 0 <= i < msgs.len() implies (#[trigger] msgs[i]).len() > 3 by {
            if i > 0 {
                assert(msgs[i] == barrier_frames(tail)[i - 1]);
            }
        }
        assert forall|i: int, j: int| 0 <= i && j == i + 1 && j < msgs.len() implies (
        #[trigger] msgs[i])[1] + 256 * msgs[i][2] != (#[trigger] msgs[j])[1] + 256 * msgs[j][2] by {
            assert(msgs[j] == barrier_frames(tail)[j - 1]);
            if i > 0 {
                assert(msgs[i] == barrier_frames(tail)[i - 1]);
            } else {
                assert(tail[0] == bytes[n]);
            }
        }
    }
}

/// A drain goes in order: first the blocks, in the order of their kinds, then
/// the bytes; and bytes in a row of one generation share one message.
pub proof fn law_a_drain_goes_in_order(s: LinkState, i: int, j: int)
    requires
        s.inv(),
        0 <= i < j < s.outgoing().len(),
    ensures
        s.outgoing()[j][0] == 0 || 0 < s.outgoing()[i][0] < s.outgoing()[j][0],
        s.outgoing()[j][0] == 0 ==> s.outgoing()[j].len() > 3,
        j == i + 1 && s.outgoing()[i][0] == 0 ==> s.outgoing()[i][1] + 256 * s.outgoing()[i][2]
            != s.outgoing()[j][1] + 256 * s.outgoing()[j][2],
{
    let out = s.outgoing();
    let blocks = s.blocks_due(4);
    let bytes = barrier_frames(s.unsent());
    lemma_blocks_due(s, 4);
    assert forall|i: int| 0 <= i < s.unsent().len() implies (#[trigger] s.unsent()[i]).0
        <= s.gen by {
        assert(s.unsent()[i] == s.tx[s.tx_shipped + i]);
    }
    lemma_barrier_frames_shape(s.unsent(), s.gen);
    lemma_runs(s.unsent());
    if j < blocks.len() {
        assert(out[j] == blocks[j] && out[i] == blocks[i]);
    } else {
        assert(out[j] == bytes[j - blocks.len()]);
        if i < blocks.len() {
            assert(out[i] == blocks[i]);
        } else {
            assert(out[i] == bytes[i - blocks.len()]);
        }
    }
}

} // verus!
