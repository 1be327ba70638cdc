//! The lockstep link: what the emulator traps and the transport share.
//!
//! The game drives everything through one comm library: a connect handshake
//! of four block exchanges (the **mode** byte, the 8-byte navi **record**,
//! the 16-byte **identity** and the parent's **word**, `arena << 16 |
//! rng16`), followed, in the battle modes, by an ordered byte stream through
//! a per-turn barrier. Guest mode (2) ends after the identity exchange. The
//! link relays the blocks and the barrier stream faithfully, in order, over a
//! reliable transport; the game polls on its own until the data is there.
//!
//! # Handshake generations
//!
//! The player walks in and out of the game's Transmit screen at will. Each
//! entry runs a fresh handshake, and bytes left over from an abandoned one
//! must not leak into it. So every wire message carries a **generation**, a
//! counter of handshakes. A side that opens a handshake moves to
//! `max(gen + 1, highest generation seen from the peer)` and drops its staged
//! blocks. A side that waits inside a handshake moves forward to the peer's
//! newer generation if one shows up, and keeps its staged blocks, which then
//! leave again under the new tag. Barrier bytes of an older generation are
//! dropped and those of a newer one held. A handshake starts clean: an error
//! that the last one ended with is over once the next is opened, so that the
//! game waits in it for a connection that may still come up.
//!
//! What each call does is stated over [`LinkState`], the link's view.

#[allow(unused_imports)]
use crate::state::{
    barrier_frames, frame_bytes, frame_gen, frame_payload, law_caught_up_keeps_inv,
    law_delivered_keeps_inv, law_drained_keeps_inv, law_entered_keeps_inv, law_opened_keeps_inv,
    law_plug_keeps_inv, law_poll_keeps_inv, law_with_block_keeps_inv, law_with_byte_keeps_inv,
    run_length, untagged,
};
use crate::state::LinkState;
use std::collections::BTreeMap;
use vstd::prelude::*;

verus! {

/// The tag of a barrier message.
pub const TAG_BARRIER: u8 = 0;

/// The four blocks of the connect handshake. The wire tag of a block is the
/// place of its kind in this list, counted from one.
#[derive(Clone, Copy, PartialEq, Eq, Structural)]
pub enum BlockKind {
    /// The selected comm mode byte (0 = Normal, 1 = Random, 2 = Guest).
    Mode,
    /// The 8-byte navi record.
    Record,
    /// The 16-byte identity block.
    Ident,
    /// The word `arena << 16 | rng16`. Both sides publish one, and the
    /// parent's counts.
    Word,
}

impl BlockKind {
    /// The place of the kind in the list of kinds, counted from zero.
    pub open spec fn ix(self) -> int {
        match self {
            BlockKind::Mode => 0,
            BlockKind::Record => 1,
            BlockKind::Ident => 2,
            BlockKind::Word => 3,
        }
    }

    fn index(self) -> (i: usize)
        ensures
            i == self.ix(),
            i < 4,
    {
        match self {
            BlockKind::Mode => 0,
            BlockKind::Record => 1,
            BlockKind::Ident => 2,
            BlockKind::Word => 3,
        }
    }
}

/// What a barrier poll should make the game see.
#[derive(Clone, Copy, PartialEq, Eq, Structural)]
pub enum Poll {
    /// The peer's next barrier byte.
    Byte(u8),
    /// Nothing yet; the game polls again.
    Waiting,
    /// The transport is down; the game aborts to the menu.
    Error,
}

/// One end of the link.
pub struct Link {
    side: u8,
    connected: bool,
    error: bool,
    gen: u16,
    peer_gen: u16,
    my_blocks: [Option<Vec<u8>>; 4],
    my_shipped: [Option<u16>; 4],
    peer_blocks: [Option<(u16, Vec<u8>)>; 4],
    /// Barrier bytes in push order. Append-only; `tx_shipped` marks how far
    /// the transport has taken them.
    tx: Vec<(u16, u8)>,
    tx_shipped: usize,
    peer_rx: Vec<u8>,
    peer_rx_pending: BTreeMap<u16, Vec<u8>>,
    poll_idx: usize,
}

impl View for Link {
    type V = LinkState;

    closed spec fn view(&self) -> LinkState {
        LinkState {
            side: self.side,
            connected: self.connected,
            error: self.error,
            gen: self.gen,
            peer_gen: self.peer_gen,
            staged: self.my_blocks@.map_values(|b: Option<Vec<u8>>| block_view(b)),
            shipped: self.my_shipped@,
            peer_blocks: self.peer_blocks@.map_values(
                |b: Option<(u16, Vec<u8>)>| tagged_block_view(b),
            ),
            tx: self.tx@,
            tx_shipped: self.tx_shipped as nat,
            rx: self.peer_rx@,
            pending: self.peer_rx_pending@.map_values(|b: Vec<u8>| b@),
            polled: self.poll_idx as nat,
        }
    }
}

/// A list of messages, each as its bytes.
pub open spec fn messages(list: Seq<Vec<u8>>) -> Seq<Seq<u8>> {
    list.map_values(|msg: Vec<u8>| msg@)
}

/// A block as its bytes.
pub open spec fn block_view(block: Option<Vec<u8>>) -> Option<Seq<u8>> {
    match block {
        Some(bytes) => Some(bytes@),
        None => None,
    }
}

/// A block with its generation, as its bytes.
pub open spec fn tagged_block_view(block: Option<(u16, Vec<u8>)>) -> Option<(u16, Seq<u8>)> {
    match block {
        Some((gen, bytes)) => Some((gen, bytes@)),
        None => None,
    }
}

/// `BTreeMap::split_off`: everything at or above `key` leaves the map and is
/// returned, everything below it stays.
#[verifier::external_body]
fn split_off(map: &mut BTreeMap<u16, Vec<u8>>, key: u16) -> (rest: BTreeMap<u16, Vec<u8>>)
    ensures
        rest@ == old(map)@.restrict(Set::new(|k: u16| k >= key)),
        final(map)@ == old(map)@.restrict(Set::new(|k: u16| k < key)),
{
    map.split_off(&key)
}

/// The wire message with this tag, generation and payload.
fn frame(tag: u8, gen: u16, payload: &[u8]) -> (msg: Vec<u8>)
    ensures
        msg@ == frame_bytes(tag, gen, payload@),
{
    let mut msg: Vec<u8> = Vec::new();
    msg.push(tag);
    msg.push((gen % 256) as u8);
    msg.push((gen / 256) as u8);
    msg.extend_from_slice(payload);
    assert(msg@ =~= frame_bytes(tag, gen, payload@));
    msg
}

impl Link {
    /// What holds of every link that this module makes.
    pub open spec fn wf(self) -> bool {
        self@.inv()
    }

    /// A link that was never used.
    pub fn new() -> (link: Self)
        ensures
            link.wf(),
            link@ == LinkState::fresh(),
    {
        let link = Link {
            side: 0,
            connected: false,
            error: false,
            gen: 0,
            peer_gen: 0,
            my_blocks: [None, None, None, None],
            my_shipped: [None, None, None, None],
            peer_blocks: [None, None, None, None],
            tx: Vec::new(),
            tx_shipped: 0,
            peer_rx: Vec::new(),
            peer_rx_pending: BTreeMap::new(),
            poll_idx: 0,
        };
        assert(link@ =~= LinkState::fresh());
        link
    }

    /// The transport is up and both ends have said hello; this console plays
    /// on `side`.
    pub fn set_connected(&mut self, side: u8)
        requires
            old(self).wf(),
        ensures
            final(self).wf(),
            final(self)@ == old(self)@.plugged(side),
    {
        self.side = side;
        self.connected = true;
        self.error = false;
        proof {
            law_plug_keeps_inv(old(self)@, side);
            assert(self@ == old(self)@.plugged(side));
        }
    }

    /// The transport is down.
    pub fn set_error(&mut self)
        requires
            old(self).wf(),
        ensures
            final(self).wf(),
            final(self)@ == old(self)@.unplugged(),
    {
        self.connected = false;
        self.error = true;
        proof {
            law_plug_keeps_inv(old(self)@, 0);
            assert(self@ == old(self)@.unplugged());
        }
    }

    /// This console's battle side for the current connection, 0 until one is
    /// up.
    pub fn side(&self) -> (side: u8)
        ensures
            side == self@.side,
    {
        self.side
    }

    /// The transport is up.
    pub fn is_connected(&self) -> (connected: bool)
        ensures
            connected == self@.connected,
    {
        self.connected
    }

    /// The transport went down, and since then it has neither come back nor
    /// has the game opened a handshake.
    pub fn has_error(&self) -> (error: bool)
        ensures
            error == self@.error,
    {
        self.error
    }

    /// The current handshake generation, 0 before the first handshake.
    pub fn handshake_gen(&self) -> (gen: u16)
        ensures
            gen == self@.gen,
    {
        self.gen
    }

    /// The game opens a fresh connect handshake in comm mode `mode`. The link
    /// enters the next generation, or the peer's if that is further ahead,
    /// drops the blocks that an earlier handshake staged and the error that it
    /// may have ended with, and stages the mode byte.
    pub fn open_handshake(&mut self, mode: u8)
        requires
            old(self).wf(),
            old(self)@.gen < u16::MAX,
        ensures
            final(self).wf(),
            final(self)@ == old(self)@.opened(mode),
    {
        let mut next: u16 = self.gen + 1;
        if self.peer_gen > next {
            next = self.peer_gen;
        }
        self.enter_gen(next, true);
        let mut block: Vec<u8> = Vec::new();
        block.push(mode);
        self.my_blocks[BlockKind::Mode.index()] = Some(block);
        self.error = false;
        proof {
            law_opened_keeps_inv(old(self)@, mode);
            assert(block@ =~= seq![mode]);
            assert(self@ =~= old(self)@.opened(mode));
        }
    }

    /// Stage our block of `kind` for the current handshake, after moving
    /// forward to the peer's generation if that is newer. The other staged
    /// blocks stay: they belong to the handshake that the game is still in,
    /// and leave again under the new tag.
    pub fn stage_block(&mut self, kind: BlockKind, block: Vec<u8>)
        requires
            old(self).wf(),
        ensures
            final(self).wf(),
            final(self)@ == old(self)@.with_block(kind, block@),
    {
        self.fast_forward();
        self.my_blocks[kind.index()] = Some(block);
        proof {
            law_with_block_keeps_inv(old(self)@, kind, block@);
            assert(self@ =~= old(self)@.with_block(kind, block@));
        }
    }

    /// The peer's block of `kind`, if it has arrived for the current
    /// handshake. Moves forward to the peer's generation first, as
    /// [`stage_block`](Self::stage_block) does.
    pub fn peer_block(&mut self, kind: BlockKind) -> (block: Option<Vec<u8>>)
        requires
            old(self).wf(),
        ensures
            final(self).wf(),
            final(self)@ == old(self)@.caught_up(),
            block_view(block) == final(self)@.visible(kind),
    {
        self.fast_forward();
        match &self.peer_blocks[kind.index()] {
            Some((gen, block)) => {
                if *gen == self.gen {
                    let found = block.clone();
                    assert(found@ =~= block@);
                    Some(found)
                } else {
                    None
                }
            },
            None => None,
        }
    }

    /// The game put `byte` on the barrier stream.
    pub fn push_barrier(&mut self, byte: u8)
        requires
            old(self).wf(),
        ensures
            final(self).wf(),
            final(self)@ == old(self)@.with_byte(byte),
    {
        let gen: u16 = self.gen;
        self.tx.push((gen, byte));
        proof {
            law_with_byte_keeps_inv(old(self)@, byte);
            assert(self@ =~= old(self)@.with_byte(byte));
        }
    }

    /// The game asks for the peer's next barrier byte.
    pub fn poll_barrier(&mut self) -> (poll: Poll)
        requires
            old(self).wf(),
        ensures
            final(self).wf(),
            final(self)@ == old(self)@.after_poll(),
            poll == (if old(self)@.error {
                Poll::Error
            } else if old(self)@.polled < old(self)@.rx.len() {
                Poll::Byte(old(self)@.rx[old(self)@.polled as int])
            } else {
                Poll::Waiting
            }),
    {
        if self.error {
            return Poll::Error;
        }
        if self.poll_idx < self.peer_rx.len() {
            let byte: u8 = self.peer_rx[self.poll_idx];
            self.poll_idx = self.poll_idx + 1;
            proof {
                law_poll_keeps_inv(old(self)@);
                assert(self@ =~= old(self)@.after_poll());
            }
            Poll::Byte(byte)
        } else {
            Poll::Waiting
        }
    }

    /// Take one wire message that the peer drained.
    pub fn deliver(&mut self, msg: &[u8])
        requires
            old(self).wf(),
        ensures
            final(self).wf(),
            final(self)@ == old(self)@.delivered(msg@),
    {
        proof {
            law_delivered_keeps_inv(old(self)@, msg@);
        }
        if msg.len() < 3 {
            return ;
        }
        let tag: u8 = msg[0];
        let gen: u16 = msg[1] as u16 + 256 * (msg[2] as u16);
        let payload = vstd::slice::slice_subrange(msg, 3, msg.len());
        assert(payload@ =~= frame_payload(msg@));
        assert(gen == frame_gen(msg@));
        if gen > self.peer_gen {
            self.peer_gen = gen;
        }
        if tag == TAG_BARRIER {
            if gen == self.gen {
                self.peer_rx.extend_from_slice(payload);
                assert(self.peer_rx@ =~= old(self).peer_rx@ + payload@);
            } else if gen > self.gen {
                self.hold(gen, payload);
            }
        } else if tag <= 4 {
            let kind: usize = (tag - 1) as usize;
            let newer = match &self.peer_blocks[kind] {
                Some((g, _)) => gen >= *g,
                None => true,
            };
            if newer {
                let mut block: Vec<u8> = Vec::new();
                block.extend_from_slice(payload);
                assert(block@ =~= payload@);
                self.peer_blocks[kind] = Some((gen, block));
            }
        }
        assert(self@ =~= old(self)@.delivered(msg@));
    }

    /// The wire messages produced since the last drain, in order. The
    /// transport carries each one verbatim, reliably and in order, and the
    /// peer hands each to [`deliver`](Self::deliver).
    pub fn drain_outgoing(&mut self) -> (out: Vec<Vec<u8>>)
        requires
            old(self).wf(),
        ensures
            final(self).wf(),
            final(self)@ == old(self)@.drained(),
            messages(out@) == old(self)@.outgoing(),
    {
        let mut out: Vec<Vec<u8>> = Vec::new();
        let ghost start = self@;
        let mut kind: usize = 0;
        while kind < 4
            invariant
                kind <= 4,
                start.inv(),
                self@ == (LinkState {
                    shipped: Seq::new(
                        4,
                        |k: int|
                            if k < kind && start.due(k) {
                                Some(start.gen)
                            } else {
                                start.shipped[k]
                            },
                    ),
                    ..start
                }),
                messages(out@) == start.blocks_due(kind as nat),
            decreases 4 - kind,
        {
            let ghost before = self@;
            let ghost out_before = out@;
            let shipped = match self.my_shipped[kind] {
                Some(g) => g == self.gen,
                None => false,
            };
            if !shipped {
                if let Some(block) = &self.my_blocks[kind] {
                    let msg = frame((kind + 1) as u8, self.gen, block.as_slice());
                    out.push(msg);
                    self.my_shipped[kind] = Some(self.gen);
                }
            }
            proof {
                assert(before.shipped[kind as int] == start.shipped[kind as int]);
                assert(messages(out@) =~= messages(out_before) + start.block_frames(kind as int));
                assert(self@.shipped =~= Seq::new(
                    4,
                    |k: int|
                        if k < kind + 1 && start.due(k) {
                            Some(start.gen)
                        } else {
                            start.shipped[k]
                        },
                ));
            }
            kind = kind + 1;
        }
        let ghost blocks = messages(out@);
        let mut i: usize = self.tx_shipped;
        while i < self.tx.len()
            invariant
                start.tx_shipped <= i <= self.tx.len(),
                self.tx@ == start.tx,
                start.inv(),
                messages(out@) + barrier_frames(self.tx@.skip(i as int)) == blocks + barrier_frames(
                    start.unsent(),
                ),
            decreases self.tx.len() - i,
        {
            let ghost rest = self.tx@.skip(i as int);
            let ghost out_before = out@;
            let run_start: usize = i;
            let run_gen: u16 = self.tx[i].0;
            let mut run: Vec<u8> = Vec::new();
            assert(rest.skip(0) =~= rest);
            assert(run@ =~= untagged(rest.take(0)));
            while i < self.tx.len() && self.tx[i].0 == run_gen
                invariant
                    run_start <= i <= self.tx.len(),
                    rest == self.tx@.skip(run_start as int),
                    rest.len() > 0,
                    rest[0].0 == run_gen,
                    run@ == untagged(rest.take(i - run_start)),
                    run_length(rest) == (i - run_start) + (if i < self.tx.len() && self.tx@[i as int].0
                        == run_gen {
                        run_length(rest.skip(i - run_start))
                    } else {
                        0
                    }),
                    i == run_start ==> i < self.tx.len(),
                decreases self.tx.len() - i,
            {
                proof {
                    let n = i - run_start;
                    assert(rest.skip(n).skip(1) =~= rest.skip(n + 1));
                    assert(rest.take(n + 1) =~= rest.take(n).push(rest[n]));
                    assert(untagged(rest.take(n + 1)) =~= untagged(rest.take(n)).push(rest[n].1));
                }
                run.push(self.tx[i].1);
                i = i + 1;
            }
            out.push(frame(TAG_BARRIER, run_gen, run.as_slice()));
            proof {
                let n = i - run_start;
                assert(rest.skip(n) =~= self.tx@.skip(i as int));
                assert(messages(out@) =~= messages(out_before).push(
                    frame_bytes(TAG_BARRIER, run_gen, untagged(rest.take(n))),
                ));
                assert(messages(out@) + barrier_frames(rest.skip(n)) =~= messages(out_before) + (seq![
                    frame_bytes(TAG_BARRIER, run_gen, untagged(rest.take(n))),
                ] + barrier_frames(rest.skip(n))));
            }
        }
        self.tx_shipped = self.tx.len();
        proof {
            assert(self.tx@.skip(i as int) =~= Seq::<(u16, u8)>::empty());
            assert(messages(out@) =~= start.outgoing());
            law_drained_keeps_inv(start);
            assert(self@ =~= start.drained());
        }
        out
    }

    /// Append to the bytes held for a generation that is still to come.
    fn hold(&mut self, gen: u16, payload: &[u8])
        requires
            gen > old(self)@.gen,
        ensures
            final(self)@ == (LinkState {
                pending: old(self)@.pending.insert(gen, old(self)@.held(gen) + payload@),
                ..old(self)@
            }),
    {
        broadcast use vstd::std_specs::btree::group_btree_axioms;

        let mut bytes: Vec<u8> = match self.peer_rx_pending.remove(&gen) {
            Some(bytes) => bytes,
            None => Vec::new(),
        };
        assert(bytes@ == old(self)@.held(gen));
        bytes.extend_from_slice(payload);
        assert(bytes@ =~= old(self)@.held(gen) + payload@);
        self.peer_rx_pending.insert(gen, bytes);
        assert(self@.pending =~= old(self)@.pending.insert(gen, old(self)@.held(gen) + payload@));
    }

    /// The peer raced past the handshake that we thought was current: join
    /// its generation, and keep the staged blocks.
    fn fast_forward(&mut self)
        ensures
            old(self).wf() ==> final(self).wf(),
            final(self)@ == old(self)@.caught_up(),
    {
        if self.peer_gen > self.gen {
            let next: u16 = self.peer_gen;
            self.enter_gen(next, false);
        }
    }

    /// Move to generation `gen`.
    fn enter_gen(&mut self, gen: u16, clear_staged: bool)
        ensures
            old(self).wf() && gen > old(self)@.gen ==> final(self).wf(),
            final(self)@ == old(self)@.entered(gen, clear_staged),
    {
        broadcast use vstd::std_specs::btree::group_btree_axioms;

        self.gen = gen;
        self.peer_rx = match self.peer_rx_pending.remove(&gen) {
            Some(bytes) => bytes,
            None => Vec::new(),
        };
        self.peer_rx_pending = split_off(&mut self.peer_rx_pending, gen);
        self.poll_idx = 0;
        if clear_staged {
            self.my_blocks = [None, None, None, None];
        }
        proof {
            if old(self).wf() && gen > old(self)@.gen {
                law_entered_keeps_inv(old(self)@, gen, clear_staged);
            }
            assert(self@.pending =~= old(self)@.entered(gen, clear_staged).pending);
            assert(self@ =~= old(self)@.entered(gen, clear_staged));
        }
    }
}

/// Messages and blocks are seen as the bytes that they hold, one by one and in
/// their order.
pub proof fn law_messages_are_their_bytes(list: Seq<Vec<u8>>, i: int, block: Vec<u8>, gen: u16)
    ensures
        messages(list).len() == list.len(),
        0 <= i < list.len() ==> messages(list)[i] == list[i]@,
        block_view(Some(block)) == Some(block@),
        block_view(None) is None,
        tagged_block_view(Some((gen, block))) == Some((gen, block@)),
        tagged_block_view(None) is None,
{
}

} // verus!
