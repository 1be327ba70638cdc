//! The mathematical model of one end of the link.
//!
//! [`LinkState`] is what a [`Link`](crate::link::Link) is, in mathematical
//! terms, and each of its functions says what one call does to it. Nothing
//! here is executable.

use crate::link::{BlockKind, TAG_BARRIER};
use vstd::prelude::*;

verus! {

/// One wire message: a tag byte, the generation as two bytes with the low
/// one first, and the payload.
pub open spec fn frame_bytes(tag: u8, gen: u16, payload: Seq<u8>) -> Seq<u8> {
    seq![tag, (gen % 256) as u8, (gen / 256) as u8] + payload
}

/// The generation that a message of at least three bytes is tagged with.
pub open spec fn frame_gen(msg: Seq<u8>) -> u16 {
    (msg[1] + 256 * msg[2]) as u16
}

/// What a message of at least three bytes carries behind its tag and
/// generation.
pub open spec fn frame_payload(msg: Seq<u8>) -> Seq<u8> {
    msg.skip(3)
}

/// The larger of two generations.
pub open spec fn later(g: u16, h: u16) -> u16 {
    if g >= h {
        g
    } else {
        h
    }
}

/// How many of the bytes at the head of `bytes` share the first one's
/// generation.
pub open spec fn run_length(bytes: Seq<(u16, u8)>) -> nat
    decreases bytes.len(),
{
    if bytes.len() == 0 {
        0
    } else if bytes.len() > 1 && bytes[1].0 == bytes[0].0 {
        1 + run_length(bytes.skip(1))
    } else {
        1
    }
}

/// The bytes of a tagged stream, without their generations.
pub open spec fn untagged(bytes: Seq<(u16, u8)>) -> Seq<u8> {
    bytes.map_values(|b: (u16, u8)| b.1)
}

/// Says of a tagged byte whether it carries generation `gen`.
pub open spec fn is_tagged(gen: u16) -> spec_fn((u16, u8)) -> bool {
    |b: (u16, u8)| b.0 == gen
}

/// The bytes of a tagged stream that carry generation `gen`, in order.
pub open spec fn tagged_with(bytes: Seq<(u16, u8)>, gen: u16) -> Seq<u8> {
    untagged(bytes.filter(is_tagged(gen)))
}

/// The barrier messages for a stream of tagged bytes: one for each run of
/// bytes of one generation, in order.
pub open spec fn barrier_frames(bytes: Seq<(u16, u8)>) -> Seq<Seq<u8>>
    decreases bytes.len(),
{
    if bytes.len() == 0 {
        Seq::empty()
    } else {
        let n = run_length(bytes) as int;
        if 0 < n <= bytes.len() {
            seq![frame_bytes(TAG_BARRIER, bytes[0].0, untagged(bytes.take(n)))]
                + barrier_frames(bytes.skip(n))
        } else {
            Seq::empty()
        }
    }
}

/// Four empty block slots.
pub open spec fn no_blocks<T>() -> Seq<Option<T>> {
    seq![None, None, None, None]
}

/// One end of the link.
#[verifier::ext_equal]
pub struct LinkState {
    /// Battle side of this console: 0 is the parent, 1 the child.
    pub side: u8,
    /// The transport is up.
    pub connected: bool,
    /// The transport went down, or was taken down, and since then it has
    /// neither come up nor has the game opened a handshake.
    pub error: bool,
    /// The current handshake generation.
    pub gen: u16,
    /// The highest generation seen in any message from the peer.
    pub peer_gen: u16,
    /// The blocks staged here, by kind.
    pub staged: Seq<Option<Seq<u8>>>,
    /// The generation under which a block of each kind last left.
    pub shipped: Seq<Option<u16>>,
    /// The peer's blocks, by kind, each with its generation.
    pub peer_blocks: Seq<Option<(u16, Seq<u8>)>>,
    /// Every barrier byte captured here, with its generation.
    pub tx: Seq<(u16, u8)>,
    /// How many of `tx` have left.
    pub tx_shipped: nat,
    /// The peer's barrier bytes of the current generation.
    pub rx: Seq<u8>,
    /// The peer's barrier bytes of generations still to come.
    pub pending: Map<u16, Seq<u8>>,
    /// How many of `rx` the game has read.
    pub polled: nat,
}

impl LinkState {
    /// A link that was never used.
    pub open spec fn fresh() -> LinkState {
        LinkState {
            side: 0,
            connected: false,
            error: false,
            gen: 0,
            peer_gen: 0,
            staged: no_blocks(),
            shipped: no_blocks(),
            peer_blocks: no_blocks(),
            tx: Seq::empty(),
            tx_shipped: 0,
            rx: Seq::empty(),
            pending: Map::empty(),
            polled: 0,
        }
    }

    /// What holds of every link at all times.
    pub open spec fn inv(self) -> bool {
        &&& self.staged.len() == 4
        &&& self.shipped.len() == 4
        &&& self.peer_blocks.len() == 4
        &&& self.tx_shipped <= self.tx.len()
        &&& self.polled <= self.rx.len()
        &&& self.rx.len() > 0 ==> self.gen <= self.peer_gen
        &&& forall|i: int| 0 <= i < self.tx.len() ==> (#[trigger] self.tx[i]).0 <= self.gen
        &&& forall|i: int, j: int|
            0 <= i <= j < self.tx.len() ==> (#[trigger] self.tx[i]).0 <= (#[trigger] self.tx[j]).0
        &&& forall|k: int|
            0 <= k < 4 ==> (#[trigger] self.shipped[k] matches Some(g) ==> g <= self.gen)
        &&& forall|k: int|
            0 <= k < 4 ==> (#[trigger] self.peer_blocks[k] matches Some(b) ==> b.0
                <= self.peer_gen)
        &&& forall|g: u16| #[trigger]
            self.pending.contains_key(g) ==> self.gen < g <= self.peer_gen
    }

    /// The peer's barrier bytes held for generation `gen`, which is the
    /// current one or one to come.
    pub open spec fn held(self, gen: u16) -> Seq<u8> {
        if gen == self.gen {
            self.rx
        } else if self.pending.contains_key(gen) {
            self.pending[gen]
        } else {
            Seq::empty()
        }
    }

    /// The transport came up with this console on `side`.
    pub open spec fn plugged(self, side: u8) -> LinkState {
        LinkState { side, connected: true, error: false, ..self }
    }

    /// The transport went down.
    pub open spec fn unplugged(self) -> LinkState {
        LinkState { connected: false, error: true, ..self }
    }

    /// The link moves to generation `gen`: the bytes held for it become the
    /// ones to read, those for generations that were passed over are
    /// forgotten, and the staged blocks go only if `clear_staged` says so.
    pub open spec fn entered(self, gen: u16, clear_staged: bool) -> LinkState {
        LinkState {
            gen,
            rx: if self.pending.contains_key(gen) {
                self.pending[gen]
            } else {
                Seq::empty()
            },
            pending: self.pending.restrict(Set::new(|g: u16| g > gen)),
            polled: 0,
            staged: if clear_staged {
                no_blocks()
            } else {
                self.staged
            },
            ..self
        }
    }

    /// The link after catching up with the peer, if the peer is ahead. The
    /// staged blocks stay.
    pub open spec fn caught_up(self) -> LinkState {
        if self.peer_gen > self.gen {
            self.entered(self.peer_gen, false)
        } else {
            self
        }
    }

    /// The generation that a handshake opened now would have.
    pub open spec fn next_gen(self) -> int {
        if self.gen + 1 >= self.peer_gen {
            self.gen + 1
        } else {
            self.peer_gen as int
        }
    }

    /// The game opened a handshake in comm mode `mode`. An error that an
    /// earlier handshake ended with is over.
    pub open spec fn opened(self, mode: u8) -> LinkState {
        let entered = self.entered(self.next_gen() as u16, true);
        LinkState {
            staged: entered.staged.update(BlockKind::Mode.ix(), Some(seq![mode])),
            error: false,
            ..entered
        }
    }

    /// The game published `block`.
    pub open spec fn with_block(self, kind: BlockKind, block: Seq<u8>) -> LinkState {
        let ready = self.caught_up();
        LinkState { staged: ready.staged.update(kind.ix(), Some(block)), ..ready }
    }

    /// The peer's block of `kind` for the current generation.
    pub open spec fn visible(self, kind: BlockKind) -> Option<Seq<u8>> {
        match self.peer_blocks[kind.ix()] {
            Some((gen, block)) => if gen == self.gen {
                Some(block)
            } else {
                None
            },
            None => None,
        }
    }

    /// The game put one byte on the barrier stream.
    pub open spec fn with_byte(self, byte: u8) -> LinkState {
        LinkState { tx: self.tx.push((self.gen, byte)), ..self }
    }

    /// A byte of the peer is there to be read, and the transport is up.
    pub open spec fn readable(self) -> bool {
        !self.error && self.polled < self.rx.len()
    }

    /// The game asked for the peer's next byte.
    pub open spec fn after_poll(self) -> LinkState {
        if self.readable() {
            LinkState { polled: self.polled + 1, ..self }
        } else {
            self
        }
    }

    /// A message from the peer arrived.
    ///
    /// One of fewer than three bytes, or with a tag above four, holds
    /// nothing for us. Barrier bytes are appended to the stream of their
    /// generation unless that generation has passed. A block replaces the
    /// one before it unless it is of an older generation.
    pub open spec fn delivered(self, msg: Seq<u8>) -> LinkState {
        if msg.len() < 3 {
            self
        } else {
            let gen = frame_gen(msg);
            let payload = frame_payload(msg);
            let heard = LinkState { peer_gen: later(self.peer_gen, gen), ..self };
            if msg[0] == TAG_BARRIER {
                if gen < self.gen {
                    heard
                } else if gen == self.gen {
                    LinkState { rx: self.rx + payload, ..heard }
                } else {
                    LinkState {
                        pending: self.pending.insert(gen, self.held(gen) + payload),
                        ..heard
                    }
                }
            } else if msg[0] <= 4 {
                let k = msg[0] - 1;
                if self.peer_blocks[k] matches Some(b) ==> b.0 <= gen {
                    LinkState {
                        peer_blocks: self.peer_blocks.update(k, Some((gen, payload))),
                        ..heard
                    }
                } else {
                    heard
                }
            } else {
                heard
            }
        }
    }

    /// A block is staged in slot `k` that has not left under the current
    /// generation.
    pub open spec fn due(self, k: int) -> bool {
        self.staged[k] is Some && self.shipped[k] != Some(self.gen)
    }

    /// The message for slot `k`, if one is due.
    pub open spec fn block_frames(self, k: int) -> Seq<Seq<u8>> {
        if self.due(k) {
            seq![frame_bytes((k + 1) as u8, self.gen, self.staged[k]->0)]
        } else {
            Seq::empty()
        }
    }

    /// The messages for the blocks that are due in the first `n` slots, in
    /// order of kind.
    pub open spec fn blocks_due(self, n: nat) -> Seq<Seq<u8>>
        decreases n,
    {
        if n == 0 {
            Seq::empty()
        } else {
            self.blocks_due((n - 1) as nat) + self.block_frames(n - 1)
        }
    }

    /// The barrier bytes that have not left yet.
    pub open spec fn unsent(self) -> Seq<(u16, u8)> {
        self.tx.skip(self.tx_shipped as int)
    }

    /// The messages that a drain hands to the transport: the blocks that are
    /// due, then the barrier bytes.
    pub open spec fn outgoing(self) -> Seq<Seq<u8>> {
        self.blocks_due(4) + barrier_frames(self.unsent())
    }

    /// The link after its outgoing messages were taken.
    pub open spec fn drained(self) -> LinkState {
        LinkState {
            shipped: Seq::new(
                4,
                |k: int|
                    if self.due(k) {
                        Some(self.gen)
                    } else {
                        self.shipped[k]
                    },
            ),
            tx_shipped: self.tx.len(),
            ..self
        }
    }
}

/// A link that was never used satisfies the invariant.
pub proof fn law_fresh_inv()
    ensures
        LinkState::fresh().inv(),
{
}

/// Plugging the transport in, or out, keeps the invariant.
pub proof fn law_plug_keeps_inv(s: LinkState, side: u8)
    requires
        s.inv(),
    ensures
        s.plugged(side).inv(),
        s.unplugged().inv(),
{
}

/// Moving to a later generation keeps the invariant.
pub proof fn law_entered_keeps_inv(s: LinkState, gen: u16, clear_staged: bool)
    requires
        s.inv(),
        gen > s.gen,
    ensures
        s.entered(gen, clear_staged).inv(),
{
    let t = s.entered(gen, clear_staged);
    assert forall|g: u16| #[trigger] t.pending.contains_key(g) implies t.gen < g <= t.peer_gen by {
        assert(s.pending.contains_key(g));
    }
}

/// Catching up with the peer keeps the invariant, and afterwards the peer is
/// not ahead.
pub proof fn law_caught_up_keeps_inv(s: LinkState)
    requires
        s.inv(),
    ensures
        s.caught_up().inv(),
        s.caught_up().gen == later(s.gen, s.peer_gen),
        s.caught_up().peer_gen <= s.caught_up().gen,
        s.caught_up().caught_up() == s.caught_up(),
{
    if s.peer_gen > s.gen {
        law_entered_keeps_inv(s, s.peer_gen, false);
    }
}

/// Catching up joins the later of the two generations, and does so once. If
/// that is the peer's, reading starts at the first of the bytes held for it;
/// if not, nothing happens. The blocks, the bytes on their way out and the
/// state of the transport are left alone either way.
pub proof fn law_catching_up_joins_the_peer(s: LinkState)
    ensures
        ({
            let t = s.caught_up();
            &&& t.gen == later(s.gen, s.peer_gen)
            &&& t.caught_up() == t
            &&& s.peer_gen <= s.gen ==> t == s
            &&& s.peer_gen > s.gen ==> t.polled == 0 && t.rx == s.held(s.peer_gen)
            &&& t.side == s.side && t.connected == s.connected && t.error == s.error
            &&& t.peer_gen == s.peer_gen
            &&& t.staged == s.staged && t.shipped == s.shipped && t.peer_blocks == s.peer_blocks
            &&& t.tx == s.tx && t.tx_shipped == s.tx_shipped
            &&& s.inv() ==> t.pending.dom().subset_of(s.pending.dom())
        }),
{
}

/// Opening a handshake keeps the invariant.
pub proof fn law_opened_keeps_inv(s: LinkState, mode: u8)
    requires
        s.inv(),
        s.gen < u16::MAX,
    ensures
        s.opened(mode).inv(),
{
    law_entered_keeps_inv(s, s.next_gen() as u16, true);
}

/// Publishing a block keeps the invariant.
pub proof fn law_with_block_keeps_inv(s: LinkState, kind: BlockKind, block: Seq<u8>)
    requires
        s.inv(),
    ensures
        s.with_block(kind, block).inv(),
{
    law_caught_up_keeps_inv(s);
}

/// Capturing a barrier byte keeps the invariant.
pub proof fn law_with_byte_keeps_inv(s: LinkState, byte: u8)
    requires
        s.inv(),
    ensures
        s.with_byte(byte).inv(),
{
}

/// Asking for the peer's next byte keeps the invariant.
pub proof fn law_poll_keeps_inv(s: LinkState)
    requires
        s.inv(),
    ensures
        s.after_poll().inv(),
{
}

/// Any message at all, sent by whomever, keeps the invariant.
pub proof fn law_delivered_keeps_inv(s: LinkState, msg: Seq<u8>)
    requires
        s.inv(),
    ensures
        s.delivered(msg).inv(),
{
}

/// A drain keeps the invariant and leaves nothing to drain.
pub proof fn law_drained_keeps_inv(s: LinkState)
    requires
        s.inv(),
    ensures
        s.drained().inv(),
        s.drained().outgoing() == Seq::<Seq<u8>>::empty(),
{
    let t = s.drained();
    reveal_with_fuel(LinkState::blocks_due, 5);
    assert(t.blocks_due(4) =~= Seq::<Seq<u8>>::empty());
    assert(t.unsent() =~= Seq::<(u16, u8)>::empty());
}

/// A message taken apart gives back what it was made of, and so two messages
/// are equal only if their tags, generations and payloads are.
pub proof fn law_frame_round_trip(tag: u8, gen: u16, payload: Seq<u8>)
    ensures
        frame_bytes(tag, gen, payload).len() == payload.len() + 3,
        frame_bytes(tag, gen, payload)[0] == tag,
        frame_gen(frame_bytes(tag, gen, payload)) == gen,
        frame_payload(frame_bytes(tag, gen, payload)) == payload,
{
    let msg = frame_bytes(tag, gen, payload);
    assert(msg[1] == (gen % 256) as u8);
    assert(msg[2] == (gen / 256) as u8);
    assert(frame_payload(msg) =~= payload);
}

/// A head of equal generations is at least one byte long, is not longer than
/// the stream, and is all of one generation.
pub proof fn lemma_run_length(bytes: Seq<(u16, u8)>)
    requires
        bytes.len() > 0,
    ensures
        0 < run_length(bytes) <= bytes.len(),
        forall|i: int| 0 <= i < run_length(bytes) ==> (#[trigger] bytes[i]).0 == bytes[0].0,
    decreases bytes.len(),
{
    if bytes.len() > 1 && bytes[1].0 == bytes[0].0 {
        let rest = bytes.skip(1);
        lemma_run_length(rest);
        assert forall|i: int| 0 <= i < run_length(bytes) implies (#[trigger] bytes[i]).0
            == bytes[0].0 by {
            if i > 0 {
                assert(rest[i - 1] == bytes[i]);
            }
        }
    }
}

/// A link that was never used is unplugged, in no handshake, and has nothing
/// to say and nothing to show.
pub proof fn law_a_fresh_link_is_empty(kind: BlockKind, gen: u16)
    ensures
        ({
            let s = LinkState::fresh();
            &&& s.side == 0 && !s.connected && !s.error
            &&& s.gen == 0 && s.peer_gen == 0
            &&& s.outgoing().len() == 0
            &&& s.visible(kind) is None
            &&& s.tx.len() == 0 && s.rx.len() == 0 && s.polled == 0
            &&& !s.pending.contains_key(gen)
        }),
{
    let s = LinkState::fresh();
    reveal_with_fuel(LinkState::blocks_due, 5);
    assert(s.blocks_due(4) =~= Seq::<Seq<u8>>::empty());
    assert(s.unsent() =~= Seq::<(u16, u8)>::empty());
}

/// Plugging the transport in gives the console its side and clears the error.
/// Everything that the games have said and heard stays: in particular a mode
/// staged before the connection came up is still the one to be sent.
pub proof fn law_plugging_in_keeps_the_handshake(s: LinkState, side: u8)
    ensures
        ({
            let t = s.plugged(side);
            &&& t.side == side && t.connected && !t.error
            &&& t.gen == s.gen && t.peer_gen == s.peer_gen
            &&& t.staged == s.staged && t.shipped == s.shipped && t.peer_blocks == s.peer_blocks
            &&& t.tx == s.tx && t.tx_shipped == s.tx_shipped
            &&& t.rx == s.rx && t.pending == s.pending && t.polled == s.polled
            &&& t.outgoing() == s.outgoing()
        }),
{
    lemma_outgoing_goes_by(s, s.plugged(side));
}

/// Plugging the transport out raises the error. The side, and everything that
/// the games have said and heard, stay.
pub proof fn law_plugging_out_keeps_the_handshake(s: LinkState)
    ensures
        ({
            let t = s.unplugged();
            &&& t.side == s.side && !t.connected && t.error
            &&& t.gen == s.gen && t.peer_gen == s.peer_gen
            &&& t.staged == s.staged && t.shipped == s.shipped && t.peer_blocks == s.peer_blocks
            &&& t.tx == s.tx && t.tx_shipped == s.tx_shipped
            &&& t.rx == s.rx && t.pending == s.pending && t.polled == s.polled
            &&& t.outgoing() == s.outgoing()
        }),
{
    lemma_outgoing_goes_by(s, s.unplugged());
}

/// What is outgoing depends on the generation, the blocks and the bytes alone.
proof fn lemma_outgoing_goes_by(s: LinkState, t: LinkState)
    requires
        t.gen == s.gen,
        t.staged == s.staged,
        t.shipped == s.shipped,
        t.tx == s.tx,
        t.tx_shipped == s.tx_shipped,
    ensures
        t.outgoing() == s.outgoing(),
{
    reveal_with_fuel(LinkState::blocks_due, 5);
}

/// Moving to another generation: of the bytes held, those for it are there to
/// be read from the first on, those for later ones stay, and the rest are gone.
/// Nothing else changes but the staged blocks, which go if that is asked for.
pub proof fn law_entering_takes_up_what_was_held(
    s: LinkState,
    gen: u16,
    clear_staged: bool,
    other: u16,
    k: int,
)
    requires
        0 <= k < 4,
        s.staged.len() == 4,
    ensures
        ({
            let t = s.entered(gen, clear_staged);
            &&& t.gen == gen && t.polled == 0
            &&& s.pending.contains_key(gen) ==> t.rx == s.pending[gen]
            &&& !s.pending.contains_key(gen) ==> t.rx.len() == 0
            &&& other > gen ==> t.pending.contains_key(other) == s.pending.contains_key(other)
            &&& other > gen && s.pending.contains_key(other) ==> t.pending[other]
                == s.pending[other]
            &&& other <= gen ==> !t.pending.contains_key(other)
            &&& t.staged.len() == 4
            &&& t.staged[k] == (if clear_staged {
                None
            } else {
                s.staged[k]
            })
            &&& t.side == s.side && t.connected == s.connected && t.error == s.error
            &&& t.peer_gen == s.peer_gen
            &&& t.shipped == s.shipped && t.peer_blocks == s.peer_blocks
            &&& t.tx == s.tx && t.tx_shipped == s.tx_shipped
        }),
{
}

/// Opening a handshake: the generation is a new one, and no further ahead than
/// it must be so as not to be behind the peer's; the mode is the only block
/// staged; no error is left; what was captured before still leaves; and the
/// transport, what it took and what the peer sent are left alone.
pub proof fn law_opening_starts_a_new_generation(s: LinkState, mode: u8, k: int)
    requires
        s.inv(),
        s.gen < u16::MAX,
        0 <= k < 4,
    ensures
        ({
            let t = s.opened(mode);
            &&& t.gen > s.gen && t.gen >= s.peer_gen
            &&& t.gen == s.gen + 1 || t.gen == s.peer_gen
            &&& t.staged[0] == Some(seq![mode])
            &&& k > 0 ==> t.staged[k] is None
            &&& t.side == s.side && t.connected == s.connected && !t.error
            &&& t.peer_gen == s.peer_gen
            &&& t.shipped == s.shipped && t.peer_blocks == s.peer_blocks
            &&& t.tx == s.tx && t.tx_shipped == s.tx_shipped
            &&& t.polled == 0
            &&& t.rx == (if s.pending.contains_key(t.gen) {
                s.pending[t.gen]
            } else {
                Seq::empty()
            })
        }),
{
}

/// Staging a block, after catching up with the peer, changes that block and
/// no other, and nothing else at all.
pub proof fn law_staging_changes_one_block(s: LinkState, kind: BlockKind, block: Seq<u8>, k: int)
    requires
        s.inv(),
        0 <= k < 4,
    ensures
        ({
            let t = s.with_block(kind, block);
            let c = s.caught_up();
            let n = match kind {
                BlockKind::Mode => 0int,
                BlockKind::Record => 1,
                BlockKind::Ident => 2,
                BlockKind::Word => 3,
            };
            &&& t.staged.len() == 4
            &&& t.staged[k] == (if k == n {
                Some(block)
            } else {
                s.staged[k]
            })
            &&& t.gen == c.gen && t.peer_gen == s.peer_gen
            &&& t.side == s.side && t.connected == s.connected && t.error == s.error
            &&& t.shipped == s.shipped && t.peer_blocks == s.peer_blocks
            &&& t.tx == s.tx && t.tx_shipped == s.tx_shipped
            &&& t.rx == c.rx && t.pending == c.pending && t.polled == c.polled
        }),
{
}

/// A game sees the peer's block of a kind exactly if it came under the game's
/// own generation.
pub proof fn law_only_blocks_of_this_generation_show(s: LinkState, kind: BlockKind, block: Seq<u8>)
    ensures
        ({
            let n = match kind {
                BlockKind::Mode => 0int,
                BlockKind::Record => 1,
                BlockKind::Ident => 2,
                BlockKind::Word => 3,
            };
            s.visible(kind) == Some(block) <==> s.peer_blocks[n] == Some((s.gen, block))
        }),
{
}

/// Every byte that a game sends is captured, the same as the one before it or
/// not: the stream grows by that byte, under the current generation, and
/// nothing else changes.
pub proof fn law_every_byte_is_captured(s: LinkState, byte: u8)
    ensures
        ({
            let t = s.with_byte(byte);
            &&& t.tx.len() == s.tx.len() + 1
            &&& t.tx.last() == (s.gen, byte)
            &&& t.tx.drop_last() == s.tx
            &&& t.tx_shipped == s.tx_shipped
            &&& t.side == s.side && t.connected == s.connected && t.error == s.error
            &&& t.gen == s.gen && t.peer_gen == s.peer_gen
            &&& t.staged == s.staged && t.shipped == s.shipped && t.peer_blocks == s.peer_blocks
            &&& t.rx == s.rx && t.pending == s.pending && t.polled == s.polled
        }),
{
    assert(s.with_byte(byte).tx.drop_last() =~= s.tx);
}

/// A poll moves on by one byte if there is one and the transport is up, and
/// changes nothing else.
pub proof fn law_a_poll_moves_on_by_one(s: LinkState)
    ensures
        ({
            let t = s.after_poll();
            &&& t.polled == (if !s.error && s.polled < s.rx.len() {
                s.polled + 1
            } else {
                s.polled
            })
            &&& t.rx == s.rx && t.pending == s.pending
            &&& t.side == s.side && t.connected == s.connected && t.error == s.error
            &&& t.gen == s.gen && t.peer_gen == s.peer_gen
            &&& t.staged == s.staged && t.shipped == s.shipped && t.peer_blocks == s.peer_blocks
            &&& t.tx == s.tx && t.tx_shipped == s.tx_shipped
        }),
{
}

/// What an arrival never changes, and what it tells of the peer's generation.
pub proof fn law_an_arrival_is_only_heard(s: LinkState, msg: Seq<u8>)
    ensures
        ({
            let t = s.delivered(msg);
            &&& t.side == s.side && t.connected == s.connected && t.error == s.error
            &&& t.gen == s.gen && t.polled == s.polled
            &&& t.staged == s.staged && t.shipped == s.shipped
            &&& t.tx == s.tx && t.tx_shipped == s.tx_shipped
            &&& msg.len() < 3 ==> t == s
            &&& msg.len() >= 3 && msg[1] + 256 * msg[2] <= s.peer_gen ==> t.peer_gen == s.peer_gen
            &&& msg.len() >= 3 && msg[1] + 256 * msg[2] > s.peer_gen ==> t.peer_gen == msg[1] + 256
                * msg[2]
            &&& msg.len() >= 3 && msg[0] > 4 ==> t.peer_blocks == s.peer_blocks && t.rx == s.rx
                && t.pending == s.pending
        }),
{
}

/// Barrier bytes that arrive are appended to what is held of their generation,
/// if that has not passed, and to nothing else.
pub proof fn law_bytes_arrive_in_their_generation(s: LinkState, msg: Seq<u8>, gen: u16)
    requires
        s.inv(),
        msg.len() >= 3,
        msg[0] == 0,
    ensures
        ({
            let t = s.delivered(msg);
            let tag = msg[1] + 256 * msg[2];
            let before = if gen == s.gen {
                s.rx
            } else if s.pending.contains_key(gen) {
                s.pending[gen]
            } else {
                Seq::empty()
            };
            let now = if gen == t.gen {
                t.rx
            } else if t.pending.contains_key(gen) {
                t.pending[gen]
            } else {
                Seq::empty()
            };
            &&& now == (if gen == tag && gen >= s.gen {
                before + msg.skip(3)
            } else {
                before
            })
            &&& t.peer_blocks == s.peer_blocks
        }),
{
}

/// A block that arrives takes the place of the one of its kind before it,
/// unless that is of a later generation; no other block is touched, and no
/// byte.
pub proof fn law_blocks_arrive_in_their_place(s: LinkState, msg: Seq<u8>, k: int)
    requires
        s.inv(),
        msg.len() >= 3,
        1 <= msg[0] <= 4,
        0 <= k < 4,
    ensures
        ({
            let t = s.delivered(msg);
            let tag = (msg[1] + 256 * msg[2]) as u16;
            &&& t.peer_blocks.len() == 4
            &&& t.peer_blocks[k] == (if k == msg[0] - 1 && (s.peer_blocks[k] matches Some(b)
                ==> b.0 <= tag) {
                Some((tag, msg.skip(3)))
            } else {
                s.peer_blocks[k]
            })
            &&& t.rx == s.rx && t.pending == s.pending
        }),
{
}

/// A drain takes every block that was staged and had not left under the
/// current generation, and every byte that had not left; it changes nothing
/// else.
pub proof fn law_a_drain_only_ships(s: LinkState, k: int)
    requires
        s.inv(),
        0 <= k < 4,
    ensures
        ({
            let t = s.drained();
            &&& t.shipped.len() == 4
            &&& t.shipped[k] == (if s.staged[k] is Some {
                Some(s.gen)
            } else {
                s.shipped[k]
            })
            &&& t.tx == s.tx && t.tx_shipped == s.tx.len()
            &&& t.staged == s.staged && t.peer_blocks == s.peer_blocks
            &&& t.side == s.side && t.connected == s.connected && t.error == s.error
            &&& t.gen == s.gen && t.peer_gen == s.peer_gen
            &&& t.rx == s.rx && t.pending == s.pending && t.polled == s.polled
        }),
{
}

/// A message is its tag, its generation with the low byte first, and its
/// payload.
pub proof fn law_frames_are_laid_out(tag: u8, gen: u16, payload: Seq<u8>, i: int)
    ensures
        ({
            let msg = frame_bytes(tag, gen, payload);
            &&& msg.len() == 3 + payload.len()
            &&& msg[0] == tag
            &&& msg[1] + 256 * msg[2] == gen
            &&& 0 <= i < payload.len() ==> msg[3 + i] == payload[i]
        }),
{
}

} // verus!
