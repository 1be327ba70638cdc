//! Traps that replace the game's cable comm library with the link.
//!
//! The player drives the whole flow: boot the game, load a save, and walk to
//! its Transmit screen. The traps replace only the comm library's transport,
//! phase by phase:
//!
//! - the cable-presence pump and the side latch are forced up, with the side
//!   fixed by network role;
//! - the mode *loader*, which runs once per session, opens a new handshake
//!   with the selected mode byte, and the mode *poll* then returns the
//!   **peer's** mode, so that the game runs its own agreement check;
//! - the record and identity phases exchange their blocks both ways;
//! - the word phase relays the parent's word to the child, parent-wins
//!   exactly like the cable;
//! - every barrier SEND and POLL relays the game's ordered byte stream.
//!
//! Every phase holds the game at its own "connecting" screen (`-1`) until the
//! peer's data shows up, and a dead transport makes every phase and poll
//! return `-2`, which the game treats as a comm error and backs out of.
//!
//! A trap is described by [`Trap`]; [`fire`] says what one does when it goes
//! off. The emulator reads the registers and the memory beforehand and
//! carries out the [`Effect`].

use crate::link::{BlockKind, Link, Poll};
#[allow(unused_imports)]
use crate::link::block_view;
#[allow(unused_imports)]
use crate::relay::{
    after, ferried, law_arrivals_only_add, law_barrier_is_relayed, law_block_is_relayed, pushed, Event,
    Wire,
};
#[allow(unused_imports)]
use crate::state::{law_caught_up_keeps_inv, law_with_block_keeps_inv, LinkState};
use vstd::prelude::*;

verus! {

/// Where things are in the game's work RAM.
pub struct Ewram {
    /// Base of the comm exchange struct. `+0x82` local side index, `+0x84`
    /// record staging (8 bytes), `+0x8C` identity staging (16 bytes), `+0x9C`
    /// word staging (4 bytes).
    pub comm_struct: u32,
}

/// Where things are in the game's ROM.
pub struct RomOffsets {
    /// Link "cable present?" pump.
    pub link_pump: u32,
    /// Samples the cable's multiplayer ID into `comm_struct + 0x82`.
    pub side_latch: u32,
    /// The mode loader (`r0` = the selected comm mode byte), called exactly
    /// once per session. Left to run: it only stages local state.
    pub drv_a_loader: u32,
    /// The four connect-handshake phase polls, each returning `-1`
    /// (exchanging), `-2` (error) or `>= 0` (done; the done value of the
    /// first is the peer's mode byte).
    pub drv_a: u32,
    pub drv_b: u32,
    pub drv_c: u32,
    pub drv_d: u32,
    /// Every barrier SEND primitive.
    pub barrier_sends: [u32; 4],
    /// Every barrier POLL primitive, matching the sends.
    pub barrier_polls: [u32; 4],
}

/// Where things are in one build of the game.
pub struct Offsets {
    pub rom: RomOffsets,
    pub ewram: Ewram,
}

impl Offsets {
    /// The ROM addresses of a build, in the order of [`traps`].
    pub open spec fn addresses(self) -> Seq<u32> {
        seq![
            self.rom.link_pump,
            self.rom.side_latch,
            self.rom.drv_a_loader,
            self.rom.drv_a,
            self.rom.drv_b,
            self.rom.drv_c,
            self.rom.drv_d,
        ] + self.rom.barrier_sends@ + self.rom.barrier_polls@
    }
}

/// The ROM addresses of the US build, `A89E`, rev 0.
pub open spec fn us_addresses() -> Seq<u32> {
    seq![
        0x0804ad4c,
        0x0804a3c4,
        0x0804a494,
        0x0804a4b0,
        0x0804a694,
        0x0804a8ac,
        0x0804aa94,
        0x0804ac88,
        0x0804acdc,
        0x0804ac48,
        0x0804ad24,
        0x0804acac,
        0x0804ad00,
        0x0804ac64,
        0x0804ad3c,
    ]
}

/// The ROM addresses of the JP build, `A89J`, rev 0.
pub open spec fn jp_addresses() -> Seq<u32> {
    seq![
        0x0804aa54,
        0x0804a0cc,
        0x0804a19c,
        0x0804a1b8,
        0x0804a39c,
        0x0804a5b4,
        0x0804a79c,
        0x0804a990,
        0x0804a9e4,
        0x0804a950,
        0x0804aa2c,
        0x0804a9b4,
        0x0804aa08,
        0x0804a96c,
        0x0804aa44,
    ]
}

/// US, `A89E`, rev 0.
#[allow(non_snake_case)]
pub fn A89E_00() -> (offsets: Offsets)
    ensures
        offsets.addresses() == us_addresses(),
        offsets.ewram.comm_struct == 0x0200bd20,
        offsets.rom.link_pump == 0x0804ad4c,
        offsets.rom.side_latch == 0x0804a3c4,
        offsets.rom.drv_a_loader == 0x0804a494,
        offsets.rom.drv_a == 0x0804a4b0,
        offsets.rom.drv_b == 0x0804a694,
        offsets.rom.drv_c == 0x0804a8ac,
        offsets.rom.drv_d == 0x0804aa94,
        offsets.rom.barrier_sends@ == seq![0x0804ac88u32, 0x0804acdc, 0x0804ac48, 0x0804ad24],
        offsets.rom.barrier_polls@ == seq![0x0804acacu32, 0x0804ad00, 0x0804ac64, 0x0804ad3c],
{
    let offsets = Offsets {
        ewram: Ewram { comm_struct: 0x0200bd20 },
        rom: RomOffsets {
            link_pump: 0x0804ad4c,
            side_latch: 0x0804a3c4,
            drv_a_loader: 0x0804a494,
            drv_a: 0x0804a4b0,
            drv_b: 0x0804a694,
            drv_c: 0x0804a8ac,
            drv_d: 0x0804aa94,
            barrier_sends: [0x0804ac88, 0x0804acdc, 0x0804ac48, 0x0804ad24],
            barrier_polls: [0x0804acac, 0x0804ad00, 0x0804ac64, 0x0804ad3c],
        },
    };
    assert(offsets.addresses() =~= us_addresses());
    offsets
}

/// JP, `A89J`, rev 0. Every ROM address is the US one minus `0x2F8`; the
/// work RAM layout is unchanged.
#[allow(non_snake_case)]
pub fn A89J_00() -> (offsets: Offsets)
    ensures
        offsets.addresses() == jp_addresses(),
        offsets.ewram.comm_struct == 0x0200bd20,
        offsets.rom.link_pump == 0x0804aa54,
        offsets.rom.side_latch == 0x0804a0cc,
        offsets.rom.drv_a_loader == 0x0804a19c,
        offsets.rom.drv_a == 0x0804a1b8,
        offsets.rom.drv_b == 0x0804a39c,
        offsets.rom.drv_c == 0x0804a5b4,
        offsets.rom.drv_d == 0x0804a79c,
        offsets.rom.barrier_sends@ == seq![0x0804a990u32, 0x0804a9e4, 0x0804a950, 0x0804aa2c],
        offsets.rom.barrier_polls@ == seq![0x0804a9b4u32, 0x0804aa08, 0x0804a96c, 0x0804aa44],
{
    let offsets = Offsets {
        ewram: Ewram { comm_struct: 0x0200bd20 },
        rom: RomOffsets {
            link_pump: 0x0804aa54,
            side_latch: 0x0804a0cc,
            drv_a_loader: 0x0804a19c,
            drv_a: 0x0804a1b8,
            drv_b: 0x0804a39c,
            drv_c: 0x0804a5b4,
            drv_d: 0x0804a79c,
            barrier_sends: [0x0804a990, 0x0804a9e4, 0x0804a950, 0x0804aa2c],
            barrier_polls: [0x0804a9b4, 0x0804aa08, 0x0804a96c, 0x0804aa44],
        },
    };
    assert(offsets.addresses() =~= jp_addresses());
    offsets
}

/// The JP build is the US one shifted down by `0x2F8`, and in neither build
/// do two traps share an address.
pub proof fn law_builds_differ_by_a_shift(i: int, j: int)
    requires
        0 <= i < 15,
        0 <= j < 15,
    ensures
        us_addresses().len() == 15,
        jp_addresses().len() == 15,
        jp_addresses()[i] + 0x2f8 == us_addresses()[i],
        i != j ==> us_addresses()[i] != us_addresses()[j],
        i != j ==> jp_addresses()[i] != jp_addresses()[j],
{
}

/// `-1`: the phase is still exchanging.
pub const STILL_EXCHANGING: u32 = 0xffff_ffff;

/// `-2`: the transport is down.
pub const COMM_ERROR: u32 = 0xffff_fffe;

/// What a trap stands in for.
#[derive(Clone, Copy, PartialEq, Eq, Structural)]
pub enum Hook {
    LinkPump,
    SideLatch,
    DrvALoader,
    DrvA,
    DrvB,
    DrvC,
    DrvD,
    BarrierSend,
    BarrierPoll,
}

/// One trap: a ROM address and what to do there.
#[derive(Clone, Copy, PartialEq, Eq, Structural)]
pub struct Trap {
    pub addr: u32,
    pub hook: Hook,
}

/// What the traps stand in for, in the order of [`traps`].
pub open spec fn hook_list() -> Seq<Hook> {
    seq![
        Hook::LinkPump,
        Hook::SideLatch,
        Hook::DrvALoader,
        Hook::DrvA,
        Hook::DrvB,
        Hook::DrvC,
        Hook::DrvD,
        Hook::BarrierSend,
        Hook::BarrierSend,
        Hook::BarrierSend,
        Hook::BarrierSend,
        Hook::BarrierPoll,
        Hook::BarrierPoll,
        Hook::BarrierPoll,
        Hook::BarrierPoll,
    ]
}

/// The traps that a build of the game needs.
pub fn traps(offsets: &Offsets) -> (list: Vec<Trap>)
    ensures
        list@ == Seq::new(
            15,
            |i: int| Trap { addr: offsets.addresses()[i], hook: hook_list()[i] },
        ),
        list@.len() == 15,
        list@[0] == (Trap { addr: offsets.rom.link_pump, hook: Hook::LinkPump }),
        list@[1] == (Trap { addr: offsets.rom.side_latch, hook: Hook::SideLatch }),
        list@[2] == (Trap { addr: offsets.rom.drv_a_loader, hook: Hook::DrvALoader }),
        list@[3] == (Trap { addr: offsets.rom.drv_a, hook: Hook::DrvA }),
        list@[4] == (Trap { addr: offsets.rom.drv_b, hook: Hook::DrvB }),
        list@[5] == (Trap { addr: offsets.rom.drv_c, hook: Hook::DrvC }),
        list@[6] == (Trap { addr: offsets.rom.drv_d, hook: Hook::DrvD }),
        forall|i: int|
            0 <= i < 4 ==> #[trigger] list@[7 + i] == (Trap {
                addr: offsets.rom.barrier_sends@[i],
                hook: Hook::BarrierSend,
            }),
        forall|i: int|
            0 <= i < 4 ==> #[trigger] list@[11 + i] == (Trap {
                addr: offsets.rom.barrier_polls@[i],
                hook: Hook::BarrierPoll,
            }),
{
    let o = &offsets.rom;
    let mut list: Vec<Trap> = Vec::new();
    list.push(Trap { addr: o.link_pump, hook: Hook::LinkPump });
    list.push(Trap { addr: o.side_latch, hook: Hook::SideLatch });
    list.push(Trap { addr: o.drv_a_loader, hook: Hook::DrvALoader });
    list.push(Trap { addr: o.drv_a, hook: Hook::DrvA });
    list.push(Trap { addr: o.drv_b, hook: Hook::DrvB });
    list.push(Trap { addr: o.drv_c, hook: Hook::DrvC });
    list.push(Trap { addr: o.drv_d, hook: Hook::DrvD });
    let ghost phases = list@;
    let mut i: usize = 0;
    while i < 4
        invariant
            i <= 4,
            list@ == phases + Seq::new(
                i as nat,
                |j: int| Trap { addr: o.barrier_sends@[j], hook: Hook::BarrierSend },
            ),
        decreases 4 - i,
    {
        list.push(Trap { addr: o.barrier_sends[i], hook: Hook::BarrierSend });
        i = i + 1;
        assert(list@ =~= phases + Seq::new(
            i as nat,
            |j: int| Trap { addr: o.barrier_sends@[j], hook: Hook::BarrierSend },
        ));
    }
    let ghost sends = list@;
    let mut i: usize = 0;
    while i < 4
        invariant
            i <= 4,
            list@ == sends + Seq::new(
                i as nat,
                |j: int| Trap { addr: o.barrier_polls@[j], hook: Hook::BarrierPoll },
            ),
        decreases 4 - i,
    {
        list.push(Trap { addr: o.barrier_polls[i], hook: Hook::BarrierPoll });
        i = i + 1;
        assert(list@ =~= sends + Seq::new(
            i as nat,
            |j: int| Trap { addr: o.barrier_polls@[j], hook: Hook::BarrierPoll },
        ));
    }
    assert(list@ =~= Seq::new(
        15,
        |i: int| Trap { addr: offsets.addresses()[i], hook: hook_list()[i] },
    ));
    list
}

/// Bytes to be written into the game's memory.
pub struct Write {
    pub addr: u32,
    pub bytes: Vec<u8>,
}

/// A [`Write`], with its bytes as a sequence.
pub struct WriteView {
    pub addr: u32,
    pub bytes: Seq<u8>,
}

impl View for Write {
    type V = WriteView;

    open spec fn view(&self) -> WriteView {
        WriteView { addr: self.addr, bytes: self.bytes@ }
    }
}

/// What a trap makes of the game: memory to be written, in order, and then,
/// if there is a value, the trapped function returns it at once without
/// running.
pub struct Effect {
    pub writes: Vec<Write>,
    pub ret: Option<u32>,
}

/// A list of writes, each with its bytes as a sequence.
pub open spec fn writes_view(writes: Seq<Write>) -> Seq<WriteView> {
    writes.map_values(|w: Write| w@)
}

/// What a trap does to the link and to the game.
pub struct Fired {
    pub link: LinkState,
    pub writes: Seq<WriteView>,
    pub ret: Option<u32>,
}

impl Hook {
    /// How far into the comm struct the trap reaches for its data.
    pub open spec fn reach(self) -> u32 {
        match self {
            Hook::SideLatch => 0x82,
            Hook::DrvA => 0x82,
            Hook::DrvB => 0x84,
            Hook::DrvC => 0x8c,
            Hook::DrvD => 0x9c,
            _ => 0,
        }
    }

    /// Where a trap finds the block that the game has staged, and how long
    /// it is.
    pub open spec fn staging_spec(self, comm_struct: u32) -> Option<(u32, usize)> {
        match self {
            Hook::DrvB => Some(((comm_struct + 0x84) as u32, 8)),
            Hook::DrvC => Some(((comm_struct + 0x8c) as u32, 16)),
            Hook::DrvD => Some(((comm_struct + 0x9c) as u32, 4)),
            _ => None,
        }
    }

    /// Where a trap finds the block that the game has staged, and how long
    /// it is. The emulator reads it before the trap fires.
    pub fn staging(self, comm_struct: u32) -> (place: Option<(u32, usize)>)
        requires
            comm_struct + self.reach() <= u32::MAX,
        ensures
            place == self.staging_spec(comm_struct),
            self is DrvB ==> place == Some(((comm_struct + 0x84) as u32, 8usize)),
            self is DrvC ==> place == Some(((comm_struct + 0x8c) as u32, 16usize)),
            self is DrvD ==> place == Some(((comm_struct + 0x9c) as u32, 4usize)),
            !(self is DrvB || self is DrvC || self is DrvD) ==> place is None,
    {
        match self {
            Hook::DrvB => Some((comm_struct + 0x84, 8)),
            Hook::DrvC => Some((comm_struct + 0x8c, 16)),
            Hook::DrvD => Some((comm_struct + 0x9c, 4)),
            _ => None,
        }
    }
}

/// A byte as the game takes it from a poll: a signed one, widened.
pub open spec fn sign_extended(byte: u8) -> u32 {
    if byte < 0x80 {
        byte as u32
    } else {
        (0xffff_ff00 + byte) as u32
    }
}

/// The write that tells the game its side.
pub open spec fn side_write(comm_struct: u32, link: LinkState) -> WriteView {
    WriteView { addr: (comm_struct + 0x82) as u32, bytes: seq![link.side] }
}

/// A trap changed nothing in memory and made its function return.
pub open spec fn returned(link: LinkState, ret: u32) -> Fired {
    Fired { link, writes: Seq::empty(), ret: Some(ret) }
}

/// A trap only watched, and its function runs.
pub open spec fn watched(link: LinkState) -> Fired {
    Fired { link, writes: Seq::empty(), ret: None }
}

/// The mode poll: done is the peer's mode byte. The side byte is written
/// again, since the connection may only have come up while the game was
/// already polling.
pub open spec fn mode_phase(comm_struct: u32, link: LinkState) -> Fired {
    if link.error {
        returned(link, COMM_ERROR)
    } else {
        let link = link.caught_up();
        match link.visible(BlockKind::Mode) {
            Some(mode) => Fired {
                link,
                writes: seq![side_write(comm_struct, link)],
                ret: Some(
                    if mode.len() > 0 {
                        mode[0] as u32
                    } else {
                        0
                    },
                ),
            },
            None => returned(link, STILL_EXCHANGING),
        }
    }
}

/// A block phase: publish our block, and inject the peer's at `dst` once it
/// is there.
pub open spec fn block_phase(link: LinkState, kind: BlockKind, mine: Seq<u8>, dst: u32) -> Fired {
    if link.error {
        returned(link, COMM_ERROR)
    } else {
        let link = link.with_block(kind, mine);
        match link.visible(kind) {
            Some(peer) => Fired {
                link,
                writes: seq![WriteView { addr: dst, bytes: peer }],
                ret: Some(0),
            },
            None => returned(link, STILL_EXCHANGING),
        }
    }
}

/// The word phase: publish our word, wait for the peer's, and then agree on
/// the parent's, at `dst` and in the staging area.
pub open spec fn word_phase(comm_struct: u32, link: LinkState, mine: Seq<u8>, dst: u32) -> Fired {
    if link.error {
        returned(link, COMM_ERROR)
    } else {
        let link = link.with_block(BlockKind::Word, mine);
        match link.visible(BlockKind::Word) {
            Some(peer) => {
                let agreed = if link.side == 0 {
                    mine
                } else {
                    peer
                };
                Fired {
                    link,
                    writes: seq![
                        WriteView { addr: dst, bytes: agreed },
                        WriteView { addr: (comm_struct + 0x9c) as u32, bytes: agreed },
                    ],
                    ret: Some(0),
                }
            },
            None => returned(link, STILL_EXCHANGING),
        }
    }
}

/// A barrier poll: the peer's next byte, or why there is none.
pub open spec fn barrier_poll(link: LinkState) -> Fired {
    returned(
        link.after_poll(),
        if link.error {
            COMM_ERROR
        } else if link.polled < link.rx.len() {
            sign_extended(link.rx[link.polled as int])
        } else {
            STILL_EXCHANGING
        },
    )
}

/// What happens when a trap fires, with the game's first argument register
/// and the block that the game has staged.
pub open spec fn fired(
    hook: Hook,
    comm_struct: u32,
    link: LinkState,
    r0: u32,
    staged: Seq<u8>,
) -> Fired {
    match hook {
        Hook::LinkPump => returned(link, 0),
        Hook::SideLatch => Fired {
            link,
            writes: seq![side_write(comm_struct, link)],
            ret: Some(0),
        },
        Hook::DrvALoader => watched(link.opened((r0 % 256) as u8)),
        Hook::DrvA => mode_phase(comm_struct, link),
        Hook::DrvB => block_phase(link, BlockKind::Record, staged, r0),
        Hook::DrvC => block_phase(link, BlockKind::Ident, staged, r0),
        Hook::DrvD => word_phase(comm_struct, link, staged, r0),
        Hook::BarrierSend => watched(link.with_byte((r0 % 256) as u8)),
        Hook::BarrierPoll => barrier_poll(link),
    }
}

impl Effect {
    /// The effect, with what it does to the link.
    pub open spec fn with_link(self, link: LinkState) -> Fired {
        Fired { link, writes: writes_view(self.writes@), ret: self.ret }
    }

    fn returning(ret: u32) -> (effect: Effect)
        ensures
            writes_view(effect.writes@) == Seq::<WriteView>::empty(),
            effect.ret == Some(ret),
    {
        let effect = Effect { writes: Vec::new(), ret: Some(ret) };
        assert(writes_view(effect.writes@) =~= Seq::<WriteView>::empty());
        effect
    }

    fn watching() -> (effect: Effect)
        ensures
            writes_view(effect.writes@) == Seq::<WriteView>::empty(),
            effect.ret is None,
    {
        let effect = Effect { writes: Vec::new(), ret: None };
        assert(writes_view(effect.writes@) =~= Seq::<WriteView>::empty());
        effect
    }
}

fn write_side(comm_struct: u32, side: u8) -> (writes: Vec<Write>)
    requires
        comm_struct + 0x82 <= u32::MAX,
    ensures
        writes_view(writes@) == seq![
            WriteView { addr: (comm_struct + 0x82) as u32, bytes: seq![side] },
        ],
{
    let mut bytes: Vec<u8> = Vec::new();
    bytes.push(side);
    let mut writes: Vec<Write> = Vec::new();
    writes.push(Write { addr: comm_struct + 0x82, bytes });
    assert(bytes@ =~= seq![side]);
    assert(writes_view(writes@) =~= seq![
        WriteView { addr: (comm_struct + 0x82) as u32, bytes: seq![side] },
    ]);
    writes
}

fn exchange(link: &mut Link, kind: BlockKind, mine: Vec<u8>, dst: u32) -> (effect: Effect)
    requires
        old(link).wf(),
    ensures
        final(link).wf(),
        effect.with_link(final(link)@) == block_phase(old(link)@, kind, mine@, dst),
{
    if link.has_error() {
        return Effect::returning(COMM_ERROR);
    }
    proof {
        law_with_block_keeps_inv(link@, kind, mine@);
        law_caught_up_keeps_inv(link@);
    }
    link.stage_block(kind, mine);
    match link.peer_block(kind) {
        Some(peer) => {
            let mut writes: Vec<Write> = Vec::new();
            writes.push(Write { addr: dst, bytes: peer });
            assert(writes_view(writes@) =~= seq![WriteView { addr: dst, bytes: peer@ }]);
            Effect { writes, ret: Some(0) }
        },
        None => Effect::returning(STILL_EXCHANGING),
    }
}

fn agree(comm_struct: u32, link: &mut Link, mine: Vec<u8>, dst: u32) -> (effect: Effect)
    requires
        old(link).wf(),
        comm_struct + 0x9c <= u32::MAX,
    ensures
        final(link).wf(),
        effect.with_link(final(link)@) == word_phase(comm_struct, old(link)@, mine@, dst),
{
    if link.has_error() {
        return Effect::returning(COMM_ERROR);
    }
    proof {
        law_with_block_keeps_inv(link@, BlockKind::Word, mine@);
        law_caught_up_keeps_inv(link@);
    }
    let ours = mine.clone();
    assert(ours@ =~= mine@);
    link.stage_block(BlockKind::Word, mine);
    match link.peer_block(BlockKind::Word) {
        Some(peer) => {
            let agreed = if link.side() == 0 {
                ours
            } else {
                peer
            };
            let copy = agreed.clone();
            assert(copy@ =~= agreed@);
            let mut writes: Vec<Write> = Vec::new();
            writes.push(Write { addr: dst, bytes: agreed });
            writes.push(Write { addr: comm_struct + 0x9c, bytes: copy });
            assert(writes_view(writes@) =~= seq![
                WriteView { addr: dst, bytes: agreed@ },
                WriteView { addr: (comm_struct + 0x9c) as u32, bytes: agreed@ },
            ]);
            Effect { writes, ret: Some(0) }
        },
        None => Effect::returning(STILL_EXCHANGING),
    }
}

/// A trap fires: `r0` is the game's first argument register, and `staged` the
/// block at the place that [`Hook::staging`] names, if it names one.
pub fn fire(
    hook: Hook,
    comm_struct: u32,
    link: &mut Link,
    r0: u32,
    staged: Vec<u8>,
) -> (effect: Effect)
    requires
        old(link).wf(),
        comm_struct + hook.reach() <= u32::MAX,
        hook is DrvALoader ==> old(link)@.gen < u16::MAX,
    ensures
        final(link).wf(),
        effect.with_link(final(link)@) == fired(hook, comm_struct, old(link)@, r0, staged@),
{
    match hook {
        Hook::LinkPump => Effect::returning(0),
        Hook::SideLatch => Effect { writes: write_side(comm_struct, link.side()), ret: Some(0) },
        Hook::DrvALoader => {
            link.open_handshake((r0 % 256) as u8);
            Effect::watching()
        },
        Hook::DrvA => {
            if link.has_error() {
                return Effect::returning(COMM_ERROR);
            }
            match link.peer_block(BlockKind::Mode) {
                Some(mode) => {
                    let ret: u32 = if mode.len() > 0 {
                        mode[0] as u32
                    } else {
                        0
                    };
                    Effect { writes: write_side(comm_struct, link.side()), ret: Some(ret) }
                },
                None => Effect::returning(STILL_EXCHANGING),
            }
        },
        Hook::DrvB => exchange(link, BlockKind::Record, staged, r0),
        Hook::DrvC => exchange(link, BlockKind::Ident, staged, r0),
        Hook::DrvD => agree(comm_struct, link, staged, r0),
        Hook::BarrierSend => {
            link.push_barrier((r0 % 256) as u8);
            Effect::watching()
        },
        Hook::BarrierPoll => match link.poll_barrier() {
            Poll::Byte(byte) => {
                let ret: u32 = if byte < 0x80 {
                    byte as u32
                } else {
                    0xffff_ff00 + byte as u32
                };
                Effect::returning(ret)
            },
            Poll::Waiting => Effect::returning(STILL_EXCHANGING),
            Poll::Error => Effect::returning(COMM_ERROR),
        },
    }
}

/// A trap that the game polls until an exchange is done.
pub open spec fn is_poll(hook: Hook) -> bool {
    hook is DrvA || hook is DrvB || hook is DrvC || hook is DrvD || hook is BarrierPoll
}

/// The block that a phase waits for.
pub open spec fn awaits(hook: Hook) -> Option<BlockKind> {
    match hook {
        Hook::DrvA => Some(BlockKind::Mode),
        Hook::DrvB => Some(BlockKind::Record),
        Hook::DrvC => Some(BlockKind::Ident),
        Hook::DrvD => Some(BlockKind::Word),
        _ => None,
    }
}

/// A dead transport makes every phase and every poll return `-2`, and touches
/// nothing else.
pub proof fn law_dead_transport_backs_out(
    hook: Hook,
    comm_struct: u32,
    link: LinkState,
    r0: u32,
    staged: Seq<u8>,
)
    requires
        link.error,
        is_poll(hook),
    ensures
        fired(hook, comm_struct, link, r0, staged) == returned(link, COMM_ERROR),
{
}

/// Every phase holds the game at `-1`, with its memory untouched, until the
/// peer's block is there for this handshake; and is done once it is.
pub proof fn law_phases_wait_for_the_peer(
    hook: Hook,
    comm_struct: u32,
    link: LinkState,
    r0: u32,
    staged: Seq<u8>,
    kind: BlockKind,
)
    requires
        !link.error,
        awaits(hook) == Some(kind),
    ensures
        ({
            let f = fired(hook, comm_struct, link, r0, staged);
            match link.caught_up().visible(kind) {
                Some(peer) => f.ret is Some && f.ret->0 <= 0xff && f.writes.len() > 0,
                None => f.ret == Some(STILL_EXCHANGING) && f.writes.len() == 0,
            }
        }),
{
}

/// A block phase injects the peer's block where the game asked for it, byte
/// for byte.
pub proof fn law_peer_block_is_injected(
    hook: Hook,
    comm_struct: u32,
    link: LinkState,
    dst: u32,
    staged: Seq<u8>,
    kind: BlockKind,
    peer: Seq<u8>,
)
    requires
        !link.error,
        hook is DrvB || hook is DrvC,
        awaits(hook) == Some(kind),
        link.caught_up().visible(kind) == Some(peer),
    ensures
        fired(hook, comm_struct, link, dst, staged).writes == seq![
            WriteView { addr: dst, bytes: peer },
        ],
        fired(hook, comm_struct, link, dst, staged).ret == Some(0u32),
{
}

/// The mode poll hands the game the peer's mode byte, so that the game itself
/// finds out whether the players chose the same.
pub proof fn law_mode_poll_returns_the_peers_mode(
    comm_struct: u32,
    link: LinkState,
    r0: u32,
    staged: Seq<u8>,
    mode: u8,
)
    requires
        !link.error,
        link.caught_up().visible(BlockKind::Mode) == Some(seq![mode]),
    ensures
        fired(Hook::DrvA, comm_struct, link, r0, staged).ret == Some(mode as u32),
{
}

/// The parent's word wins: once the child has the parent's word, both games
/// are given that word, whatever the child staged.
pub proof fn law_parent_word_wins(
    parent: LinkState,
    parent_word: Seq<u8>,
    parent_dst: u32,
    child: LinkState,
    child_word: Seq<u8>,
    child_dst: u32,
    comm_struct: u32,
)
    requires
        parent.side == 0,
        child.side == 1,
        !parent.error,
        !child.error,
        parent.caught_up().visible(BlockKind::Word) is Some,
        child.caught_up().visible(BlockKind::Word) == Some(parent_word),
    ensures
        fired(Hook::DrvD, comm_struct, parent, parent_dst, parent_word).writes == seq![
            WriteView { addr: parent_dst, bytes: parent_word },
            WriteView { addr: (comm_struct + 0x9c) as u32, bytes: parent_word },
        ],
        fired(Hook::DrvD, comm_struct, child, child_dst, child_word).writes == seq![
            WriteView { addr: child_dst, bytes: parent_word },
            WriteView { addr: (comm_struct + 0x9c) as u32, bytes: parent_word },
        ],
{
}

/// One link has a block to send that the other end's game can be handed: that
/// game is in no later handshake, and its transport is not dead.
pub open spec fn can_hand_over(
    src: LinkState,
    dst: LinkState,
    kind: BlockKind,
    block: Seq<u8>,
) -> bool {
    &&& src.due(kind.ix())
    &&& src.staged[kind.ix()] == Some(block)
    &&& dst.gen <= src.gen
    &&& !dst.error
}

/// What a trap does in a game once everything from the other end has been
/// carried over.
pub open spec fn fired_after_ferry(
    hook: Hook,
    comm_struct: u32,
    src: LinkState,
    dst: LinkState,
    w: Wire,
    r0: u32,
    staged: Seq<u8>,
) -> Fired {
    fired(hook, comm_struct, ferried(src, dst, w), r0, staged)
}

/// What one game staged in a block phase is what the other game is handed,
/// byte for byte, once it has been carried over.
pub proof fn law_games_exchange_their_blocks(
    events: Seq<Event>,
    hook: Hook,
    kind: BlockKind,
    block: Seq<u8>,
    comm_struct: u32,
    dst: u32,
    staged: Seq<u8>,
)
    requires
        hook is DrvB || hook is DrvC,
        awaits(hook) == Some(kind),
    ensures
        ({
            let c = after(events);
            let f = fired_after_ferry(hook, comm_struct, c.left, c.right, c.to_right, dst, staged);
            can_hand_over(c.left, c.right, kind, block) ==> f.ret == Some(0u32) && f.writes == seq![
                WriteView { addr: dst, bytes: block },
            ]
        }),
        ({
            let c = after(events);
            let f = fired_after_ferry(hook, comm_struct, c.right, c.left, c.to_left, dst, staged);
            can_hand_over(c.right, c.left, kind, block) ==> f.ret == Some(0u32) && f.writes == seq![
                WriteView { addr: dst, bytes: block },
            ]
        }),
{
    law_block_is_relayed(events, kind);
    let c = after(events);
    law_arrivals_only_add(c.right, c.to_right.in_flight() + c.left.outgoing());
    law_arrivals_only_add(c.left, c.to_left.in_flight() + c.right.outgoing());
}

/// The mode in which one game opened its handshake is what the other game's
/// mode poll returns, once it has been carried over; and that game is told its
/// side.
pub proof fn law_games_exchange_their_modes(
    events: Seq<Event>,
    mode: u8,
    comm_struct: u32,
    r0: u32,
    staged: Seq<u8>,
)
    ensures
        ({
            let c = after(events);
            let f = fired_after_ferry(
                Hook::DrvA,
                comm_struct,
                c.left,
                c.right,
                c.to_right,
                r0,
                staged,
            );
            can_hand_over(c.left, c.right, BlockKind::Mode, seq![mode]) ==> f.ret == Some(
                mode as u32,
            ) && f.writes == seq![side_write(comm_struct, c.right)]
        }),
        ({
            let c = after(events);
            let f = fired_after_ferry(
                Hook::DrvA,
                comm_struct,
                c.right,
                c.left,
                c.to_left,
                r0,
                staged,
            );
            can_hand_over(c.right, c.left, BlockKind::Mode, seq![mode]) ==> f.ret == Some(
                mode as u32,
            ) && f.writes == seq![side_write(comm_struct, c.left)]
        }),
{
    law_block_is_relayed(events, BlockKind::Mode);
    let c = after(events);
    law_arrivals_only_add(c.right, c.to_right.in_flight() + c.left.outgoing());
    law_arrivals_only_add(c.left, c.to_left.in_flight() + c.right.outgoing());
}

/// Once the words have been carried over, both games are given the parent's,
/// whichever end the parent is at and whatever the child staged.
pub proof fn law_games_agree_on_the_parents_word(
    events: Seq<Event>,
    word: Seq<u8>,
    comm_struct: u32,
    dst: u32,
    staged: Seq<u8>,
)
    ensures
        ({
            let c = after(events);
            let f = fired_after_ferry(
                Hook::DrvD,
                comm_struct,
                c.left,
                c.right,
                c.to_right,
                dst,
                staged,
            );
            can_hand_over(c.left, c.right, BlockKind::Word, word) ==> f.ret == Some(0u32)
                && f.writes == agreed_writes(comm_struct, dst, c.right, staged, word)
        }),
        ({
            let c = after(events);
            let f = fired_after_ferry(
                Hook::DrvD,
                comm_struct,
                c.right,
                c.left,
                c.to_left,
                dst,
                staged,
            );
            can_hand_over(c.right, c.left, BlockKind::Word, word) ==> f.ret == Some(0u32)
                && f.writes == agreed_writes(comm_struct, dst, c.left, staged, word)
        }),
{
    law_block_is_relayed(events, BlockKind::Word);
    let c = after(events);
    law_arrivals_only_add(c.right, c.to_right.in_flight() + c.left.outgoing());
    law_arrivals_only_add(c.left, c.to_left.in_flight() + c.right.outgoing());
}

/// The writes by which a game is given the parent's word: its own if it is
/// the parent, and else the peer's.
pub open spec fn agreed_writes(
    comm_struct: u32,
    dst: u32,
    link: LinkState,
    mine: Seq<u8>,
    peer: Seq<u8>,
) -> Seq<WriteView> {
    let agreed = if link.side == 0 {
        mine
    } else {
        peer
    };
    seq![
        WriteView { addr: dst, bytes: agreed },
        WriteView { addr: (comm_struct + 0x9c) as u32, bytes: agreed },
    ]
}

/// What one game put on the barrier stream is what the other game's polls
/// return, byte after byte, once it has been carried over; and behind the last
/// byte a poll says to wait. This is so in every generation that no teardown
/// has touched.
pub proof fn law_games_exchange_their_bytes(
    events: Seq<Event>,
    comm_struct: u32,
    r0: u32,
    staged: Seq<u8>,
)
    ensures
        ({
            let c = after(events);
            let f = fired_after_ferry(
                Hook::BarrierPoll,
                comm_struct,
                c.left,
                c.right,
                c.to_right,
                r0,
                staged,
            );
            c.to_right.clean <= c.right.gen && !c.right.error ==> f.ret == Some(
                polled_byte(pushed(c.left, c.right.gen), c.right.polled),
            )
        }),
        ({
            let c = after(events);
            let f = fired_after_ferry(
                Hook::BarrierPoll,
                comm_struct,
                c.right,
                c.left,
                c.to_left,
                r0,
                staged,
            );
            c.to_left.clean <= c.left.gen && !c.left.error ==> f.ret == Some(
                polled_byte(pushed(c.right, c.left.gen), c.left.polled),
            )
        }),
{
    let c = after(events);
    law_barrier_is_relayed(events, c.right.gen);
    law_barrier_is_relayed(events, c.left.gen);
    law_arrivals_only_add(c.right, c.to_right.in_flight() + c.left.outgoing());
    law_arrivals_only_add(c.left, c.to_left.in_flight() + c.right.outgoing());
}

/// What a poll returns of a stream of which the first `n` bytes have been
/// read.
pub open spec fn polled_byte(stream: Seq<u8>, n: nat) -> u32 {
    if n < stream.len() {
        sign_extended(stream[n as int])
    } else {
        STILL_EXCHANGING
    }
}

/// A byte survives the widening: its low eight bits are the byte, and a poll
/// can be mistaken for "still waiting" or for an error only where the byte is
/// `0xff` or `0xfe`.
pub proof fn law_sign_extension_keeps_the_byte(byte: u8)
    ensures
        sign_extended(byte) % 256 == byte,
        sign_extended(byte) == STILL_EXCHANGING <==> byte == 0xff,
        sign_extended(byte) == COMM_ERROR <==> byte == 0xfe,
{
}

/// What the game takes for "still exchanging" and for an error: `-1` and `-2`.
pub proof fn law_codes_are_negative()
    ensures
        STILL_EXCHANGING + 1 == 0x1_0000_0000,
        COMM_ERROR + 2 == 0x1_0000_0000,
{
}

/// Writes are seen as they are, one by one and in their order.
pub proof fn law_writes_are_their_bytes(writes: Seq<Write>, i: int, effect: Effect, link: LinkState)
    ensures
        writes_view(writes).len() == writes.len(),
        0 <= i < writes.len() ==> writes_view(writes)[i].addr == writes[i].addr
            && writes_view(writes)[i].bytes == writes[i].bytes@,
        effect.with_link(link).link == link,
        effect.with_link(link).ret == effect.ret,
        effect.with_link(link).writes == writes_view(effect.writes@),
{
}

/// The cable always seems to be there: the pump reports it and the latch gives
/// the game its side, whatever state the link is in, and neither touches the
/// link.
pub proof fn law_the_cable_seems_to_be_there(
    comm_struct: u32,
    link: LinkState,
    r0: u32,
    staged: Seq<u8>,
)
    requires
        comm_struct + 0x82 <= u32::MAX,
    ensures
        ({
            let pump = fired(Hook::LinkPump, comm_struct, link, r0, staged);
            pump.link == link && pump.writes.len() == 0 && pump.ret == Some(0u32)
        }),
        ({
            let latch = fired(Hook::SideLatch, comm_struct, link, r0, staged);
            &&& latch.link == link && latch.ret == Some(0u32)
            &&& latch.writes.len() == 1
            &&& latch.writes[0].addr == comm_struct + 0x82
            &&& latch.writes[0].bytes == seq![link.side]
        }),
{
}

/// The loader and the sends only watch: their functions run, the game's memory
/// is untouched, and the link takes note of the low byte of the argument, as
/// the mode of a new handshake or as the next byte of the stream.
pub proof fn law_loader_and_sends_only_watch(
    comm_struct: u32,
    link: LinkState,
    r0: u32,
    staged: Seq<u8>,
    byte: u8,
)
    requires
        link.inv(),
        link.gen < u16::MAX,
        r0 % 256 == byte,
    ensures
        ({
            let f = fired(Hook::DrvALoader, comm_struct, link, r0, staged);
            &&& f.writes.len() == 0 && f.ret is None
            &&& f.link.gen > link.gen && !f.link.error
            &&& f.link.staged[0] == Some(seq![byte])
            &&& f.link == link.opened(byte)
        }),
        ({
            let f = fired(Hook::BarrierSend, comm_struct, link, r0, staged);
            &&& f.writes.len() == 0 && f.ret is None
            &&& f.link.tx == link.tx.push((link.gen, byte))
            &&& f.link == (LinkState { tx: f.link.tx, ..link })
        }),
{
}

/// A poll returns the next byte of the peer as a signed one, `-1` if there is
/// none yet, and `-2` if the transport is dead. It moves on by the byte that
/// it returned, and touches nothing else.
pub proof fn law_a_poll_returns_the_next_byte(
    comm_struct: u32,
    link: LinkState,
    r0: u32,
    staged: Seq<u8>,
)
    ensures
        ({
            let f = fired(Hook::BarrierPoll, comm_struct, link, r0, staged);
            &&& f.writes.len() == 0
            &&& link.error ==> f.ret == Some(0xffff_fffeu32) && f.link == link
            &&& !link.error && link.polled >= link.rx.len() ==> f.ret == Some(0xffff_ffffu32)
                && f.link == link
            &&& !link.error && link.polled < link.rx.len() ==> {
                let byte = link.rx[link.polled as int];
                &&& f.link == (LinkState { polled: link.polled + 1, ..link })
                &&& byte < 0x80 ==> f.ret == Some(byte as u32)
                &&& byte >= 0x80 ==> f.ret == Some((0xffff_ff00 + byte) as u32)
            }
        }),
{
}

/// A phase that is not done yet holds the game at `-1` and leaves its memory
/// alone, but has published what the game staged; one that is done has
/// published it too. The mode poll publishes nothing. A dead transport leaves
/// the link as it is.
pub proof fn law_phases_publish_what_was_staged(
    hook: Hook,
    comm_struct: u32,
    link: LinkState,
    r0: u32,
    staged: Seq<u8>,
    k: int,
)
    requires
        link.inv(),
        0 <= k < 4,
        hook is DrvA || hook is DrvB || hook is DrvC || hook is DrvD,
    ensures
        ({
            let f = fired(hook, comm_struct, link, r0, staged);
            let n = match hook {
                Hook::DrvB => 1int,
                Hook::DrvC => 2,
                Hook::DrvD => 3,
                _ => -1,
            };
            &&& link.error ==> f.link == link && f.ret == Some(0xffff_fffeu32) && f.writes.len()
                == 0
            &&& !link.error ==> f.link.staged[k] == (if k == n {
                Some(staged)
            } else {
                link.staged[k]
            })
            &&& !link.error ==> f.link == (LinkState {
                staged: f.link.staged,
                ..link.caught_up()
            })
        }),
{
}

/// The mode poll hands over the first byte of the peer's mode block, or 0 if
/// that is empty, and tells the game its side anew.
pub proof fn law_the_mode_poll_hands_over_the_mode(
    comm_struct: u32,
    link: LinkState,
    r0: u32,
    staged: Seq<u8>,
    block: Seq<u8>,
)
    requires
        comm_struct + 0x82 <= u32::MAX,
        !link.error,
        link.caught_up().visible(BlockKind::Mode) == Some(block),
    ensures
        ({
            let f = fired(Hook::DrvA, comm_struct, link, r0, staged);
            &&& block.len() > 0 ==> f.ret == Some(block[0] as u32)
            &&& block.len() == 0 ==> f.ret == Some(0u32)
            &&& f.writes.len() == 1
            &&& f.writes[0].addr == comm_struct + 0x82
            &&& f.writes[0].bytes == seq![link.side]
        }),
{
}

/// The word phase gives the game the parent's word, in two places: where it
/// asked for it, and where it had staged its own.
pub proof fn law_the_word_phase_gives_the_parents_word(
    comm_struct: u32,
    link: LinkState,
    dst: u32,
    mine: Seq<u8>,
    peer: Seq<u8>,
)
    requires
        comm_struct + 0x9c <= u32::MAX,
        !link.error,
        link.caught_up().visible(BlockKind::Word) == Some(peer),
    ensures
        ({
            let f = fired(Hook::DrvD, comm_struct, link, dst, mine);
            let parents = if link.side == 0 {
                mine
            } else {
                peer
            };
            &&& f.ret == Some(0u32)
            &&& f.writes.len() == 2
            &&& f.writes[0].addr == dst && f.writes[0].bytes == parents
            &&& f.writes[1].addr == comm_struct + 0x9c && f.writes[1].bytes == parents
        }),
{
}

/// The addresses of a build are listed in the order of the game's phases, with
/// the sends and then the polls behind them.
pub proof fn law_addresses_are_in_order(offsets: Offsets, i: int)
    requires
        0 <= i < 4,
    ensures
        ({
            let list = offsets.addresses();
            &&& list.len() == 15
            &&& list[0] == offsets.rom.link_pump && list[1] == offsets.rom.side_latch
            &&& list[2] == offsets.rom.drv_a_loader
            &&& list[3] == offsets.rom.drv_a && list[4] == offsets.rom.drv_b
            &&& list[5] == offsets.rom.drv_c && list[6] == offsets.rom.drv_d
            &&& list[7 + i] == offsets.rom.barrier_sends@[i]
            &&& list[11 + i] == offsets.rom.barrier_polls@[i]
        }),
{
}

} // verus!
