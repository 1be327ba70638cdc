//! The games that can be linked, and what the emulator shows of them.

use crate::hooks::{A89E_00, A89J_00, Offsets};
#[allow(unused_imports)]
use crate::hooks::{jp_addresses, us_addresses};
#[allow(unused_imports)]
use crate::text::is_graphic;
use vstd::prelude::*;
use vstd::string::*;

verus! {

/// The width of the screen, in pixels.
pub const SCREEN_W: u32 = 240;

/// The height of the screen, in pixels.
pub const SCREEN_H: u32 = 160;

/// The checksum of the US ROM.
pub const BCC_US_CRC32: u32 = 0x26be44fd;

/// The checksum of the JP ROM.
pub const BCGP_JP_CRC32: u32 = 0x9217fb18;

/// Where a ROM's header holds its game code.
pub const CODE_OFFSET: usize = 0xac;

/// How long a game code is.
pub const CODE_LEN: usize = 4;

/// Where the game's work RAM holds the number of its comm program.
pub const COMM_PROGRAM: u32 = 0x0200_b794;

/// Where the game's work RAM holds how far the comm program has come.
pub const COMM_SUBSTATE: u32 = 0x0200_b795;

/// The game is inside a link session, from its connecting screen to the end
/// of the match: its comm program is past the menu.
pub open spec fn is_linking(program: u8, substate: u8) -> bool {
    program >= 2 || program == 1 && substate >= 4
}

/// The game is inside a link session, given the number of its comm program
/// and how far that has come.
pub fn comm_active(program: u8, substate: u8) -> (active: bool)
    ensures
        active == is_linking(program, substate),
        active <==> program > 1 || (program == 1 && substate > 3),
{
    program >= 2 || (program == 1 && substate >= 4)
}

/// A game that can be linked.
#[derive(Clone, Copy, PartialEq, Eq, Structural)]
pub enum Game {
    /// Mega Man Battle Chip Challenge.
    Us,
    /// Rockman EXE Battle Chip GP.
    Jp,
}

impl Game {
    /// The game code in the ROM's header, as bytes.
    pub open spec fn code_bytes(self) -> Seq<u8> {
        match self {
            Game::Us => seq![0x41, 0x38, 0x39, 0x45],
            Game::Jp => seq![0x41, 0x38, 0x39, 0x4a],
        }
    }

    /// The checksum of the ROM.
    pub open spec fn checksum(self) -> u32 {
        match self {
            Game::Us => BCC_US_CRC32,
            Game::Jp => BCGP_JP_CRC32,
        }
    }

    /// The game code in the ROM's header.
    pub fn code(self) -> (code: &'static str)
        ensures
            code@ == (match self {
                Game::Us => "A89E"@,
                Game::Jp => "A89J"@,
            }),
    {
        match self {
            Game::Us => "A89E",
            Game::Jp => "A89J",
        }
    }

    /// The game's name.
    pub fn title(self) -> (title: &'static str)
        ensures
            title@ == (match self {
                Game::Us => "Mega Man Battle Chip Challenge"@,
                Game::Jp => "Rockman EXE Battle Chip GP"@,
            }),
    {
        match self {
            Game::Us => "Mega Man Battle Chip Challenge",
            Game::Jp => "Rockman EXE Battle Chip GP",
        }
    }

    /// The checksum of the ROM.
    pub fn crc32(self) -> (crc32: u32)
        ensures
            crc32 == self.checksum(),
            self is Us ==> crc32 == 0x26be44fd,
            self is Jp ==> crc32 == 0x9217fb18,
    {
        match self {
            Game::Us => BCC_US_CRC32,
            Game::Jp => BCGP_JP_CRC32,
        }
    }

    /// Where things are in the game.
    pub fn offsets(self) -> (offsets: Offsets)
        ensures
            offsets.addresses() == (match self {
                Game::Us => us_addresses(),
                Game::Jp => jp_addresses(),
            }),
            offsets.ewram.comm_struct == 0x0200bd20,
    {
        match self {
            Game::Us => A89E_00(),
            Game::Jp => A89J_00(),
        }
    }
}

/// The game code in a ROM's header, if the ROM is long enough to have one.
pub open spec fn header_bytes(rom: Seq<u8>) -> Option<Seq<u8>> {
    if rom.len() >= CODE_OFFSET + CODE_LEN {
        Some(rom.subrange(CODE_OFFSET as int, CODE_OFFSET + CODE_LEN))
    } else {
        None
    }
}

/// The game that a ROM is.
pub open spec fn identity(rom: Seq<u8>) -> Option<Game> {
    if header_bytes(rom) == Some(Game::Us.code_bytes()) {
        Some(Game::Us)
    } else if header_bytes(rom) == Some(Game::Jp.code_bytes()) {
        Some(Game::Jp)
    } else {
        None
    }
}

/// The game that a ROM is, if it is one that can be linked.
pub fn identify(rom: &[u8]) -> (game: Option<Game>)
    ensures
        game == identity(rom@),
{
    if rom.len() < CODE_OFFSET + CODE_LEN {
        return None;
    }
    let family = rom[0xac] == 0x41 && rom[0xad] == 0x38 && rom[0xae] == 0x39;
    let region = rom[0xaf];
    proof {
        let code = rom@.subrange(CODE_OFFSET as int, CODE_OFFSET + CODE_LEN);
        assert(code[0] == rom@[0xac] && code[1] == rom@[0xad] && code[2] == rom@[0xae] && code[3]
            == rom@[0xaf]);
        if family && region == 0x45 {
            assert(code =~= Game::Us.code_bytes());
        }
        if family && region == 0x4a {
            assert(code =~= Game::Jp.code_bytes());
        }
        if code == Game::Us.code_bytes() {
            assert(family && region == 0x45);
        }
        if code == Game::Jp.code_bytes() {
            assert(family && region == 0x4a);
        }
    }
    if family && region == 0x45 {
        Some(Game::Us)
    } else if family && region == 0x4a {
        Some(Game::Jp)
    } else {
        None
    }
}

/// A byte of a game code as it is shown: a question mark stands for one that
/// has no visible form.
pub open spec fn code_char(byte: u8) -> char {
    if is_graphic(byte as char) {
        byte as char
    } else {
        '?'
    }
}

/// A ROM's game code as it is shown to the player.
pub open spec fn shown_code(rom: Seq<u8>) -> Seq<char> {
    match header_bytes(rom) {
        Some(code) => code.map_values(|byte: u8| code_char(byte)),
        None => "none"@,
    }
}

/// A ROM's game code as it is shown to the player.
pub fn header_code(rom: &[u8]) -> (code: String)
    ensures
        code@ == shown_code(rom@),
{
    if rom.len() < CODE_OFFSET + CODE_LEN {
        return "none".to_owned();
    }
    let ghost bytes = rom@.subrange(CODE_OFFSET as int, CODE_OFFSET + CODE_LEN);
    let mut code: String = String::new();
    let mut i: usize = 0;
    while i < CODE_LEN
        invariant
            i <= CODE_LEN,
            rom@.len() >= CODE_OFFSET + CODE_LEN,
            bytes == rom@.subrange(CODE_OFFSET as int, CODE_OFFSET + CODE_LEN),
            code@ == bytes.take(i as int).map_values(|byte: u8| code_char(byte)),
        decreases CODE_LEN - i,
    {
        let byte: u8 = rom[CODE_OFFSET + i];
        let c: char = byte as char;
        code.push(
            if '!' <= c && c <= '~' {
                c
            } else {
                '?'
            },
        );
        i = i + 1;
        assert(code@ =~= bytes.take(i as int).map_values(|byte: u8| code_char(byte)));
    }
    assert(bytes.take(i as int) =~= bytes);
    code
}

/// The names of the games that can be linked.
pub fn supported_titles() -> (titles: &'static str)
    ensures
        titles@ == "Battle Chip Challenge (US) / Battle Chip GP (JP)"@,
{
    "Battle Chip Challenge (US) / Battle Chip GP (JP)"
}

/// A ROM is at most one game, and every ROM that bears a game's code is that
/// game.
pub proof fn law_identity_goes_by_the_code(rom: Seq<u8>, game: Game)
    ensures
        identity(rom) == Some(game) <==> header_bytes(rom) == Some(game.code_bytes()),
{
    assert(Game::Us.code_bytes()[3] != Game::Jp.code_bytes()[3]);
}

/// A ROM is the US game exactly if its header reads `A89E`, and the JP game
/// exactly if it reads `A89J`; any other ROM, and one too short to have a
/// header, is neither.
pub proof fn law_roms_are_told_by_their_header(rom: Seq<u8>)
    ensures
        ({
            let family = rom.len() >= 0xb0 && rom[0xac] == 0x41 && rom[0xad] == 0x38 && rom[0xae]
                == 0x39;
            &&& identity(rom) == Some(Game::Us) <==> family && rom[0xaf] == 0x45
            &&& identity(rom) == Some(Game::Jp) <==> family && rom[0xaf] == 0x4a
            &&& identity(rom) is None <==> !(family && (rom[0xaf] == 0x45 || rom[0xaf] == 0x4a))
        }),
{
    if rom.len() >= 0xb0 {
        let code = rom.subrange(0xac, 0xb0);
        assert(code[0] == rom[0xac] && code[1] == rom[0xad] && code[2] == rom[0xae] && code[3]
            == rom[0xaf]);
        let us = seq![0x41u8, 0x38, 0x39, 0x45];
        let jp = seq![0x41u8, 0x38, 0x39, 0x4a];
        assert(us[3] != jp[3]);
        if rom[0xac] == 0x41 && rom[0xad] == 0x38 && rom[0xae] == 0x39 && rom[0xaf] == 0x45 {
            assert(code =~= us);
        }
        if rom[0xac] == 0x41 && rom[0xad] == 0x38 && rom[0xae] == 0x39 && rom[0xaf] == 0x4a {
            assert(code =~= jp);
        }
        assert(code == us ==> code[0] == 0x41 && code[1] == 0x38 && code[2] == 0x39 && code[3]
            == 0x45);
        assert(code == jp ==> code[0] == 0x41 && code[1] == 0x38 && code[2] == 0x39 && code[3]
            == 0x4a);
    }
}

/// A game code is shown as it stands in the header, character by character,
/// with a question mark for each that has no visible form. A ROM too short to
/// have one has none.
pub proof fn law_codes_are_shown_as_they_are(rom: Seq<u8>, i: int)
    requires
        0 <= i < 4,
    ensures
        rom.len() < 0xb0 ==> shown_code(rom) == "none"@,
        rom.len() >= 0xb0 ==> {
            &&& shown_code(rom).len() == 4
            &&& 0x21 <= rom[0xac + i] <= 0x7e ==> shown_code(rom)[i] == rom[0xac + i] as char
            &&& !(0x21 <= rom[0xac + i] <= 0x7e) ==> shown_code(rom)[i] == '?'
        },
{
    if rom.len() >= 0xb0 {
        assert(rom.subrange(0xac, 0xb0)[i] == rom[0xac + i]);
    }
}

} // verus!
