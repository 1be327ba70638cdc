use ring_bcc::app::{
    default_matchmaking_endpoint, App, BootFailure, Config, Message, Picked, Picker, Sight, Todo,
};
use ring_bcc::code::clean_code;
use ring_bcc::emu::Game;
use ring_bcc::hooks::{fire, Hook, COMM_ERROR, STILL_EXCHANGING};
use ring_bcc::input::{
    gamepad_bit, key_bit, key_message, pad_event, Change, Key, KeyEvent, PadButton, PadEvent,
};
use ring_bcc::link::Link;
use ring_bcc::net::{session_id, Status};
use ring_bcc::screens::{
    connect_dialog, file_label, save_file_name, screen, setup_screen, status_line, Action, Screen,
    Tone,
};

struct World {
    app: App<&'static str>,
    link: Link,
    status: Status,
}

impl World {
    fn new() -> World {
        World { app: App::new(Config::default()), link: Link::new(), status: Status::Idle }
    }

    fn playing() -> World {
        let mut w = World::new();
        w.tell(Message::Booted(Game::Us, Ok(())));
        w
    }

    fn tell(&mut self, message: Message<&'static str>) -> Todo {
        self.app.update(message, &mut self.link, &mut self.status)
    }

    fn frame(&mut self, comm_active: bool) -> Todo {
        self.tell(Message::Frame(Sight { crashed: false, dirty: false, comm_active }))
    }

    fn error(&self) -> String {
        self.app.error.clone().unwrap_or_default()
    }
}

fn rom(code: &[u8; 4]) -> Vec<u8> {
    let mut rom = vec![0u8; 0xc0];
    rom[0xac..0xb0].copy_from_slice(code);
    rom
}

fn picked(rom: Result<Vec<u8>, String>) -> Message<&'static str> {
    Message::RomPicked(Some(Picked {
        path: "/roms/bcc.gba",
        save_beside: "/roms/bcc.sav",
        shown: "/roms/bcc.gba".to_owned(),
        rom,
    }))
}

fn idle(todo: &Todo) -> bool {
    !todo.cancel
        && !todo.end_game
        && !todo.drop_audio
        && todo.pick.is_none()
        && !todo.read_rom
        && todo.boot.is_none()
        && todo.dial.is_none()
        && !todo.redraw
        && !todo.focus_code
        && !todo.save_config
        && !todo.close_window
}

#[test]
fn the_program_starts_on_its_setup_screen() {
    let w = World::new();
    assert!(screen(&w.app) == Screen::Setup);
    assert_eq!(w.app.cfg.matchmaking_endpoint, "wss://matchmaking.tango.n1gp.net");
    assert_eq!(default_matchmaking_endpoint(), "wss://matchmaking.tango.n1gp.net");
    assert_eq!(w.app.cfg.link_code, "");
    assert_eq!(w.app.keys(), None);
    let s = setup_screen(&w.app, None, None);
    assert!(!s.can_play && !s.advanced);
    assert_eq!(s.note, "pick a ROM to begin — the save defaults to sit next to it");
    assert!(s.note_tone == Tone::Weak);
    assert_eq!(s.rom.text, "choose a ROM…");
    assert_eq!(s.save.text, "choose a save…");
    assert!(!s.rom.chosen && !s.save.chosen);
    assert_eq!(s.toggle, "advanced ▸");
}

#[test]
fn files_are_picked() {
    let mut w = World::new();
    assert!(w.tell(Message::PickRom).pick == Some(Picker::Rom));
    assert!(w.tell(Message::PickSave).pick == Some(Picker::Save));
    assert!(idle(&w.tell(Message::RomPicked(None))));
    assert!(idle(&w.tell(Message::SavePicked(None))));

    w.tell(picked(Ok(rom(b"XXXX"))));
    assert_eq!(
        w.error(),
        "/roms/bcc.gba doesn't look like Battle Chip Challenge (US) / Battle Chip GP (JP)"
    );
    assert!(w.app.cfg.rom_path.is_none() && w.app.cfg.save_path.is_none());
    w.tell(picked(Err("denied".to_owned())));
    assert_eq!(w.error(), "/roms/bcc.gba: denied");
    let s = setup_screen(&w.app, None, None);
    assert_eq!(s.note, "/roms/bcc.gba: denied");
    assert!(s.note_tone == Tone::Danger);

    w.tell(picked(Ok(rom(b"A89J"))));
    assert!(w.app.error.is_none());
    assert_eq!(w.app.cfg.rom_path, Some("/roms/bcc.gba"));
    assert_eq!(w.app.cfg.save_path, Some("/roms/bcc.sav"));
    let s = setup_screen(&w.app, Some("bcc.gba".to_owned()), Some("bcc.sav".to_owned()));
    assert!(s.can_play && s.rom.chosen && s.save.chosen);
    assert_eq!((s.rom.text.as_str(), s.save.text.as_str(), s.note.as_str()), ("bcc.gba", "bcc.sav", ""));

    w.tell(Message::SavePicked(Some("/saves/mine.sav")));
    w.tell(picked(Ok(rom(b"A89E"))));
    assert_eq!(w.app.cfg.save_path, Some("/saves/mine.sav"));
}

#[test]
fn a_game_is_started_step_by_step() {
    let mut w = World::new();
    let todo = w.tell(Message::Play);
    assert_eq!(w.error(), "pick a ROM");
    assert!(todo.drop_audio && !todo.read_rom);
    w.app.cfg.rom_path = Some("/roms/bcc.gba");
    w.tell(Message::Play);
    assert_eq!(w.error(), "pick a save");
    w.app.cfg.save_path = Some("/roms/bcc.sav");
    let todo = w.tell(Message::Play);
    assert!(todo.read_rom && !todo.drop_audio);
    assert!(w.app.error.is_none());

    w.tell(Message::RomRead("bcc.gba".to_owned(), Err("gone".to_owned())));
    assert_eq!(w.error(), "gone");
    let todo = w.tell(Message::RomRead("bcc.gba".to_owned(), Ok(rom(b"AXYZ"))));
    assert!(todo.boot.is_none() && todo.drop_audio);
    assert_eq!(
        w.error(),
        "bcc.gba doesn't look like Battle Chip Challenge (US) / Battle Chip GP (JP): game code AXYZ"
    );
    let todo = w.tell(Message::RomRead("bcc.gba".to_owned(), Ok(rom(b"A89E"))));
    assert!(todo.boot == Some(Game::Us));

    for (failure, text) in [
        (BootFailure::Emulator("bad save".to_owned()), "bad save"),
        (BootFailure::Audio("no device".to_owned()), "audio: no device"),
        (BootFailure::NoAudio, "SDL audio unavailable; can't run"),
    ] {
        let todo = w.tell(Message::Booted(Game::Us, Err(failure)));
        assert_eq!(w.error(), text);
        assert!(todo.drop_audio && !todo.save_config);
        assert!(w.app.game.is_none());
    }
    let todo = w.tell(Message::Booted(Game::Us, Ok(())));
    assert!(todo.save_config);
    assert!(w.app.game == Some(Game::Us));
    assert!(screen(&w.app) == Screen::Game { picture: false, dialog: false });
}

#[test]
fn pictures_are_shown_when_there_are_new_ones() {
    let mut w = World::new();
    assert!(idle(&w.frame(false)));
    let mut w = World::playing();
    assert!(w.frame(false).redraw);
    assert!(screen(&w.app) == Screen::Game { picture: true, dialog: false });
    assert!(!w.frame(false).redraw);
    let sight = Sight { crashed: false, dirty: true, comm_active: false };
    assert!(w.tell(Message::Frame(sight)).redraw);
}

#[test]
fn a_crash_leads_back_to_the_setup_screen() {
    let mut w = World::playing();
    w.frame(true);
    w.tell(Message::LinkCodeChanged("abc".to_owned()));
    w.tell(Message::Connect);
    w.status = Status::WaitingForPeer;
    let sight = Sight { crashed: true, dirty: true, comm_active: true };
    let todo = w.tell(Message::Frame(sight));
    assert!(todo.end_game && todo.cancel && !todo.redraw);
    assert_eq!(w.error(), "emulator crashed");
    assert!(screen(&w.app) == Screen::Setup);
    assert!(!w.app.dialing && !w.app.has_screen);
    assert!(w.link.has_error());
}

#[test]
fn the_dialog_follows_the_handshakes() {
    let mut w = World::playing();
    w.frame(false);
    assert!(!w.app.connect_dialog);
    w.link.open_handshake(0);
    let todo = w.frame(true);
    assert!(w.app.connect_dialog && todo.focus_code);
    assert!(!w.frame(true).focus_code);

    // Cancelled, it stays down until the next handshake.
    w.tell(Message::CloseConnectDialog);
    assert!(!w.app.connect_dialog);
    w.frame(true);
    assert!(!w.app.connect_dialog);
    w.link.open_handshake(0);
    w.frame(true);
    assert!(w.app.connect_dialog);

    // It drops once the link is up, and a handshake over a live link does not
    // bring it back.
    w.status = Status::Connected { side: 0, cross_version: false };
    w.frame(true);
    assert!(!w.app.connect_dialog);
    w.link.open_handshake(0);
    assert!(!w.frame(true).focus_code);
    assert!(!w.app.connect_dialog);
}

#[test]
fn cancelling_the_dialog_fails_the_attempt() {
    let mut w = World::playing();
    w.link.open_handshake(0);
    w.frame(true);
    w.tell(Message::LinkCodeChanged("abc".to_owned()));
    w.tell(Message::Connect);
    w.status = Status::Signaling;
    let todo = w.tell(Message::CloseConnectDialog);
    assert!(todo.cancel && !w.app.dialing);
    assert!(matches!(w.status, Status::Idle));
    let e = fire(Hook::DrvA, 0x0200bd20, &mut w.link, 0, Vec::new());
    assert_eq!(e.ret, Some(COMM_ERROR));

    // Over a live link it only closes.
    let mut w = World::playing();
    w.link.set_connected(0);
    w.status = Status::Connected { side: 0, cross_version: false };
    w.app.connect_dialog = true;
    assert!(idle(&w.tell(Message::CloseConnectDialog)));
    assert!(!w.link.has_error() && !w.app.connect_dialog);
    assert!(matches!(w.status, Status::Connected { .. }));
}

#[test]
fn the_next_handshake_after_a_cancelled_dialog_waits() {
    let mut w = World::playing();
    w.link.open_handshake(0);
    w.frame(true);
    w.tell(Message::CloseConnectDialog);
    let poll = |w: &mut World| fire(Hook::DrvA, 0x0200bd20, &mut w.link, 0, Vec::new()).ret;
    assert_eq!(poll(&mut w), Some(COMM_ERROR));
    w.frame(false);

    // The player comes back: the game waits at its connecting screen, and the
    // dialog is there to connect from.
    fire(Hook::DrvALoader, 0x0200bd20, &mut w.link, 2, Vec::new());
    assert_eq!(poll(&mut w), Some(STILL_EXCHANGING));
    assert!(w.frame(true).focus_code);
    assert!(w.app.connect_dialog);
    w.tell(Message::LinkCodeChanged("abc".to_owned()));
    assert!(w.tell(Message::Connect).dial.is_some());
    assert_eq!(poll(&mut w), Some(STILL_EXCHANGING));

    // The same after a connection that was closed.
    w.tell(Message::Disconnect);
    assert_eq!(poll(&mut w), Some(COMM_ERROR));
    fire(Hook::DrvALoader, 0x0200bd20, &mut w.link, 2, Vec::new());
    assert_eq!(poll(&mut w), Some(STILL_EXCHANGING));
}

#[test]
fn leaving_the_session_unplugs_the_cable() {
    let mut w = World::playing();
    w.link.open_handshake(0);
    w.frame(true);
    w.tell(Message::LinkCodeChanged("abc".to_owned()));
    w.tell(Message::Connect);
    w.link.set_connected(0);
    w.status = Status::Connected { side: 0, cross_version: false };
    assert!(idle(&w.frame(true)) || w.app.has_screen);
    let todo = w.frame(false);
    assert!(todo.cancel);
    assert!(!w.app.dialing && !w.app.connect_dialog);
    assert!(w.link.has_error());
    assert!(matches!(w.status, Status::Idle));
    assert!(!w.frame(false).cancel);
}

#[test]
fn a_connection_is_made_under_the_code() {
    let mut w = World::new();
    w.tell(Message::LinkCodeChanged("abc".to_owned()));
    assert!(idle(&w.tell(Message::Connect)));

    let mut w = World::playing();
    assert!(idle(&w.tell(Message::Connect)));
    w.app.cfg.link_code = "  \t ".to_owned();
    assert!(idle(&w.tell(Message::Connect)));

    w.tell(Message::LinkCodeChanged("My Code-7!".to_owned()));
    w.tell(Message::EndpointChanged("wss://elsewhere".to_owned()));
    let todo = w.tell(Message::Connect);
    let params = todo.dial.unwrap();
    assert_eq!(params.link_code, "mycode-7");
    assert_eq!(params.endpoint, "wss://elsewhere");
    assert_eq!(params.rom_crc32, 0x26be44fd);
    assert!(todo.save_config && !todo.cancel);
    assert!(w.app.dialing);

    // Not while it is under way.
    w.status = Status::WaitingForPeer;
    assert!(w.app.connecting(&w.status));
    assert!(idle(&w.tell(Message::Connect)));

    // But again once it has failed, with the old one cancelled.
    w.status = Status::Lost("timeout".to_owned());
    assert!(!w.app.connecting(&w.status));
    let todo = w.tell(Message::Connect);
    assert!(todo.cancel && todo.dial.is_some());
    assert!(matches!(w.status, Status::Idle));

    assert!(w.tell(Message::Disconnect).cancel);
    assert!(idle(&w.tell(Message::Disconnect)));

    w.tell(Message::EndpointReset);
    assert_eq!(w.app.cfg.matchmaking_endpoint, "wss://matchmaking.tango.n1gp.net");
}

#[test]
fn closing_the_window_tears_everything_down() {
    let mut w = World::playing();
    w.tell(Message::LinkCodeChanged("abc".to_owned()));
    w.tell(Message::Connect);
    let todo = w.tell(Message::CloseRequested);
    assert!(todo.cancel && todo.end_game && todo.save_config && todo.close_window);
    assert!(w.app.game.is_none() && !w.app.dialing);
    assert_eq!(w.app.cfg.link_code, "abc");
}

#[test]
fn a_new_game_forgets_old_handshakes() {
    let mut w = World::new();
    w.link.open_handshake(0);
    w.tell(Message::Booted(Game::Jp, Ok(())));
    w.frame(false);
    assert!(!w.app.connect_dialog);
}

#[test]
fn advanced_settings_fold_and_unfold() {
    let mut w = World::new();
    w.tell(Message::ToggleAdvanced);
    let s = setup_screen(&w.app, None, None);
    assert!(s.advanced);
    assert_eq!(s.toggle, "advanced ▾");
    w.tell(Message::ToggleAdvanced);
    assert!(!w.app.advanced);
}

#[test]
fn link_codes_are_cleaned() {
    assert_eq!(clean_code("Hello, World-42!"), "helloworld-42");
    assert_eq!(clean_code("ÄB@[`{/:"), "b");
    assert_eq!(clean_code(""), "");
    assert_eq!(clean_code(&"aB".repeat(80)), "ab".repeat(50));
    assert_eq!(clean_code(&clean_code("Ab C")), clean_code("aB c"));
    assert_eq!(session_id(&clean_code("Ab C-1")), "bcclink-abc-1");
}

#[test]
fn keys_are_bound() {
    let keys = [
        Key::Z,
        Key::X,
        Key::Backspace,
        Key::Enter,
        Key::Right,
        Key::Left,
        Key::Up,
        Key::Down,
        Key::S,
        Key::A,
    ];
    let buttons = [
        PadButton::South,
        PadButton::East,
        PadButton::Back,
        PadButton::Start,
        PadButton::Right,
        PadButton::Left,
        PadButton::Up,
        PadButton::Down,
        PadButton::RightShoulder,
        PadButton::LeftShoulder,
    ];
    for i in 0..10 {
        assert_eq!(key_bit(keys[i]), Some(1 << i));
        assert_eq!(gamepad_bit(buttons[i]), Some(1 << i));
    }
    assert_eq!(key_bit(Key::Other), None);
    assert_eq!(gamepad_bit(PadButton::Other), None);
}

#[test]
fn presses_count_unless_captured_and_releases_always() {
    assert!(key_message(KeyEvent::Pressed(Key::Z), false) == Some(Change::Down(1)));
    assert!(key_message(KeyEvent::Pressed(Key::Z), true).is_none());
    assert!(key_message(KeyEvent::Released(Key::Z), true) == Some(Change::Up(1)));
    assert!(key_message(KeyEvent::Released(Key::Z), false) == Some(Change::Up(1)));
    assert!(key_message(KeyEvent::Pressed(Key::Other), false).is_none());
    assert!(key_message(KeyEvent::Released(Key::Other), false).is_none());
}

#[test]
fn held_keys_reach_the_game() {
    let mut w = World::playing();
    w.tell(Message::Key(Change::Down(1)));
    w.tell(Message::Key(Change::Down(8)));
    w.tell(Message::Pad(PadEvent::Pressed(PadButton::LeftShoulder)));
    w.tell(Message::Pad(PadEvent::Pressed(PadButton::Other)));
    assert_eq!(w.app.keys(), Some(0x209));
    w.tell(Message::Key(Change::Up(1)));
    w.tell(Message::Pad(PadEvent::Released(PadButton::LeftShoulder)));
    assert_eq!(w.app.keys(), Some(8));
    assert_eq!(pad_event(0x3ff, PadEvent::Released(PadButton::South)), 0x3fe);
    assert_eq!(pad_event(0x3ff, PadEvent::Released(PadButton::Other)), 0x3ff);
}

#[test]
fn each_status_has_its_line() {
    let lines = [
        (Status::Idle, "○", "not linked", Tone::Weak),
        (Status::Signaling, "◌", "contacting server…", Tone::Warning),
        (Status::WaitingForPeer, "◌", "waiting for opponent…", Tone::Warning),
        (
            Status::Connected { side: 0, cross_version: false },
            "●",
            "linked — you are P1",
            Tone::Accent,
        ),
        (
            Status::Connected { side: 1, cross_version: true },
            "●",
            "linked US↔JP — you are P2",
            Tone::Accent,
        ),
        (Status::Lost("gone".to_owned()), "●", "gone", Tone::Danger),
    ];
    for (status, dot, line, tone) in lines {
        let got = status_line(&status);
        assert_eq!(got.0, dot);
        assert_eq!(got.1, line);
        assert!(got.2 == tone);
    }
}

#[test]
fn the_dialog_offers_what_can_be_done() {
    let mut w = World::playing();
    let d = connect_dialog(&w.app, &w.status);
    assert!(d.submits && d.action == Action::Connect(false));
    assert_eq!((d.dot, d.line.as_str()), ("○", "not linked"));
    w.tell(Message::LinkCodeChanged("abc".to_owned()));
    assert!(connect_dialog(&w.app, &w.status).action == Action::Connect(true));
    w.tell(Message::Connect);
    w.status = Status::Signaling;
    let d = connect_dialog(&w.app, &w.status);
    assert!(!d.submits && d.action == Action::Disconnect);
    assert!(d.tone == Tone::Warning);
}

#[test]
fn names_of_files() {
    assert_eq!(save_file_name(None), "bcc.sav");
    assert_eq!(save_file_name(Some("x.sav".to_owned())), "x.sav");
    assert_eq!(file_label(None, "none yet"), ("none yet".to_owned(), false));
    assert_eq!(file_label(Some("a".to_owned()), "none yet"), ("a".to_owned(), true));
}
