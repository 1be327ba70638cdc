//! The program around the link: its two screens, and what each input does.
//!
//! There is a setup screen (pick a ROM and a save, start the game) and the
//! game screen. The moment the game starts connecting, a connect dialog pops
//! up over it and asks for a link code. Cancelling it fails the game's
//! connection attempt, so that the game backs out on its own; when the match
//! ends, or the player leaves the Transmit screen, the connection closes: the
//! cable unplugs itself.
//!
//! [`App`] does no I/O. It takes a [`Message`] and leaves in a [`Todo`] what
//! is to be done about it; what came of that is told by another message.
//! Paths are values of a type `P` that is carried through as it is.

use crate::code::clean_code;
#[allow(unused_imports)]
use crate::code::{code_of, law_codes_are_plain};
use crate::emu::{header_code, identify, supported_titles, Game};
#[allow(unused_imports)]
use crate::emu::{header_bytes, identity, law_identity_goes_by_the_code, shown_code};
use crate::input::{pad_event, Change, PadEvent};
#[allow(unused_imports)]
use crate::hooks::{fired, is_poll, law_dead_transport_backs_out, returned, Hook, COMM_ERROR, STILL_EXCHANGING};
#[allow(unused_imports)]
use crate::input::{held_after, pad_after};
#[allow(unused_imports)]
use crate::link::BlockKind;
use crate::link::Link;
use crate::net::{ConnectParams, Status};
#[allow(unused_imports)]
use crate::net::{is_plain, StatusView};
#[allow(unused_imports)]
use crate::state::LinkState;
#[allow(unused_imports)]
use crate::text::{lemma_visible_ends, trimmed};
use crate::text::{trim, two};
use vstd::prelude::*;
use vstd::string::*;

verus! {

/// What is kept from one run of the program to the next.
pub struct Config<P> {
    pub rom_path: Option<P>,
    pub save_path: Option<P>,
    pub link_code: String,
    pub matchmaking_endpoint: String,
}

/// A [`Config`], with its texts as characters.
#[verifier::ext_equal]
pub struct ConfigView<P> {
    pub rom_path: Option<P>,
    pub save_path: Option<P>,
    pub link_code: Seq<char>,
    pub matchmaking_endpoint: Seq<char>,
}

impl<P> View for Config<P> {
    type V = ConfigView<P>;

    open spec fn view(&self) -> ConfigView<P> {
        ConfigView {
            rom_path: self.rom_path,
            save_path: self.save_path,
            link_code: self.link_code@,
            matchmaking_endpoint: self.matchmaking_endpoint@,
        }
    }
}

/// The matchmaking server that is used unless another is set.
pub open spec fn default_endpoint() -> Seq<char> {
    "wss://matchmaking.tango.n1gp.net"@
}

/// The matchmaking server that is used unless another is set.
pub fn default_matchmaking_endpoint() -> (endpoint: &'static str)
    ensures
        endpoint@ == default_endpoint(),
{
    "wss://matchmaking.tango.n1gp.net"
}

impl<P> Default for Config<P> {
    /// Nothing picked yet, no code, and the usual server.
    fn default() -> (cfg: Config<P>)
        ensures
            cfg@ == (ConfigView::<P> {
                rom_path: None,
                save_path: None,
                link_code: Seq::empty(),
                matchmaking_endpoint: default_endpoint(),
            }),
    {
        Config {
            rom_path: None,
            save_path: None,
            link_code: String::new(),
            matchmaking_endpoint: default_matchmaking_endpoint().to_owned(),
        }
    }
}

/// The program's state.
pub struct App<P> {
    pub cfg: Config<P>,
    /// The game that is running. On the setup screen there is none.
    pub game: Option<Game>,
    /// The buttons held on gamepads, and the keys held on the keyboard.
    pub gamepad_mask: u32,
    pub kb_mask: u32,
    /// There is a connection, or one is being made, and it can be cancelled.
    pub dialing: bool,
    /// There is a picture of the running game to show.
    pub has_screen: bool,
    /// What went wrong last.
    pub error: Option<String>,
    /// The advanced settings are unfolded.
    pub advanced: bool,
    /// The connect dialog is up.
    pub connect_dialog: bool,
    /// The last handshake that the dialog reacted to. A cancelled dialog stays
    /// down until the game opens a new one.
    pub seen_gen: u16,
    /// The game was inside a link session at the last frame. When it leaves,
    /// the connection and the dialog close.
    pub comm_was_active: bool,
}

/// An [`App`], with its texts as characters.
#[verifier::ext_equal]
pub struct AppState<P> {
    pub cfg: ConfigView<P>,
    pub game: Option<Game>,
    pub gamepad_mask: u32,
    pub kb_mask: u32,
    pub dialing: bool,
    pub has_screen: bool,
    pub error: Option<Seq<char>>,
    pub advanced: bool,
    pub connect_dialog: bool,
    pub seen_gen: u16,
    pub comm_was_active: bool,
}

/// A text that may be missing, as characters.
pub open spec fn text_view(text: Option<String>) -> Option<Seq<char>> {
    match text {
        Some(t) => Some(t@),
        None => None,
    }
}

impl<P> View for App<P> {
    type V = AppState<P>;

    open spec fn view(&self) -> AppState<P> {
        AppState {
            cfg: self.cfg@,
            game: self.game,
            gamepad_mask: self.gamepad_mask,
            kb_mask: self.kb_mask,
            dialing: self.dialing,
            has_screen: self.has_screen,
            error: text_view(self.error),
            advanced: self.advanced,
            connect_dialog: self.connect_dialog,
            seen_gen: self.seen_gen,
            comm_was_active: self.comm_was_active,
        }
    }
}

/// What the emulator looked like at a frame.
#[derive(Clone, Copy, PartialEq, Eq, Structural)]
pub struct Sight {
    /// It has crashed.
    pub crashed: bool,
    /// It has drawn since it was last looked at.
    pub dirty: bool,
    /// The game is inside a link session.
    pub comm_active: bool,
}

/// A ROM that was picked.
pub struct Picked<P> {
    pub path: P,
    /// A save file next to it.
    pub save_beside: P,
    /// The path as it is shown.
    pub shown: String,
    /// What is in the file, or why it could not be read.
    pub rom: Result<Vec<u8>, String>,
}

/// Why a game could not be started.
pub enum BootFailure {
    /// The save could not be opened, or the emulator not be started.
    Emulator(String),
    /// Audio paces the emulator: without it the game would hang.
    Audio(String),
    /// There is no audio at all.
    NoAudio,
}

/// What happened.
pub enum Message<P> {
    /// The emulator finished a frame.
    Frame(Sight),
    /// The player wants to pick a ROM.
    PickRom,
    /// The player picked a ROM, or none.
    RomPicked(Option<Picked<P>>),
    /// The player wants to pick a save.
    PickSave,
    /// The player picked a save, or none.
    SavePicked(Option<P>),
    /// The player wants to start the game.
    Play,
    /// The ROM was read so as to start the game. Holds its path as it is shown,
    /// and what is in it or why it could not be read.
    RomRead(String, Result<Vec<u8>, String>),
    /// The game was started, or it was not.
    Booted(Game, Result<(), BootFailure>),
    LinkCodeChanged(String),
    EndpointChanged(String),
    EndpointReset,
    ToggleAdvanced,
    CloseConnectDialog,
    Connect,
    Disconnect,
    /// A key went down or came up, on the keyboard.
    Key(Change),
    /// A button went down or came up, on a gamepad.
    Pad(PadEvent),
    /// The window is to be closed.
    CloseRequested,
}

/// What a player is asked to pick.
#[derive(Clone, Copy, PartialEq, Eq, Structural)]
pub enum Picker {
    Rom,
    Save,
}

/// What is to be done, in the order of the fields.
pub struct Todo {
    /// Cancel the connection that there is.
    pub cancel: bool,
    /// Stop the audio, then the emulator, and forget its picture.
    pub end_game: bool,
    /// Stop the audio.
    pub drop_audio: bool,
    /// Ask the player for a file.
    pub pick: Option<Picker>,
    /// Read the ROM.
    pub read_rom: bool,
    /// Start this game, with its save and its audio.
    pub boot: Option<Game>,
    /// Make a connection.
    pub dial: Option<ConnectParams>,
    /// Take the emulator's picture and show it.
    pub redraw: bool,
    /// Put the cursor where the link code is typed.
    pub focus_code: bool,
    /// Save the config.
    pub save_config: bool,
    /// Close the window.
    pub close_window: bool,
}

/// What a connection is made with, with its texts as characters.
#[verifier::ext_equal]
pub struct ParamsView {
    pub endpoint: Seq<char>,
    pub link_code: Seq<char>,
    pub rom_crc32: u32,
}

impl View for ConnectParams {
    type V = ParamsView;

    open spec fn view(&self) -> ParamsView {
        ParamsView {
            endpoint: self.endpoint@,
            link_code: self.link_code@,
            rom_crc32: self.rom_crc32,
        }
    }
}

/// A [`Todo`], with its texts as characters.
#[verifier::ext_equal]
pub struct TodoView {
    pub cancel: bool,
    pub end_game: bool,
    pub drop_audio: bool,
    pub pick: Option<Picker>,
    pub read_rom: bool,
    pub boot: Option<Game>,
    pub dial: Option<ParamsView>,
    pub redraw: bool,
    pub focus_code: bool,
    pub save_config: bool,
    pub close_window: bool,
}

impl View for Todo {
    type V = TodoView;

    open spec fn view(&self) -> TodoView {
        TodoView {
            cancel: self.cancel,
            end_game: self.end_game,
            drop_audio: self.drop_audio,
            pick: self.pick,
            read_rom: self.read_rom,
            boot: self.boot,
            dial: match self.dial {
                Some(params) => Some(params@),
                None => None,
            },
            redraw: self.redraw,
            focus_code: self.focus_code,
            save_config: self.save_config,
            close_window: self.close_window,
        }
    }
}

impl TodoView {
    /// Nothing is to be done.
    pub open spec fn nothing() -> TodoView {
        TodoView {
            cancel: false,
            end_game: false,
            drop_audio: false,
            pick: None,
            read_rom: false,
            boot: None,
            dial: None,
            redraw: false,
            focus_code: false,
            save_config: false,
            close_window: false,
        }
    }
}

impl Todo {
    fn nothing() -> (todo: Todo)
        ensures
            todo@ == TodoView::nothing(),
    {
        Todo {
            cancel: false,
            end_game: false,
            drop_audio: false,
            pick: None,
            read_rom: false,
            boot: None,
            dial: None,
            redraw: false,
            focus_code: false,
            save_config: false,
            close_window: false,
        }
    }
}

/// The program, the link, the connection's status, and what is to be done.
#[verifier::ext_equal]
pub struct Step<P> {
    pub app: AppState<P>,
    pub link: LinkState,
    pub status: StatusView,
    pub todo: TodoView,
}

/// Why a game could not be started, as the player is told.
pub open spec fn boot_failure_text(failure: BootFailure) -> Seq<char> {
    match failure {
        BootFailure::Emulator(e) => e@,
        BootFailure::Audio(e) => "audio: "@ + e@,
        BootFailure::NoAudio => "SDL audio unavailable; can't run"@,
    }
}

/// A picked ROM is none of the games, as the player is told.
pub open spec fn wrong_rom_text(shown: Seq<char>) -> Seq<char> {
    shown + " doesn't look like "@ + "Battle Chip Challenge (US) / Battle Chip GP (JP)"@
}

impl<P> AppState<P> {
    /// Only a running game has a picture or a connection.
    pub open spec fn inv(self) -> bool {
        &&& self.has_screen ==> self.game is Some
        &&& self.dialing ==> self.game is Some
    }

    /// A connection is being made or has been, and has not failed.
    pub open spec fn is_connecting(self, status: StatusView) -> bool {
        self.dialing && !(status is Idle) && !(status is Lost)
    }

    /// The program with this error to show.
    pub open spec fn failed(self, error: Seq<char>) -> AppState<P> {
        AppState { error: Some(error), ..self }
    }
}

impl<P> Step<P> {
    /// All four together.
    pub open spec fn of(
        app: AppState<P>,
        link: LinkState,
        status: StatusView,
        todo: TodoView,
    ) -> Step<P> {
        Step { app, link, status, todo }
    }

    /// Close the connection, if there is one. An in-battle game then backs
    /// out through its own comm-error path rather than wait at a barrier.
    pub open spec fn hung_up(self) -> Step<P> {
        if self.app.dialing {
            Step {
                app: AppState { dialing: false, ..self.app },
                link: self.link.unplugged(),
                status: StatusView::Idle,
                todo: TodoView { cancel: true, ..self.todo },
            }
        } else {
            self
        }
    }

    /// Back to the setup screen.
    pub open spec fn stopped(self) -> Step<P> {
        let s = self.hung_up();
        Step {
            app: AppState { connect_dialog: false, has_screen: false, game: None, ..s.app },
            todo: TodoView { end_game: true, ..s.todo },
            ..s
        }
    }

    /// A frame of the emulator: a crash ends the game, and a new picture, or
    /// the first one, is shown.
    pub open spec fn framed(self, sight: Sight) -> Step<P> {
        if self.app.game is None {
            self
        } else if sight.crashed {
            let s = self.stopped();
            Step { app: s.app.failed("emulator crashed"@), ..s }
        } else if sight.dirty || !self.app.has_screen {
            Step {
                app: AppState { has_screen: true, ..self.app },
                todo: TodoView { redraw: true, ..self.todo },
                ..self
            }
        } else {
            self
        }
    }

    /// The game left its link session: the connection and the dialog close.
    pub open spec fn left(self, active: bool) -> Step<P> {
        let s = if self.app.comm_was_active && !active {
            let s = self.hung_up();
            Step { app: AppState { connect_dialog: false, ..s.app }, ..s }
        } else {
            self
        };
        Step { app: AppState { comm_was_active: active, ..s.app }, ..s }
    }

    /// The dialog drops once the link is up, and pops up at a new handshake
    /// without a link.
    pub open spec fn popped(self) -> Step<P> {
        let up = self.app.connect_dialog && !(self.status is Connected);
        let fresh = self.link.gen != self.app.seen_gen;
        let pops = fresh && !(self.status is Connected) && !up;
        Step {
            app: AppState { connect_dialog: up || pops, seen_gen: self.link.gen, ..self.app },
            todo: TodoView { focus_code: self.todo.focus_code || pops, ..self.todo },
            ..self
        }
    }

    /// The link's bookkeeping at a frame.
    pub open spec fn ticked(self, comm_active: bool) -> Step<P> {
        self.left(self.app.game is Some && comm_active).popped()
    }

    /// Make a connection for the running game under the link code, if both
    /// are there.
    pub open spec fn dialed(self) -> Step<P> {
        match self.app.game {
            Some(game) if trimmed(self.app.cfg.link_code).len() > 0 => {
                let s = self.hung_up();
                Step {
                    app: AppState { dialing: true, error: None, ..s.app },
                    todo: TodoView {
                        dial: Some(
                            ParamsView {
                                endpoint: s.app.cfg.matchmaking_endpoint,
                                link_code: s.app.cfg.link_code,
                                rom_crc32: game.checksum(),
                            },
                        ),
                        save_config: true,
                        ..s.todo
                    },
                    ..s
                }
            },
            _ => self,
        }
    }

    /// A game could not be started.
    pub open spec fn not_started(self, error: Seq<char>) -> Step<P> {
        Step {
            app: self.app.failed(error),
            todo: TodoView { drop_audio: true, ..self.todo },
            ..self
        }
    }

    /// A ROM was picked.
    pub open spec fn rom_picked(self, picked: Picked<P>) -> Step<P> {
        Step {
            app: match picked.rom {
                Ok(rom) => if identity(rom@) is Some {
                    AppState {
                        cfg: ConfigView {
                            rom_path: Some(picked.path),
                            save_path: if self.app.cfg.save_path is None {
                                Some(picked.save_beside)
                            } else {
                                self.app.cfg.save_path
                            },
                            ..self.app.cfg
                        },
                        error: None,
                        ..self.app
                    }
                } else {
                    self.app.failed(wrong_rom_text(picked.shown@))
                },
                Err(e) => self.app.failed(picked.shown@ + ": "@ + e@),
            },
            ..self
        }
    }

    /// The game is to be started.
    pub open spec fn played(self) -> Step<P> {
        if self.app.cfg.rom_path is None {
            self.not_started("pick a ROM"@)
        } else if self.app.cfg.save_path is None {
            self.not_started("pick a save"@)
        } else {
            Step {
                app: AppState { error: None, ..self.app },
                todo: TodoView { read_rom: true, ..self.todo },
                ..self
            }
        }
    }

    /// The ROM was read so as to start the game.
    pub open spec fn rom_read(self, shown: Seq<char>, rom: Result<Vec<u8>, String>) -> Step<P> {
        match rom {
            Ok(rom) => match identity(rom@) {
                Some(game) => Step { todo: TodoView { boot: Some(game), ..self.todo }, ..self },
                None => self.not_started(
                    wrong_rom_text(shown) + ": game code "@ + shown_code(rom@),
                ),
            },
            Err(e) => self.not_started(e@),
        }
    }

    /// The game was started, or it was not. The link, and its handshakes,
    /// outlive the games, so that an earlier game's last handshake must not
    /// pop up the dialog the moment this one starts.
    pub open spec fn booted(self, game: Game, outcome: Result<(), BootFailure>) -> Step<P> {
        match outcome {
            Ok(()) => Step {
                app: AppState {
                    game: Some(game),
                    seen_gen: self.link.gen,
                    comm_was_active: false,
                    ..self.app
                },
                todo: TodoView { save_config: true, ..self.todo },
                ..self
            },
            Err(failure) => self.not_started(boot_failure_text(failure)),
        }
    }

    /// The dialog was closed. Without a link the game is sitting at its
    /// connecting screen with no way forward, so any dial in progress is
    /// aborted and the link fails.
    pub open spec fn dismissed(self) -> Step<P> {
        let s = Step { app: AppState { connect_dialog: false, ..self.app }, ..self };
        if self.status is Connected {
            s
        } else {
            let s = s.hung_up();
            Step { link: s.link.unplugged(), ..s }
        }
    }

    /// The program with another config.
    pub open spec fn with_cfg(self, cfg: ConfigView<P>) -> Step<P> {
        Step { app: AppState { cfg, ..self.app }, ..self }
    }

    /// What a message leads to.
    pub open spec fn updated(self, message: Message<P>) -> Step<P> {
        match message {
            Message::Frame(sight) => self.framed(sight).ticked(sight.comm_active),
            Message::PickRom => Step {
                todo: TodoView { pick: Some(Picker::Rom), ..self.todo },
                ..self
            },
            Message::RomPicked(Some(picked)) => self.rom_picked(picked),
            Message::PickSave => Step {
                todo: TodoView { pick: Some(Picker::Save), ..self.todo },
                ..self
            },
            Message::SavePicked(Some(path)) => self.with_cfg(
                ConfigView { save_path: Some(path), ..self.app.cfg },
            ),
            Message::RomPicked(None) => self,
            Message::SavePicked(None) => self,
            Message::Play => self.played(),
            Message::RomRead(shown, rom) => self.rom_read(shown@, rom),
            Message::Booted(game, outcome) => self.booted(game, outcome),
            Message::LinkCodeChanged(typed) => self.with_cfg(
                ConfigView { link_code: code_of(typed@), ..self.app.cfg },
            ),
            Message::EndpointChanged(endpoint) => self.with_cfg(
                ConfigView { matchmaking_endpoint: endpoint@, ..self.app.cfg },
            ),
            Message::EndpointReset => self.with_cfg(
                ConfigView { matchmaking_endpoint: default_endpoint(), ..self.app.cfg },
            ),
            Message::ToggleAdvanced => Step {
                app: AppState { advanced: !self.app.advanced, ..self.app },
                ..self
            },
            Message::CloseConnectDialog => self.dismissed(),
            Message::Connect => if self.app.is_connecting(self.status) {
                self
            } else {
                self.dialed()
            },
            Message::Disconnect => self.hung_up(),
            Message::Key(change) => Step {
                app: AppState { kb_mask: held_after(self.app.kb_mask, change), ..self.app },
                ..self
            },
            Message::Pad(event) => Step {
                app: AppState {
                    gamepad_mask: pad_after(self.app.gamepad_mask, event),
                    ..self.app
                },
                ..self
            },
            Message::CloseRequested => {
                let s = self.hung_up().stopped();
                Step {
                    todo: TodoView { save_config: true, close_window: true, ..s.todo },
                    ..s
                }
            },
        }
    }
}

impl<P> App<P> {
    /// The state is sound.
    pub open spec fn wf(&self) -> bool {
        self@.inv()
    }

    /// The program on its setup screen.
    pub fn new(cfg: Config<P>) -> (app: App<P>)
        ensures
            app.wf(),
            app@ == (AppState {
                cfg: cfg@,
                game: None,
                gamepad_mask: 0,
                kb_mask: 0,
                dialing: false,
                has_screen: false,
                error: None,
                advanced: false,
                connect_dialog: false,
                seen_gen: 0,
                comm_was_active: false,
            }),
    {
        App {
            cfg,
            game: None,
            gamepad_mask: 0,
            kb_mask: 0,
            dialing: false,
            has_screen: false,
            error: None,
            advanced: false,
            connect_dialog: false,
            seen_gen: 0,
            comm_was_active: false,
        }
    }

    /// The keys that the emulator is to see as held, if there is one.
    pub fn keys(&self) -> (keys: Option<u32>)
        ensures
            keys == (if self@.game is Some {
                Some(self@.kb_mask | self@.gamepad_mask)
            } else {
                None
            }),
    {
        if self.game.is_some() {
            Some(self.kb_mask | self.gamepad_mask)
        } else {
            None
        }
    }

    /// A connection is being made or has been, and has not failed: the dialog
    /// then offers to disconnect rather than to connect.
    pub fn connecting(&self, status: &Status) -> (connecting: bool)
        ensures
            connecting == self@.is_connecting(status@),
    {
        self.dialing && !matches!(status, Status::Idle | Status::Lost(_))
    }

    fn disconnect(&mut self, link: &mut Link, status: &mut Status, todo: &mut Todo)
        requires
            old(self).wf(),
            old(link).wf(),
        ensures
            final(self).wf(),
            final(link).wf(),
            Step::of(final(self)@, final(link)@, final(status)@, final(todo)@) == Step::of(
                old(self)@,
                old(link)@,
                old(status)@,
                old(todo)@,
            ).hung_up(),
    {
        if self.dialing {
            self.dialing = false;
            todo.cancel = true;
            link.set_error();
            *status = Status::Idle;
        }
    }

    fn stop(&mut self, link: &mut Link, status: &mut Status, todo: &mut Todo)
        requires
            old(self).wf(),
            old(link).wf(),
        ensures
            final(self).wf(),
            final(link).wf(),
            Step::of(final(self)@, final(link)@, final(status)@, final(todo)@) == Step::of(
                old(self)@,
                old(link)@,
                old(status)@,
                old(todo)@,
            ).stopped(),
    {
        self.disconnect(link, status, todo);
        self.connect_dialog = false;
        todo.end_game = true;
        self.has_screen = false;
        self.game = None;
    }

    fn on_frame(&mut self, sight: Sight, link: &mut Link, status: &mut Status, todo: &mut Todo)
        requires
            old(self).wf(),
            old(link).wf(),
        ensures
            final(self).wf(),
            final(link).wf(),
            Step::of(final(self)@, final(link)@, final(status)@, final(todo)@) == Step::of(
                old(self)@,
                old(link)@,
                old(status)@,
                old(todo)@,
            ).framed(sight),
    {
        if self.game.is_none() {
            return;
        }
        if sight.crashed {
            self.stop(link, status, todo);
            self.error = Some("emulator crashed".to_owned());
            return;
        }
        if !sight.dirty && self.has_screen {
            return;
        }
        self.has_screen = true;
        todo.redraw = true;
    }

    fn leave(&mut self, active: bool, link: &mut Link, status: &mut Status, todo: &mut Todo)
        requires
            old(self).wf(),
            old(link).wf(),
        ensures
            final(self).wf(),
            final(link).wf(),
            Step::of(final(self)@, final(link)@, final(status)@, final(todo)@) == Step::of(
                old(self)@,
                old(link)@,
                old(status)@,
                old(todo)@,
            ).left(active),
    {
        if self.comm_was_active && !active {
            self.disconnect(link, status, todo);
            self.connect_dialog = false;
        }
        self.comm_was_active = active;
    }

    fn pop(&mut self, link: &Link, status: &Status, todo: &mut Todo)
        requires
            old(self).wf(),
            link.wf(),
        ensures
            final(self).wf(),
            Step::of(final(self)@, link@, status@, final(todo)@) == Step::of(
                old(self)@,
                link@,
                status@,
                old(todo)@,
            ).popped(),
    {
        let connected = matches!(status, Status::Connected { .. });
        if self.connect_dialog && connected {
            self.connect_dialog = false;
        }
        let gen: u16 = link.handshake_gen();
        if gen != self.seen_gen {
            self.seen_gen = gen;
            if !connected && !self.connect_dialog {
                self.connect_dialog = true;
                todo.focus_code = true;
            }
        }
    }

    fn dialog_tick(
        &mut self,
        comm_active: bool,
        link: &mut Link,
        status: &mut Status,
        todo: &mut Todo,
    )
        requires
            old(self).wf(),
            old(link).wf(),
        ensures
            final(self).wf(),
            final(link).wf(),
            Step::of(final(self)@, final(link)@, final(status)@, final(todo)@) == Step::of(
                old(self)@,
                old(link)@,
                old(status)@,
                old(todo)@,
            ).ticked(comm_active),
    {
        let active = self.game.is_some() && comm_active;
        self.leave(active, link, status, todo);
        self.pop(link, status, todo);
    }

    fn connect(&mut self, link: &mut Link, status: &mut Status, todo: &mut Todo)
        requires
            old(self).wf(),
            old(link).wf(),
        ensures
            final(self).wf(),
            final(link).wf(),
            Step::of(final(self)@, final(link)@, final(status)@, final(todo)@) == Step::of(
                old(self)@,
                old(link)@,
                old(status)@,
                old(todo)@,
            ).dialed(),
    {
        let game: Game = match self.game {
            Some(game) => game,
            None => {
                return;
            },
        };
        if trim(self.cfg.link_code.as_str()).is_empty() {
            return;
        }
        self.disconnect(link, status, todo);
        self.error = None;
        todo.dial = Some(
            ConnectParams {
                endpoint: self.cfg.matchmaking_endpoint.clone(),
                link_code: self.cfg.link_code.clone(),
                rom_crc32: game.crc32(),
            },
        );
        self.dialing = true;
        todo.save_config = true;
    }

    fn not_started(&mut self, error: String, todo: &mut Todo)
        ensures
            final(self)@ == old(self)@.failed(error@),
            final(todo)@ == (TodoView { drop_audio: true, ..old(todo)@ }),
    {
        todo.drop_audio = true;
        self.error = Some(error);
    }

    fn rom_picked(&mut self, picked: Picked<P>)
        requires
            old(self).wf(),
        ensures
            final(self).wf(),
            forall|link: LinkState, status: StatusView, todo: TodoView|
                Step::of(final(self)@, link, status, todo) == #[trigger] Step::of(
                    old(self)@,
                    link,
                    status,
                    todo,
                ).rom_picked(picked),
    {
        match picked.rom {
            Ok(rom) => {
                if identify(rom.as_slice()).is_some() {
                    if self.cfg.save_path.is_none() {
                        self.cfg.save_path = Some(picked.save_beside);
                    }
                    self.cfg.rom_path = Some(picked.path);
                    self.error = None;
                } else {
                    let mut text = two(picked.shown.as_str(), " doesn't look like ");
                    text.append(supported_titles());
                    self.error = Some(text);
                }
            },
            Err(e) => {
                let mut text = two(picked.shown.as_str(), ": ");
                text.append(e.as_str());
                self.error = Some(text);
            },
        }
    }

    #[verifier::rlimit(30)]
    fn play(&mut self, todo: &mut Todo)
        requires
            old(self).wf(),
        ensures
            final(self).wf(),
            forall|link: LinkState, status: StatusView|
                Step::of(final(self)@, link, status, final(todo)@) == #[trigger] Step::of(
                    old(self)@,
                    link,
                    status,
                    old(todo)@,
                ).played(),
    {
        self.error = None;
        if self.cfg.rom_path.is_none() {
            self.not_started("pick a ROM".to_owned(), todo);
        } else if self.cfg.save_path.is_none() {
            self.not_started("pick a save".to_owned(), todo);
        } else {
            todo.read_rom = true;
        }
    }

    fn rom_read(&mut self, shown: String, rom: Result<Vec<u8>, String>, todo: &mut Todo)
        requires
            old(self).wf(),
        ensures
            final(self).wf(),
            forall|link: LinkState, status: StatusView|
                Step::of(final(self)@, link, status, final(todo)@) == #[trigger] Step::of(
                    old(self)@,
                    link,
                    status,
                    old(todo)@,
                ).rom_read(shown@, rom),
    {
        match rom {
            Ok(rom) => match identify(rom.as_slice()) {
                Some(game) => {
                    todo.boot = Some(game);
                },
                None => {
                    let mut text = two(shown.as_str(), " doesn't look like ");
                    text.append(supported_titles());
                    text.append(": game code ");
                    let code = header_code(rom.as_slice());
                    text.append(code.as_str());
                    self.not_started(text, todo);
                },
            },
            Err(e) => self.not_started(e, todo),
        }
    }

    fn booted(
        &mut self,
        game: Game,
        outcome: Result<(), BootFailure>,
        link: &Link,
        todo: &mut Todo,
    )
        requires
            old(self).wf(),
            link.wf(),
        ensures
            final(self).wf(),
            forall|status: StatusView|
                Step::of(final(self)@, link@, status, final(todo)@) == #[trigger] Step::of(
                    old(self)@,
                    link@,
                    status,
                    old(todo)@,
                ).booted(game, outcome),
    {
        match outcome {
            Ok(()) => {
                self.game = Some(game);
                todo.save_config = true;
                self.seen_gen = link.handshake_gen();
                self.comm_was_active = false;
            },
            Err(BootFailure::Emulator(e)) => self.not_started(e, todo),
            Err(BootFailure::Audio(e)) => self.not_started(two("audio: ", e.as_str()), todo),
            Err(BootFailure::NoAudio) => {
                self.not_started("SDL audio unavailable; can't run".to_owned(), todo)
            },
        }
    }

    /// Take a message, and say what is to be done about it.
    #[verifier::rlimit(30)]
    pub fn update(&mut self, message: Message<P>, link: &mut Link, status: &mut Status) -> (todo:
        Todo)
        requires
            old(self).wf(),
            old(link).wf(),
        ensures
            final(self).wf(),
            final(link).wf(),
            Step::of(final(self)@, final(link)@, final(status)@, todo@) == Step::of(
                old(self)@,
                old(link)@,
                old(status)@,
                TodoView::nothing(),
            ).updated(message),
            message is Connect && old(self)@.game is Some && !old(self)@.is_connecting(old(status)@)
                && old(self)@.cfg.link_code.len() > 0 && is_plain(old(self)@.cfg.link_code)
                ==> todo@.dial is Some,
    {
        proof {
            if is_plain(self@.cfg.link_code) {
                lemma_visible_ends(self@.cfg.link_code);
            }
        }
        let mut todo = Todo::nothing();
        match message {
            Message::Frame(sight) => {
                self.on_frame(sight, link, status, &mut todo);
                self.dialog_tick(sight.comm_active, link, status, &mut todo);
            },
            Message::PickRom => {
                todo.pick = Some(Picker::Rom);
            },
            Message::RomPicked(Some(picked)) => self.rom_picked(picked),
            Message::PickSave => {
                todo.pick = Some(Picker::Save);
            },
            Message::SavePicked(Some(path)) => {
                self.cfg.save_path = Some(path);
            },
            Message::RomPicked(None) => {},
            Message::SavePicked(None) => {},
            Message::Play => self.play(&mut todo),
            Message::RomRead(shown, rom) => self.rom_read(shown, rom, &mut todo),
            Message::Booted(game, outcome) => self.booted(game, outcome, link, &mut todo),
            Message::LinkCodeChanged(typed) => {
                self.cfg.link_code = clean_code(typed.as_str());
            },
            Message::EndpointChanged(endpoint) => {
                self.cfg.matchmaking_endpoint = endpoint;
            },
            Message::EndpointReset => {
                self.cfg.matchmaking_endpoint = default_matchmaking_endpoint().to_owned();
            },
            Message::ToggleAdvanced => {
                self.advanced = !self.advanced;
            },
            Message::CloseConnectDialog => {
                self.connect_dialog = false;
                if !matches!(status, Status::Connected { .. }) {
                    self.disconnect(link, status, &mut todo);
                    link.set_error();
                }
            },
            Message::Connect => {
                if !self.connecting(status) {
                    self.connect(link, status, &mut todo);
                }
            },
            Message::Disconnect => self.disconnect(link, status, &mut todo),
            Message::Key(Change::Down(bit)) => {
                self.kb_mask = self.kb_mask | bit;
            },
            Message::Key(Change::Up(bit)) => {
                self.kb_mask = self.kb_mask & !bit;
            },
            Message::Pad(event) => {
                self.gamepad_mask = pad_event(self.gamepad_mask, event);
            },
            Message::CloseRequested => {
                self.disconnect(link, status, &mut todo);
                self.stop(link, status, &mut todo);
                todo.save_config = true;
                todo.close_window = true;
            },
        }
        todo
    }
}

/// A frame pops the dialog up only if the game has opened a new handshake: a
/// cancelled dialog stays down.
pub proof fn law_cancelled_dialog_stays_down<P>(s: Step<P>, sight: Sight)
    requires
        !s.app.connect_dialog,
        s.link.gen == s.app.seen_gen,
    ensures
        !s.updated(Message::Frame(sight)).app.connect_dialog,
        s.updated(Message::Frame(sight)).link.gen == s.updated(
            Message::Frame(sight),
        ).app.seen_gen,
{
}

/// The moment the game opens a new handshake without a link, the dialog is
/// up; and it has then reacted to that handshake.
pub proof fn law_new_handshake_pops_the_dialog<P>(s: Step<P>, sight: Sight)
    requires
        s.link.gen != s.app.seen_gen,
        !(s.status is Connected),
    ensures
        s.updated(Message::Frame(sight)).app.connect_dialog,
        s.updated(Message::Frame(sight)).app.seen_gen == s.link.gen,
        !s.app.connect_dialog ==> s.updated(Message::Frame(sight)).todo.focus_code,
{
}

/// The dialog drops once the link is up.
pub proof fn law_live_link_drops_the_dialog<P>(s: Step<P>, sight: Sight)
    requires
        s.status is Connected,
        s.app.game is Some,
        !sight.crashed,
        sight.comm_active,
    ensures
        !s.updated(Message::Frame(sight)).app.connect_dialog,
        s.updated(Message::Frame(sight)).status == s.status,
        s.updated(Message::Frame(sight)).link == s.link,
{
}

/// When the game leaves its link session, the cable unplugs itself: the
/// connection is cancelled, and the dialog goes with it unless a new
/// handshake has been opened meanwhile.
pub proof fn law_leaving_unplugs_the_cable<P>(s: Step<P>, sight: Sight)
    requires
        s.app.comm_was_active,
        !sight.comm_active,
    ensures
        ({
            let t = s.updated(Message::Frame(sight));
            &&& !t.app.dialing
            &&& s.app.dialing ==> t.todo.cancel && t.link.error && t.status is Idle
            &&& s.link.gen == s.app.seen_gen ==> !t.app.connect_dialog
        }),
{
}

/// Cancelling the dialog without a link fails the game's connection attempt:
/// every phase and every poll of the game returns `-2` from then on, until the
/// link comes up or the game opens another handshake.
pub proof fn law_cancelling_fails_the_attempt<P>(
    s: Step<P>,
    hook: Hook,
    comm_struct: u32,
    r0: u32,
    staged: Seq<u8>,
)
    requires
        !(s.status is Connected),
        is_poll(hook),
    ensures
        ({
            let t = s.updated(Message::CloseConnectDialog);
            &&& !t.app.connect_dialog
            &&& !t.app.dialing
            &&& t.todo.cancel == (s.todo.cancel || s.app.dialing)
            &&& fired(hook, comm_struct, t.link, r0, staged) == returned(t.link, COMM_ERROR)
        }),
{
    law_dead_transport_backs_out(
        hook,
        comm_struct,
        s.updated(Message::CloseConnectDialog).link,
        r0,
        staged,
    );
}

/// The next handshake after a cancelled dialog starts clean: the game's mode
/// poll holds it at its connecting screen, as long as no mode of the peer is
/// there, and the dialog pops up again for it.
pub proof fn law_cancelling_lets_the_next_handshake_wait<P>(
    s: Step<P>,
    comm_struct: u32,
    mode: u32,
    r0: u32,
    staged: Seq<u8>,
    sight: Sight,
)
    requires
        !(s.status is Connected),
        s.link.gen < u16::MAX,
        s.link.gen == s.app.seen_gen,
        fired(
            Hook::DrvALoader,
            comm_struct,
            s.updated(Message::CloseConnectDialog).link,
            mode,
            staged,
        ).link.visible(BlockKind::Mode) is None,
    ensures
        ({
            let t = s.updated(Message::CloseConnectDialog);
            let link = fired(Hook::DrvALoader, comm_struct, t.link, mode, staged).link;
            &&& fired(Hook::DrvA, comm_struct, link, r0, staged) == returned(
                link,
                STILL_EXCHANGING,
            )
            &&& (Step { link, ..t }).updated(Message::Frame(sight)).app.connect_dialog
        }),
{
}

/// Closing the dialog over a live link leaves the link alone.
pub proof fn law_closing_keeps_a_live_link<P>(s: Step<P>)
    requires
        s.status is Connected,
    ensures
        s.updated(Message::CloseConnectDialog) == (Step {
            app: AppState { connect_dialog: false, ..s.app },
            ..s
        }),
{
}

/// While a connection is being made, or is there, another is not begun.
pub proof fn law_connecting_twice_dials_once<P>(s: Step<P>)
    requires
        s.app.is_connecting(s.status),
    ensures
        s.updated(Message::Connect) == s,
{
}

/// A connection is made for the running game under the code that was typed,
/// and an earlier one is cancelled first.
pub proof fn law_connection_goes_by_the_code<P>(s: Step<P>, typed: String, game: Game)
    requires
        s.app.game == Some(game),
        !s.app.is_connecting(s.status),
        code_of(typed@).len() > 0,
    ensures
        ({
            let t = s.updated(Message::LinkCodeChanged(typed)).updated(Message::Connect);
            &&& t.app.dialing
            &&& t.todo.dial == Some(
                ParamsView {
                    endpoint: s.app.cfg.matchmaking_endpoint,
                    link_code: code_of(typed@),
                    rom_crc32: game.checksum(),
                },
            )
            &&& s.app.dialing ==> t.todo.cancel
        }),
{
    law_codes_are_plain(typed@);
    lemma_visible_ends(code_of(typed@));
}

/// Without a running game, or with a blank code, nothing is dialed.
pub proof fn law_nothing_to_connect<P>(s: Step<P>)
    requires
        s.app.game is None || trimmed(s.app.cfg.link_code).len() == 0,
    ensures
        s.updated(Message::Connect) == s,
{
}

/// Disconnecting twice is disconnecting once, and no connection is left.
pub proof fn law_disconnecting_is_final<P>(s: Step<P>)
    ensures
        !s.updated(Message::Disconnect).app.dialing,
        s.updated(Message::Disconnect).updated(Message::Disconnect) == s.updated(
            Message::Disconnect,
        ),
{
}

/// A crash ends the game: the setup screen is back and says so, and nothing
/// of the game is left.
pub proof fn law_crash_ends_the_game<P>(s: Step<P>, sight: Sight)
    requires
        s.app.game is Some,
        sight.crashed,
    ensures
        ({
            let t = s.updated(Message::Frame(sight));
            &&& t.app.game is None
            &&& !t.app.has_screen
            &&& !t.app.dialing
            &&& t.app.error == Some("emulator crashed"@)
            &&& t.todo.end_game
        }),
{
}

/// Closing the window tears everything down and saves the config.
pub proof fn law_closing_tears_down<P>(s: Step<P>)
    ensures
        ({
            let t = s.updated(Message::CloseRequested);
            &&& t.app.game is None
            &&& !t.app.has_screen
            &&& !t.app.dialing
            &&& !t.app.connect_dialog
            &&& t.app.cfg == s.app.cfg
            &&& s.app.dialing ==> t.todo.cancel && t.link.error
            &&& t.todo.end_game && t.todo.save_config && t.todo.close_window
        }),
{
}

/// A game that was just started does not pop the dialog up for a handshake of
/// an earlier one.
pub proof fn law_new_game_forgets_old_handshakes<P>(s: Step<P>, game: Game, sight: Sight)
    requires
        !s.app.connect_dialog,
    ensures
        !s.updated(Message::Booted(game, Ok(()))).updated(
            Message::Frame(sight),
        ).app.connect_dialog,
{
}

/// One pick of a right ROM is enough to start: the save defaults to sit next
/// to it, and one that was picked before stays.
pub proof fn law_one_pick_is_enough<P>(s: Step<P>, picked: Picked<P>, rom: Vec<u8>)
    requires
        picked.rom == Ok::<Vec<u8>, String>(rom),
        identity(rom@) is Some,
    ensures
        ({
            let t = s.updated(Message::RomPicked(Some(picked)));
            &&& t.app.cfg.rom_path == Some(picked.path)
            &&& t.app.cfg.save_path == (if s.app.cfg.save_path is Some {
                s.app.cfg.save_path
            } else {
                Some(picked.save_beside)
            })
            &&& t.app.error is None
            &&& t.updated(Message::Play).todo.read_rom
        }),
{
}

/// A wrong pick is flagged and changes nothing else.
pub proof fn law_wrong_pick_is_flagged<P>(s: Step<P>, picked: Picked<P>)
    requires
        picked.rom matches Ok(rom) ==> identity(rom@) is None,
    ensures
        s.updated(Message::RomPicked(Some(picked))).app.error is Some,
        s.updated(Message::RomPicked(Some(picked))) == (Step {
            app: AppState {
                error: s.updated(Message::RomPicked(Some(picked))).app.error,
                ..s.app
            },
            ..s
        }),
{
}

proof fn lemma_hanging_up_keeps_inv<P>(s: Step<P>)
    requires
        s.app.inv(),
    ensures
        s.hung_up().app.inv(),
        s.stopped().app.inv(),
        s.dismissed().app.inv(),
        s.hung_up().stopped().app.inv(),
{
}

proof fn lemma_dialing_keeps_inv<P>(s: Step<P>)
    requires
        s.app.inv(),
    ensures
        s.dialed().app.inv(),
{
}

proof fn lemma_frames_keep_inv<P>(s: Step<P>, sight: Sight)
    requires
        s.app.inv(),
    ensures
        s.framed(sight).app.inv(),
{
}

proof fn lemma_ticks_keep_inv<P>(s: Step<P>, comm_active: bool)
    requires
        s.app.inv(),
    ensures
        s.ticked(comm_active).app.inv(),
{
}

proof fn lemma_picking_keeps_inv<P>(s: Step<P>, picked: Picked<P>)
    requires
        s.app.inv(),
    ensures
        s.rom_picked(picked).app.inv(),
{
}

proof fn lemma_playing_keeps_inv<P>(s: Step<P>)
    requires
        s.app.inv(),
    ensures
        s.played().app.inv(),
{
}

proof fn lemma_reading_keeps_inv<P>(s: Step<P>, shown: Seq<char>, rom: Result<Vec<u8>, String>)
    requires
        s.app.inv(),
    ensures
        s.rom_read(shown, rom).app.inv(),
{
}

proof fn lemma_booting_keeps_inv<P>(s: Step<P>, game: Game, outcome: Result<(), BootFailure>)
    requires
        s.app.inv(),
    ensures
        s.booted(game, outcome).app.inv(),
{
}

/// The soundness of the state outlasts every message.
pub proof fn law_updates_keep_inv<P>(s: Step<P>, message: Message<P>)
    requires
        s.app.inv(),
    ensures
        s.updated(message).app.inv(),
{
    match message {
        Message::Frame(sight) => {
            lemma_frames_keep_inv(s, sight);
            lemma_ticks_keep_inv(s.framed(sight), sight.comm_active);
        },
        Message::RomPicked(Some(picked)) => {
            lemma_picking_keeps_inv(s, picked);
        },
        Message::Play => {
            lemma_playing_keeps_inv(s);
        },
        Message::RomRead(shown, rom) => {
            lemma_reading_keeps_inv(s, shown@, rom);
        },
        Message::Booted(game, outcome) => {
            lemma_booting_keeps_inv(s, game, outcome);
        },
        Message::Connect => {
            lemma_dialing_keeps_inv(s);
        },
        Message::CloseConnectDialog => {
            lemma_hanging_up_keeps_inv(s);
        },
        Message::Disconnect => {
            lemma_hanging_up_keeps_inv(s);
        },
        Message::CloseRequested => {
            lemma_hanging_up_keeps_inv(s);
        },
        _ => {},
    }
}

/// The program's state, its config and what is to be done are seen as they
/// are.
pub proof fn law_states_are_what_they_hold<P>(
    app: App<P>,
    todo: Todo,
    params: ConnectParams,
    text: String,
)
    ensures
        app@.cfg.rom_path == app.cfg.rom_path && app@.cfg.save_path == app.cfg.save_path,
        app@.cfg.link_code == app.cfg.link_code@,
        app@.cfg.matchmaking_endpoint == app.cfg.matchmaking_endpoint@,
        app@.game == app.game && app@.dialing == app.dialing,
        app@.gamepad_mask == app.gamepad_mask && app@.kb_mask == app.kb_mask,
        app@.has_screen == app.has_screen && app@.advanced == app.advanced,
        app@.connect_dialog == app.connect_dialog && app@.seen_gen == app.seen_gen,
        app@.comm_was_active == app.comm_was_active,
        app.error is None <==> app@.error is None,
        app.error == Some(text) ==> app@.error == Some(text@),
        todo@.cancel == todo.cancel && todo@.end_game == todo.end_game,
        todo@.drop_audio == todo.drop_audio && todo@.pick == todo.pick,
        todo@.read_rom == todo.read_rom && todo@.boot == todo.boot,
        todo@.redraw == todo.redraw && todo@.focus_code == todo.focus_code,
        todo@.save_config == todo.save_config && todo@.close_window == todo.close_window,
        todo.dial is None <==> todo@.dial is None,
        todo.dial == Some(params) ==> todo@.dial == Some(params@),
        params@.endpoint == params.endpoint@ && params@.link_code == params.link_code@,
        params@.rom_crc32 == params.rom_crc32,
{
}

/// Nothing is to be done unless a message leads to it.
pub proof fn law_nothing_is_nothing()
    ensures
        ({
            let t = TodoView::nothing();
            &&& !t.cancel && !t.end_game && !t.drop_audio && t.pick is None && !t.read_rom
            &&& t.boot is None && t.dial is None && !t.redraw && !t.focus_code && !t.save_config
            &&& !t.close_window
        }),
{
}

/// A connection counts as being made, or made, from the dial on, unless its
/// status is idle or lost.
pub proof fn law_when_a_connection_counts<P>(app: AppState<P>, status: StatusView)
    ensures
        app.is_connecting(status) <==> app.dialing && (status is Signaling
            || status is WaitingForPeer || status is Connected),
{
}

/// A frame on which the game neither crashes nor leaves its session only shows
/// the picture, follows the session and moves the dialog. The link, the
/// connection, the keys and the settings are left alone.
pub proof fn law_a_frame_only_looks<P>(s: Step<P>, sight: Sight)
    requires
        s.app.game is Some ==> !sight.crashed,
        s.app.comm_was_active ==> s.app.game is Some && sight.comm_active,
    ensures
        ({
            let t = s.updated(Message::Frame(sight));
            let draws = s.app.game is Some && (sight.dirty || !s.app.has_screen);
            let fresh = s.link.gen != s.app.seen_gen;
            let linked = s.status is Connected;
            &&& t.link == s.link && t.status == s.status
            &&& t.app == (AppState {
                has_screen: s.app.has_screen || s.app.game is Some,
                comm_was_active: s.app.game is Some && sight.comm_active,
                seen_gen: s.link.gen,
                connect_dialog: !linked && (s.app.connect_dialog || fresh),
                ..s.app
            })
            &&& t.todo == (TodoView {
                redraw: s.todo.redraw || draws,
                focus_code: s.todo.focus_code || (fresh && !linked && !s.app.connect_dialog),
                ..s.todo
            })
        }),
{
}

/// On the frame on which the game leaves its session, the connection is closed
/// if there is one, and the dialog with it. The game goes on, and the keys and
/// the settings are left alone.
pub proof fn law_leaving_ends_the_connection_alone<P>(s: Step<P>, sight: Sight)
    requires
        s.app.game is Some ==> !sight.crashed,
        s.app.comm_was_active,
        !(s.app.game is Some && sight.comm_active),
    ensures
        ({
            let t = s.updated(Message::Frame(sight));
            let draws = s.app.game is Some && (sight.dirty || !s.app.has_screen);
            let linked = s.status is Connected && !s.app.dialing;
            let pops = s.link.gen != s.app.seen_gen && !linked;
            &&& s.app.dialing ==> t.link == (LinkState { connected: false, error: true, ..s.link })
            &&& !s.app.dialing ==> t.link == s.link
            &&& s.app.dialing ==> t.status is Idle
            &&& !s.app.dialing ==> t.status == s.status
            &&& t.app == (AppState {
                dialing: false,
                has_screen: s.app.has_screen || s.app.game is Some,
                comm_was_active: false,
                seen_gen: s.link.gen,
                connect_dialog: pops,
                ..s.app
            })
            &&& t.todo == (TodoView {
                cancel: s.todo.cancel || s.app.dialing,
                redraw: s.todo.redraw || draws,
                focus_code: s.todo.focus_code || pops,
                ..s.todo
            })
        }),
{
}

/// A crash ends the game and its connection, and is said. The keys and the
/// settings are left alone.
pub proof fn law_a_crash_ends_the_game_alone<P>(s: Step<P>, sight: Sight)
    requires
        s.app.game is Some,
        sight.crashed,
    ensures
        ({
            let t = s.updated(Message::Frame(sight));
            &&& s.app.dialing ==> t.link == (LinkState { connected: false, error: true, ..s.link })
            &&& !s.app.dialing ==> t.link == s.link
            &&& s.app.dialing ==> t.status is Idle
            &&& !s.app.dialing ==> t.status == s.status
            &&& t.app == (AppState {
                game: None,
                dialing: false,
                has_screen: false,
                error: Some("emulator crashed"@),
                comm_was_active: false,
                seen_gen: s.link.gen,
                connect_dialog: t.app.connect_dialog,
                ..s.app
            })
            &&& t.todo == (TodoView {
                cancel: s.todo.cancel || s.app.dialing,
                end_game: true,
                focus_code: t.todo.focus_code,
                ..s.todo
            })
            &&& s.link.gen == s.app.seen_gen ==> !t.app.connect_dialog && t.todo.focus_code
                == s.todo.focus_code
        }),
{
}

/// Asking for a file asks for that file and does nothing else; and a pick that
/// was called off does nothing at all.
pub proof fn law_picking_only_asks<P>(s: Step<P>)
    ensures
        s.updated(Message::PickRom) == (Step {
            todo: TodoView { pick: Some(Picker::Rom), ..s.todo },
            ..s
        }),
        s.updated(Message::PickSave) == (Step {
            todo: TodoView { pick: Some(Picker::Save), ..s.todo },
            ..s
        }),
        s.updated(Message::RomPicked(None)) == s,
        s.updated(Message::SavePicked(None)) == s,
{
}

/// A save that was picked is the save from then on, and nothing else changes.
pub proof fn law_a_picked_save_is_kept<P>(s: Step<P>, path: P)
    ensures
        ({
            let t = s.updated(Message::SavePicked(Some(path)));
            &&& t.app.cfg.save_path == Some(path)
            &&& t == (Step {
                app: AppState {
                    cfg: ConfigView { save_path: t.app.cfg.save_path, ..s.app.cfg },
                    ..s.app
                },
                ..s
            })
        }),
{
}

/// A right ROM that was picked is the ROM from then on, with a save beside it
/// if none was picked before, and clears the error; nothing else changes.
pub proof fn law_a_picked_rom_is_kept<P>(s: Step<P>, picked: Picked<P>, rom: Vec<u8>)
    requires
        picked.rom == Ok::<Vec<u8>, String>(rom),
        identity(rom@) is Some,
    ensures
        ({
            let t = s.updated(Message::RomPicked(Some(picked)));
            &&& t.app.cfg.rom_path == Some(picked.path)
            &&& s.app.cfg.save_path is Some ==> t.app.cfg.save_path == s.app.cfg.save_path
            &&& s.app.cfg.save_path is None ==> t.app.cfg.save_path == Some(picked.save_beside)
            &&& t == (Step {
                app: AppState {
                    cfg: ConfigView {
                        rom_path: t.app.cfg.rom_path,
                        save_path: t.app.cfg.save_path,
                        ..s.app.cfg
                    },
                    error: None,
                    ..s.app
                },
                ..s
            })
        }),
{
}

/// What is said of a wrong pick: which file it is, and what is wrong with it.
pub proof fn law_a_wrong_pick_is_named<P>(s: Step<P>, picked: Picked<P>, rom: Vec<u8>, e: String)
    ensures
        picked.rom == Ok::<Vec<u8>, String>(rom) && identity(rom@) is None ==> s.updated(
            Message::RomPicked(Some(picked)),
        ).app.error == Some(
            picked.shown@ + " doesn't look like "@
                + "Battle Chip Challenge (US) / Battle Chip GP (JP)"@,
        ),
        picked.rom == Err::<Vec<u8>, String>(e) ==> s.updated(
            Message::RomPicked(Some(picked)),
        ).app.error == Some(picked.shown@ + ": "@ + e@),
{
}

/// Starting the game needs a ROM and a save. What is missing is said, the ROM
/// first, and the ROM is read once nothing is; nothing else changes.
pub proof fn law_starting_needs_both_files<P>(s: Step<P>)
    ensures
        ({
            let t = s.updated(Message::Play);
            let ready = s.app.cfg.rom_path is Some && s.app.cfg.save_path is Some;
            &&& s.app.cfg.rom_path is None ==> t.app.error == Some("pick a ROM"@)
            &&& s.app.cfg.rom_path is Some && s.app.cfg.save_path is None ==> t.app.error == Some(
                "pick a save"@,
            )
            &&& ready ==> t.app.error is None
            &&& t == (Step {
                app: AppState { error: t.app.error, ..s.app },
                todo: TodoView {
                    read_rom: s.todo.read_rom || ready,
                    drop_audio: s.todo.drop_audio || !ready,
                    ..s.todo
                },
                ..s
            })
        }),
{
}

/// The game that is started is the one whose code the ROM's header holds: a
/// ROM of the US game starts the US game, and one of the JP game the JP game.
/// A ROM that holds neither code, or could not be read, starts nothing, and
/// that is said.
pub proof fn law_the_rom_decides_which_game_starts<P>(
    s: Step<P>,
    shown: String,
    rom: Vec<u8>,
    game: Game,
    e: String,
)
    ensures
        header_bytes(rom@) == Some(game.code_bytes()) ==> s.updated(
            Message::RomRead(shown, Ok(rom)),
        ) == (Step { todo: TodoView { boot: Some(game), ..s.todo }, ..s }),
        header_bytes(rom@) != Some(Game::Us.code_bytes()) && header_bytes(rom@) != Some(
            Game::Jp.code_bytes(),
        ) ==> s.updated(Message::RomRead(shown, Ok(rom))) == (Step {
            app: AppState {
                error: Some(
                    shown@ + " doesn't look like "@
                        + "Battle Chip Challenge (US) / Battle Chip GP (JP)"@ + ": game code "@
                        + shown_code(rom@),
                ),
                ..s.app
            },
            todo: TodoView { drop_audio: true, ..s.todo },
            ..s
        }),
        s.updated(Message::RomRead(shown, Err(e))) == (Step {
            app: AppState { error: Some(e@), ..s.app },
            todo: TodoView { drop_audio: true, ..s.todo },
            ..s
        }),
{
    law_identity_goes_by_the_code(rom@, game);
}

/// A game that was started runs, and the handshakes of an earlier one count as
/// seen. One that was not leaves the reason behind, and no audio.
pub proof fn law_a_started_game_runs<P>(s: Step<P>, game: Game, e: String)
    ensures
        s.updated(Message::Booted(game, Ok(()))) == (Step {
            app: AppState {
                game: Some(game),
                seen_gen: s.link.gen,
                comm_was_active: false,
                ..s.app
            },
            todo: TodoView { save_config: true, ..s.todo },
            ..s
        }),
        s.updated(Message::Booted(game, Err(BootFailure::Emulator(e)))) == (Step {
            app: AppState { error: Some(e@), ..s.app },
            todo: TodoView { drop_audio: true, ..s.todo },
            ..s
        }),
        s.updated(Message::Booted(game, Err(BootFailure::Audio(e)))) == (Step {
            app: AppState { error: Some("audio: "@ + e@), ..s.app },
            todo: TodoView { drop_audio: true, ..s.todo },
            ..s
        }),
        s.updated(Message::Booted(game, Err(BootFailure::NoAudio))) == (Step {
            app: AppState { error: Some("SDL audio unavailable; can't run"@), ..s.app },
            todo: TodoView { drop_audio: true, ..s.todo },
            ..s
        }),
{
}

/// Typing changes what is typed and nothing else: the link code to what it
/// keeps of the text, and the endpoint to the text as it is. A reset brings
/// the endpoint of a new config back.
pub proof fn law_typing_changes_one_setting<P>(s: Step<P>, text: String, cfg: Config<P>)
    ensures
        s.updated(Message::LinkCodeChanged(text)) == (Step {
            app: AppState {
                cfg: ConfigView { link_code: code_of(text@), ..s.app.cfg },
                ..s.app
            },
            ..s
        }),
        s.updated(Message::EndpointChanged(text)) == (Step {
            app: AppState {
                cfg: ConfigView { matchmaking_endpoint: text@, ..s.app.cfg },
                ..s.app
            },
            ..s
        }),
        call_ensures(<Config<P> as Default>::default, (), cfg) ==> s.updated(
            Message::EndpointReset,
        ) == (Step {
            app: AppState {
                cfg: ConfigView {
                    matchmaking_endpoint: cfg@.matchmaking_endpoint,
                    ..s.app.cfg
                },
                ..s.app
            },
            ..s
        }),
{
}

/// The advanced settings fold and unfold, and nothing else changes.
pub proof fn law_toggling_twice_changes_nothing<P>(s: Step<P>)
    ensures
        s.updated(Message::ToggleAdvanced) == (Step {
            app: AppState { advanced: !s.app.advanced, ..s.app },
            ..s
        }),
        s.updated(Message::ToggleAdvanced).updated(Message::ToggleAdvanced) == s,
{
}

/// Closing the dialog without a link closes it, cancels what is being dialed
/// and raises the link's error. Nothing else changes.
pub proof fn law_cancelling_does_no_more<P>(s: Step<P>)
    requires
        !(s.status is Connected),
    ensures
        ({
            let t = s.updated(Message::CloseConnectDialog);
            &&& t.app == (AppState { connect_dialog: false, dialing: false, ..s.app })
            &&& t.link == (LinkState { connected: false, error: true, ..s.link })
            &&& t.status == (if s.app.dialing {
                StatusView::Idle
            } else {
                s.status
            })
            &&& t.todo == (TodoView { cancel: s.todo.cancel || s.app.dialing, ..s.todo })
        }),
{
}

/// Connecting, with a game, a code that is not blank, and no connection that
/// counts: an earlier one that failed is cancelled, and a new one is dialed
/// for the game's ROM under the code and the endpoint of the settings, which
/// are saved. Nothing else changes.
pub proof fn law_connecting_dials_by_the_settings<P>(s: Step<P>, game: Game)
    requires
        s.app.game == Some(game),
        trimmed(s.app.cfg.link_code).len() > 0,
        !s.app.is_connecting(s.status),
    ensures
        ({
            let t = s.updated(Message::Connect);
            &&& t.app == (AppState { dialing: true, error: None, ..s.app })
            &&& s.app.dialing ==> t.link == (LinkState { connected: false, error: true, ..s.link })
            &&& !s.app.dialing ==> t.link == s.link
            &&& t.status == (if s.app.dialing {
                StatusView::Idle
            } else {
                s.status
            })
            &&& t.todo == (TodoView {
                cancel: s.todo.cancel || s.app.dialing,
                dial: t.todo.dial,
                save_config: true,
                ..s.todo
            })
            &&& t.todo.dial matches Some(params) && params.endpoint
                == s.app.cfg.matchmaking_endpoint && params.link_code == s.app.cfg.link_code
                && params.rom_crc32 == (match game {
                Game::Us => 0x26be44fdu32,
                Game::Jp => 0x9217fb18,
            })
        }),
{
}

/// Disconnecting cancels the connection, if there is one, and raises the
/// link's error so that the game backs out. Nothing else changes, and without
/// a connection nothing at all.
pub proof fn law_disconnecting_does_no_more<P>(s: Step<P>)
    ensures
        !s.app.dialing ==> s.updated(Message::Disconnect) == s,
        s.app.dialing ==> s.updated(Message::Disconnect) == (Step {
            app: AppState { dialing: false, ..s.app },
            link: LinkState { connected: false, error: true, ..s.link },
            status: StatusView::Idle,
            todo: TodoView { cancel: true, ..s.todo },
        }),
{
}

/// Keys and buttons change what is held, each on their own device, and
/// nothing else.
pub proof fn law_keys_change_what_is_held<P>(s: Step<P>, bits: u32, event: PadEvent)
    ensures
        s.updated(Message::Key(Change::Down(bits))) == (Step {
            app: AppState { kb_mask: s.app.kb_mask | bits, ..s.app },
            ..s
        }),
        s.updated(Message::Key(Change::Up(bits))) == (Step {
            app: AppState { kb_mask: s.app.kb_mask & !bits, ..s.app },
            ..s
        }),
        s.updated(Message::Pad(event)) == (Step {
            app: AppState { gamepad_mask: pad_after(s.app.gamepad_mask, event), ..s.app },
            ..s
        }),
{
}

/// Closing the window ends the connection, the game and the program, and keeps
/// the settings.
pub proof fn law_closing_does_no_more<P>(s: Step<P>)
    ensures
        ({
            let t = s.updated(Message::CloseRequested);
            &&& t.app == (AppState {
                game: None,
                dialing: false,
                has_screen: false,
                connect_dialog: false,
                ..s.app
            })
            &&& s.app.dialing ==> t.link == (LinkState { connected: false, error: true, ..s.link })
                && t.status is Idle
            &&& !s.app.dialing ==> t.link == s.link && t.status == s.status
            &&& t.todo == (TodoView {
                cancel: s.todo.cancel || s.app.dialing,
                end_game: true,
                save_config: true,
                close_window: true,
                ..s.todo
            })
        }),
{
}

} // verus!
