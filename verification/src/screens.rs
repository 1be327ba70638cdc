//! What the two screens show.

use crate::app::App;
#[allow(unused_imports)]
use crate::app::{text_view, AppState};
use crate::net::Status;
#[allow(unused_imports)]
use crate::net::{is_plain, StatusView};
use crate::text::{push_decimal, trim};
#[allow(unused_imports)]
use crate::text::{decimal_text, lemma_visible_ends, trimmed};
use vstd::prelude::*;
use vstd::string::*;

verus! {

/// How a text is coloured.
#[derive(Clone, Copy, PartialEq, Eq, Structural)]
pub enum Tone {
    Plain,
    /// In the background.
    Weak,
    /// Something is under way.
    Warning,
    /// The link is up.
    Accent,
    /// Something went wrong.
    Danger,
}

/// The mark in front of a status.
pub open spec fn status_dot(status: StatusView) -> Seq<char> {
    match status {
        StatusView::Idle => "○"@,
        StatusView::Signaling => "◌"@,
        StatusView::WaitingForPeer => "◌"@,
        StatusView::Connected { .. } => "●"@,
        StatusView::Lost(_) => "●"@,
    }
}

/// A status in words.
pub open spec fn status_text(status: StatusView) -> Seq<char> {
    match status {
        StatusView::Idle => "not linked"@,
        StatusView::Signaling => "contacting server…"@,
        StatusView::WaitingForPeer => "waiting for opponent…"@,
        StatusView::Connected { side, cross_version } => "linked"@ + (if cross_version {
            " US↔JP"@
        } else {
            Seq::empty()
        }) + " — you are P"@ + decimal_text((side + 1) as nat),
        StatusView::Lost(reason) => reason,
    }
}

/// The colour of a status.
pub open spec fn status_tone(status: StatusView) -> Tone {
    match status {
        StatusView::Idle => Tone::Weak,
        StatusView::Signaling => Tone::Warning,
        StatusView::WaitingForPeer => Tone::Warning,
        StatusView::Connected { .. } => Tone::Accent,
        StatusView::Lost(_) => Tone::Danger,
    }
}

/// The players are numbered from one, in a byte.
pub open spec fn has_number(status: StatusView) -> bool {
    status matches StatusView::Connected { side, .. } ==> side < 0xff
}

/// A status as it is shown: its mark, its words and its colour.
pub fn status_line(status: &Status) -> (line: (&'static str, String, Tone))
    requires
        has_number(status@),
    ensures
        line.0@ == status_dot(status@),
        line.1@ == status_text(status@),
        line.2 == status_tone(status@),
{
    match status {
        Status::Idle => ("○", "not linked".to_owned(), Tone::Weak),
        Status::Signaling => ("◌", "contacting server…".to_owned(), Tone::Warning),
        Status::WaitingForPeer => ("◌", "waiting for opponent…".to_owned(), Tone::Warning),
        Status::Connected { side, cross_version } => {
            let mut text: String = "linked".to_owned();
            if *cross_version {
                text.append(" US↔JP");
            }
            text.append(" — you are P");
            push_decimal(&mut text, *side as u32 + 1);
            assert(text@ =~= status_text(status@));
            ("●", text, Tone::Accent)
        },
        Status::Lost(reason) => ("●", reason.clone(), Tone::Danger),
    }
}

/// The name of a file that was picked, or what to show while there is none;
/// and whether there is one.
pub fn file_label(name: Option<String>, empty: &str) -> (label: (String, bool))
    ensures
        label.0@ == (match name {
            Some(name) => name@,
            None => empty@,
        }),
        label.1 == name is Some,
{
    match name {
        Some(name) => (name, true),
        None => (empty.to_owned(), false),
    }
}

/// The name that a save file is given unless one was picked.
pub fn save_file_name(name: Option<String>) -> (file_name: String)
    ensures
        file_name@ == (match name {
            Some(name) => name@,
            None => "bcc.sav"@,
        }),
{
    match name {
        Some(name) => name,
        None => "bcc.sav".to_owned(),
    }
}

/// A file that is picked on the setup screen.
pub struct FileButton {
    pub text: String,
    pub chosen: bool,
}

/// What the setup screen shows.
pub struct SetupScreen {
    pub rom: FileButton,
    pub save: FileButton,
    /// The game can be started.
    pub can_play: bool,
    /// What is said below the start button.
    pub note: String,
    pub note_tone: Tone,
    /// The button that unfolds the advanced settings.
    pub toggle: &'static str,
    /// The advanced settings are unfolded.
    pub advanced: bool,
}

/// What is said below the start button: what went wrong, or else what is
/// missing.
pub open spec fn setup_note<P>(app: AppState<P>) -> (Seq<char>, Tone) {
    match app.error {
        Some(error) => (error, Tone::Danger),
        None => if app.cfg.rom_path is Some && app.cfg.save_path is Some {
            (Seq::empty(), Tone::Plain)
        } else {
            ("pick a ROM to begin — the save defaults to sit next to it"@, Tone::Weak)
        },
    }
}

/// A name, or what to show in its place.
pub open spec fn shown_name(name: Option<Seq<char>>, empty: Seq<char>) -> Seq<char> {
    match name {
        Some(name) => name,
        None => empty,
    }
}

/// What the setup screen shows. The names are those of the files that were
/// picked.
pub fn setup_screen<P>(app: &App<P>, rom_name: Option<String>, save_name: Option<String>) -> (screen:
    SetupScreen)
    ensures
        screen.rom.text@ == shown_name(text_view(rom_name), "choose a ROM…"@),
        screen.rom.chosen == rom_name is Some,
        screen.save.text@ == shown_name(text_view(save_name), "choose a save…"@),
        screen.save.chosen == save_name is Some,
        screen.can_play == (app@.cfg.rom_path is Some && app@.cfg.save_path is Some),
        (screen.note@, screen.note_tone) == setup_note(app@),
        screen.toggle@ == (if app@.advanced {
            "advanced ▾"@
        } else {
            "advanced ▸"@
        }),
        screen.advanced == app@.advanced,
{
    let can_play = app.cfg.rom_path.is_some() && app.cfg.save_path.is_some();
    let (rom_text, rom_chosen) = file_label(rom_name, "choose a ROM…");
    let (save_text, save_chosen) = file_label(save_name, "choose a save…");
    let (note, note_tone) = match &app.error {
        Some(error) => (error.clone(), Tone::Danger),
        None => if can_play {
            (String::new(), Tone::Plain)
        } else {
            (
                "pick a ROM to begin — the save defaults to sit next to it".to_owned(),
                Tone::Weak,
            )
        },
    };
    SetupScreen {
        rom: FileButton { text: rom_text, chosen: rom_chosen },
        save: FileButton { text: save_text, chosen: save_chosen },
        can_play,
        note,
        note_tone,
        toggle: if app.advanced {
            "advanced ▾"
        } else {
            "advanced ▸"
        },
        advanced: app.advanced,
    }
}

/// What the connect dialog offers beside cancelling it.
#[derive(Clone, Copy, PartialEq, Eq, Structural)]
pub enum Action {
    Disconnect,
    /// Says whether there is a link code to connect with.
    Connect(bool),
}

/// What the connect dialog shows.
pub struct ConnectDialog {
    /// The enter key in the link code connects.
    pub submits: bool,
    pub action: Action,
    pub dot: &'static str,
    pub line: String,
    pub tone: Tone,
}

/// What the connect dialog offers.
pub open spec fn offered_action<P>(app: AppState<P>, status: StatusView) -> Action {
    if app.is_connecting(status) {
        Action::Disconnect
    } else {
        Action::Connect(trimmed(app.cfg.link_code).len() > 0)
    }
}

/// What the connect dialog shows.
pub fn connect_dialog<P>(app: &App<P>, status: &Status) -> (dialog: ConnectDialog)
    requires
        has_number(status@),
    ensures
        dialog.submits == !app@.is_connecting(status@),
        dialog.action == offered_action(app@, status@),
        !app@.is_connecting(status@) && app@.cfg.link_code.len() > 0 && is_plain(
            app@.cfg.link_code,
        ) ==> dialog.action == Action::Connect(true),
        dialog.dot@ == status_dot(status@),
        dialog.line@ == status_text(status@),
        dialog.tone == status_tone(status@),
{
    proof {
        if is_plain(app@.cfg.link_code) {
            lemma_visible_ends(app@.cfg.link_code);
        }
    }
    let connecting = app.connecting(status);
    let action = if connecting {
        Action::Disconnect
    } else {
        Action::Connect(!trim(app.cfg.link_code.as_str()).is_empty())
    };
    let (dot, line, tone) = status_line(status);
    ConnectDialog { submits: !connecting, action, dot, line, tone }
}

/// What there is to see.
#[derive(Clone, Copy, PartialEq, Eq, Structural)]
pub enum Screen {
    Setup,
    /// The game, with its picture if there is one, and the connect dialog if
    /// it is up.
    Game { picture: bool, dialog: bool },
}

/// What there is to see.
pub fn screen<P>(app: &App<P>) -> (screen: Screen)
    ensures
        screen == (if app@.game is None {
            Screen::Setup
        } else {
            Screen::Game { picture: app@.has_screen, dialog: app@.connect_dialog }
        }),
{
    if app.game.is_none() {
        Screen::Setup
    } else {
        Screen::Game { picture: app.has_screen, dialog: app.connect_dialog }
    }
}

/// A status is shown in a colour of its own kind: in the background while
/// there is no link, as under way while one is being made, as live while it is
/// up, and as gone wrong once it was lost. A loss is shown with its reason.
pub proof fn law_statuses_are_told_apart(
    status: StatusView,
    reason: Seq<char>,
    side: u8,
    cross_version: bool,
)
    ensures
        status_tone(status) == Tone::Weak <==> status is Idle,
        status_tone(status) == Tone::Warning <==> status is Signaling || status is WaitingForPeer,
        status_tone(status) == Tone::Accent <==> status is Connected,
        status_tone(status) == Tone::Danger <==> status is Lost,
        status_text(StatusView::Lost(reason)) == reason,
        status_text(StatusView::Connected { side, cross_version: false }) == "linked"@
            + " — you are P"@ + decimal_text((side + 1) as nat),
        status_text(StatusView::Connected { side, cross_version: true }) == "linked"@ + " US↔JP"@
            + " — you are P"@ + decimal_text((side + 1) as nat),
        has_number(StatusView::Connected { side, cross_version }) <==> side < 255,
        !(status is Connected) ==> has_number(status),
{
    assert("linked"@ + Seq::<char>::empty() =~= "linked"@);
}

/// What is said below the start button: an error, if there is one, in full;
/// else a hint as long as a file is missing; else nothing.
pub proof fn law_the_note_says_what_is_wrong<P>(app: AppState<P>, error: Seq<char>)
    ensures
        app.error == Some(error) ==> setup_note(app) == (error, Tone::Danger),
        app.error is None && (app.cfg.rom_path is None || app.cfg.save_path is None) ==> setup_note(
            app,
        ) == ("pick a ROM to begin — the save defaults to sit next to it"@, Tone::Weak),
        app.error is None && app.cfg.rom_path is Some && app.cfg.save_path is Some ==> setup_note(
            app,
        ).0.len() == 0,
        shown_name(Some(error), "x"@) == error,
        shown_name(None, error) == error,
{
}

/// What the dialog offers: to disconnect, exactly while a connection is being
/// made or is there; and else to connect, if the code is not blank.
pub proof fn law_the_dialog_offers_the_way_out<P>(app: AppState<P>, status: StatusView)
    ensures
        offered_action(app, status) == Action::Disconnect <==> app.dialing && (status is Signaling
            || status is WaitingForPeer || status is Connected),
        offered_action(app, status) != Action::Disconnect ==> offered_action(app, status)
            == Action::Connect(trimmed(app.cfg.link_code).len() > 0),
{
}

} // verus!
