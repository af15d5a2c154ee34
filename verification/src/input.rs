//! The keys: what each of them does to the screen, and which command it
//! gives to the client.

use crate::ui::Ui;
use crate::windows::title_window::TitleWindow;
use vstd::prelude::*;

verus! {

/// A key of the keyboard.
#[derive(Clone, Copy, Debug, PartialEq, Eq)]
pub enum Key {
    /// A key that gives a character.
    Char(char),
    /// The arrow down.
    Down,
    /// The arrow up.
    Up,
    /// The arrow to the left.
    Left,
    /// The arrow to the right.
    Right,
    /// The enter key.
    Enter,
    /// Any other key.
    Other,
}

/// A command to the client.
#[derive(Clone, Copy, Debug, PartialEq, Eq)]
pub enum Command {
    /// Pause or resume playback.
    Toggle,
    /// Go to the next song of the queue.
    Next,
    /// Go to the previous song of the queue.
    Previous,
    /// Turn the volume up.
    VolumeUp,
    /// Turn the volume down.
    VolumeDown,
    /// Switch random order on or off.
    Shuffle,
    /// Switch repetition on or off.
    Repeat,
    /// Empty the queue.
    Clear,
    /// Go forward in the song.
    SeekForward,
    /// Go back in the song.
    SeekBackward,
    /// Play the album with this number.
    StartAlbum(usize),
    /// Play, of the album with the first number, the song with the second.
    StartTitle(usize, usize),
    /// Play an album chosen at random.
    Random,
    /// Have the daemon read its music directory again and build the library
    /// anew.
    FullSync,
    /// Bring the state up to date.
    Sync,
}

/// Whether the program goes on.
#[derive(Clone, Copy, Debug, PartialEq, Eq)]
pub enum InputControl {
    /// The program goes on.
    Continue,
    /// The user wants the program to end.
    Break,
}

/// The handling of keys.
pub struct Input;

/// Where a key moves the selection or the focus.
pub enum Motion {
    /// One row down the focused list.
    Down,
    /// One row up the focused list.
    Up,
    /// To the list of songs.
    ToTitles,
    /// To the list of albums.
    ToAlbums,
    /// Nowhere.
    Stay,
}

/// Where `key` moves the selection or the focus: `j` and `k` and the arrows
/// walk the focused list, `h` and `l` and the arrows change the focus.
pub open spec fn motion_of(key: Key) -> Motion {
    match key {
        Key::Down => Motion::Down,
        Key::Up => Motion::Up,
        Key::Right => Motion::ToTitles,
        Key::Left => Motion::ToAlbums,
        Key::Char(c) => if c == 'j' {
            Motion::Down
        } else if c == 'k' {
            Motion::Up
        } else if c == 'l' {
            Motion::ToTitles
        } else if c == 'h' {
            Motion::ToAlbums
        } else {
            Motion::Stay
        },
        _ => Motion::Stay,
    }
}

/// The command that `key` gives on the screen `ui`. Enter plays what is
/// selected in the focused list; `q` empties the queue on the way out.
pub open spec fn command_of(key: Key, ui: Ui) -> Option<Command> {
    match key {
        Key::Enter => if ui.on_album {
            Some(Command::StartAlbum(ui.album_window.album_selected))
        } else {
            Some(
                Command::StartTitle(
                    ui.title_window.album_selected,
                    ui.title_window.title_selected,
                ),
            )
        },
        Key::Char(c) => if c == 'q' || c == 'Q' {
            Some(Command::Clear)
        } else if c == ' ' {
            Some(Command::Toggle)
        } else if c == 'n' {
            Some(Command::Next)
        } else if c == 'p' {
            Some(Command::Previous)
        } else if c == '=' {
            Some(Command::VolumeUp)
        } else if c == '-' {
            Some(Command::VolumeDown)
        } else if c == 'x' {
            Some(Command::Clear)
        } else if c == '.' {
            Some(Command::SeekForward)
        } else if c == ',' {
            Some(Command::SeekBackward)
        } else if c == 's' {
            Some(Command::Shuffle)
        } else if c == 'r' {
            Some(Command::Repeat)
        } else if c == 'U' {
            Some(Command::FullSync)
        } else if c == 'R' {
            Some(Command::Random)
        } else {
            None
        },
        _ => None,
    }
}

/// Whether the program goes on after `key`: it ends on `q` and `Q`.
pub open spec fn control_of(key: Key) -> InputControl {
    match key {
        Key::Char(c) => if c == 'q' || c == 'Q' {
            InputControl::Break
        } else {
            InputControl::Continue
        },
        _ => InputControl::Continue,
    }
}

/// The screen after `key`. A step in the list of albums turns the list of
/// songs to the album now selected, with its first song selected.
pub open spec fn after_key(ui: Ui, key: Key) -> Ui {
    match motion_of(key) {
        Motion::Down => if ui.on_album {
            Ui {
                album_window: ui.album_window.after_down(),
                title_window: TitleWindow {
                    album_selected: ui.album_window.after_down().album_selected,
                    title_selected: 0,
                    ..ui.title_window
                },
                ..ui
            }
        } else {
            Ui { title_window: ui.title_window.after_down(), ..ui }
        },
        Motion::Up => if ui.on_album {
            Ui {
                album_window: ui.album_window.after_up(),
                title_window: TitleWindow {
                    album_selected: ui.album_window.after_up().album_selected,
                    title_selected: 0,
                    ..ui.title_window
                },
                ..ui
            }
        } else {
            Ui { title_window: ui.title_window.after_up(), ..ui }
        },
        Motion::ToTitles => Ui { on_album: false, ..ui },
        Motion::ToAlbums => Ui { on_album: true, ..ui },
        Motion::Stay => ui,
    }
}

/// The step that `key` asks for stays within the machine's numbers.
pub open spec fn can_handle(key: Key, ui: Ui) -> bool {
    match motion_of(key) {
        Motion::Down => if ui.on_album {
            ui.album_window.can_go_down()
        } else {
            ui.title_window.can_go_down()
        },
        Motion::Up => if ui.on_album {
            ui.album_window.can_go_up()
        } else {
            ui.title_window.can_go_up()
        },
        _ => true,
    }
}

/// Where `key` moves the selection or the focus.
fn motion(key: Key) -> (r: Motion)
    ensures
        r == motion_of(key),
{
    match key {
        Key::Down => Motion::Down,
        Key::Up => Motion::Up,
        Key::Right => Motion::ToTitles,
        Key::Left => Motion::ToAlbums,
        Key::Char(c) => if c == 'j' {
            Motion::Down
        } else if c == 'k' {
            Motion::Up
        } else if c == 'l' {
            Motion::ToTitles
        } else if c == 'h' {
            Motion::ToAlbums
        } else {
            Motion::Stay
        },
        _ => Motion::Stay,
    }
}

/// The command that `key` gives on the screen `ui`.
fn command(key: Key, ui: &Ui) -> (r: Option<Command>)
    ensures
        r == command_of(key, *ui),
{
    match key {
        Key::Enter => if ui.on_album {
            Some(Command::StartAlbum(ui.album_window.album_selected))
        } else {
            Some(
                Command::StartTitle(
                    ui.title_window.album_selected,
                    ui.title_window.title_selected,
                ),
            )
        },
        Key::Char(c) => if c == 'q' || c == 'Q' {
            Some(Command::Clear)
        } else if c == ' ' {
            Some(Command::Toggle)
        } else if c == 'n' {
            Some(Command::Next)
        } else if c == 'p' {
            Some(Command::Previous)
        } else if c == '=' {
            Some(Command::VolumeUp)
        } else if c == '-' {
            Some(Command::VolumeDown)
        } else if c == 'x' {
            Some(Command::Clear)
        } else if c == '.' {
            Some(Command::SeekForward)
        } else if c == ',' {
            Some(Command::SeekBackward)
        } else if c == 's' {
            Some(Command::Shuffle)
        } else if c == 'r' {
            Some(Command::Repeat)
        } else if c == 'U' {
            Some(Command::FullSync)
        } else if c == 'R' {
            Some(Command::Random)
        } else {
            None
        },
        _ => None,
    }
}

impl Input {
    /// Whether the step that `key` asks for stays within the machine's
    /// numbers.
    pub fn check(key: Key, ui: &Ui) -> (r: bool)
        ensures
            r == can_handle(key, *ui),
    {
        match motion(key) {
            Motion::Down => if ui.on_album {
                ui.album_window.check_down()
            } else {
                ui.title_window.check_down()
            },
            Motion::Up => if ui.on_album {
                ui.album_window.check_up()
            } else {
                ui.title_window.check_up()
            },
            _ => true,
        }
    }

    /// Handles a key: moves selection and focus on the screen, and says
    /// whether the program goes on and which command goes to the client.
    pub fn handle(key: Key, ui: &mut Ui) -> (r: (InputControl, Option<Command>))
        requires
            can_handle(key, *old(ui)),
        ensures
            r.0 == control_of(key),
            r.1 == command_of(key, *old(ui)),
            *final(ui) == after_key(*old(ui), key),
    {
        let given = command(key, ui);
        let control = match key {
            Key::Char(c) => if c == 'q' || c == 'Q' {
                InputControl::Break
            } else {
                InputControl::Continue
            },
            _ => InputControl::Continue,
        };
        match motion(key) {
            Motion::Down => {
                if ui.on_album {
                    ui.album_window.down();
                    ui.title_window.update_titles(ui.album_window.album_selected);
                    ui.title_window.reset_selected();
                } else {
                    ui.title_window.down();
                }
            },
            Motion::Up => {
                if ui.on_album {
                    ui.album_window.up();
                    ui.title_window.update_titles(ui.album_window.album_selected);
                    ui.title_window.reset_selected();
                } else {
                    ui.title_window.up();
                }
            },
            Motion::ToTitles => {
                ui.on_album = false;
            },
            Motion::ToAlbums => {
                ui.on_album = true;
            },
            Motion::Stay => {},
        }
        (control, given)
    }
}

} // verus!
