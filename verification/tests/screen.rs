use mpcube::client::Client;
use mpcube::input::{Command, Input, InputControl, Key};
use mpcube::model::{Album, MusicData, Song};
use mpcube::plan::{Request, Stage};
use mpcube::state::{StateData, Status};
use mpcube::time::Duration;
use mpcube::ui::{check_room, Ui};
use mpcube::windows::album_window::AlbumWindow;
use mpcube::windows::area::Area;
use mpcube::windows::bar_window::BarWindow;
use mpcube::windows::info_window::InfoWindow;
use mpcube::windows::rows::{shown, Highlight};
use mpcube::windows::scroll::{check_step_down, check_step_up, padding, step_down, step_up};
use mpcube::windows::status_window::StatusWindow;
use mpcube::windows::title_window::TitleWindow;
use mpcube::windows::volume_window::VolumeWindow;

fn song(uri: &str, secs: u64) -> Song {
    Song { uri: uri.to_string(), title: format!("song {}", uri), track: 0, duration: Duration::from_secs(secs) }
}

fn album(title: &str, uris: &[&str]) -> Album {
    Album {
        artist: format!("artist of {}", title),
        album: title.to_string(),
        date: 1969,
        songs: uris.iter().enumerate().map(|(i, u)| song(u, 100 + i as u64)).collect(),
    }
}

fn library() -> MusicData {
    MusicData {
        albums: vec![album("Alpha", &["a1", "a2", "a3"]), album("Beta", &["b1"]), album("Gamma", &[])],
    }
}

fn state(album_id: Option<usize>, title_id: Option<usize>) -> StateData {
    StateData {
        playing: true,
        album_id,
        title_id,
        position: Some(Duration::from_secs(42)),
        volume: 64,
        shuffle: true,
        repeat: false,
    }
}

fn zero() -> Area {
    Area { x: 0, y: 0, width: 0, height: 0 }
}

fn names(n: usize) -> Vec<String> {
    (0..n).map(|i| format!("row {}", i)).collect()
}

#[test]
fn the_padding_grows_with_the_pane() {
    let expected = [
        (2, 0), (5, 0), (6, 1), (9, 1), (10, 2), (13, 2), (14, 3), (17, 3), (18, 4), (21, 4), (22, 5), (100, 5), (65535, 5),
    ];
    for (height, pad) in expected {
        assert_eq!(padding(height), pad, "height {}", height);
    }
}

#[test]
fn a_step_down_moves_the_selection_and_scrolls_near_the_edge() {
    assert_eq!(step_down(0, 0, 0, 0), (0, 0));
    assert_eq!(step_down(7, 3, 0, 1), (7, 3));
    assert_eq!(step_down(0, 0, 10, 12), (1, 0));
    assert_eq!(step_down(9, 0, 10, 12), (9, 0));
    // Ten rows in the pane, a padding of two: the row 7 is the last that needs no scrolling.
    assert_eq!(step_down(6, 0, 30, 12), (7, 0));
    assert_eq!(step_down(7, 0, 30, 12), (8, 1));
    assert_eq!(step_down(8, 1, 30, 12), (9, 2));
    // There is nothing to scroll by once the last row is in the pane.
    assert_eq!(step_down(27, 19, 30, 12), (28, 20));
    assert_eq!(step_down(28, 20, 30, 12), (29, 20));
    assert_eq!(step_down(29, 20, 30, 12), (29, 20));
    assert_eq!(step_down(0, 0, 1, 3), (0, 0));
    assert_eq!(step_down(0, 1, 5, 2), (1, 2));
}

#[test]
fn a_step_up_moves_the_selection_and_scrolls_near_the_edge() {
    assert_eq!(step_up(0, None, 0, 0, 0), (0, 0));
    assert_eq!(step_up(5, None, 2, 0, 1), (5, 2));
    assert_eq!(step_up(0, None, 0, 10, 12), (0, 0));
    assert_eq!(step_up(9, None, 0, 10, 12), (8, 0));
    assert_eq!(step_up(13, None, 10, 30, 12), (12, 10));
    assert_eq!(step_up(12, None, 10, 30, 12), (11, 9));
    assert_eq!(step_up(1, None, 1, 30, 12), (0, 0));
    assert_eq!(step_up(1, None, 0, 30, 12), (0, 0));
    // With a marker, the marker is held against the edge, not the selection.
    assert_eq!(step_up(20, Some(0), 10, 30, 12), (19, 9));
    assert_eq!(step_up(11, Some(12), 10, 30, 12), (10, 10));
    assert_eq!(step_up(0, Some(0), 0, 30, 12), (0, 0));
}

#[test]
fn steps_are_checked_before_they_are_taken() {
    assert!(check_step_down(0, 0, 0, 0));
    assert!(check_step_up(0, 0, 0));
    assert!(!check_step_down(0, 0, 5, 0));
    assert!(!check_step_down(0, 0, 5, 1));
    assert!(!check_step_up(0, 5, 1));
    assert!(check_step_up(0, 5, 2));
    assert!(check_step_up(usize::MAX - 5, 5, 40));
    assert!(!check_step_up(usize::MAX - 4, 5, 40));
    assert!(check_step_up(usize::MAX, 5, 2));
    // A pane without rows can be walked only from behind the first row of the list.
    assert!(!check_step_down(0, 0, 5, 2));
    assert!(check_step_down(0, 1, 5, 2));
    assert!(check_step_down(0, 0, 5, 3));
    assert!(!check_step_down(0, usize::MAX, 5, 3));
    assert!(check_step_down(0, usize::MAX - 3, 5, 3));
    // A list shorter than the pane can be walked as long as the selection stays off the padding.
    assert!(check_step_down(0, 0, 20, 24));
    assert!(check_step_down(15, 0, 20, 24));
    assert!(!check_step_down(16, 0, 20, 24));
    assert!(check_step_down(16, 0, 24, 24));
    assert!(check_step_down(16, 0, 17, 24));
    assert!(!check_step_down(16, 0, 18, 24));
}

#[test]
fn the_panes_start_empty() {
    assert_eq!(
        AlbumWindow::new(),
        AlbumWindow { selected: true, offset: 0, album_playing: None, album_selected: 0, album_names: vec![], area: zero() }
    );
    assert_eq!(
        TitleWindow::new(),
        TitleWindow {
            selected: false,
            offset: 0,
            album_playing: None,
            album_selected: 0,
            title_playing: None,
            title_selected: 0,
            title_names: vec![],
            title_durations: vec![],
            title_author: String::new(),
            area: zero(),
        }
    );
    assert_eq!(InfoWindow::new(), InfoWindow { playing: false, title: None, artist: None, album: None, area: zero() });
    assert_eq!(BarWindow::new(), BarWindow { position: None, duration: None, area: zero() });
    assert_eq!(StatusWindow::new(), StatusWindow { shuffle: false, repeat: false, area: zero() });
    assert_eq!(VolumeWindow::new(), VolumeWindow { volume: 0, area: zero() });
    let ui = Ui::new();
    assert!(ui.on_album);
    assert_eq!(ui.album_window, AlbumWindow::new());
    assert_eq!(ui.title_window, TitleWindow::new());
    assert_eq!(ui.info_window, InfoWindow::new());
    assert_eq!(ui.bar_window, BarWindow::new());
    assert_eq!(ui.status_window, StatusWindow::new());
    assert_eq!(ui.volume_window, VolumeWindow::new());
    assert_eq!(Area::new(1, 2, 3, 4), Area { x: 1, y: 2, width: 3, height: 4 });
}

#[test]
fn the_panes_take_over_library_and_state() {
    let mut ui = Ui::new();
    ui.title_window.album_selected = 0;
    ui.album_window.album_selected = 2;
    ui.album_window.offset = 1;
    assert!(ui.check_update(&library(), &state(Some(0), Some(2))));
    ui.update(&library(), &state(Some(0), Some(2)));
    assert_eq!(
        ui.album_window,
        AlbumWindow {
            selected: true,
            offset: 1,
            album_playing: Some(0),
            album_selected: 2,
            album_names: vec!["Alpha".to_string(), "Beta".to_string(), "Gamma".to_string()],
            area: zero(),
        }
    );
    assert_eq!(
        ui.title_window,
        TitleWindow {
            selected: false,
            offset: 0,
            album_playing: Some(0),
            album_selected: 0,
            title_playing: Some(2),
            title_selected: 0,
            title_names: vec!["song a1".to_string(), "song a2".to_string(), "song a3".to_string()],
            title_durations: vec![Duration::from_secs(100), Duration::from_secs(101), Duration::from_secs(102)],
            title_author: "artist of Alpha".to_string(),
            area: zero(),
        }
    );
    assert_eq!(
        ui.info_window,
        InfoWindow {
            playing: true,
            title: Some("song a3".to_string()),
            artist: Some("artist of Alpha".to_string()),
            album: Some("Alpha".to_string()),
            area: zero(),
        }
    );
    assert_eq!(
        ui.bar_window,
        BarWindow { position: Some(Duration::from_secs(42)), duration: Some(Duration::from_secs(102)), area: zero() }
    );
    assert_eq!(ui.status_window, StatusWindow { shuffle: true, repeat: false, area: zero() });
    assert_eq!(ui.volume_window, VolumeWindow { volume: 64, area: zero() });
}

#[test]
fn names_stay_where_the_state_points_nowhere() {
    let mut ui = Ui::new();
    ui.update(&library(), &state(Some(1), Some(0)));
    ui.on_album = false;
    let mut stopped = state(None, None);
    stopped.playing = false;
    stopped.position = None;
    ui.update(&library(), &stopped);
    assert_eq!(
        ui.info_window,
        InfoWindow {
            playing: false,
            title: Some("song b1".to_string()),
            artist: Some("artist of Beta".to_string()),
            album: Some("Beta".to_string()),
            area: zero(),
        }
    );
    assert_eq!(ui.bar_window, BarWindow { position: None, duration: Some(Duration::from_secs(100)), area: zero() });
    assert!(!ui.album_window.selected);
    assert!(ui.title_window.selected);
    assert_eq!(ui.album_window.album_playing, None);
    assert_eq!(ui.title_window.title_playing, None);
    // An album without a song is taken, and changes no name.
    ui.update(&library(), &state(Some(2), None));
    assert_eq!(ui.info_window.title, Some("song b1".to_string()));
    assert_eq!(ui.bar_window.duration, Some(Duration::from_secs(100)));
}

#[test]
fn what_cannot_be_shown_is_told_before() {
    let mut ui = Ui::new();
    assert!(!ui.check_update(&MusicData { albums: vec![] }, &state(None, None)));
    assert!(ui.check_update(&library(), &state(None, None)));
    assert!(ui.check_update(&library(), &state(Some(2), None)));
    assert!(ui.check_update(&library(), &state(None, Some(9))));
    assert!(!ui.check_update(&library(), &state(Some(3), None)));
    assert!(!ui.check_update(&library(), &state(Some(2), Some(0))));
    assert!(!ui.check_update(&library(), &state(Some(0), Some(3))));
    ui.title_window.album_selected = 3;
    assert!(!ui.check_update(&library(), &state(None, None)));
    assert!(state(Some(0), Some(2)).check(&library()));
    assert!(!state(Some(0), Some(3)).check(&library()));
}

#[test]
fn the_panes_are_laid_out_on_the_screen() {
    let mut ui = Ui::new();
    ui.update(&library(), &state(None, None));
    let before = ui.clone();
    assert!(check_room(80, 24));
    ui.resize(80, 24);
    assert_eq!(ui.album_window.area, Area { x: 0, y: 0, width: 32, height: 22 });
    assert_eq!(ui.title_window.area, Area { x: 32, y: 0, width: 48, height: 22 });
    assert_eq!(ui.info_window.area, Area { x: 0, y: 22, width: 71, height: 1 });
    assert_eq!(ui.volume_window.area, Area { x: 0, y: 23, width: 26, height: 1 });
    assert_eq!(ui.bar_window.area, Area { x: 26, y: 23, width: 45, height: 1 });
    assert_eq!(ui.status_window.area, Area { x: 71, y: 22, width: 8, height: 2 });
    assert_eq!(ui.album_window.album_names, before.album_window.album_names);
    assert_eq!(ui.on_album, before.on_album);
    ui.resize(200, 50);
    assert_eq!(ui.album_window.area, Area { x: 0, y: 0, width: 40, height: 48 });
    assert_eq!(ui.title_window.area, Area { x: 40, y: 0, width: 160, height: 48 });
    assert_eq!(ui.info_window.area, Area { x: 0, y: 48, width: 191, height: 1 });
    assert_eq!(ui.volume_window.area, Area { x: 0, y: 49, width: 30, height: 1 });
    assert_eq!(ui.bar_window.area, Area { x: 30, y: 49, width: 161, height: 1 });
    assert_eq!(ui.status_window.area, Area { x: 191, y: 48, width: 8, height: 2 });
    ui.resize(95, 2);
    assert_eq!(ui.album_window.area, Area { x: 0, y: 0, width: 38, height: 0 });
    assert_eq!(ui.volume_window.area, Area { x: 0, y: 1, width: 30, height: 1 });
    ui.resize(100, 10);
    assert_eq!(ui.album_window.area.width, 40);
    ui.resize(101, 10);
    assert_eq!(ui.album_window.area.width, 40);
    ui.resize(90, 10);
    assert_eq!(ui.volume_window.area.width, 30);
    ui.resize(13, 10);
    assert_eq!(ui.bar_window.area, Area { x: 4, y: 9, width: 0, height: 1 });
}

#[test]
fn a_screen_without_room_is_told_before() {
    assert!(!check_room(80, 1));
    assert!(!check_room(80, 0));
    assert!(check_room(80, 2));
    assert!(!check_room(8, 24));
    assert!(!check_room(12, 24));
    assert!(check_room(13, 24));
    assert!(check_room(65535, 65535));
}

fn walking_ui() -> Ui {
    let mut ui = Ui::new();
    ui.update(&library(), &state(None, None));
    ui.resize(80, 24);
    ui
}

#[test]
fn j_and_k_walk_the_focused_list() {
    let mut ui = walking_ui();
    ui.title_window.title_selected = 2;
    assert!(Input::check(Key::Char('j'), &ui));
    assert_eq!(Input::handle(Key::Char('j'), &mut ui), (InputControl::Continue, None));
    assert_eq!(ui.album_window.album_selected, 1);
    assert_eq!(ui.title_window.album_selected, 1);
    assert_eq!(ui.title_window.title_selected, 0);
    assert_eq!(Input::handle(Key::Down, &mut ui), (InputControl::Continue, None));
    assert_eq!(Input::handle(Key::Down, &mut ui), (InputControl::Continue, None));
    assert_eq!(ui.album_window.album_selected, 2);
    assert_eq!(ui.title_window.album_selected, 2);
    assert_eq!(Input::handle(Key::Char('k'), &mut ui), (InputControl::Continue, None));
    assert_eq!(Input::handle(Key::Up, &mut ui), (InputControl::Continue, None));
    assert_eq!(Input::handle(Key::Up, &mut ui), (InputControl::Continue, None));
    assert_eq!(ui.album_window.album_selected, 0);
    assert_eq!(ui.title_window.album_selected, 0);
    ui.update(&library(), &state(None, None));
    assert_eq!(Input::handle(Key::Char('l'), &mut ui), (InputControl::Continue, None));
    assert!(!ui.on_album);
    assert_eq!(Input::handle(Key::Char('j'), &mut ui), (InputControl::Continue, None));
    assert_eq!(Input::handle(Key::Char('j'), &mut ui), (InputControl::Continue, None));
    assert_eq!(Input::handle(Key::Char('j'), &mut ui), (InputControl::Continue, None));
    assert_eq!(ui.title_window.title_selected, 2);
    assert_eq!(ui.album_window.album_selected, 0);
    assert_eq!(Input::handle(Key::Char('k'), &mut ui), (InputControl::Continue, None));
    assert_eq!(ui.title_window.title_selected, 1);
    assert_eq!(Input::handle(Key::Left, &mut ui), (InputControl::Continue, None));
    assert!(ui.on_album);
    assert_eq!(Input::handle(Key::Right, &mut ui), (InputControl::Continue, None));
    assert!(!ui.on_album);
    assert_eq!(Input::handle(Key::Char('h'), &mut ui), (InputControl::Continue, None));
    assert!(ui.on_album);
}

#[test]
fn the_title_list_scrolls_up_by_the_number_of_the_album() {
    let mut pane = TitleWindow::new();
    pane.title_names = names(30);
    pane.title_durations = vec![Duration::from_secs(1); 30];
    pane.area = Area { x: 0, y: 0, width: 40, height: 12 };
    pane.offset = 10;
    pane.title_selected = 20;
    pane.album_selected = 11;
    assert!(pane.check_up());
    pane.up();
    assert_eq!((pane.title_selected, pane.offset), (19, 9));
    pane.album_selected = 50;
    pane.title_selected = 9;
    pane.up();
    assert_eq!((pane.title_selected, pane.offset), (8, 9));
    pane.update_titles(3);
    assert_eq!(pane.album_selected, 3);
    pane.reset_selected();
    assert_eq!(pane.title_selected, 0);
}

#[test]
fn the_album_list_scrolls_with_the_selection() {
    let mut pane = AlbumWindow::new();
    pane.album_names = names(30);
    pane.update_area(0, 0, 40, 12);
    assert_eq!(pane.area, Area { x: 0, y: 0, width: 40, height: 12 });
    let mut seen = vec![];
    for _ in 0..31 {
        assert!(pane.check_down());
        pane.down();
        seen.push((pane.album_selected, pane.offset));
    }
    assert_eq!(seen[6], (7, 0));
    assert_eq!(seen[7], (8, 1));
    assert_eq!(seen[26], (27, 20));
    assert_eq!(seen[28], (29, 20));
    assert_eq!(seen[30], (29, 20));
    for _ in 0..40 {
        assert!(pane.check_up());
        pane.up();
    }
    assert_eq!((pane.album_selected, pane.offset), (0, 0));
    let unchanged = pane.clone();
    let mut empty = AlbumWindow::new();
    empty.down();
    empty.up();
    assert_eq!(empty, AlbumWindow::new());
    assert_eq!(pane, unchanged);
}

#[test]
fn keys_give_commands() {
    let mut ui = walking_ui();
    let before = ui.clone();
    let table = [
        (' ', Command::Toggle),
        ('n', Command::Next),
        ('p', Command::Previous),
        ('=', Command::VolumeUp),
        ('-', Command::VolumeDown),
        ('x', Command::Clear),
        ('.', Command::SeekForward),
        (',', Command::SeekBackward),
        ('s', Command::Shuffle),
        ('r', Command::Repeat),
        ('U', Command::FullSync),
        ('R', Command::Random),
    ];
    for (c, command) in table {
        assert!(Input::check(Key::Char(c), &ui));
        assert_eq!(Input::handle(Key::Char(c), &mut ui), (InputControl::Continue, Some(command)), "{:?}", c);
    }
    for c in ['a', 'u', 'S', 'N', 'J', 'K', 'X', '+', '\n', 'é'] {
        assert_eq!(Input::handle(Key::Char(c), &mut ui), (InputControl::Continue, None), "{:?}", c);
    }
    assert_eq!(Input::handle(Key::Other, &mut ui), (InputControl::Continue, None));
    assert_eq!(ui, before);
}

#[test]
fn q_empties_the_queue_and_ends_the_program() {
    let mut ui = walking_ui();
    let before = ui.clone();
    assert_eq!(Input::handle(Key::Char('q'), &mut ui), (InputControl::Break, Some(Command::Clear)));
    assert_eq!(Input::handle(Key::Char('Q'), &mut ui), (InputControl::Break, Some(Command::Clear)));
    assert_eq!(ui, before);
}

#[test]
fn enter_plays_what_is_selected() {
    let mut ui = walking_ui();
    Input::handle(Key::Down, &mut ui);
    assert_eq!(Input::handle(Key::Enter, &mut ui), (InputControl::Continue, Some(Command::StartAlbum(1))));
    ui.update(&library(), &state(None, None));
    Input::handle(Key::Up, &mut ui);
    ui.update(&library(), &state(None, None));
    Input::handle(Key::Right, &mut ui);
    Input::handle(Key::Down, &mut ui);
    Input::handle(Key::Down, &mut ui);
    assert_eq!(Input::handle(Key::Enter, &mut ui), (InputControl::Continue, Some(Command::StartTitle(0, 2))));
}

#[test]
fn a_step_that_cannot_be_taken_is_told_before() {
    let mut ui = Ui::new();
    ui.update(&library(), &state(None, None));
    assert!(!Input::check(Key::Down, &ui));
    assert!(!Input::check(Key::Char('k'), &ui));
    assert!(Input::check(Key::Enter, &ui));
    assert!(Input::check(Key::Left, &ui));
    ui.resize(80, 24);
    assert!(Input::check(Key::Down, &ui));
    assert!(Input::check(Key::Up, &ui));
}

#[test]
fn commands_begin_as_the_methods_of_the_client_do() {
    let status = Status { playing: true, elapsed: Some(Duration::from_secs(9)), volume: 95, random: false, repeat: true };
    let client = Client::new(library(), &status, None);
    let pairs = vec![
        (Command::Toggle, client.toggle()),
        (Command::Next, client.next()),
        (Command::Previous, client.previous()),
        (Command::VolumeUp, client.volume_up()),
        (Command::VolumeDown, client.volume_down()),
        (Command::Shuffle, client.shuffle()),
        (Command::Repeat, client.repeat()),
        (Command::Clear, client.clear()),
        (Command::SeekForward, client.seek_forward()),
        (Command::SeekBackward, client.seek_backward()),
        (Command::StartAlbum(1), client.start_album(1)),
        (Command::StartTitle(0, 2), client.start_title(0, 2)),
        (Command::FullSync, client.full_sync()),
        (Command::Sync, Stage::Refreshing),
    ];
    for (command, stage) in pairs {
        assert!(client.check(command));
        assert_eq!(client.begin(command), stage, "{:?}", command);
    }
    assert_eq!(client.begin(Command::Toggle), Stage::Single { request: Request::Pause });
    assert_eq!(client.begin(Command::VolumeUp), Stage::Single { request: Request::SetVolume(100) });
    assert_eq!(client.begin(Command::Repeat), Stage::Single { request: Request::SetRepeat(false) });
    assert!(client.check(Command::Random));
    match client.begin(Command::Random) {
        Stage::Clearing { skips, .. } => assert_eq!(skips, 0),
        other => panic!("no album is started at {:?}", other),
    }
}

#[test]
fn commands_that_cannot_be_begun_are_told_before() {
    let status = Status { playing: true, elapsed: Some(Duration { secs: u64::MAX - 4, nanos: 0 }), volume: 95, random: false, repeat: true };
    let client = Client::new(library(), &status, None);
    assert!(!client.check(Command::StartAlbum(3)));
    assert!(client.check(Command::StartAlbum(2)));
    assert!(!client.check(Command::StartTitle(3, 0)));
    assert!(client.check(Command::StartTitle(2, 99)));
    assert!(!client.check(Command::SeekForward));
    assert!(client.check(Command::SeekBackward));
    let empty = Client::new(MusicData { albums: vec![] }, &status, None);
    assert!(!empty.check(Command::Random));
    assert!(!empty.check(Command::StartAlbum(0)));
    assert!(empty.check(Command::Toggle));
    let mut unknown = client.clone();
    unknown.state.position = None;
    assert!(unknown.check(Command::SeekForward));
    let mut edge = client.clone();
    edge.state.position = Some(Duration { secs: u64::MAX - 5, nanos: 0 });
    assert!(edge.check(Command::SeekForward));
}

#[test]
fn a_pane_shows_the_rows_within_its_border() {
    assert_eq!(shown(0, 0, 2), (0, 0));
    assert_eq!(shown(0, 0, 24), (0, 0));
    assert_eq!(shown(0, 30, 12), (0, 10));
    assert_eq!(shown(5, 30, 12), (5, 15));
    assert_eq!(shown(20, 30, 12), (20, 30));
    assert_eq!(shown(25, 30, 12), (25, 30));
    assert_eq!(shown(30, 30, 12), (30, 30));
    assert_eq!(shown(99, 30, 12), (30, 30));
    assert_eq!(shown(usize::MAX, 30, 65535), (30, 30));
    assert_eq!(shown(3, 30, 2), (3, 3));
    assert_eq!(shown(0, 5, 65535), (0, 5));
    let mut albums = AlbumWindow::new();
    albums.album_names = names(30);
    albums.area = Area { x: 0, y: 0, width: 40, height: 12 };
    albums.offset = 4;
    assert_eq!(albums.visible(), (4, 14));
    let mut titles = TitleWindow::new();
    titles.title_names = names(9);
    titles.title_durations = vec![Duration::from_secs(1); 7];
    titles.area = Area { x: 0, y: 0, width: 40, height: 12 };
    assert_eq!(titles.visible(), (0, 7));
    titles.offset = 3;
    titles.area.height = 5;
    assert_eq!(titles.visible(), (3, 6));
}

#[test]
fn albums_stand_out_when_played_or_selected() {
    let mut pane = AlbumWindow::new();
    pane.album_names = names(5);
    pane.album_selected = 1;
    pane.album_playing = Some(3);
    assert_eq!(pane.highlight(0), Highlight::Plain);
    assert_eq!(pane.highlight(1), Highlight::Selected);
    assert_eq!(pane.highlight(3), Highlight::Playing);
    pane.album_selected = 3;
    assert_eq!(pane.highlight(3), Highlight::PlayingSelected);
    assert_eq!(pane.highlight(1), Highlight::Plain);
    pane.album_playing = None;
    assert_eq!(pane.highlight(3), Highlight::Selected);
    pane.selected = false;
    assert_eq!(pane.highlight(3), Highlight::Selected);
}

#[test]
fn songs_stand_out_when_played_or_selected_with_focus() {
    let mut pane = TitleWindow::new();
    pane.title_names = names(5);
    pane.album_selected = 2;
    pane.title_selected = 1;
    pane.album_playing = Some(2);
    pane.title_playing = Some(3);
    pane.selected = true;
    assert_eq!(pane.highlight(0), Highlight::Plain);
    assert_eq!(pane.highlight(1), Highlight::Selected);
    assert_eq!(pane.highlight(3), Highlight::Playing);
    pane.title_selected = 3;
    assert_eq!(pane.highlight(3), Highlight::PlayingSelected);
    pane.selected = false;
    assert_eq!(pane.highlight(3), Highlight::Playing);
    pane.title_selected = 1;
    assert_eq!(pane.highlight(1), Highlight::Plain);
    pane.selected = true;
    pane.album_playing = Some(0);
    assert_eq!(pane.highlight(3), Highlight::Plain);
    assert_eq!(pane.highlight(1), Highlight::Selected);
    pane.album_playing = Some(2);
    pane.title_playing = None;
    assert_eq!(pane.highlight(3), Highlight::Plain);
}

#[test]
fn a_clock_shows_minutes_and_seconds() {
    assert_eq!(Duration::from_secs(0).clock(), (0, 0));
    assert_eq!(Duration::from_secs(59).clock(), (0, 59));
    assert_eq!(Duration::from_secs(60).clock(), (1, 0));
    assert_eq!(Duration { secs: 3723, nanos: 999_999_999 }.clock(), (62, 3));
    assert_eq!(Duration::from_secs(u64::MAX).clock(), (307445734561825860, 15));
}
