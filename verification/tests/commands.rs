use mpcube::client::{pick_album, Client};
use mpcube::model::{Album, MusicData, Song};
use mpcube::plan::{Request, Stage, Step};
use mpcube::state::{StateData, Status};
use mpcube::tags::{Tag, TaggedSong};
use mpcube::time::Duration;

fn song(uri: &str) -> Song {
    Song { uri: uri.to_string(), title: uri.to_uppercase(), track: 0, duration: Duration::from_secs(1) }
}

fn album(title: &str, uris: &[&str]) -> Album {
    Album {
        artist: "Artist".to_string(),
        album: title.to_string(),
        date: 1969,
        songs: uris.iter().map(|u| song(u)).collect(),
    }
}

fn library() -> MusicData {
    MusicData {
        albums: vec![
            album("Alpha", &["a1", "a2", "a3"]),
            album("Beta", &["b1"]),
            album("Gamma", &[]),
            album("Delta", &["d1", "d2"]),
        ],
    }
}

fn status(volume: i8) -> Status {
    Status { playing: false, elapsed: Some(Duration::from_secs(30)), volume, random: false, repeat: false }
}

fn client(volume: i8) -> Client {
    Client::new(library(), &status(volume), None)
}

/// A daemon that answers from a script and remembers what it was asked.
struct Daemon {
    status: Status,
    current: Option<TaggedSong>,
    refuses: Vec<Request>,
    refuse_after: Option<usize>,
    songs: Vec<TaggedSong>,
    asked: Vec<Request>,
    resyncs: usize,
    rebuilds: usize,
}

impl Daemon {
    fn new(volume: i8) -> Daemon {
        Daemon {
            status: status(volume),
            current: None,
            refuses: vec![],
            refuse_after: None,
            songs: vec![],
            asked: vec![],
            resyncs: 0,
            rebuilds: 0,
        }
    }

    fn perform(&mut self, request: &Request) -> bool {
        self.asked.push(request.clone());
        if self.refuses.contains(request) {
            return false;
        }
        if let Some(limit) = self.refuse_after {
            if self.asked.len() > limit {
                return false;
            }
        }
        match request {
            Request::SetVolume(v) => self.status.volume = *v,
            Request::SetRandom(on) => self.status.random = *on,
            Request::SetRepeat(on) => self.status.repeat = *on,
            Request::Play => self.status.playing = true,
            Request::Pause => self.status.playing = false,
            Request::Seek(to) => self.status.elapsed = Some(*to),
            _ => {}
        }
        true
    }
}

/// Carries a command through, as a caller with a daemon does.
fn carry(client: &mut Client, daemon: &mut Daemon, start: Stage) {
    let mut stage = start;
    let mut steps = 0;
    loop {
        steps += 1;
        assert!(steps < 1000);
        match stage.step() {
            Step::Send(request) => {
                let accepted = daemon.perform(&request);
                stage = stage.advance(accepted);
            }
            Step::Resync => {
                daemon.resyncs += 1;
                client.sync(&daemon.status, daemon.current.as_ref());
                stage = stage.advance(true);
            }
            Step::Rebuild => {
                daemon.rebuilds += 1;
                client.reload(daemon.songs.clone());
                stage = stage.advance(true);
            }
            Step::Done => {
                assert!(stage.is_finished());
                break;
            }
        }
    }
}

fn push(uri: &str) -> Request {
    Request::Push(uri.to_string())
}

#[test]
fn a_refused_volume_leaves_the_state_as_it_was() {
    let mut client = client(95);
    let before = client.clone();
    let mut daemon = Daemon::new(95);
    daemon.refuses = vec![Request::SetVolume(100)];
    let start = client.volume_up();
    carry(&mut client, &mut daemon, start);
    assert_eq!(daemon.asked, vec![Request::SetVolume(100)]);
    assert_eq!(daemon.resyncs, 0);
    assert_eq!(client, before);
    assert_eq!(client.state.volume, 95);
}

#[test]
fn volume_up_from_95_gives_100() {
    let mut client = client(95);
    let mut daemon = Daemon::new(95);
    let start = client.volume_up();
    assert_eq!(start, Stage::Single { request: Request::SetVolume(100) });
    carry(&mut client, &mut daemon, start);
    assert_eq!(daemon.asked, vec![Request::SetVolume(100)]);
    assert_eq!(daemon.resyncs, 1);
    assert_eq!(client.state.volume, 100);
}

#[test]
fn the_volume_stays_within_its_range() {
    let up = |v: i8| client(v).volume_up();
    let down = |v: i8| client(v).volume_down();
    let set = |v: i8| Stage::Single { request: Request::SetVolume(v) };
    assert_eq!(up(0), set(10));
    assert_eq!(up(50), set(60));
    assert_eq!(up(90), set(100));
    assert_eq!(up(91), set(100));
    assert_eq!(up(100), set(100));
    assert_eq!(up(127), set(100));
    assert_eq!(up(-1), set(9));
    assert_eq!(up(-10), set(0));
    assert_eq!(up(-11), set(0));
    assert_eq!(up(-128), set(0));
    assert_eq!(down(100), set(90));
    assert_eq!(down(55), set(45));
    assert_eq!(down(10), set(0));
    assert_eq!(down(9), set(0));
    assert_eq!(down(0), set(0));
    assert_eq!(down(-128), set(0));
    assert_eq!(down(110), set(100));
    assert_eq!(down(111), set(100));
    assert_eq!(down(127), set(100));
    assert_eq!(down(105), set(95));
}

#[test]
fn toggling_pauses_what_plays_and_plays_what_does_not() {
    let mut client = client(50);
    assert_eq!(client.toggle(), Stage::Single { request: Request::Play });
    let mut daemon = Daemon::new(50);
    let start = client.toggle();
    carry(&mut client, &mut daemon, start);
    assert!(client.state.playing);
    assert_eq!(client.toggle(), Stage::Single { request: Request::Pause });
    let start = client.toggle();
    carry(&mut client, &mut daemon, start);
    assert!(!client.state.playing);
    assert_eq!(daemon.asked, vec![Request::Play, Request::Pause]);
    assert_eq!(daemon.resyncs, 2);
}

#[test]
fn simple_commands_send_one_request() {
    let client = client(50);
    assert_eq!(client.next(), Stage::Single { request: Request::Next });
    assert_eq!(client.previous(), Stage::Single { request: Request::Previous });
    assert_eq!(client.clear(), Stage::Single { request: Request::Clear });
    assert_eq!(client.shuffle(), Stage::Single { request: Request::SetRandom(true) });
    assert_eq!(client.repeat(), Stage::Single { request: Request::SetRepeat(true) });
    assert_eq!(client.full_sync(), Stage::Updating);
    let mut other = client.clone();
    other.state.shuffle = true;
    other.state.repeat = true;
    assert_eq!(other.shuffle(), Stage::Single { request: Request::SetRandom(false) });
    assert_eq!(other.repeat(), Stage::Single { request: Request::SetRepeat(false) });
}

#[test]
fn seeking_moves_by_five_seconds() {
    let mut client = client(50);
    client.state.position = Some(Duration { secs: 30, nanos: 250 });
    assert_eq!(
        client.seek_forward(),
        Stage::Single { request: Request::Seek(Duration { secs: 35, nanos: 250 }) }
    );
    assert_eq!(
        client.seek_backward(),
        Stage::Single { request: Request::Seek(Duration { secs: 25, nanos: 250 }) }
    );
    client.state.position = Some(Duration { secs: 5, nanos: 0 });
    assert_eq!(client.seek_backward(), Stage::Single { request: Request::Seek(Duration { secs: 0, nanos: 0 }) });
    client.state.position = Some(Duration { secs: 4, nanos: 999_999_999 });
    assert_eq!(client.seek_backward(), Stage::Single { request: Request::Seek(Duration { secs: 0, nanos: 0 }) });
    client.state.position = Some(Duration { secs: u64::MAX - 5, nanos: 1 });
    assert_eq!(
        client.seek_forward(),
        Stage::Single { request: Request::Seek(Duration { secs: u64::MAX, nanos: 1 }) }
    );
}

#[test]
fn seeking_does_nothing_where_the_position_is_unknown() {
    let mut client = client(50);
    client.state.position = None;
    let mut daemon = Daemon::new(50);
    let forward = client.seek_forward();
    assert_eq!(forward, Stage::Finished);
    carry(&mut client, &mut daemon, forward);
    let backward = client.seek_backward();
    assert_eq!(backward, Stage::Finished);
    carry(&mut client, &mut daemon, backward);
    assert!(daemon.asked.is_empty());
    assert_eq!(daemon.resyncs, 0);
}

#[test]
fn an_album_is_started_by_clearing_loading_and_playing() {
    let mut client = client(50);
    let mut daemon = Daemon::new(50);
    daemon.status.volume = 77;
    let start = client.start_album(0);
    carry(&mut client, &mut daemon, start);
    assert_eq!(daemon.asked, vec![Request::Clear, push("a1"), push("a2"), push("a3"), Request::Play]);
    assert_eq!(daemon.resyncs, 1);
    assert_eq!(client.state.volume, 77);
    assert!(client.state.playing);
}

#[test]
fn an_album_without_songs_is_started_all_the_same() {
    let mut client = client(50);
    let mut daemon = Daemon::new(50);
    let start = client.start_album(2);
    carry(&mut client, &mut daemon, start);
    assert_eq!(daemon.asked, vec![Request::Clear, Request::Play]);
    assert_eq!(daemon.resyncs, 1);
}

#[test]
fn a_refusal_to_clear_the_queue_ends_the_command_at_once() {
    let mut client = client(50);
    let before = client.clone();
    let mut daemon = Daemon::new(50);
    daemon.refuses = vec![Request::Clear];
    daemon.status.volume = 1;
    let start = client.start_album(3);
    carry(&mut client, &mut daemon, start);
    assert_eq!(daemon.asked, vec![Request::Clear]);
    assert_eq!(daemon.resyncs, 0);
    assert_eq!(client, before);
    let start = client.start_title(0, 2);
    carry(&mut client, &mut daemon, start);
    assert_eq!(daemon.asked, vec![Request::Clear, Request::Clear]);
    assert_eq!(daemon.resyncs, 0);
    assert_eq!(client, before);
}

#[test]
fn a_refused_song_ends_the_loading_without_resync() {
    let mut client = client(50);
    let before = client.clone();
    let mut daemon = Daemon::new(50);
    daemon.refuses = vec![push("a2")];
    daemon.status.volume = 1;
    let start = client.start_album(0);
    carry(&mut client, &mut daemon, start);
    assert_eq!(daemon.asked, vec![Request::Clear, push("a1"), push("a2")]);
    assert_eq!(daemon.resyncs, 0);
    assert_eq!(client, before);
    assert_eq!(client.state.volume, 50);
}

#[test]
fn a_refused_first_song_ends_the_loading_without_resync() {
    let mut client = client(50);
    let before = client.clone();
    let mut daemon = Daemon::new(50);
    daemon.refuses = vec![push("a1")];
    daemon.status.playing = true;
    let start = client.start_title(0, 1);
    carry(&mut client, &mut daemon, start);
    assert_eq!(daemon.asked, vec![Request::Clear, push("a1")]);
    assert_eq!(daemon.resyncs, 0);
    assert_eq!(client, before);
}

#[test]
fn a_refusal_to_play_ends_the_command_without_resync() {
    let mut client = client(50);
    let before = client.clone();
    let mut daemon = Daemon::new(50);
    daemon.refuses = vec![Request::Play];
    daemon.status.volume = 1;
    let start = client.start_title(1, 3);
    carry(&mut client, &mut daemon, start);
    assert_eq!(daemon.asked, vec![Request::Clear, push("b1"), Request::Play]);
    assert_eq!(daemon.resyncs, 0);
    assert_eq!(client, before);
}

#[test]
fn a_title_is_started_by_skipping_to_it() {
    let mut client = client(50);
    let mut daemon = Daemon::new(50);
    let start = client.start_title(0, 2);
    carry(&mut client, &mut daemon, start);
    assert_eq!(
        daemon.asked,
        vec![Request::Clear, push("a1"), push("a2"), push("a3"), Request::Play, Request::Next, Request::Next]
    );
    assert_eq!(daemon.resyncs, 1);
}

#[test]
fn the_first_title_is_started_as_the_album_is() {
    let client = client(50);
    assert_eq!(client.start_title(0, 0), client.start_album(0));
    assert_eq!(
        client.start_album(0),
        Stage::Clearing { uris: vec!["a1".to_string(), "a2".to_string(), "a3".to_string()], skips: 0 }
    );
    assert_eq!(client.start_title(3, 1), Stage::Clearing { uris: vec!["d1".to_string(), "d2".to_string()], skips: 1 });
}

#[test]
fn a_refused_skip_ends_the_skipping_and_still_resyncs() {
    let mut client = client(50);
    let mut daemon = Daemon::new(50);
    daemon.refuse_after = Some(6);
    daemon.status.volume = 33;
    let start = client.start_title(0, 5);
    carry(&mut client, &mut daemon, start);
    assert_eq!(
        daemon.asked,
        vec![Request::Clear, push("a1"), push("a2"), push("a3"), Request::Play, Request::Next, Request::Next]
    );
    assert_eq!(daemon.resyncs, 1);
    assert_eq!(client.state.volume, 33);
}

#[test]
fn a_full_synchronisation_replaces_the_library() {
    let mut client = client(50);
    client.state.album_id = Some(3);
    client.state.title_id = Some(1);
    let mut daemon = Daemon::new(50);
    let tags = |album: &str| vec![Tag { key: "ALBUM".to_string(), value: album.to_string() }];
    daemon.songs = vec![
        TaggedSong { file: "n2".to_string(), duration: None, tags: tags("New") },
        TaggedSong { file: "n1".to_string(), duration: None, tags: tags("New") },
    ];
    daemon.current = Some(TaggedSong { file: "n2".to_string(), duration: None, tags: tags("New") });
    let start = client.full_sync();
    carry(&mut client, &mut daemon, start);
    assert_eq!(daemon.asked, vec![Request::Update]);
    assert_eq!(daemon.rebuilds, 1);
    assert_eq!(daemon.resyncs, 1);
    assert_eq!(client.data.albums.len(), 1);
    assert_eq!(client.data.albums[0].album, "New");
    assert_eq!(client.data.albums[0].artist, "Unknown Artist");
    let uris: Vec<&str> = client.data.albums[0].songs.iter().map(|s| s.uri.as_str()).collect();
    assert_eq!(uris, vec!["n1", "n2"]);
    assert_eq!((client.state.album_id, client.state.title_id), (Some(0), Some(1)));
}

#[test]
fn a_refused_update_leaves_library_and_state_as_they_were() {
    let mut client = client(50);
    let before = client.clone();
    let mut daemon = Daemon::new(50);
    daemon.refuses = vec![Request::Update];
    daemon.status.volume = 9;
    let start = client.full_sync();
    carry(&mut client, &mut daemon, start);
    assert_eq!(daemon.asked, vec![Request::Update]);
    assert_eq!(daemon.rebuilds, 0);
    assert_eq!(daemon.resyncs, 0);
    assert_eq!(client, before);
}

#[test]
fn reloading_forgets_the_place_in_the_old_library() {
    let mut client = client(50);
    client.state.album_id = Some(3);
    client.state.title_id = Some(1);
    client.reload(vec![]);
    assert_eq!(client.data, MusicData { albums: vec![] });
    assert_eq!(
        client.state,
        StateData {
            playing: false,
            album_id: None,
            title_id: None,
            position: Some(Duration::from_secs(30)),
            volume: 50,
            shuffle: false,
            repeat: false,
        }
    );
}

#[test]
fn a_new_client_knows_where_the_daemon_is() {
    let current = TaggedSong {
        file: "d2".to_string(),
        duration: None,
        tags: vec![Tag { key: "Album".to_string(), value: "Delta".to_string() }],
    };
    let client = Client::new(library(), &status(40), Some(&current));
    assert_eq!(client.data, library());
    assert_eq!((client.state.album_id, client.state.title_id), (Some(3), Some(1)));
    assert_eq!(client.state.volume, 40);
}

#[test]
fn stages_follow_one_another() {
    let uris = vec!["u".to_string()];
    let loading = |next: usize, skips: usize| Stage::Loading { uris: uris.clone(), next, skips };
    assert_eq!(Stage::Single { request: Request::Next }.advance(true), Stage::Refreshing);
    assert_eq!(Stage::Single { request: Request::Next }.advance(false), Stage::Finished);
    assert_eq!(Stage::Clearing { uris: uris.clone(), skips: 2 }.advance(true), loading(0, 2));
    assert_eq!(Stage::Clearing { uris: uris.clone(), skips: 2 }.advance(false), Stage::Finished);
    assert_eq!(loading(0, 2).advance(true), loading(1, 2));
    assert_eq!(loading(0, 2).advance(false), Stage::Finished);
    assert_eq!(loading(1, 2).advance(true), Stage::Skipping { more: 1 });
    assert_eq!(loading(1, 0).advance(true), Stage::Refreshing);
    assert_eq!(loading(1, 2).advance(false), Stage::Finished);
    assert_eq!(loading(7, 1).advance(true), Stage::Skipping { more: 0 });
    assert_eq!(Stage::Skipping { more: 1 }.advance(true), Stage::Skipping { more: 0 });
    assert_eq!(Stage::Skipping { more: 0 }.advance(true), Stage::Refreshing);
    assert_eq!(Stage::Skipping { more: 4 }.advance(false), Stage::Refreshing);
    assert_eq!(Stage::Updating.advance(true), Stage::Rebuilding);
    assert_eq!(Stage::Updating.advance(false), Stage::Finished);
    assert_eq!(Stage::Rebuilding.advance(true), Stage::Refreshing);
    assert_eq!(Stage::Rebuilding.advance(false), Stage::Refreshing);
    assert_eq!(Stage::Refreshing.advance(true), Stage::Finished);
    assert_eq!(Stage::Refreshing.advance(false), Stage::Finished);
    assert_eq!(Stage::Finished.advance(true), Stage::Finished);
}

#[test]
fn stages_say_what_is_to_be_done() {
    let uris = vec!["u".to_string(), "v".to_string()];
    assert_eq!(Stage::Single { request: Request::Seek(Duration::from_secs(3)) }.step(), Step::Send(Request::Seek(Duration::from_secs(3))));
    assert_eq!(Stage::Single { request: push("x") }.step(), Step::Send(push("x")));
    assert_eq!(Stage::Clearing { uris: uris.clone(), skips: 0 }.step(), Step::Send(Request::Clear));
    assert_eq!(Stage::Loading { uris: uris.clone(), next: 0, skips: 0 }.step(), Step::Send(push("u")));
    assert_eq!(Stage::Loading { uris: uris.clone(), next: 1, skips: 0 }.step(), Step::Send(push("v")));
    assert_eq!(Stage::Loading { uris: uris.clone(), next: 2, skips: 0 }.step(), Step::Send(Request::Play));
    assert_eq!(Stage::Skipping { more: 3 }.step(), Step::Send(Request::Next));
    assert_eq!(Stage::Updating.step(), Step::Send(Request::Update));
    assert_eq!(Stage::Rebuilding.step(), Step::Rebuild);
    assert_eq!(Stage::Refreshing.step(), Step::Resync);
    assert_eq!(Stage::Finished.step(), Step::Done);
    assert!(Stage::Finished.is_finished());
    assert!(!Stage::Refreshing.is_finished());
}

fn album_of(stage: &Stage) -> usize {
    match stage {
        Stage::Clearing { uris, skips } => {
            assert_eq!(*skips, 0);
            library()
                .albums
                .iter()
                .position(|a| a.songs.iter().map(|s| s.uri.clone()).collect::<Vec<String>>() == *uris)
                .unwrap()
        }
        other => panic!("no album is started at {:?}", other),
    }
}

#[test]
fn a_random_album_is_never_the_one_that_plays() {
    for playing in 0..4 {
        let mut client = client(50);
        client.state.album_id = Some(playing);
        client.state.title_id = Some(0);
        let mut seen = [false; 4];
        for _ in 0..400 {
            let chosen = album_of(&client.random());
            assert_ne!(chosen, playing);
            seen[chosen] = true;
        }
        for album in 0..4 {
            assert_eq!(seen[album], album != playing);
        }
    }
}

#[test]
fn a_random_album_is_any_where_none_plays() {
    let client = client(50);
    let mut seen = [false; 4];
    for _ in 0..400 {
        seen[album_of(&client.random())] = true;
    }
    assert_eq!(seen, [true; 4]);
}

#[test]
fn the_only_album_is_the_random_album() {
    let only = MusicData { albums: vec![album("Alpha", &["a1", "a2", "a3"])] };
    let mut client = Client::new(only, &status(50), None);
    for _ in 0..50 {
        assert_eq!(album_of(&client.random()), 0);
    }
    client.state.album_id = Some(0);
    client.state.title_id = Some(1);
    for _ in 0..50 {
        assert_eq!(album_of(&client.random()), 0);
    }
}

#[test]
fn every_draw_falls_on_another_album() {
    for count in 1..6usize {
        for playing in 0..count {
            let draws = if count > 1 { count - 1 } else { count };
            let mut hit = vec![0; count];
            for draw in 0..draws {
                let chosen = pick_album(draw, count, Some(playing));
                assert!(chosen < count);
                if count > 1 {
                    assert_ne!(chosen, playing);
                }
                hit[chosen] += 1;
            }
            for album in 0..count {
                assert_eq!(hit[album], if count > 1 && album == playing { 0 } else { 1 });
            }
        }
        for draw in 0..count {
            assert_eq!(pick_album(draw, count, None), draw);
            assert_eq!(pick_album(draw, count, Some(count)), draw);
            assert_eq!(pick_album(draw, count, Some(usize::MAX)), draw);
        }
    }
    assert_eq!(pick_album(0, 3, Some(0)), 1);
    assert_eq!(pick_album(1, 3, Some(0)), 2);
    assert_eq!(pick_album(0, 3, Some(1)), 0);
    assert_eq!(pick_album(1, 3, Some(1)), 2);
    assert_eq!(pick_album(0, 3, Some(2)), 0);
    assert_eq!(pick_album(1, 3, Some(2)), 1);
}
