//! The course of a command: which requests go to the daemon, in which order,
//! and what follows when the daemon accepts or refuses one.
//!
//! A command is a [`Stage`] that the caller carries forward. At each stage
//! [`Stage::step`] says what is to be done, and [`Stage::advance`] gives the
//! stage that follows once it is done.

use crate::model::text_views;
use crate::time::Duration;
use vstd::prelude::*;

verus! {

/// One request to the daemon.
#[derive(Clone, Debug, PartialEq, Eq)]
pub enum Request {
    /// Start or resume playback.
    Play,
    /// Pause playback.
    Pause,
    /// Go to the next song of the queue.
    Next,
    /// Go to the previous song of the queue.
    Previous,
    /// Set the volume.
    SetVolume(i8),
    /// Switch random order on or off.
    SetRandom(bool),
    /// Switch repetition on or off.
    SetRepeat(bool),
    /// Empty the queue.
    Clear,
    /// Go to a position within the current song.
    Seek(Duration),
    /// Put the song with this locator at the end of the queue.
    Push(String),
    /// Have the daemon read its music directory again.
    Update,
}

/// What a [`Request`] holds.
pub enum RequestView {
    Play,
    Pause,
    Next,
    Previous,
    SetVolume(i8),
    SetRandom(bool),
    SetRepeat(bool),
    Clear,
    Seek(Duration),
    Push(Seq<char>),
    Update,
}

impl View for Request {
    type V = RequestView;

    open spec fn view(&self) -> RequestView {
        match self {
            Request::Play => RequestView::Play,
            Request::Pause => RequestView::Pause,
            Request::Next => RequestView::Next,
            Request::Previous => RequestView::Previous,
            Request::SetVolume(volume) => RequestView::SetVolume(*volume),
            Request::SetRandom(on) => RequestView::SetRandom(*on),
            Request::SetRepeat(on) => RequestView::SetRepeat(*on),
            Request::Clear => RequestView::Clear,
            Request::Seek(to) => RequestView::Seek(*to),
            Request::Push(uri) => RequestView::Push(uri@),
            Request::Update => RequestView::Update,
        }
    }
}

/// What the caller is to do next.
#[derive(Clone, Debug, PartialEq, Eq)]
pub enum Step {
    /// Send the request and see whether the daemon accepts it.
    Send(Request),
    /// Ask the daemon for its status and its current song, and bring the
    /// state up to date with them.
    Resync,
    /// Ask the daemon for all its songs, replace the library by what they
    /// make, and store the new library.
    Rebuild,
    /// Nothing: the command is over.
    Done,
}

/// What a [`Step`] holds.
pub enum StepView {
    Send(RequestView),
    Resync,
    Rebuild,
    Done,
}

impl View for Step {
    type V = StepView;

    open spec fn view(&self) -> StepView {
        match self {
            Step::Send(request) => StepView::Send(request@),
            Step::Resync => StepView::Resync,
            Step::Rebuild => StepView::Rebuild,
            Step::Done => StepView::Done,
        }
    }
}

/// How far a command has come.
#[derive(Clone, Debug, PartialEq, Eq)]
pub enum Stage {
    /// The one request of a simple command is due.
    Single {
        /// The request.
        request: Request,
    },
    /// The queue is to be emptied, to make room for an album.
    Clearing {
        /// The locators of the album's songs, in the album's order.
        uris: Vec<String>,
        /// How many songs to skip once playback has started.
        skips: usize,
    },
    /// The album goes into the queue song by song; when all songs are in,
    /// playback is to start.
    Loading {
        /// The locators of the album's songs, in the album's order.
        uris: Vec<String>,
        /// How many of them are in the queue.
        next: usize,
        /// How many songs to skip once playback has started.
        skips: usize,
    },
    /// Playback has started, and a song is to be skipped.
    Skipping {
        /// How many songs to skip after this one.
        more: usize,
    },
    /// The daemon is to read its music directory again.
    Updating,
    /// The library is to be built anew.
    Rebuilding,
    /// The state is to be brought up to date; nothing follows.
    Refreshing,
    /// The command is over.
    Finished,
}

/// What a [`Stage`] holds.
pub enum StageView {
    Single { request: RequestView },
    Clearing { uris: Seq<Seq<char>>, skips: usize },
    Loading { uris: Seq<Seq<char>>, next: usize, skips: usize },
    Skipping { more: usize },
    Updating,
    Rebuilding,
    Refreshing,
    Finished,
}

impl View for Stage {
    type V = StageView;

    open spec fn view(&self) -> StageView {
        match self {
            Stage::Single { request } => StageView::Single { request: request@ },
            Stage::Clearing { uris, skips } => StageView::Clearing {
                uris: text_views(uris@),
                skips: *skips,
            },
            Stage::Loading { uris, next, skips } => StageView::Loading {
                uris: text_views(uris@),
                next: *next,
                skips: *skips,
            },
            Stage::Skipping { more } => StageView::Skipping { more: *more },
            Stage::Updating => StageView::Updating,
            Stage::Rebuilding => StageView::Rebuilding,
            Stage::Refreshing => StageView::Refreshing,
            Stage::Finished => StageView::Finished,
        }
    }
}

impl StageView {
    /// The songs of the album can be counted by the machine, as those of
    /// every [`Stage`] can.
    pub open spec fn wf(self) -> bool {
        match self {
            StageView::Clearing { uris, .. } => uris.len() <= usize::MAX,
            StageView::Loading { uris, .. } => uris.len() <= usize::MAX,
            _ => true,
        }
    }

    /// The stage at which a single request goes out and the state is brought
    /// up to date if the daemon accepts it.
    pub open spec fn single(request: RequestView) -> StageView {
        StageView::Single { request }
    }

    /// The stage at which the album with the songs `uris` starts to replace
    /// the queue, to be played from its song number `skips`.
    pub open spec fn album(uris: Seq<Seq<char>>, skips: usize) -> StageView {
        StageView::Clearing { uris, skips }
    }

    /// What is to be done at this stage.
    pub open spec fn step(self) -> StepView {
        match self {
            StageView::Single { request } => StepView::Send(request),
            StageView::Clearing { .. } => StepView::Send(RequestView::Clear),
            StageView::Loading { uris, next, .. } => if next < uris.len() {
                StepView::Send(RequestView::Push(uris[next as int]))
            } else {
                StepView::Send(RequestView::Play)
            },
            StageView::Skipping { .. } => StepView::Send(RequestView::Next),
            StageView::Updating => StepView::Send(RequestView::Update),
            StageView::Rebuilding => StepView::Rebuild,
            StageView::Refreshing => StepView::Resync,
            StageView::Finished => StepView::Done,
        }
    }

    /// The stage that follows this one. `accepted` says whether the daemon
    /// accepted the request of this stage; it counts for nothing where the
    /// step was no request.
    ///
    /// A simple command brings the state up to date if its request was
    /// accepted, and ends at once if not. On the way to playing an album the
    /// first refusal ends the command at once, be it of emptying the queue,
    /// of a song or of playing: nothing further is asked of the daemon, what
    /// is in the queue stays there, and the state is not brought up to date.
    /// A refusal to skip ends the skipping, and the state is still brought up
    /// to date. The state is brought up to date once, at the end.
    pub open spec fn advance(self, accepted: bool) -> StageView {
        match self {
            StageView::Single { .. } => if accepted {
                StageView::Refreshing
            } else {
                StageView::Finished
            },
            StageView::Clearing { uris, skips } => if accepted {
                StageView::Loading { uris, next: 0, skips }
            } else {
                StageView::Finished
            },
            StageView::Loading { uris, next, skips } => if !accepted {
                StageView::Finished
            } else if next < uris.len() {
                StageView::Loading { uris, next: (next + 1) as usize, skips }
            } else if skips > 0 {
                StageView::Skipping { more: (skips - 1) as usize }
            } else {
                StageView::Refreshing
            },
            StageView::Skipping { more } => if accepted && more > 0 {
                StageView::Skipping { more: (more - 1) as usize }
            } else {
                StageView::Refreshing
            },
            StageView::Updating => if accepted {
                StageView::Rebuilding
            } else {
                StageView::Finished
            },
            StageView::Rebuilding => StageView::Refreshing,
            StageView::Refreshing => StageView::Finished,
            StageView::Finished => StageView::Finished,
        }
    }

    /// The steps that are taken from this stage on, one for each of the
    /// daemon's answers in `answers`.
    pub open spec fn course(self, answers: Seq<bool>) -> Seq<StepView>
        decreases answers.len(),
    {
        if answers.len() == 0 {
            Seq::empty()
        } else {
            seq![self.step()] + self.advance(answers[0]).course(answers.drop_first())
        }
    }

    /// The stage that is reached from this one by the daemon's answers in
    /// `answers`.
    pub open spec fn after(self, answers: Seq<bool>) -> StageView
        decreases answers.len(),
    {
        if answers.len() == 0 {
            self
        } else {
            self.advance(answers[0]).after(answers.drop_first())
        }
    }

    /// How many steps the command can still take, at most.
    pub open spec fn steps_left(self) -> nat {
        match self {
            StageView::Single { .. } => 2,
            StageView::Clearing { uris, skips } => (uris.len() + skips + 4) as nat,
            StageView::Loading { uris, next, skips } => if next < uris.len() {
                (uris.len() - next + skips + 3) as nat
            } else {
                (skips + 2) as nat
            },
            StageView::Skipping { more } => (more + 2) as nat,
            StageView::Updating => 3,
            StageView::Rebuilding => 2,
            StageView::Refreshing => 1,
            StageView::Finished => 0,
        }
    }
}

impl Stage {
    /// What is to be done at this stage.
    pub fn step(&self) -> (r: Step)
        ensures
            r@ == self@.step(),
    {
        match self {
            Stage::Single { request } => Step::Send(copy_of(request)),
            Stage::Clearing { .. } => Step::Send(Request::Clear),
            Stage::Loading { uris, next, .. } => if *next < uris.len() {
                Step::Send(Request::Push(uris[*next].clone()))
            } else {
                Step::Send(Request::Play)
            },
            Stage::Skipping { .. } => Step::Send(Request::Next),
            Stage::Updating => Step::Send(Request::Update),
            Stage::Rebuilding => Step::Rebuild,
            Stage::Refreshing => Step::Resync,
            Stage::Finished => Step::Done,
        }
    }

    /// The stage that follows this one, once its step is done. `accepted`
    /// says whether the daemon accepted the request of this stage.
    pub fn advance(self, accepted: bool) -> (r: Stage)
        ensures
            r@ == self@.advance(accepted),
    {
        match self {
            Stage::Single { .. } => if accepted {
                Stage::Refreshing
            } else {
                Stage::Finished
            },
            Stage::Clearing { uris, skips } => if accepted {
                Stage::Loading { uris, next: 0, skips }
            } else {
                Stage::Finished
            },
            Stage::Loading { uris, next, skips } => if !accepted {
                Stage::Finished
            } else if next < uris.len() {
                Stage::Loading { uris, next: next + 1, skips }
            } else if skips > 0 {
                Stage::Skipping { more: skips - 1 }
            } else {
                Stage::Refreshing
            },
            Stage::Skipping { more } => if accepted && more > 0 {
                Stage::Skipping { more: more - 1 }
            } else {
                Stage::Refreshing
            },
            Stage::Updating => if accepted {
                Stage::Rebuilding
            } else {
                Stage::Finished
            },
            Stage::Rebuilding => Stage::Refreshing,
            Stage::Refreshing => Stage::Finished,
            Stage::Finished => Stage::Finished,
        }
    }

    /// Whether the command is over.
    pub fn is_finished(&self) -> (r: bool)
        ensures
            r == (self@ == StageView::Finished),
    {
        match self {
            Stage::Finished => true,
            _ => false,
        }
    }
}

/// A request like `request`.
fn copy_of(request: &Request) -> (r: Request)
    ensures
        r@ == request@,
{
    match request {
        Request::Play => Request::Play,
        Request::Pause => Request::Pause,
        Request::Next => Request::Next,
        Request::Previous => Request::Previous,
        Request::SetVolume(volume) => Request::SetVolume(*volume),
        Request::SetRandom(on) => Request::SetRandom(*on),
        Request::SetRepeat(on) => Request::SetRepeat(*on),
        Request::Clear => Request::Clear,
        Request::Seek(to) => Request::Seek(*to),
        Request::Push(uri) => Request::Push(uri.clone()),
        Request::Update => Request::Update,
    }
}

/// Every command ends: each stage but the last leaves fewer steps to take,
/// whatever the daemon answers, and only the last stage has nothing to do.
pub proof fn lemma_advance_ends(stage: StageView, accepted: bool)
    requires
        stage.wf(),
    ensures
        stage.advance(accepted).wf(),
        stage != StageView::Finished ==> stage.advance(accepted).steps_left() < stage.steps_left(),
        stage.step() == StepView::Done <==> stage == StageView::Finished,
        stage.steps_left() == 0 <==> stage == StageView::Finished,
{
}

/// A simple command brings the state up to date exactly when the daemon
/// accepts its request: a refused request is followed by nothing at all.
pub proof fn lemma_single_resyncs_on_success(request: RequestView, accepted: bool)
    ensures
        StageView::single(request).step() == StepView::Send(request),
        StageView::single(request).advance(true).step() == StepView::Resync,
        StageView::single(request).advance(true).advance(accepted) == StageView::Finished,
        StageView::single(request).advance(false) == StageView::Finished,
{
}

/// `count` answers of a daemon that accepts every request.
pub open spec fn all_accepted(count: nat) -> Seq<bool> {
    Seq::new(count, |i: int| true)
}

/// The requests that put the songs `uris` into the queue, from the song
/// `from` on.
pub open spec fn pushes(uris: Seq<Seq<char>>, from: int) -> Seq<StepView> {
    Seq::new((uris.len() - from) as nat, |i: int| StepView::Send(RequestView::Push(uris[from + i])))
}

/// `count` requests to go to the next song.
pub open spec fn skips(count: nat) -> Seq<StepView> {
    Seq::new(count, |i: int| StepView::Send(RequestView::Next))
}

/// One more answer of a daemon that accepts every request.
proof fn lemma_all_accepted(count: nat)
    ensures
        all_accepted(count + 1).len() == count + 1,
        all_accepted(count + 1)[0],
        all_accepted(count + 1).drop_first() == all_accepted(count),
{
    assert(all_accepted(count + 1).drop_first() =~= all_accepted(count));
}

/// Bringing the state up to date is one step, and the command is over.
proof fn lemma_refreshing_course()
    ensures
        StageView::Refreshing.course(all_accepted(1)) == seq![StepView::Resync],
        StageView::Refreshing.after(all_accepted(1)) == StageView::Finished,
{
    let answers = all_accepted(1);
    let rest = answers.drop_first();
    assert(rest.len() == 0);
    assert(StageView::Finished.course(rest) =~= Seq::<StepView>::empty());
    assert(StageView::Finished.after(rest) == StageView::Finished);
    assert(StageView::Refreshing.advance(answers[0]) == StageView::Finished);
    assert(StageView::Refreshing.course(answers) =~= seq![StepView::Resync]);
}

/// With a daemon that accepts every request, skipping takes one request
/// for each song to skip, brings the state up to date, and ends.
proof fn lemma_skipping_course(more: usize)
    ensures
        (StageView::Skipping { more }).course(all_accepted((more + 2) as nat)) == skips(
            (more + 1) as nat,
        ) + seq![StepView::Resync],
        (StageView::Skipping { more }).after(all_accepted((more + 2) as nat))
            == StageView::Finished,
    decreases more,
{
    let stage = StageView::Skipping { more };
    lemma_all_accepted((more + 1) as nat);
    if more == 0 {
        lemma_refreshing_course();
        assert(stage.course(all_accepted(2)) =~= skips(1) + seq![StepView::Resync]);
    } else {
        lemma_skipping_course((more - 1) as usize);
        assert(stage.course(all_accepted((more + 2) as nat)) =~= skips((more + 1) as nat)
            + seq![StepView::Resync]);
    }
}

/// With a daemon that accepts every request, loading puts the songs into
/// the queue that are not yet in it, starts playback, skips, brings the state
/// up to date, and ends.
proof fn lemma_loading_course(uris: Seq<Seq<char>>, next: usize, to_skip: usize)
    requires
        next <= uris.len() <= usize::MAX,
    ensures
        (StageView::Loading { uris, next, skips: to_skip }).course(
            all_accepted((uris.len() - next + to_skip + 2) as nat),
        ) == pushes(uris, next as int) + seq![StepView::Send(RequestView::Play)] + skips(
            to_skip as nat,
        ) + seq![StepView::Resync],
        (StageView::Loading { uris, next, skips: to_skip }).after(
            all_accepted((uris.len() - next + to_skip + 2) as nat),
        ) == StageView::Finished,
    decreases uris.len() - next,
{
    let stage = StageView::Loading { uris, next, skips: to_skip };
    let count = (uris.len() - next + to_skip + 2) as nat;
    lemma_all_accepted((count - 1) as nat);
    let wanted = pushes(uris, next as int) + seq![StepView::Send(RequestView::Play)] + skips(
        to_skip as nat,
    ) + seq![StepView::Resync];
    if next < uris.len() {
        lemma_loading_course(uris, (next + 1) as usize, to_skip);
        assert(pushes(uris, next as int) =~= seq![
            StepView::Send(RequestView::Push(uris[next as int])),
        ] + pushes(uris, next + 1));
        assert(stage.course(all_accepted(count)) =~= wanted);
    } else {
        assert(pushes(uris, next as int) =~= Seq::<StepView>::empty());
        if to_skip > 0 {
            lemma_skipping_course((to_skip - 1) as usize);
            assert(stage.course(all_accepted(count)) =~= wanted);
        } else {
            lemma_refreshing_course();
            assert(skips(0) =~= Seq::<StepView>::empty());
            assert(stage.course(all_accepted(count)) =~= wanted);
        }
    }
}

/// The course of an album with a daemon that accepts every request: the
/// queue is emptied; every song of the album goes into the queue, in the
/// album's order; playback starts; as many songs are skipped as stand before
/// the one wanted; the state is brought up to date, once; and the command is
/// over.
pub proof fn lemma_album_course(uris: Seq<Seq<char>>, to_skip: usize)
    requires
        uris.len() <= usize::MAX,
    ensures
        StageView::album(uris, to_skip).course(all_accepted((uris.len() + to_skip + 3) as nat))
            == seq![StepView::Send(RequestView::Clear)] + pushes(uris, 0)
            + seq![StepView::Send(RequestView::Play)] + skips(to_skip as nat)
            + seq![StepView::Resync],
        StageView::album(uris, to_skip).after(all_accepted((uris.len() + to_skip + 3) as nat))
            == StageView::Finished,
{
    let count = (uris.len() + to_skip + 2) as nat;
    lemma_all_accepted(count);
    lemma_loading_course(uris, 0, to_skip);
    let start = StageView::album(uris, to_skip);
    let loading = StageView::Loading { uris, next: 0, skips: to_skip };
    assert(start.advance(true) == loading);
    assert(start.after(all_accepted(count + 1)) == loading.after(all_accepted(count)));
    assert(start.course(all_accepted(count + 1)) =~= seq![StepView::Send(RequestView::Clear)]
        + loading.course(all_accepted(count)));
    assert(start.course(all_accepted(count + 1)) =~= seq![StepView::Send(RequestView::Clear)]
        + pushes(uris, 0) + seq![StepView::Send(RequestView::Play)] + skips(to_skip as nat)
        + seq![StepView::Resync]);
}

/// A refusal to empty the queue ends the command at once: no song goes into
/// the queue, playback is not started, and the state is not brought up to
/// date.
pub proof fn lemma_refused_clear_ends(uris: Seq<Seq<char>>, to_skip: usize, answers: Seq<bool>)
    requires
        answers.len() > 0,
        !answers[0],
    ensures
        StageView::album(uris, to_skip).course(answers) == seq![
            StepView::Send(RequestView::Clear),
        ] + Seq::new((answers.len() - 1) as nat, |i: int| StepView::Done),
        StageView::album(uris, to_skip).after(answers) == StageView::Finished,
{
    lemma_finished_course(answers.drop_first());
    assert(StageView::album(uris, to_skip).course(answers) =~= seq![
        StepView::Send(RequestView::Clear),
    ] + Seq::new((answers.len() - 1) as nat, |i: int| StepView::Done));
}

/// A refusal to play ends the command at once: no song is skipped, and the
/// state is not brought up to date.
pub proof fn lemma_refused_play_ends(
    uris: Seq<Seq<char>>,
    next: usize,
    to_skip: usize,
    answers: Seq<bool>,
)
    requires
        next >= uris.len(),
        answers.len() > 0,
        !answers[0],
    ensures
        (StageView::Loading { uris, next, skips: to_skip }).course(answers) == seq![
            StepView::Send(RequestView::Play),
        ] + Seq::new((answers.len() - 1) as nat, |i: int| StepView::Done),
        (StageView::Loading { uris, next, skips: to_skip }).after(answers) == StageView::Finished,
{
    lemma_finished_course(answers.drop_first());
    assert((StageView::Loading { uris, next, skips: to_skip }).course(answers) =~= seq![
        StepView::Send(RequestView::Play),
    ] + Seq::new((answers.len() - 1) as nat, |i: int| StepView::Done));
}

/// A song that the daemon refuses ends the command at once: no further song
/// goes into the queue, playback is not started, and the state is not
/// brought up to date.
pub proof fn lemma_refused_song_ends(
    uris: Seq<Seq<char>>,
    next: usize,
    to_skip: usize,
    answers: Seq<bool>,
)
    requires
        next < uris.len(),
        answers.len() > 0,
        !answers[0],
    ensures
        (StageView::Loading { uris, next, skips: to_skip }).course(answers) == seq![
            StepView::Send(RequestView::Push(uris[next as int])),
        ] + Seq::new((answers.len() - 1) as nat, |i: int| StepView::Done),
        (StageView::Loading { uris, next, skips: to_skip }).after(answers) == StageView::Finished,
{
    lemma_finished_course(answers.drop_first());
    assert((StageView::Loading { uris, next, skips: to_skip }).course(answers) =~= seq![
        StepView::Send(RequestView::Push(uris[next as int])),
    ] + Seq::new((answers.len() - 1) as nat, |i: int| StepView::Done));
}

/// The requests that put the songs `from` to `to` of `uris` into the queue,
/// the song `to` among them.
pub open spec fn pushes_up_to(uris: Seq<Seq<char>>, from: int, to: int) -> Seq<StepView> {
    Seq::new((to + 1 - from) as nat, |i: int| StepView::Send(RequestView::Push(uris[from + i])))
}

/// Loading that meets a refusal at the song `at`: the songs before it and
/// the song itself are asked for, and the command is over.
proof fn lemma_loading_refused(
    uris: Seq<Seq<char>>,
    next: usize,
    at: usize,
    to_skip: usize,
    rest: Seq<bool>,
)
    requires
        next <= at < uris.len() <= usize::MAX,
    ensures
        (StageView::Loading { uris, next, skips: to_skip }).course(
            all_accepted((at - next) as nat) + seq![false] + rest,
        ) == pushes_up_to(uris, next as int, at as int) + Seq::new(
            rest.len(),
            |i: int| StepView::Done,
        ),
        (StageView::Loading { uris, next, skips: to_skip }).after(
            all_accepted((at - next) as nat) + seq![false] + rest,
        ) == StageView::Finished,
    decreases at - next,
{
    let stage = StageView::Loading { uris, next, skips: to_skip };
    let answers = all_accepted((at - next) as nat) + seq![false] + rest;
    let done = Seq::new(rest.len(), |i: int| StepView::Done);
    if next == at {
        assert(answers.drop_first() =~= rest);
        lemma_finished_course(rest);
        assert(stage.course(answers) =~= pushes_up_to(uris, next as int, at as int) + done);
    } else {
        let later = all_accepted((at - next - 1) as nat) + seq![false] + rest;
        assert(answers[0]);
        assert(answers.drop_first() =~= later);
        lemma_loading_refused(uris, (next + 1) as usize, at, to_skip, rest);
        assert(pushes_up_to(uris, next as int, at as int) =~= seq![
            StepView::Send(RequestView::Push(uris[next as int])),
        ] + pushes_up_to(uris, next + 1, at as int));
        assert(stage.course(answers) =~= pushes_up_to(uris, next as int, at as int) + done);
    }
}

/// An album of which the daemon refuses the song `at`, after it has emptied
/// the queue and taken the songs before: the queue is emptied, the songs up
/// to the one refused are asked for, and the command is over. The songs
/// behind it are not asked for, playback is not started, the songs that went
/// in stay in the queue, and the state is not brought up to date.
pub proof fn lemma_refused_song_ends_album(
    uris: Seq<Seq<char>>,
    at: usize,
    to_skip: usize,
    rest: Seq<bool>,
)
    requires
        at < uris.len() <= usize::MAX,
    ensures
        StageView::album(uris, to_skip).course(
            seq![true] + all_accepted(at as nat) + seq![false] + rest,
        ) == seq![StepView::Send(RequestView::Clear)] + pushes_up_to(uris, 0, at as int)
            + Seq::new(rest.len(), |i: int| StepView::Done),
        StageView::album(uris, to_skip).after(
            seq![true] + all_accepted(at as nat) + seq![false] + rest,
        ) == StageView::Finished,
{
    let start = StageView::album(uris, to_skip);
    let loading = StageView::Loading { uris, next: 0, skips: to_skip };
    let answers = seq![true] + all_accepted(at as nat) + seq![false] + rest;
    let later = all_accepted(at as nat) + seq![false] + rest;
    assert(answers[0]);
    assert(answers.drop_first() =~= later);
    lemma_loading_refused(uris, 0, at, to_skip, rest);
    assert(start.advance(true) == loading);
    assert(start.course(answers) =~= seq![StepView::Send(RequestView::Clear)] + pushes_up_to(
        uris,
        0,
        at as int,
    ) + Seq::new(rest.len(), |i: int| StepView::Done));
}

/// A command that is over stays over.
pub proof fn lemma_finished_course(answers: Seq<bool>)
    ensures
        StageView::Finished.course(answers) == Seq::new(answers.len(), |i: int| StepView::Done),
        StageView::Finished.after(answers) == StageView::Finished,
    decreases answers.len(),
{
    if answers.len() > 0 {
        lemma_finished_course(answers.drop_first());
    }
    assert(StageView::Finished.course(answers) =~= Seq::new(
        answers.len(),
        |i: int| StepView::Done,
    ));
}

} // verus!
