//! The local audio player: what its worker does on each command, after each
//! load and after each packet.
//!
//! The worker owns the decoder and the output device. Here stands what it
//! decides: which item to load next, when to drop the one that plays, and what
//! state to report.

use vstd::prelude::*;

use crate::config::{CrossfadeSettings, ReplayGainSettings};
use crate::persist::{audio_index, audio_items, audio_only, PersistedQueue};
use crate::queue::{PlaybackQueue, QueueItem, QueueView};
use crate::remote::{Remote, RemoteView};
use crate::renderer::{secs_to_us, PlaybackState, PlaybackStatus, RendererCall, StateView};
use crate::text::{chars, find_char, str_eq, to_lower, trim};

verus! {

/// The audio player as its worker knows it.
#[derive(Debug)]
pub struct SymphoniaPlayer {
    /// The queue, and the state that is reported.
    pub core: Remote,
    /// Whether a track is decoded at the moment.
    pub loaded: bool,
    pub paused: bool,
    /// Whether the last load failed and the queue is searched for one that works.
    pub skipping: bool,
    /// Where the next track is to start, in microseconds.
    pub start_us: u64,
}

/// The player as a value.
pub ghost struct PlayerView {
    pub core: RemoteView,
    pub loaded: bool,
    pub paused: bool,
    pub skipping: bool,
    pub start_us: u64,
}

impl View for SymphoniaPlayer {
    type V = PlayerView;

    open spec fn view(&self) -> PlayerView {
        PlayerView {
            core: self.core@,
            loaded: self.loaded,
            paused: self.paused,
            skipping: self.skipping,
            start_us: self.start_us,
        }
    }
}

/// What the worker is to do with its decoder.
#[derive(Debug)]
pub enum PlayerAction {
    Nothing,
    /// Open an item's stream, and report how that went.
    Load(QueueItem),
    /// Go to a position of the track, in microseconds.
    Seek(u64),
}

/// What follows from a command.
#[derive(Debug)]
pub struct PlayerStep {
    /// Whether the track that plays is to be dropped first.
    pub drop_track: bool,
    pub action: PlayerAction,
}

/// How the decoding of a packet went.
#[derive(Debug, Clone, Copy, PartialEq, Eq, Structural)]
pub enum DecodeStep {
    Pushed,
    EndOfStream,
    Error,
}

/// What the worker does next.
#[derive(Debug, Clone, Copy, PartialEq, Eq, Structural)]
pub enum Work {
    /// Wait for a command.
    Block,
    /// Sleep for so many milliseconds, then report the position.
    Rest(u64),
    /// Decode a packet.
    Decode,
}

/// The loudest volume that a player takes, in thousandths.
pub const MAX_VOLUME_MILLI: u32 = 1500;

/// Free slots below which no packet is decoded.
pub const MIN_FREE_SLOTS: usize = 8192;

/// A state in which nothing plays.
pub open spec fn idled(r: RemoteView) -> RemoteView {
    RemoteView {
        state: StateView {
            status: PlaybackStatus::Idle,
            now_playing: None,
            position_us: 0,
            duration_us: 0,
            ..r.state
        },
        ..r
    }
}

/// The length of an item where its server told it, in microseconds.
pub open spec fn told_duration(item: QueueItem) -> u64 {
    match item.duration_secs {
        Some(d) => crate::num::sat64(d as nat * 1_000_000) as u64,
        None => 0,
    }
}

/// A state in which an item is being opened.
pub open spec fn opening(r: RemoteView, item: QueueItem) -> RemoteView {
    RemoteView {
        state: StateView {
            status: PlaybackStatus::Buffering,
            now_playing: Some(item),
            position_us: 0,
            duration_us: told_duration(item),
            ..r.state
        },
        ..r
    }
}

/// The queue after the current item, and the state that takes it over.
pub open spec fn with_queue(r: RemoteView, q: QueueView) -> RemoteView {
    RemoteView { queue: q, ..r }.synced()
}

impl PlayerView {
    /// The current item is opened; where there is none, nothing plays.
    pub open spec fn load_or_idle(self) -> (PlayerView, PlayerAction) {
        match self.core.queue.current() {
            Some(item) => (
                PlayerView { core: opening(self.core, item), skipping: false, ..self },
                PlayerAction::Load(item),
            ),
            None => (PlayerView { core: idled(self.core), ..self }, PlayerAction::Nothing),
        }
    }

    /// The track is dropped and the queue moves; what is current then is opened.
    pub open spec fn moved(self, q: QueueView) -> (PlayerView, PlayerAction) {
        PlayerView {
            core: with_queue(self.core, q),
            loaded: false,
            start_us: 0,
            ..self
        }.load_or_idle()
    }

    /// More items came; the first of them is opened where nothing was there.
    pub open spec fn grown(self, q: QueueView) -> (PlayerView, PlayerAction) {
        let p = PlayerView { core: with_queue(self.core, q), ..self };
        if self.core.queue.items.len() == 0 && !self.loaded && q.current() is Some {
            PlayerView { start_us: 0, ..p }.load_or_idle()
        } else {
            (p, PlayerAction::Nothing)
        }
    }

    /// The status changes where something plays.
    pub open spec fn playing_as(self, status: PlaybackStatus) -> PlayerView {
        if self.core.state.now_playing is Some {
            PlayerView {
                core: RemoteView {
                    state: StateView { status, ..self.core.state },
                    ..self.core
                },
                ..self
            }
        } else {
            self
        }
    }

    /// Shuffle is turned on, which reorders what follows the current item, or
    /// off.
    pub open spec fn shuffled(self, on: bool, picks: Seq<usize>) -> PlayerView {
        let q = if on {
            self.core.queue.shuffled(picks)
        } else {
            self.core.queue
        };
        let r = with_queue(self.core, q);
        PlayerView {
            core: RemoteView { state: StateView { shuffle: on, ..r.state }, ..r },
            ..self
        }
    }

    /// The state agrees with the queue.
    pub open spec fn in_step(self) -> bool {
        &&& self.core.queue.wf()
        &&& self.core.state.queue == self.core.queue.items
        &&& self.core.state.current_index == self.core.queue.index
    }
}

/// What a command does: the player after it, whether a track is dropped, and
/// what the worker does then. The picks say how a shuffle comes out.
pub open spec fn command_spec(p: PlayerView, cmd: RendererCall, picks: Seq<usize>) -> (
    PlayerView,
    bool,
    PlayerAction,
) {
    match cmd {
        RendererCall::Play(items, start) => {
            let m = PlayerView { paused: false, ..p }.moved(
                p.core.queue.replaced(items@, start as int),
            );
            (m.0, p.loaded, m.1)
        },
        RendererCall::Enqueue(items) => {
            let m = p.grown(p.core.queue.appended(items@));
            (m.0, false, m.1)
        },
        RendererCall::PlayNext(items) => {
            let m = p.grown(p.core.queue.inserted_next(items@));
            (m.0, false, m.1)
        },
        RendererCall::Pause => (
            PlayerView { paused: true, ..p }.playing_as(PlaybackStatus::Paused),
            false,
            PlayerAction::Nothing,
        ),
        RendererCall::Resume => if !p.loaded && p.core.queue.current() is Some {
            let m = PlayerView { paused: false, ..p }.load_or_idle();
            (m.0, false, m.1)
        } else {
            (
                PlayerView { paused: false, ..p }.playing_as(PlaybackStatus::Playing),
                false,
                PlayerAction::Nothing,
            )
        },
        RendererCall::Stop => {
            let s = p.core.stopped();
            (
                PlayerView {
                    core: RemoteView {
                        state: StateView { position_us: 0, duration_us: 0, ..s.state },
                        ..s
                    },
                    loaded: false,
                    start_us: 0,
                    ..p
                },
                p.loaded,
                PlayerAction::Nothing,
            )
        },
        RendererCall::Next => {
            let m = p.moved(p.core.queue.advanced_in(p.core.state.repeat));
            (m.0, p.loaded, m.1)
        },
        RendererCall::Previous => {
            let m = p.moved(p.core.queue.stepped_back_in(p.core.state.repeat));
            (m.0, p.loaded, m.1)
        },
        RendererCall::Seek(us) => (
            p,
            false,
            if p.loaded {
                PlayerAction::Seek(us)
            } else {
                PlayerAction::Nothing
            },
        ),
        RendererCall::SetVolume(v) => (
            PlayerView {
                core: RemoteView {
                    state: StateView {
                        volume_milli: if v > MAX_VOLUME_MILLI {
                            MAX_VOLUME_MILLI
                        } else {
                            v
                        },
                        ..p.core.state
                    },
                    ..p.core
                },
                ..p
            },
            false,
            PlayerAction::Nothing,
        ),
        RendererCall::SetShuffle(on) => (p.shuffled(on, picks), false, PlayerAction::Nothing),
        RendererCall::SetRepeat(mode) => (
            PlayerView {
                core: RemoteView {
                    state: StateView { repeat: mode, ..p.core.state },
                    ..p.core
                },
                ..p
            },
            false,
            PlayerAction::Nothing,
        ),
        RendererCall::RemoveFromQueue(i) => {
            let q = p.core.queue.removed(i as int);
            if p.core.queue.index == Some(i as int) {
                let m = p.moved(q);
                (m.0, p.loaded, m.1)
            } else {
                (
                    PlayerView { core: with_queue(p.core, q), ..p },
                    false,
                    PlayerAction::Nothing,
                )
            }
        },
    }
}

/// What a load comes to. A track that was left in the middle goes on there. The
/// length of the track counts where no server told
/// one. After a failure the items that follow are tried, until one works or
/// the queue is at its end.
pub open spec fn load_spec(p: PlayerView, track: Option<u64>) -> (PlayerView, PlayerAction) {
    match track {
        Some(d) => (
            PlayerView {
                core: RemoteView {
                    state: StateView {
                        status: PlaybackStatus::Playing,
                        duration_us: if !p.skipping && p.core.state.duration_us == 0 {
                            d
                        } else {
                            p.core.state.duration_us
                        },
                        ..p.core.state
                    },
                    ..p.core
                },
                loaded: true,
                start_us: 0,
                ..p
            },
            if p.start_us > 0 {
                PlayerAction::Seek(p.start_us)
            } else {
                PlayerAction::Nothing
            },
        ),
        None => {
            let q = p.core.queue.advanced();
            let r = with_queue(p.core, q);
            match q.current() {
                Some(next) => (
                    PlayerView { core: r, loaded: false, skipping: true, start_us: 0, ..p },
                    PlayerAction::Load(next),
                ),
                None => (
                    PlayerView { core: idled(r), loaded: false, start_us: 0, ..p },
                    PlayerAction::Nothing,
                ),
            }
        },
    }
}

/// The state after the position was read off.
pub open spec fn position_spec(p: PlayerView, position_us: u64, duration_us: u64) -> PlayerView {
    let q = PlayerView {
        core: RemoteView {
            state: StateView { position_us, duration_us, ..p.core.state },
            ..p.core
        },
        ..p
    };
    if !p.paused {
        q.playing_as(PlaybackStatus::Playing)
    } else {
        q
    }
}

/// A queue from an earlier run is taken over, without a sound: the item that
/// was current waits where it was left. Videos are left out.
pub open spec fn restored(p: PlayerView, saved: PersistedQueue) -> PlayerView {
    let items = audio_items(saved);
    let start = match audio_index(saved) {
        Some(i) => i,
        None => 0,
    };
    let r = with_queue(p.core, p.core.queue.replaced(items, start));
    PlayerView {
        core: RemoteView {
            state: StateView {
                status: if items.len() > 0 {
                    PlaybackStatus::Paused
                } else {
                    PlaybackStatus::Idle
                },
                position_us: saved.position_us,
                duration_us: match r.queue.current() {
                    Some(item) => told_duration(item),
                    None => 0,
                },
                shuffle: saved.shuffle,
                repeat: saved.repeat,
                ..r.state
            },
            ..r
        },
        loaded: false,
        paused: true,
        skipping: false,
        start_us: saved.position_us,
    }
}

/// Whether this is what is kept of a player for the next run.
pub open spec fn kept(p: PlayerView, saved: PersistedQueue) -> bool {
    &&& saved.items@ == p.core.queue.items
    &&& match saved.current_index {
        Some(i) => p.core.queue.index == Some(i as int),
        None => p.core.queue.index is None,
    }
    &&& saved.shuffle == p.core.state.shuffle
    &&& saved.repeat == p.core.state.repeat
    &&& saved.position_us == p.core.state.position_us
}

/// What the worker does next, with so many free slots in the output buffer.
pub open spec fn due_work(p: PlayerView, free_slots: usize) -> Work {
    if !p.loaded {
        Work::Block
    } else if p.paused {
        Work::Rest(25)
    } else if free_slots < MIN_FREE_SLOTS {
        Work::Rest(5)
    } else {
        Work::Decode
    }
}

/// What the outcome of a packet comes to.
pub open spec fn decoded_spec(p: PlayerView, step: DecodeStep, position_us: u64, duration_us: u64) -> (
    PlayerView,
    bool,
    PlayerAction,
) {
    match step {
        DecodeStep::Pushed => (
            position_spec(p, position_us, duration_us),
            false,
            PlayerAction::Nothing,
        ),
        _ => command_spec(p, RendererCall::Next, Seq::empty()),
    }
}

impl SymphoniaPlayer {
    /// A player that is idle, with an empty queue.
    pub fn new() -> (r: Self)
        ensures
            r@.core.queue.items.len() == 0,
            r@.core.queue.index is None,
            r@.in_step(),
            r@.core.state.status == PlaybackStatus::Idle,
            r@.core.state.now_playing is None,
            r@.core.state.volume_milli == 1000,
            !r@.loaded,
            !r@.paused,
            !r@.skipping,
            r@.start_us == 0,
    {
        let r = SymphoniaPlayer {
            core: Remote::new(),
            loaded: false,
            paused: false,
            skipping: false,
            start_us: 0,
        };
        proof {
            assert(r@.core.state.queue =~= r@.core.queue.items);
        }
        r
    }

    /// The queue.
    pub fn queue_handle(&self) -> (r: &PlaybackQueue)
        ensures
            r@ == self@.core.queue,
    {
        &self.core.queue
    }

    /// The state that is reported.
    pub fn state(&self) -> (r: PlaybackState)
        ensures
            r@ == self@.core.state,
    {
        self.core.state.clone()
    }

    fn mark_idle(&mut self)
        ensures
            final(self)@ == (PlayerView { core: idled(old(self)@.core), ..old(self)@ }),
    {
        self.core.state.status = PlaybackStatus::Idle;
        self.core.state.now_playing = None;
        self.core.state.position_us = 0;
        self.core.state.duration_us = 0;
    }

    fn load_or_idle(&mut self) -> (r: PlayerAction)
        requires
            old(self)@.core.queue.wf(),
        ensures
            (final(self)@, r) == old(self)@.load_or_idle(),
    {
        match self.core.queue.current() {
            Some(item) => {
                self.core.state.status = PlaybackStatus::Buffering;
                self.core.state.now_playing = Some(item.clone());
                self.core.state.position_us = 0;
                self.core.state.duration_us = match item.duration_secs {
                    Some(d) => secs_to_us(d),
                    None => 0,
                };
                self.skipping = false;
                PlayerAction::Load(item)
            },
            None => {
                self.mark_idle();
                PlayerAction::Nothing
            },
        }
    }

    fn set_status(&mut self, status: PlaybackStatus)
        ensures
            final(self)@ == old(self)@.playing_as(status),
    {
        if self.core.state.now_playing.is_some() {
            self.core.state.status = status;
        }
    }

    /// Goes on with the queue as it is now; the track is dropped.
    fn turn(&mut self) -> (r: PlayerAction)
        requires
            old(self)@.core.queue.wf(),
        ensures
            (final(self)@, r) == old(self)@.moved(old(self)@.core.queue),
            final(self)@.core.queue.wf(),
    {
        self.loaded = false;
        self.start_us = 0;
        self.core.sync();
        self.load_or_idle()
    }

    /// Goes on with a queue to which items were added.
    fn grow(&mut self, was_empty: bool) -> (r: PlayerAction)
        requires
            old(self)@.core.queue.wf(),
        ensures
            forall|before: PlayerView|
                before.core.state == old(self)@.core.state && before.loaded == old(self)@.loaded
                    && before.paused == old(self)@.paused && before.skipping
                    == old(self)@.skipping && before.start_us == old(self)@.start_us && was_empty == (before.core.queue.items.len() == 0)
                    ==> (final(self)@, r) == #[trigger] before.grown(old(self)@.core.queue),
            final(self)@.core.queue.wf(),
    {
        self.core.sync();
        if was_empty && !self.loaded && self.core.queue.current_index().is_some() {
            self.start_us = 0;
            self.load_or_idle()
        } else {
            PlayerAction::Nothing
        }
    }

    /// Takes a command.
    pub fn command(&mut self, cmd: RendererCall) -> (r: PlayerStep)
        requires
            old(self)@.core.queue.wf(),
        ensures
            exists|picks: Seq<usize>|
                picks.len() == crate::queue::picks_needed(old(self)@.core.queue) && (
                final(self)@, r.drop_track, r.action) == #[trigger] command_spec(
                    old(self)@,
                    cmd,
                    picks,
                ),
            cmd is Pause ==> final(self)@.paused,
            cmd is Pause && old(self)@.core.state.now_playing is Some
                ==> final(self)@.core.state.status == PlaybackStatus::Paused,
            cmd is Resume ==> !final(self)@.paused,
            cmd is Stop ==> final(self)@.core.queue.items.len() == 0 && r.drop_track
                == old(self)@.loaded,
            final(self)@.core.queue.wf(),
    {
        let ghost before = self@;
        let ghost some = Seq::new(
            crate::queue::picks_needed(before.core.queue) as nat,
            |i: int| 0usize,
        );
        let r = self.command_inner(cmd);
        proof {
            if !(cmd is SetShuffle) {
                assert((self@, r.drop_track, r.action) == command_spec(before, cmd, some));
            }
        }
        r
    }

    /// Turns shuffle on, as the picks say, or off.
    pub fn set_shuffle_with(&mut self, on: bool, picks: &Vec<usize>)
        requires
            old(self)@.core.queue.wf(),
            picks@.len() == crate::queue::picks_needed(old(self)@.core.queue),
        ensures
            final(self)@ == old(self)@.shuffled(on, picks@),
            final(self)@.core.queue.wf(),
    {
        if on {
            self.core.queue.shuffle_with(picks);
        }
        self.core.sync();
        self.core.state.shuffle = on;
    }

    #[verifier::rlimit(60)]
    fn command_inner(&mut self, cmd: RendererCall) -> (r: PlayerStep)
        requires
            old(self)@.core.queue.wf(),
        ensures
            cmd is SetShuffle ==> exists|picks: Seq<usize>|
                picks.len() == crate::queue::picks_needed(old(self)@.core.queue) && (
                final(self)@, r.drop_track, r.action) == #[trigger] command_spec(
                    old(self)@,
                    cmd,
                    picks,
                ),
            !(cmd is SetShuffle) ==> forall|picks: Seq<usize>|
                (final(self)@, r.drop_track, r.action) == #[trigger] command_spec(
                    old(self)@,
                    cmd,
                    picks,
                ),
            final(self)@.core.queue.wf(),
    {
        let ghost before = self@;
        let was_loaded: bool = self.loaded;
        match cmd {
            RendererCall::Play(items, start) => {
                self.core.queue.replace(items, start);
                self.paused = false;
                let action: PlayerAction = self.turn();
                PlayerStep { drop_track: was_loaded, action }
            },
            RendererCall::Enqueue(items) => {
                let was_empty: bool = self.core.queue.is_empty();
                self.core.queue.append(items);
                let action: PlayerAction = self.grow(was_empty);
                PlayerStep { drop_track: false, action }
            },
            RendererCall::PlayNext(items) => {
                let was_empty: bool = self.core.queue.is_empty();
                self.core.queue.insert_next(items);
                let action: PlayerAction = self.grow(was_empty);
                PlayerStep { drop_track: false, action }
            },
            RendererCall::Pause => {
                self.paused = true;
                self.set_status(PlaybackStatus::Paused);
                PlayerStep { drop_track: false, action: PlayerAction::Nothing }
            },
            RendererCall::Resume => {
                self.paused = false;
                if !was_loaded && self.core.queue.current_index().is_some() {
                    let action: PlayerAction = self.load_or_idle();
                    return PlayerStep { drop_track: false, action };
                }
                self.set_status(PlaybackStatus::Playing);
                PlayerStep { drop_track: false, action: PlayerAction::Nothing }
            },
            RendererCall::Stop => {
                self.loaded = false;
                self.start_us = 0;
                self.core.stop();
                self.core.state.position_us = 0;
                self.core.state.duration_us = 0;
                PlayerStep { drop_track: was_loaded, action: PlayerAction::Nothing }
            },
            RendererCall::Next => {
                let _i: Option<usize> = self.core.queue.advance_in(self.core.state.repeat);
                let action: PlayerAction = self.turn();
                PlayerStep { drop_track: was_loaded, action }
            },
            RendererCall::Previous => {
                let _i: Option<usize> = self.core.queue.back_in(self.core.state.repeat);
                let action: PlayerAction = self.turn();
                PlayerStep { drop_track: was_loaded, action }
            },
            RendererCall::Seek(us) => {
                let action: PlayerAction = if was_loaded {
                    PlayerAction::Seek(us)
                } else {
                    PlayerAction::Nothing
                };
                PlayerStep { drop_track: false, action }
            },
            RendererCall::SetVolume(v) => {
                self.core.state.volume_milli = if v > MAX_VOLUME_MILLI {
                    MAX_VOLUME_MILLI
                } else {
                    v
                };
                PlayerStep { drop_track: false, action: PlayerAction::Nothing }
            },
            RendererCall::SetShuffle(on) => {
                if on {
                    self.core.queue.shuffle_rest();
                }
                self.core.sync();
                self.core.state.shuffle = on;
                proof {
                    let n = crate::queue::picks_needed(before.core.queue);
                    let picks = if on {
                        choose|picks: Seq<usize>|
                            picks.len() == n && self@.core.queue
                                == #[trigger] before.core.queue.shuffled(picks)
                    } else {
                        Seq::new(n as nat, |i: int| 0usize)
                    };
                    assert(self@ == before.shuffled(on, picks));
                    assert(command_spec(before, cmd, picks) == (
                        self@,
                        false,
                        PlayerAction::Nothing,
                    ));
                }
                PlayerStep { drop_track: false, action: PlayerAction::Nothing }
            },
            RendererCall::SetRepeat(mode) => {
                self.core.state.repeat = mode;
                PlayerStep { drop_track: false, action: PlayerAction::Nothing }
            },
            RendererCall::RemoveFromQueue(i) => {
                let current: bool = match self.core.queue.current_index() {
                    Some(c) => c == i,
                    None => false,
                };
                self.core.queue.remove(i);
                if current {
                    let action: PlayerAction = self.turn();
                    return PlayerStep { drop_track: was_loaded, action };
                }
                self.core.sync();
                PlayerStep { drop_track: false, action: PlayerAction::Nothing }
            },
        }
    }

    /// Takes over a queue from an earlier run, and says whether a track that
    /// plays is to be dropped.
    pub fn restore(&mut self, saved: PersistedQueue) -> (drop_track: bool)
        ensures
            final(self)@ == restored(old(self)@, saved),
            drop_track == old(self)@.loaded,
            final(self)@.core.queue.wf(),
    {
        let was_loaded: bool = self.loaded;
        let saved: PersistedQueue = audio_only(saved);
        let start: usize = match saved.current_index {
            Some(i) => i,
            None => 0,
        };
        self.core.queue.replace(saved.items, start);
        self.core.sync();
        self.core.state.status = if self.core.queue.is_empty() {
            PlaybackStatus::Idle
        } else {
            PlaybackStatus::Paused
        };
        self.core.state.position_us = saved.position_us;
        self.core.state.duration_us = match &self.core.state.now_playing {
            Some(item) => match item.duration_secs {
                Some(d) => secs_to_us(d),
                None => 0,
            },
            None => 0,
        };
        self.core.state.shuffle = saved.shuffle;
        self.core.state.repeat = saved.repeat;
        self.loaded = false;
        self.paused = true;
        self.skipping = false;
        self.start_us = saved.position_us;
        was_loaded
    }

    /// What is kept for the next run.
    pub fn snapshot(&self) -> (r: PersistedQueue)
        ensures
            kept(self@, r),
            r.items@ == self@.core.queue.items,
            match r.current_index {
                Some(i) => self@.core.queue.index == Some(i as int),
                None => self@.core.queue.index is None,
            },
            r.shuffle == self@.core.state.shuffle,
            r.repeat == self@.core.state.repeat,
            r.position_us == self@.core.state.position_us,
    {
        PersistedQueue {
            items: self.core.queue.items(),
            current_index: self.core.queue.current_index(),
            shuffle: self.core.state.shuffle,
            repeat: self.core.state.repeat,
            position_us: self.core.state.position_us,
        }
    }

    /// Reports the loudness settings that are in force.
    pub fn set_replaygain(&mut self, settings: ReplayGainSettings)
        ensures
            final(self)@ == (PlayerView {
                core: RemoteView {
                    state: StateView { replaygain: settings, ..old(self)@.core.state },
                    ..old(self)@.core
                },
                ..old(self)@
            }),
    {
        self.core.state.replaygain = settings;
    }

    /// Reports the overlap that is in force.
    pub fn set_crossfade(&mut self, settings: CrossfadeSettings)
        ensures
            final(self)@ == (PlayerView {
                core: RemoteView {
                    state: StateView { crossfade: settings, ..old(self)@.core.state },
                    ..old(self)@.core
                },
                ..old(self)@
            }),
    {
        self.core.state.crossfade = settings;
    }

    /// Takes the outcome of a load: the length of the track, or none where the
    /// item could not be opened.
    pub fn load_done(&mut self, track: Option<u64>) -> (r: PlayerAction)
        requires
            old(self)@.core.queue.wf(),
        ensures
            (final(self)@, r) == load_spec(old(self)@, track),
            final(self)@.core.queue.wf(),
    {
        match track {
            Some(d) => {
                self.core.state.status = PlaybackStatus::Playing;
                if !self.skipping && self.core.state.duration_us == 0 {
                    self.core.state.duration_us = d;
                }
                self.loaded = true;
                let start: u64 = self.start_us;
                self.start_us = 0;
                if start > 0 {
                    PlayerAction::Seek(start)
                } else {
                    PlayerAction::Nothing
                }
            },
            None => {
                let _i: Option<usize> = self.core.queue.advance();
                self.core.sync();
                self.loaded = false;
                self.start_us = 0;
                match self.core.queue.current() {
                    Some(next) => {
                        self.skipping = true;
                        PlayerAction::Load(next)
                    },
                    None => {
                        self.mark_idle();
                        PlayerAction::Nothing
                    },
                }
            },
        }
    }

    /// What to do with so many free slots in the output buffer.
    pub fn work(&self, free_slots: usize) -> (r: Work)
        ensures
            r == (if !self@.loaded {
                Work::Block
            } else if self@.paused {
                Work::Rest(25)
            } else if free_slots < MIN_FREE_SLOTS {
                Work::Rest(5)
            } else {
                Work::Decode
            }),
            r == due_work(self@, free_slots),
    {
        if !self.loaded {
            Work::Block
        } else if self.paused {
            Work::Rest(25)
        } else if free_slots < MIN_FREE_SLOTS {
            Work::Rest(5)
        } else {
            Work::Decode
        }
    }

    /// Takes over the position and length of the track.
    pub fn update_position(&mut self, position_us: u64, duration_us: u64)
        ensures
            final(self)@ == position_spec(old(self)@, position_us, duration_us),
    {
        self.core.state.position_us = position_us;
        self.core.state.duration_us = duration_us;
        if !self.paused {
            self.set_status(PlaybackStatus::Playing);
        }
    }

    /// Takes the outcome of a packet: at the end of a track, or where it cannot
    /// be decoded, the next one follows.
    pub fn decoded(&mut self, step: DecodeStep, position_us: u64, duration_us: u64) -> (r:
        PlayerStep)
        requires
            old(self)@.core.queue.wf(),
        ensures
            step == DecodeStep::Pushed ==> final(self)@ == position_spec(
                old(self)@,
                position_us,
                duration_us,
            ) && r.action == PlayerAction::Nothing && !r.drop_track,
            step != DecodeStep::Pushed ==> forall|picks: Seq<usize>|
                (final(self)@, r.drop_track, r.action) == #[trigger] command_spec(
                    old(self)@,
                    RendererCall::Next,
                    picks,
                ),
            (final(self)@, r.drop_track, r.action) == decoded_spec(
                old(self)@,
                step,
                position_us,
                duration_us,
            ),
            final(self)@.core.queue.wf(),
    {
        match step {
            DecodeStep::Pushed => {
                self.update_position(position_us, duration_us);
                PlayerStep { drop_track: false, action: PlayerAction::Nothing }
            },
            _ => self.command_inner(RendererCall::Next),
        }
    }
}

proof fn lemma_moved_in_step(p: PlayerView, q: QueueView)
    requires
        q.wf(),
    ensures
        p.moved(q).0.in_step(),
        p.moved(q).1 matches PlayerAction::Load(item) ==> p.moved(q).0.core.queue.current()
            == Some(item),
{
}

proof fn lemma_grown_in_step(p: PlayerView, q: QueueView)
    requires
        q.wf(),
    ensures
        p.grown(q).0.in_step(),
        p.grown(q).1 matches PlayerAction::Load(item) ==> p.grown(q).0.core.queue.current()
            == Some(item),
{
}

/// Whatever is asked of the player, the state that it reports agrees with its
/// queue, and an item is opened only where it is the current one.
pub proof fn lemma_command_in_step(p: PlayerView, cmd: RendererCall, picks: Seq<usize>)
    requires
        p.in_step(),
        picks.len() == crate::queue::picks_needed(p.core.queue),
    ensures
        command_spec(p, cmd, picks).0.in_step(),
        command_spec(p, cmd, picks).2 matches PlayerAction::Load(item) ==> command_spec(
            p,
            cmd,
            picks,
        ).0.core.queue.current() == Some(item),
{
    match cmd {
        RendererCall::Play(items, start) => {
            lemma_moved_in_step(
                PlayerView { paused: false, ..p },
                p.core.queue.replaced(items@, start as int),
            );
        },
        RendererCall::Enqueue(items) => {
            lemma_grown_in_step(p, p.core.queue.appended(items@));
        },
        RendererCall::PlayNext(items) => {
            lemma_grown_in_step(p, p.core.queue.inserted_next(items@));
        },
        RendererCall::Next => {
            lemma_moved_in_step(p, p.core.queue.advanced_in(p.core.state.repeat));
        },
        RendererCall::Previous => {
            lemma_moved_in_step(p, p.core.queue.stepped_back_in(p.core.state.repeat));
        },
        RendererCall::SetShuffle(_) => {
            crate::queue::lemma_shuffle_keeps(p.core.queue, picks);
        },
        RendererCall::RemoveFromQueue(i) => {
            lemma_moved_in_step(p, p.core.queue.removed(i as int));
        },
        _ => {},
    }
}

/// Taking another entry out of the queue, or shuffling what follows, does not
/// touch the track that plays.
pub proof fn lemma_playing_undisturbed(p: PlayerView, cmd: RendererCall, picks: Seq<usize>)
    requires
        p.in_step(),
        p.core.queue.index is Some,
        p.core.state.now_playing == p.core.queue.current(),
        picks.len() == crate::queue::picks_needed(p.core.queue),
        cmd is SetShuffle || (cmd matches RendererCall::RemoveFromQueue(i) && Some(i as int)
            != p.core.queue.index),
    ensures
        ({
            let after = command_spec(p, cmd, picks);
            &&& !after.1
            &&& after.2 == PlayerAction::Nothing
            &&& after.0.core.state.now_playing == p.core.state.now_playing
            &&& after.0.core.state.status == p.core.state.status
            &&& after.0.core.state.position_us == p.core.state.position_us
            &&& after.0.loaded == p.loaded
        }),
{
    crate::queue::lemma_shuffle_keeps(p.core.queue, picks);
}

/// A queue from an earlier run is taken over at rest; asked to go on, the
/// player opens the item that was current, and once it is open goes to where
/// it was left.
pub proof fn lemma_restore_resumes(
    p: PlayerView,
    saved: PersistedQueue,
    track: u64,
    picks: Seq<usize>,
)
    requires
        audio_items(saved).len() > 0,
    ensures
        ({
            let at_rest = restored(p, saved);
            let opened = command_spec(at_rest, RendererCall::Resume, picks);
            let item = at_rest.core.queue.current();
            &&& at_rest.core.state.status == PlaybackStatus::Paused
            &&& at_rest.core.state.queue == audio_items(saved)
            &&& item is Some
            &&& opened.2 == PlayerAction::Load(item->0)
            &&& load_spec(opened.0, Some(track)).1 == (if saved.position_us > 0 {
                PlayerAction::Seek(saved.position_us)
            } else {
                PlayerAction::Nothing
            })
        }),
{
}

/// The same holds after a load, whether it worked or not.
pub proof fn lemma_load_in_step(p: PlayerView, track: Option<u64>)
    requires
        p.in_step(),
    ensures
        load_spec(p, track).0.in_step(),
        load_spec(p, track).1 matches PlayerAction::Load(item) ==> load_spec(
            p,
            track,
        ).0.core.queue.current() == Some(item),
{
}

/// How many items follow the current one.
pub open spec fn left(q: QueueView) -> int {
    match q.index {
        Some(i) => q.items.len() - i,
        None => 0,
    }
}

/// Loads that fail come to an end: each one leaves fewer items to try, and
/// none is tried twice.
pub proof fn lemma_skipping_ends(p: PlayerView)
    requires
        p.core.queue.wf(),
        p.core.queue.index is Some,
    ensures
        left(load_spec(p, None).0.core.queue) < left(p.core.queue),
        load_spec(p, None).1 matches PlayerAction::Load(_) ==> load_spec(
            p,
            None,
        ).0.core.queue.index == Some(p.core.queue.index->0 + 1),
        left(load_spec(p, None).0.core.queue) == 0 ==> load_spec(p, None).0.core.state.status
            == PlaybackStatus::Idle,
{
}

/// The file name extension that goes with a content type.
pub open spec fn extension_of(ct: Seq<char>) -> Option<Seq<char>> {
    let cut = match crate::text::index_of(ct, ';', 0) {
        Some(i) => ct.take(i),
        None => ct,
    };
    let t = crate::text::lower(crate::text::trimmed(cut));
    if t == "audio/mpeg"@ || t == "audio/mp3"@ {
        Some("mp3"@)
    } else if t == "audio/flac"@ || t == "audio/x-flac"@ {
        Some("flac"@)
    } else if t == "audio/aac"@ {
        Some("aac"@)
    } else if t == "audio/mp4"@ || t == "audio/m4a"@ || t == "audio/x-m4a"@ {
        Some("m4a"@)
    } else if t == "audio/ogg"@ || t == "application/ogg"@ {
        Some("ogg"@)
    } else if t == "audio/opus"@ {
        Some("opus"@)
    } else if t == "audio/wav"@ || t == "audio/wave"@ || t == "audio/x-wav"@ {
        Some("wav"@)
    } else {
        None
    }
}

/// The file name extension that hints at a content type, parameters and case
/// left aside.
pub fn ext_from_content_type(ct: &str) -> (r: Option<&'static str>)
    ensures
        match r {
            Some(e) => extension_of(ct@) == Some(e@),
            None => extension_of(ct@) is None,
        },
{
    let all: Vec<char> = chars(ct);
    let end: usize = match find_char(&all, ';', 0) {
        Some(i) => i,
        None => all.len(),
    };
    let cut: &[char] = vstd::slice::slice_subrange(all.as_slice(), 0, end);
    proof {
        assert(cut@ =~= (match crate::text::index_of(ct@, ';', 0) {
            Some(i) => ct@.take(i),
            None => ct@,
        }));
    }
    let low: Vec<char> = to_lower(trim(cut));
    let t: String = crate::text::from_chars(&low);
    let t: &str = t.as_str();
    if str_eq(t, "audio/mpeg") || str_eq(t, "audio/mp3") {
        Some("mp3")
    } else if str_eq(t, "audio/flac") || str_eq(t, "audio/x-flac") {
        Some("flac")
    } else if str_eq(t, "audio/aac") {
        Some("aac")
    } else if str_eq(t, "audio/mp4") || str_eq(t, "audio/m4a") || str_eq(t, "audio/x-m4a") {
        Some("m4a")
    } else if str_eq(t, "audio/ogg") || str_eq(t, "application/ogg") {
        Some("ogg")
    } else if str_eq(t, "audio/opus") {
        Some("opus")
    } else if str_eq(t, "audio/wav") || str_eq(t, "audio/wave") || str_eq(t, "audio/x-wav") {
        Some("wav")
    } else {
        None
    }
}

/// What came of asking for the next packet of a stream, and of decoding it.
#[derive(Debug, Clone, Copy, PartialEq, Eq, Structural)]
pub enum PacketEvent {
    /// The stream is over.
    EndOfFile,
    /// The stream goes on as another one.
    ResetRequired,
    /// The packet could not be read.
    ReadFailed,
    /// It belongs to another track.
    OtherTrack,
    /// It is damaged.
    Damaged,
    /// The decoder gave up.
    DecoderFailed,
    /// It was decoded, to so many samples.
    Decoded(usize),
}

/// What a packet means for a track that plays.
pub open spec fn packet_means(event: PacketEvent) -> DecodeStep {
    match event {
        PacketEvent::EndOfFile | PacketEvent::ResetRequired => DecodeStep::EndOfStream,
        PacketEvent::ReadFailed | PacketEvent::DecoderFailed => DecodeStep::Error,
        _ => DecodeStep::Pushed,
    }
}

/// What a packet means for a track that is being opened.
pub open spec fn prime_means(event: PacketEvent) -> PrimeStep {
    match event {
        PacketEvent::Decoded(n) => if n == 0 {
            PrimeStep::Again
        } else {
            PrimeStep::Ready
        },
        PacketEvent::OtherTrack | PacketEvent::Damaged => PrimeStep::Again,
        _ => PrimeStep::Failed,
    }
}

/// What a packet means for a track that plays: one that is damaged or belongs
/// to another track is passed over.
pub fn packet_step(event: PacketEvent) -> (r: DecodeStep)
    ensures
        r == (match event {
            PacketEvent::EndOfFile | PacketEvent::ResetRequired => DecodeStep::EndOfStream,
            PacketEvent::ReadFailed | PacketEvent::DecoderFailed => DecodeStep::Error,
            PacketEvent::OtherTrack | PacketEvent::Damaged | PacketEvent::Decoded(_) =>
                DecodeStep::Pushed,
        }),
        r == packet_means(event),
{
    match event {
        PacketEvent::EndOfFile | PacketEvent::ResetRequired => DecodeStep::EndOfStream,
        PacketEvent::ReadFailed | PacketEvent::DecoderFailed => DecodeStep::Error,
        PacketEvent::OtherTrack | PacketEvent::Damaged | PacketEvent::Decoded(_) =>
            DecodeStep::Pushed,
    }
}

/// How the opening of a track goes on after a packet.
#[derive(Debug, Clone, Copy, PartialEq, Eq, Structural)]
pub enum PrimeStep {
    /// Ask for another packet.
    Again,
    /// The track begins with this one.
    Ready,
    /// The track cannot be opened.
    Failed,
}

/// Looks for the packet that a track begins with: the first one of it that
/// holds samples. A stream that ends before cannot be opened.
pub fn prime_step(event: PacketEvent) -> (r: PrimeStep)
    ensures
        r == (match event {
            PacketEvent::Decoded(n) => if n == 0 {
                PrimeStep::Again
            } else {
                PrimeStep::Ready
            },
            PacketEvent::OtherTrack | PacketEvent::Damaged => PrimeStep::Again,
            _ => PrimeStep::Failed,
        }),
        r == prime_means(event),
{
    match event {
        PacketEvent::Decoded(n) => if n == 0 {
            PrimeStep::Again
        } else {
            PrimeStep::Ready
        },
        PacketEvent::OtherTrack | PacketEvent::Damaged => PrimeStep::Again,
        _ => PrimeStep::Failed,
    }
}

/// What a command leaves alone unless it is asked for by name: the volume, the
/// order of play, and how the sound is shaped.
pub open spec fn same_settings(a: StateView, b: StateView) -> bool {
    &&& a.volume_milli == b.volume_milli
    &&& a.shuffle == b.shuffle
    &&& a.repeat == b.repeat
    &&& same_sound(a, b)
}

/// How the sound is shaped is the same.
pub open spec fn same_sound(a: StateView, b: StateView) -> bool {
    &&& a.replaygain == b.replaygain
    &&& a.crossfade == b.crossfade
    &&& a.eq_enabled == b.eq_enabled
    &&& a.eq_band_count == b.eq_band_count
    &&& a.bass_db == b.bass_db
    &&& a.treble_db == b.treble_db
}

/// A packet is decoded where a track is loaded, is not paused and has room in
/// the output buffer, and only there; without a track the worker waits.
pub proof fn lemma_work_due(p: PlayerView, free_slots: usize)
    ensures
        due_work(p, free_slots) == Work::Decode <==> p.loaded && !p.paused && free_slots >= 8192,
        due_work(p, free_slots) == Work::Block <==> !p.loaded,
        p.loaded && p.paused ==> due_work(p, free_slots) == Work::Rest(25),
        p.loaded && !p.paused && free_slots < 8192 ==> due_work(p, free_slots) == Work::Rest(5),
{
}

/// A pause of a track that is loaded holds: the player says that it is paused,
/// and decodes no packet, however much room there is. The queue, the track and
/// its position stay. Going on undoes it.
pub proof fn lemma_pause_and_resume(p: PlayerView, picks: Seq<usize>, free_slots: usize)
    requires
        p.loaded,
        p.core.state.now_playing is Some,
    ensures
        ({
            let (held, dropped, action) = command_spec(p, RendererCall::Pause, picks);
            let (on, again, next) = command_spec(held, RendererCall::Resume, picks);
            &&& held.paused
            &&& held.loaded
            &&& held.core.state.status == PlaybackStatus::Paused
            &&& due_work(held, free_slots) is Rest
            &&& !dropped
            &&& action == PlayerAction::Nothing
            &&& held.core.queue == p.core.queue
            &&& held.core.state.now_playing == p.core.state.now_playing
            &&& held.core.state.position_us == p.core.state.position_us
            &&& held.core.state.duration_us == p.core.state.duration_us
            &&& same_settings(held.core.state, p.core.state)
            &&& !on.paused
            &&& on.loaded
            &&& on.core.state.status == PlaybackStatus::Playing
            &&& free_slots >= 8192 ==> due_work(on, free_slots) == Work::Decode
            &&& !again
            &&& next == PlayerAction::Nothing
            &&& on.core.queue == p.core.queue
            &&& on.core.state.now_playing == p.core.state.now_playing
            &&& on.core.state.position_us == p.core.state.position_us
            &&& same_settings(on.core.state, p.core.state)
        }),
{
}

/// A pause lasts until the player is asked to go on or to play something else:
/// no other command ends it, nor does reading off the position. Only a pause
/// begins one.
pub proof fn lemma_pause_lasts(
    p: PlayerView,
    cmd: RendererCall,
    picks: Seq<usize>,
    at: u64,
    length: u64,
)
    ensures
        command_spec(p, cmd, picks).0.paused == (cmd is Pause || (p.paused && !(cmd is Play)
            && !(cmd is Resume))),
        position_spec(p, at, length).paused == p.paused,
        p.paused ==> position_spec(p, at, length).core.state.status == p.core.state.status,
        !p.paused && p.core.state.now_playing is Some ==> position_spec(
            p,
            at,
            length,
        ).core.state.status == PlaybackStatus::Playing,
{
}

/// Where nothing is loaded, going on opens the current item.
pub proof fn lemma_resume_opens(p: PlayerView, picks: Seq<usize>)
    requires
        p.core.queue.wf(),
        p.core.queue.index is Some,
        !p.loaded,
    ensures
        ({
            let (q, dropped, action) = command_spec(p, RendererCall::Resume, picks);
            let item = p.core.queue.items[p.core.queue.index->0];
            &&& action == PlayerAction::Load(item)
            &&& !dropped
            &&& !q.paused
            &&& q.core.queue == p.core.queue
            &&& q.core.state.now_playing == Some(item)
            &&& q.core.state.status == PlaybackStatus::Buffering
        }),
{
}

/// The player has dropped what it played and opens an item of its queue: the
/// place is the current one, and the state says that the item is on its way.
pub open spec fn turned_to(p: PlayerView, r: (PlayerView, bool, PlayerAction), place: int) -> bool {
    &&& r.1 == p.loaded
    &&& !r.0.loaded
    &&& r.0.start_us == 0
    &&& r.0.core.queue.index == Some(place)
    &&& r.0.core.state.current_index == Some(place)
    &&& r.2 == PlayerAction::Load(r.0.core.queue.items[place])
    &&& r.0.core.state.now_playing == Some(r.0.core.queue.items[place])
    &&& r.0.core.state.status == PlaybackStatus::Buffering
    &&& r.0.core.state.position_us == 0
    &&& same_settings(r.0.core.state, p.core.state)
}

/// The player has dropped what it played and opens nothing.
pub open spec fn turned_off(p: PlayerView, r: (PlayerView, bool, PlayerAction)) -> bool {
    &&& r.1 == p.loaded
    &&& !r.0.loaded
    &&& r.0.core.queue.index is None
    &&& r.0.core.state.current_index is None
    &&& r.2 == PlayerAction::Nothing
    &&& r.0.core.state.now_playing is None
    &&& r.0.core.state.status == PlaybackStatus::Idle
    &&& r.0.core.state.position_us == 0
    &&& same_settings(r.0.core.state, p.core.state)
}

/// To go forward is to open the item behind the current one; behind the last
/// there is silence, or, where all items repeat, the first one again. A single
/// item that repeats is opened again.
pub proof fn lemma_next_opens_following(p: PlayerView, picks: Seq<usize>)
    requires
        p.core.queue.wf(),
        p.core.queue.index is Some,
    ensures
        ({
            let r = command_spec(p, RendererCall::Next, picks);
            let i = p.core.queue.index->0;
            let n = p.core.queue.items.len() as int;
            &&& r.0.core.queue.items == p.core.queue.items
            &&& match p.core.state.repeat {
                crate::queue::RepeatMode::One => turned_to(p, r, i),
                crate::queue::RepeatMode::All => turned_to(p, r, (i + 1) % n),
                crate::queue::RepeatMode::Off => if i + 1 < n {
                    turned_to(p, r, i + 1)
                } else {
                    turned_off(p, r)
                },
            }
        }),
{
    let i = p.core.queue.index->0;
    let n = p.core.queue.items.len() as int;
    if i + 1 < n {
        vstd::arithmetic::div_mod::lemma_small_mod((i + 1) as nat, n as nat);
    } else {
        vstd::arithmetic::div_mod::lemma_mod_self_0(n);
    }
}

/// To go back is to open the item before the current one; at the first it
/// starts again, or, where all items repeat, the last one follows. A single
/// item that repeats is opened again.
pub proof fn lemma_previous_opens_preceding(p: PlayerView, picks: Seq<usize>)
    requires
        p.core.queue.wf(),
        p.core.queue.index is Some,
    ensures
        ({
            let r = command_spec(p, RendererCall::Previous, picks);
            let i = p.core.queue.index->0;
            let n = p.core.queue.items.len() as int;
            &&& r.0.core.queue.items == p.core.queue.items
            &&& match p.core.state.repeat {
                crate::queue::RepeatMode::One => turned_to(p, r, i),
                crate::queue::RepeatMode::All => turned_to(
                    p,
                    r,
                    if i == 0 {
                        n - 1
                    } else {
                        i - 1
                    },
                ),
                crate::queue::RepeatMode::Off => turned_to(
                    p,
                    r,
                    if i == 0 {
                        0
                    } else {
                        i - 1
                    },
                ),
            }
        }),
{
}

/// Where an item follows, going forward and back leads to the item where it
/// began, and that item is opened.
pub proof fn lemma_next_then_previous(p: PlayerView, picks: Seq<usize>)
    requires
        p.core.queue.wf(),
        p.core.queue.index is Some,
        p.core.queue.index->0 + 1 < p.core.queue.items.len(),
    ensures
        ({
            let on = command_spec(p, RendererCall::Next, picks).0;
            let back = command_spec(on, RendererCall::Previous, picks);
            &&& back.0.core.queue == p.core.queue
            &&& back.2 == PlayerAction::Load(p.core.queue.items[p.core.queue.index->0])
        }),
{
}

/// The items that are to be played are the queue, from the given one on, and
/// that one is opened; a pause is over. Nothing to play is silence.
pub proof fn lemma_play_opens_start(
    p: PlayerView,
    items: Vec<QueueItem>,
    start: usize,
    picks: Seq<usize>,
)
    ensures
        ({
            let r = command_spec(p, RendererCall::Play(items, start), picks);
            &&& r.0.core.queue.items == items@
            &&& r.0.core.state.queue == items@
            &&& !r.0.paused
            &&& items@.len() == 0 ==> turned_off(p, r)
            &&& start < items@.len() ==> turned_to(p, r, start as int)
            &&& 0 < items@.len() <= start ==> turned_to(p, r, items@.len() - 1)
        }),
{
}

/// Items that are added leave what plays alone, and the old items in their
/// order; those that are to come next stand right behind the current one. Where
/// there was nothing, the first of them is opened.
pub proof fn lemma_adding_keeps_playing(
    p: PlayerView,
    items: Vec<QueueItem>,
    next: bool,
    picks: Seq<usize>,
)
    requires
        p.in_step(),
        p.core.state.now_playing == p.core.queue.current(),
    ensures
        ({
            let cmd = if next {
                RendererCall::PlayNext(items)
            } else {
                RendererCall::Enqueue(items)
            };
            let (q, dropped, action) = command_spec(p, cmd, picks);
            let old_items = p.core.queue.items;
            let at = if next && p.core.queue.index is Some {
                p.core.queue.index->0 + 1
            } else if next {
                0
            } else {
                old_items.len() as int
            };
            &&& !dropped
            &&& q.loaded == p.loaded
            &&& q.core.queue.items == old_items.subrange(0, at) + items@ + old_items.subrange(
                at,
                old_items.len() as int,
            )
            &&& q.core.state.queue == q.core.queue.items
            &&& same_settings(q.core.state, p.core.state)
            &&& p.core.queue.index is Some ==> {
                &&& action == PlayerAction::Nothing
                &&& q.core.queue.index == p.core.queue.index
                &&& q.core.state.status == p.core.state.status
                &&& q.core.state.now_playing == p.core.state.now_playing
                &&& q.core.state.position_us == p.core.state.position_us
            }
            &&& old_items.len() == 0 && items@.len() > 0 && !p.loaded ==> {
                &&& action == PlayerAction::Load(items@[0])
                &&& q.core.queue.index == Some(0int)
                &&& q.core.state.now_playing == Some(items@[0])
            }
        }),
{
    let old_items = p.core.queue.items;
    let at = if next && p.core.queue.index is Some {
        p.core.queue.index->0 + 1
    } else if next {
        0
    } else {
        old_items.len() as int
    };
    let whole = old_items.subrange(0, at) + items@ + old_items.subrange(at, old_items.len() as int);
    if next {
        assert(p.core.queue.inserted_next(items@).items =~= whole);
    } else {
        assert(p.core.queue.appended(items@).items =~= whole);
    }
}

/// A stop ends everything: no queue, no track, no position. How loud it was and
/// how the queue was to be played stays.
pub proof fn lemma_stop_ends(p: PlayerView, picks: Seq<usize>)
    ensures
        ({
            let (q, dropped, action) = command_spec(p, RendererCall::Stop, picks);
            &&& dropped == p.loaded
            &&& !q.loaded
            &&& action == PlayerAction::Nothing
            &&& q.core.queue.items.len() == 0
            &&& q.core.queue.index is None
            &&& q.core.state.queue.len() == 0
            &&& q.core.state.current_index is None
            &&& q.core.state.now_playing is None
            &&& q.core.state.status == PlaybackStatus::Stopped
            &&& q.core.state.position_us == 0
            &&& q.core.state.duration_us == 0
            &&& q.start_us == 0
            &&& same_settings(q.core.state, p.core.state)
        }),
{
}

/// A seek goes to the very position, and only in a track that is loaded; all
/// else stays.
pub proof fn lemma_seek_goes_there(p: PlayerView, us: u64, picks: Seq<usize>)
    ensures
        ({
            let (q, dropped, action) = command_spec(p, RendererCall::Seek(us), picks);
            &&& q == p
            &&& !dropped
            &&& p.loaded ==> action == PlayerAction::Seek(us)
            &&& !p.loaded ==> action == PlayerAction::Nothing
        }),
{
}

/// The volume that was asked for is the one that is reported, up to one and a
/// half times the full one. The repeat mode and the shuffle that were asked for
/// are reported too. None of this touches the track, its position, or the
/// other settings.
pub proof fn lemma_settings_taken(p: PlayerView, cmd: RendererCall, picks: Seq<usize>)
    requires
        cmd is SetVolume || cmd is SetRepeat || cmd is SetShuffle,
        p.in_step(),
        p.core.state.now_playing == p.core.queue.current(),
        picks.len() == crate::queue::picks_needed(p.core.queue),
    ensures
        ({
            let (q, dropped, action) = command_spec(p, cmd, picks);
            let s = p.core.state;
            let t = q.core.state;
            &&& !dropped
            &&& action == PlayerAction::Nothing
            &&& (cmd matches RendererCall::SetVolume(v) ==> {
                &&& v <= 1500 ==> t.volume_milli == v
                &&& v > 1500 ==> t.volume_milli == 1500
            })
            &&& (cmd matches RendererCall::SetRepeat(m) ==> t.repeat == m)
            &&& (cmd matches RendererCall::SetShuffle(on) ==> t.shuffle == on)
            &&& !(cmd is SetVolume) ==> t.volume_milli == s.volume_milli
            &&& !(cmd is SetRepeat) ==> t.repeat == s.repeat
            &&& !(cmd is SetShuffle) ==> t.shuffle == s.shuffle && q.core.queue == p.core.queue
            &&& cmd == RendererCall::SetShuffle(false) ==> q.core.queue == p.core.queue
            &&& q.core.queue.items.to_multiset() == p.core.queue.items.to_multiset()
            &&& q.core.queue.index == p.core.queue.index
            &&& same_sound(t, s)
            &&& t.status == s.status
            &&& t.now_playing == s.now_playing
            &&& t.position_us == s.position_us
            &&& q.loaded == p.loaded
            &&& q.paused == p.paused
        }),
{
    crate::queue::lemma_shuffle_keeps(p.core.queue, picks);
}

/// What is taken out of the queue is that entry and no other. Where it is the
/// one that plays, the item that took its place is opened, or the last one;
/// where none is left, there is silence.
pub proof fn lemma_remove_takes_out(p: PlayerView, i: usize, picks: Seq<usize>)
    requires
        p.in_step(),
        i < p.core.queue.items.len(),
        p.core.queue.index is Some,
    ensures
        ({
            let r = command_spec(p, RendererCall::RemoveFromQueue(i), picks);
            let n = p.core.queue.items.len();
            let left = r.0.core.queue.items;
            &&& left.len() == n - 1
            &&& forall|k: int| 0 <= k < i ==> #[trigger] left[k] == p.core.queue.items[k]
            &&& forall|k: int| i <= k < n - 1 ==> #[trigger] left[k] == p.core.queue.items[k + 1]
            &&& p.core.queue.index->0 == i ==> {
                &&& i + 1 < n ==> turned_to(p, r, i as int) && r.2 == PlayerAction::Load(
                    p.core.queue.items[i + 1],
                )
                &&& i + 1 == n && n > 1 ==> turned_to(p, r, n - 2)
                &&& n == 1 ==> turned_off(p, r)
            }
            &&& p.core.queue.index->0 != i ==> {
                &&& r.2 == PlayerAction::Nothing
                &&& !r.1
                &&& r.0.core.queue.index == Some(
                    if i < p.core.queue.index->0 {
                        p.core.queue.index->0 - 1
                    } else {
                        p.core.queue.index->0
                    },
                )
            }
        }),
{
}

/// A track that was opened plays, and the length that its server told is kept;
/// the queue stays as it is. An item that cannot be opened is skipped: the one
/// behind it is tried, and behind the last there is silence.
pub proof fn lemma_load_plays_or_skips(p: PlayerView, track: u64)
    requires
        p.core.queue.wf(),
        p.core.queue.index is Some,
    ensures
        ({
            let (q, action) = load_spec(p, Some(track));
            &&& q.loaded
            &&& q.core.state.status == PlaybackStatus::Playing
            &&& q.core.queue == p.core.queue
            &&& q.core.state.now_playing == p.core.state.now_playing
            &&& q.paused == p.paused
            &&& p.core.state.duration_us > 0 ==> q.core.state.duration_us
                == p.core.state.duration_us
            &&& p.core.state.duration_us == 0 && !p.skipping ==> q.core.state.duration_us == track
            &&& p.start_us == 0 ==> action == PlayerAction::Nothing
            &&& p.start_us > 0 ==> action == PlayerAction::Seek(p.start_us)
            &&& same_settings(q.core.state, p.core.state)
        }),
        ({
            let (q, action) = load_spec(p, None);
            let i = p.core.queue.index->0;
            let n = p.core.queue.items.len();
            &&& !q.loaded
            &&& q.core.queue.items == p.core.queue.items
            &&& i + 1 < n ==> {
                &&& action == PlayerAction::Load(p.core.queue.items[i + 1])
                &&& q.core.queue.index == Some(i + 1)
                &&& q.core.state.now_playing == Some(p.core.queue.items[i + 1])
            }
            &&& i + 1 == n ==> {
                &&& action == PlayerAction::Nothing
                &&& q.core.queue.index is None
                &&& q.core.state.now_playing is None
                &&& q.core.state.status == PlaybackStatus::Idle
            }
            &&& same_settings(q.core.state, p.core.state)
        }),
{
}

/// The position and the length that were read off are the ones that are
/// reported; the queue and the settings stay.
pub proof fn lemma_position_reported(p: PlayerView, at: u64, length: u64)
    ensures
        ({
            let q = position_spec(p, at, length);
            &&& q.core.state.position_us == at
            &&& q.core.state.duration_us == length
            &&& q.core.queue == p.core.queue
            &&& q.core.state.now_playing == p.core.state.now_playing
            &&& q.loaded == p.loaded
            &&& same_settings(q.core.state, p.core.state)
        }),
{
}

/// While packets come the track goes on; at its end, or where it cannot be
/// decoded, the next item follows, as if it had been asked for.
pub proof fn lemma_end_of_track(p: PlayerView, step: DecodeStep, at: u64, length: u64)
    requires
        p.core.queue.wf(),
        p.core.queue.index is Some,
        p.core.state.repeat == crate::queue::RepeatMode::Off,
    ensures
        ({
            let r = decoded_spec(p, step, at, length);
            let i = p.core.queue.index->0;
            let n = p.core.queue.items.len();
            &&& step == DecodeStep::Pushed ==> {
                &&& r.2 == PlayerAction::Nothing
                &&& !r.1
                &&& r.0.core.queue == p.core.queue
                &&& r.0.core.state.position_us == at
                &&& r.0.loaded == p.loaded
            }
            &&& step != DecodeStep::Pushed && i + 1 < n ==> {
                &&& turned_to(p, r, i + 1)
                &&& r.2 == PlayerAction::Load(p.core.queue.items[i + 1])
            }
            &&& step != DecodeStep::Pushed && i + 1 == n ==> turned_off(p, r)
        }),
{
}

/// What a packet means: the end of the stream and a reset end the track, a
/// failure to read or decode it is an error, and a packet that is damaged or
/// belongs elsewhere ends nothing. A track begins with the first packet that
/// holds samples, and such a packet alone.
pub proof fn lemma_packets(event: PacketEvent)
    ensures
        packet_means(event) == DecodeStep::EndOfStream <==> event == PacketEvent::EndOfFile || event
            == PacketEvent::ResetRequired,
        packet_means(event) == DecodeStep::Error <==> event == PacketEvent::ReadFailed || event
            == PacketEvent::DecoderFailed,
        prime_means(event) == PrimeStep::Ready <==> (event matches PacketEvent::Decoded(n) && n > 0),
        prime_means(event) == PrimeStep::Failed <==> packet_means(event) != DecodeStep::Pushed,
{
}

/// A queue of tracks that is kept and taken over again is the same queue, at the
/// same item and position, in the same order of play.
pub proof fn lemma_snapshot_restores(p: PlayerView, q: PlayerView, saved: PersistedQueue)
    requires
        p.core.queue.wf(),
        p.core.queue.index is Some,
        kept(p, saved),
        forall|i: int|
            0 <= i < p.core.queue.items.len() ==> !(#[trigger] p.core.queue.items[i]).is_video,
    ensures
        restored(q, saved).core.queue == p.core.queue,
        restored(q, saved).core.state.queue == p.core.queue.items,
        restored(q, saved).core.state.now_playing == p.core.queue.current(),
        restored(q, saved).core.state.shuffle == p.core.state.shuffle,
        restored(q, saved).core.state.repeat == p.core.state.repeat,
        restored(q, saved).core.state.position_us == p.core.state.position_us,
        restored(q, saved).start_us == p.core.state.position_us,
        restored(q, saved).core.state.status == PlaybackStatus::Paused,
        restored(q, saved).paused,
        !restored(q, saved).loaded,
{
    let items = saved.items@;
    let i = saved.current_index->0 as int;
    crate::local::lemma_all_of_kind(items, false);
    assert forall|k: int| 0 <= k < items.take(i).len() implies items.take(i)[k].is_video == false by {
        assert(items.take(i)[k] == items[k]);
    }
    crate::local::lemma_all_of_kind(items.take(i), false);
}

/// What stands behind a semicolon does not matter for the extension that goes
/// with a content type.
pub proof fn lemma_extension_ignores_parameters(ct: Seq<char>, rest: Seq<char>)
    requires
        crate::text::index_of(ct, ';', 0) is None,
    ensures
        extension_of(ct + seq![';'] + rest) == extension_of(ct),
{
    let s = ct + seq![';'] + rest;
    crate::text::lemma_index_of(ct, ';', 0);
    crate::text::lemma_index_of(s, ';', 0);
    assert(s[ct.len() as int] == ';');
    assert forall|k: int| 0 <= k < ct.len() implies #[trigger] s[k] != ';' by {
        assert(s[k] == ct[k]);
    }
    assert(s.take(ct.len() as int) =~= ct);
}

/// The length that a server told is so many seconds, and is shown while the item
/// is being opened; without one there is none yet.
pub proof fn lemma_told_duration(r: RemoteView, item: QueueItem)
    ensures
        item.duration_secs is Some && item.duration_secs->0 * 1_000_000 <= u64::MAX
            ==> told_duration(item) == item.duration_secs->0 * 1_000_000,
        item.duration_secs is None ==> told_duration(item) == 0,
        opening(r, item).state.duration_us == told_duration(item),
        opening(r, item).state.now_playing == Some(item),
        opening(r, item).state.position_us == 0,
        opening(r, item).queue == r.queue,
{
}

proof fn lemma_plain_type(t: Seq<char>)
    requires
        t.len() > 0,
        forall|i: int|
            0 <= i < t.len() ==> ('a' <= #[trigger] t[i] && t[i] <= 'z') || ('0' <= t[i] && t[i]
                <= '9') || t[i] == '/' || t[i] == '-',
    ensures
        crate::text::index_of(t, ';', 0) is None,
        crate::text::lower(crate::text::trimmed(t)) == t,
{
    crate::text::lemma_index_of(t, ';', 0);
    if let Some(i) = crate::text::index_of(t, ';', 0) {
        assert(t[i] == ';');
    }
    assert(t.last() == t[t.len() - 1]);
    assert(crate::text::trim_start(t) == t);
    assert(crate::text::trimmed(t) == t);
    assert(crate::text::lower(t) =~= t);
}

/// The content types of audio, each by its extension.
pub proof fn lemma_audio_extensions()
    ensures
        extension_of("audio/mpeg"@) == Some("mp3"@),
        extension_of("audio/mp3"@) == Some("mp3"@),
        extension_of("audio/flac"@) == Some("flac"@),
        extension_of("audio/x-flac"@) == Some("flac"@),
        extension_of("audio/aac"@) == Some("aac"@),
        extension_of("audio/mp4"@) == Some("m4a"@),
        extension_of("audio/m4a"@) == Some("m4a"@),
        extension_of("audio/x-m4a"@) == Some("m4a"@),
        extension_of("audio/ogg"@) == Some("ogg"@),
        extension_of("application/ogg"@) == Some("ogg"@),
        extension_of("audio/opus"@) == Some("opus"@),
        extension_of("audio/wav"@) == Some("wav"@),
        extension_of("audio/wave"@) == Some("wav"@),
        extension_of("audio/x-wav"@) == Some("wav"@),
{
    reveal_strlit("audio/mpeg");
    reveal_strlit("audio/mp3");
    reveal_strlit("audio/flac");
    reveal_strlit("audio/x-flac");
    reveal_strlit("audio/aac");
    reveal_strlit("audio/mp4");
    reveal_strlit("audio/m4a");
    reveal_strlit("audio/x-m4a");
    reveal_strlit("audio/ogg");
    reveal_strlit("application/ogg");
    reveal_strlit("audio/opus");
    reveal_strlit("audio/wav");
    reveal_strlit("audio/wave");
    reveal_strlit("audio/x-wav");
    lemma_plain_type("audio/mpeg"@);
    lemma_plain_type("audio/mp3"@);
    lemma_plain_type("audio/flac"@);
    lemma_plain_type("audio/x-flac"@);
    lemma_plain_type("audio/aac"@);
    lemma_plain_type("audio/mp4"@);
    lemma_plain_type("audio/m4a"@);
    lemma_plain_type("audio/x-m4a"@);
    lemma_plain_type("audio/ogg"@);
    lemma_plain_type("application/ogg"@);
    lemma_plain_type("audio/opus"@);
    lemma_plain_type("audio/wav"@);
    lemma_plain_type("audio/wave"@);
    lemma_plain_type("audio/x-wav"@);
    assert("audio/mpeg"@.len() == 10 && "audio/mpeg"@[6] == 'm');
    assert("audio/flac"@.len() == 10 && "audio/flac"@[6] == 'f');
    assert("audio/opus"@.len() == 10 && "audio/opus"@[6] == 'o');
    assert("audio/wave"@.len() == 10 && "audio/wave"@[6] == 'w');
    assert("audio/mp3"@.len() == 9 && "audio/mp3"@[6] == 'm' && "audio/mp3"@[7] == 'p'
        && "audio/mp3"@[8] == '3');
    assert("audio/mp4"@.len() == 9 && "audio/mp4"@[6] == 'm' && "audio/mp4"@[7] == 'p'
        && "audio/mp4"@[8] == '4');
    assert("audio/m4a"@.len() == 9 && "audio/m4a"@[6] == 'm' && "audio/m4a"@[7] == '4');
    assert("audio/aac"@.len() == 9 && "audio/aac"@[6] == 'a');
    assert("audio/ogg"@.len() == 9 && "audio/ogg"@[6] == 'o');
    assert("audio/wav"@.len() == 9 && "audio/wav"@[6] == 'w');
    assert("audio/x-m4a"@.len() == 11 && "audio/x-m4a"@[8] == 'm');
    assert("audio/x-wav"@.len() == 11 && "audio/x-wav"@[8] == 'w');
    assert("audio/x-flac"@.len() == 12 && "application/ogg"@.len() == 15);
}

/// Where no item is current, going forward starts with the first one, and going
/// back leads nowhere; in an empty queue both are silence.
pub proof fn lemma_steps_from_nowhere(p: PlayerView, picks: Seq<usize>)
    requires
        p.core.queue.index is None,
    ensures
        ({
            let r = command_spec(p, RendererCall::Next, picks);
            &&& r.0.core.queue.items == p.core.queue.items
            &&& p.core.queue.items.len() > 0 ==> turned_to(p, r, 0)
            &&& p.core.queue.items.len() == 0 ==> turned_off(p, r)
        }),
        ({
            let r = command_spec(p, RendererCall::Previous, picks);
            &&& r.0.core.queue.items == p.core.queue.items
            &&& turned_off(p, r)
        }),
{
}

/// Where there is nothing to go on with, going on only ends the pause. A pause
/// where nothing plays is kept for what comes.
pub proof fn lemma_pause_without_track(p: PlayerView, picks: Seq<usize>)
    requires
        p.core.queue.index is None,
        p.core.state.now_playing is None,
    ensures
        command_spec(p, RendererCall::Resume, picks) == (
            PlayerView { paused: false, ..p },
            false,
            PlayerAction::Nothing,
        ),
        command_spec(p, RendererCall::Pause, picks) == (
            PlayerView { paused: true, ..p },
            false,
            PlayerAction::Nothing,
        ),
{
}

/// Where the queue is at its end, items that are added wait there and nothing is
/// opened; and taking an entry out opens nothing either. A place behind the end
/// is no entry.
pub proof fn lemma_queue_at_rest(p: PlayerView, items: Vec<QueueItem>, i: usize, picks: Seq<usize>)
    requires
        p.in_step(),
    ensures
        p.core.queue.index is None && p.core.queue.items.len() > 0 ==> {
            let (q, dropped, action) = command_spec(p, RendererCall::Enqueue(items), picks);
            &&& !dropped
            &&& action == PlayerAction::Nothing
            &&& q.core.queue.items == p.core.queue.items + items@
            &&& q.core.queue.index is None
            &&& q.core.state.status == p.core.state.status
        },
        p.core.queue.index is None && i < p.core.queue.items.len() ==> {
            let (q, dropped, action) = command_spec(p, RendererCall::RemoveFromQueue(i), picks);
            &&& !dropped
            &&& action == PlayerAction::Nothing
            &&& q.core.queue.items == p.core.queue.items.remove(i as int)
            &&& q.core.queue.index is None
        },
        i >= p.core.queue.items.len() ==> {
            let (q, dropped, action) = command_spec(p, RendererCall::RemoveFromQueue(i), picks);
            &&& !dropped
            &&& action == PlayerAction::Nothing
            &&& q.core.queue == p.core.queue
            &&& q.loaded == p.loaded
        },
{
}

} // verus!
