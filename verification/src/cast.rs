//! Chromecasts: what they are told to play, and what follows from what they
//! report.

use vstd::prelude::*;

use crate::queue::{clone_opt, QueueItem};
use crate::remote::{limit_volume, After, Plan, Remote, RemoteAction, RemoteView};
use crate::renderer::{PlaybackStatus, RendererCall, StateView};

verus! {

/// A Chromecast on the network.
#[derive(Debug)]
pub struct CastDevice {
    pub name: String,
    pub model: String,
    pub address: String,
    pub port: u16,
    pub uuid: String,
}

impl Clone for CastDevice {
    fn clone(&self) -> (r: Self)
        ensures
            r == *self,
    {
        CastDevice {
            name: self.name.clone(),
            model: self.model.clone(),
            address: self.address.clone(),
            port: self.port,
            uuid: self.uuid.clone(),
        }
    }
}

impl CastDevice {
    /// The name under which a device is shown: its own, else its model.
    pub open spec fn shown_as(self) -> Seq<char> {
        if self.name@.len() == 0 {
            self.model@
        } else {
            self.name@
        }
    }

    pub fn display_name(&self) -> (r: String)
        ensures
            r@ == self.shown_as(),
    {
        if self.name.as_str().is_empty() {
            self.model.clone()
        } else {
            self.name.clone()
        }
    }
}

/// Whether a device is the one that was announced: under its friendly name, or
/// else its host's; with its id, or else the full name of its service.
pub open spec fn announced(
    d: CastDevice,
    friendly: Option<String>,
    model: Option<String>,
    id: Option<String>,
    hostname: String,
    fullname: String,
) -> bool {
    &&& d.name == (match friendly {
        Some(f) => f,
        None => hostname,
    })
    &&& d.uuid == (match id {
        Some(i) => i,
        None => fullname,
    })
    &&& match model {
        Some(m) => d.model == m,
        None => d.model@.len() == 0,
    }
}

/// Reads a device from what it announces: its friendly name (`fn`), its model
/// (`md`) and its id (`id`), with the host name and the full name of the
/// service in place of the first and the last.
pub fn cast_device(
    friendly: Option<String>,
    model: Option<String>,
    id: Option<String>,
    hostname: String,
    fullname: String,
    address: String,
    port: u16,
) -> (r: CastDevice)
    ensures
        announced(r, friendly, model, id, hostname, fullname),
        r.name == (match friendly {
            Some(f) => f,
            None => hostname,
        }),
        model is Some ==> r.model == model->0,
        model is None ==> r.model@.len() == 0,
        r.uuid == (match id {
            Some(i) => i,
            None => fullname,
        }),
        r.address == address,
        r.port == port,
{
    CastDevice {
        name: match friendly {
            Some(f) => f,
            None => hostname,
        },
        model: match model {
            Some(m) => m,
            None => String::new(),
        },
        address,
        port,
        uuid: match id {
            Some(i) => i,
            None => fullname,
        },
    }
}

/// What a Chromecast is told of an item.
#[derive(Debug)]
pub struct CastMedia {
    pub content_id: String,
    pub content_type: String,
    pub duration_secs: Option<u64>,
    /// A movie; else a music track.
    pub movie: bool,
    pub title: String,
    /// The subtitle of a movie, or the artist of a track.
    pub line: Option<String>,
    pub image: Option<String>,
}

/// Whether this is what a Chromecast is told of an item.
pub open spec fn describes(m: CastMedia, item: QueueItem) -> bool {
    &&& m.content_id == item.stream_url
    &&& m.content_type == item.content_type
    &&& m.duration_secs == item.duration_secs
    &&& m.movie == item.is_video
    &&& m.title == item.title
    &&& m.line == (if item.subtitle@.len() == 0 {
        None
    } else {
        Some(item.subtitle)
    })
    &&& m.image == item.image_url
}

/// Describes an item for a Chromecast.
pub fn build_media(item: &QueueItem) -> (r: CastMedia)
    ensures
        describes(r, *item),
        r.content_id == item.stream_url,
        r.content_type == item.content_type,
        r.duration_secs == item.duration_secs,
        r.movie == item.is_video,
        r.title == item.title,
        r.line == (if item.subtitle@.len() == 0 {
            None
        } else {
            Some(item.subtitle)
        }),
        r.image == item.image_url,
{
    CastMedia {
        content_id: item.stream_url.clone(),
        content_type: item.content_type.clone(),
        duration_secs: item.duration_secs,
        movie: item.is_video,
        title: item.title.clone(),
        line: if item.subtitle.as_str().is_empty() {
            None
        } else {
            Some(item.subtitle.clone())
        },
        image: clone_opt(&item.image_url),
    }
}

/// A cast session: the renderer as it is known here, and the media session on
/// the device, once something was loaded.
#[derive(Debug)]
pub struct CastSession {
    pub remote: Remote,
    pub media_session_id: Option<i32>,
}

/// An action on the media session, where there is one.
pub open spec fn on_media(session: Option<i32>, action: RemoteAction) -> RemoteAction {
    if session is Some {
        action
    } else {
        RemoteAction::Nothing
    }
}

/// What each command does to the queue and the state, what the device is to be
/// asked, and what is left to do.
pub open spec fn command_spec(r: RemoteView, session: Option<i32>, cmd: RendererCall) -> (
    RemoteView,
    RemoteAction,
    After,
) {
    match cmd {
        RendererCall::Play(items, start) => {
            let t = r.played(items@, start as int);
            (t, t.load_current(), After::Nothing)
        },
        RendererCall::Enqueue(items) => {
            let t = RemoteView { queue: r.queue.appended(items@), ..r };
            (
                t,
                if r.queue.items.len() == 0 {
                    t.load_current()
                } else {
                    RemoteAction::Nothing
                },
                After::Sync,
            )
        },
        RendererCall::PlayNext(items) => {
            let t = RemoteView { queue: r.queue.inserted_next(items@), ..r };
            (
                t,
                if r.queue.items.len() == 0 {
                    t.load_current()
                } else {
                    RemoteAction::Nothing
                },
                After::Sync,
            )
        },
        RendererCall::Pause => (r, on_media(session, RemoteAction::Pause), After::Nothing),
        RendererCall::Resume => (r, on_media(session, RemoteAction::Resume), After::Nothing),
        RendererCall::Stop => (
            r.stopped(),
            on_media(session, RemoteAction::Stop),
            After::Nothing,
        ),
        RendererCall::Next => {
            let t = RemoteView { queue: r.queue.advanced(), ..r };
            (t, t.load_current(), After::Nothing)
        },
        RendererCall::Previous => {
            let t = RemoteView { queue: r.queue.stepped_back(), ..r };
            (t, t.load_current(), After::Nothing)
        },
        RendererCall::Seek(us) => (r, on_media(session, RemoteAction::Seek(us)), After::Nothing),
        RendererCall::SetVolume(v) => (
            r,
            RemoteAction::SetVolume(crate::remote::full_at_most(v)),
            After::Volume(crate::remote::full_at_most(v)),
        ),
        _ => (r, RemoteAction::Nothing, After::Nothing),
    }
}

fn if_media(session: Option<i32>, action: RemoteAction) -> (r: Plan)
    ensures
        r.action == on_media(session, action),
        r.after == After::Nothing,
{
    Plan {
        action: if session.is_some() {
            action
        } else {
            RemoteAction::Nothing
        },
        after: After::Nothing,
    }
}

/// Plans a command.
pub fn handle_command(cast: &mut CastSession, cmd: RendererCall) -> (r: Plan)
    requires
        old(cast).remote@.queue.wf(),
    ensures
        (final(cast).remote@, r.action, r.after) == command_spec(
            old(cast).remote@,
            old(cast).media_session_id,
            cmd,
        ),
        cmd is Previous && old(cast).remote@.queue.index is Some && old(
            cast,
        ).remote@.queue.index->0 > 0 ==> {
            let to = old(cast).remote@.queue.index->0 - 1;
            &&& final(cast).remote@.queue.index == Some(to)
            &&& r.action == RemoteAction::Load(old(cast).remote@.queue.items[to])
        },
        cmd is Next && old(cast).remote@.queue.index is Some && old(
            cast,
        ).remote@.queue.index->0 + 1 < old(cast).remote@.queue.items.len() ==> {
            let to = old(cast).remote@.queue.index->0 + 1;
            &&& final(cast).remote@.queue.index == Some(to)
            &&& r.action == RemoteAction::Load(old(cast).remote@.queue.items[to])
        },
        final(cast).media_session_id == old(cast).media_session_id,
        final(cast).remote@.queue.wf(),
{
    match cmd {
        RendererCall::Play(items, start) => cast.remote.play(items, start),
        RendererCall::Enqueue(items) => cast.remote.enqueue(items),
        RendererCall::PlayNext(items) => cast.remote.play_next(items),
        RendererCall::Pause => if_media(cast.media_session_id, RemoteAction::Pause),
        RendererCall::Resume => if_media(cast.media_session_id, RemoteAction::Resume),
        RendererCall::Stop => {
            cast.remote.stop();
            if_media(cast.media_session_id, RemoteAction::Stop)
        },
        RendererCall::Next => {
            let action: RemoteAction = if cast.remote.queue.advance().is_some() {
                cast.remote.load_current()
            } else {
                RemoteAction::Nothing
            };
            Plan { action, after: After::Nothing }
        },
        RendererCall::Previous => {
            let action: RemoteAction = if cast.remote.queue.back().is_some() {
                cast.remote.load_current()
            } else {
                RemoteAction::Nothing
            };
            Plan { action, after: After::Nothing }
        },
        RendererCall::Seek(us) => if_media(cast.media_session_id, RemoteAction::Seek(us)),
        RendererCall::SetVolume(v) => {
            let v: u32 = limit_volume(v);
            Plan { action: RemoteAction::SetVolume(v), after: After::Volume(v) }
        },
        _ => Plan { action: RemoteAction::Nothing, after: After::Nothing },
    }
}

/// What the device answers when it has loaded an item: the media session, and
/// the length of the item where it knows it.
#[derive(Debug, Clone, Copy, PartialEq, Eq, Structural)]
pub struct Loaded {
    pub media_session_id: i32,
    pub duration_us: Option<u64>,
}

/// The renderer once the device has loaded an item.
pub open spec fn playing_on(r: RemoteView, item: QueueItem, a: Loaded) -> RemoteView {
    RemoteView {
        state: StateView {
            duration_us: match a.duration_us {
                Some(d) => d,
                None => 0,
            },
            now_playing: Some(item),
            status: PlaybackStatus::Playing,
            ..r.state
        },
        ..r
    }
}

/// Notes what the device answered when it was told to load an item. An answer
/// without a session changes nothing.
pub fn load_done(cast: &mut CastSession, item: &QueueItem, answer: Option<Loaded>)
    ensures
        answer matches Some(a) ==> final(cast).remote@ == playing_on(old(cast).remote@, *item, a),
        match answer {
            None => *final(cast) == *old(cast),
            Some(a) => {
                &&& final(cast).media_session_id == Some(a.media_session_id)
                &&& final(cast).remote@ == (RemoteView {
                    state: StateView {
                        duration_us: match a.duration_us {
                            Some(d) => d,
                            None => 0,
                        },
                        now_playing: Some(*item),
                        status: PlaybackStatus::Playing,
                        ..old(cast).remote@.state
                    },
                    ..old(cast).remote@
                })
            },
        },
{
    if let Some(a) = answer {
        cast.media_session_id = Some(a.media_session_id);
        cast.remote.state.duration_us = match a.duration_us {
            Some(d) => d,
            None => 0,
        };
        cast.remote.state.now_playing = Some(item.clone());
        cast.remote.state.status = PlaybackStatus::Playing;
    }
}

/// What a device does with its media session.
#[derive(Debug, Clone, Copy, PartialEq, Eq, Structural)]
pub enum Activity {
    Playing,
    Paused,
    Buffering,
    /// It is at the end of the item.
    Finished,
    /// It is idle for another reason.
    Idle,
}

/// What a device reports of its media session.
#[derive(Debug, Clone, Copy, PartialEq, Eq, Structural)]
pub struct CastStatus {
    pub position_us: Option<u64>,
    pub duration_us: Option<u64>,
    pub activity: Activity,
}

/// The state with what a device reports.
pub open spec fn reported(s: StateView, r: CastStatus) -> StateView {
    StateView {
        position_us: match r.position_us {
            Some(p) => p,
            None => 0,
        },
        duration_us: match r.duration_us {
            Some(d) => d,
            None => s.duration_us,
        },
        status: match r.activity {
            Activity::Playing => PlaybackStatus::Playing,
            Activity::Paused => PlaybackStatus::Paused,
            Activity::Buffering => PlaybackStatus::Buffering,
            Activity::Finished => s.status,
            Activity::Idle => PlaybackStatus::Idle,
        },
        ..s
    }
}

/// What a report comes to: at the end of an item the next one follows, and
/// behind the last the renderer is idle.
pub open spec fn status_spec(r: RemoteView, report: CastStatus) -> (RemoteView, RemoteAction) {
    let t = RemoteView { state: reported(r.state, report), ..r };
    if report.activity == Activity::Finished {
        let u = RemoteView { queue: t.queue.advanced(), ..t };
        if u.queue.index is Some {
            (u, u.load_current())
        } else {
            (
                RemoteView { state: StateView { status: PlaybackStatus::Idle, ..u.state }, ..u },
                RemoteAction::Nothing,
            )
        }
    } else {
        (t, RemoteAction::Nothing)
    }
}

/// Takes in what the device reports.
pub fn take_status(cast: &mut CastSession, report: CastStatus) -> (r: RemoteAction)
    requires
        old(cast).remote@.queue.wf(),
    ensures
        (final(cast).remote@, r) == status_spec(old(cast).remote@, report),
        final(cast).media_session_id == old(cast).media_session_id,
        final(cast).remote@.queue.wf(),
{
    cast.remote.state.position_us = match report.position_us {
        Some(p) => p,
        None => 0,
    };
    if let Some(d) = report.duration_us {
        cast.remote.state.duration_us = d;
    }
    match report.activity {
        Activity::Playing => {
            cast.remote.state.status = PlaybackStatus::Playing;
        },
        Activity::Paused => {
            cast.remote.state.status = PlaybackStatus::Paused;
        },
        Activity::Buffering => {
            cast.remote.state.status = PlaybackStatus::Buffering;
        },
        Activity::Finished => {
            if cast.remote.queue.advance().is_some() {
                return cast.remote.load_current();
            }
            cast.remote.state.status = PlaybackStatus::Idle;
        },
        Activity::Idle => {
            cast.remote.state.status = PlaybackStatus::Idle;
        },
    }
    RemoteAction::Nothing
}

/// A report of the end moves the queue by one; any other report leaves it.
pub proof fn lemma_only_end_advances(r: RemoteView, report: CastStatus)
    ensures
        report.activity != Activity::Finished ==> status_spec(r, report).0.queue == r.queue,
        report.activity == Activity::Finished ==> status_spec(r, report).0.queue
            == r.queue.advanced(),
{
}

/// When the device was last pinged and last asked for its status, in
/// milliseconds.
#[derive(Debug, Clone, Copy, PartialEq, Eq, Structural)]
pub struct CastClock {
    pub heartbeat_ms: u64,
    pub status_ms: u64,
}

/// What is due between commands.
#[derive(Debug, Clone, Copy, PartialEq, Eq, Structural)]
pub struct CastDue {
    pub ping: bool,
    pub status: bool,
}

/// How long a ping holds, in milliseconds.
pub const HEARTBEAT_MS: u64 = 4000;

/// How long a status holds, in milliseconds.
pub const STATUS_MS: u64 = 750;

impl CastClock {
    /// What is due at a moment.
    pub open spec fn due_at(self, now_ms: u64) -> CastDue {
        CastDue {
            ping: now_ms > self.heartbeat_ms + HEARTBEAT_MS,
            status: now_ms > self.status_ms + STATUS_MS,
        }
    }

    /// The clock once what was due is done.
    pub open spec fn ticked(self, now_ms: u64) -> CastClock {
        CastClock {
            heartbeat_ms: if self.due_at(now_ms).ping {
                now_ms
            } else {
                self.heartbeat_ms
            },
            status_ms: if self.due_at(now_ms).status {
                now_ms
            } else {
                self.status_ms
            },
        }
    }

    /// What is due at a moment. What is due counts as done then.
    pub fn due(&mut self, now_ms: u64) -> (r: CastDue)
        ensures
            r == old(self).due_at(now_ms),
            *final(self) == old(self).ticked(now_ms),
            r.ping == (now_ms > old(self).heartbeat_ms + HEARTBEAT_MS),
            r.status == (now_ms > old(self).status_ms + STATUS_MS),
            final(self).heartbeat_ms == (if r.ping {
                now_ms
            } else {
                old(self).heartbeat_ms
            }),
            final(self).status_ms == (if r.status {
                now_ms
            } else {
                old(self).status_ms
            }),
    {
        let ping: bool = now_ms > self.heartbeat_ms && now_ms - self.heartbeat_ms > HEARTBEAT_MS;
        if ping {
            self.heartbeat_ms = now_ms;
        }
        let status: bool = now_ms > self.status_ms && now_ms - self.status_ms > STATUS_MS;
        if status {
            self.status_ms = now_ms;
        }
        CastDue { ping, status }
    }
}

/// A step back from any item but the first leads to the one before it, and the
/// device is told to load that one; at the first it is told to load it again.
/// Nothing but the place in the queue changes.
pub proof fn lemma_previous_loads_preceding(r: RemoteView, session: Option<i32>)
    requires
        r.queue.wf(),
        r.queue.index is Some,
    ensures
        ({
            let (t, action, after) = command_spec(r, session, RendererCall::Previous);
            let i = r.queue.index->0;
            let to = if i > 0 {
                i - 1
            } else {
                0
            };
            &&& t.queue.items == r.queue.items
            &&& t.queue.index == Some(to)
            &&& action == RemoteAction::Load(r.queue.items[to])
            &&& after == After::Nothing
            &&& t.state == r.state
        }),
{
}

/// A step forward leads to the item behind the current one, and the device is
/// told to load that one. Behind the last there is nothing to load.
pub proof fn lemma_next_loads_following(r: RemoteView, session: Option<i32>)
    requires
        r.queue.wf(),
        r.queue.index is Some,
    ensures
        ({
            let (t, action, after) = command_spec(r, session, RendererCall::Next);
            let i = r.queue.index->0;
            &&& t.queue.items == r.queue.items
            &&& i + 1 < r.queue.items.len() ==> t.queue.index == Some(i + 1) && action
                == RemoteAction::Load(r.queue.items[i + 1])
            &&& i + 1 == r.queue.items.len() ==> t.queue.index is None && action
                == RemoteAction::Nothing
            &&& after == After::Nothing
            &&& t.state == r.state
        }),
{
}

/// Where an item follows, a step forward and one back lead to the item where
/// they began, and the device loads it again.
pub proof fn lemma_next_then_previous(r: RemoteView, session: Option<i32>)
    requires
        r.queue.wf(),
        r.queue.index is Some,
        r.queue.index->0 + 1 < r.queue.items.len(),
    ensures
        ({
            let on = command_spec(r, session, RendererCall::Next).0;
            let (back, action, _after) = command_spec(on, session, RendererCall::Previous);
            &&& back == r
            &&& action == RemoteAction::Load(r.queue.items[r.queue.index->0])
        }),
{
}

/// What is to be played is the queue, and the device loads the item to start
/// with. Items that are added leave the current one where it is, and the device
/// loads nothing, unless the queue was empty: then it loads the first of them.
pub proof fn lemma_items_taken(
    r: RemoteView,
    session: Option<i32>,
    items: Vec<QueueItem>,
    start: usize,
)
    requires
        r.queue.wf(),
    ensures
        ({
            let (t, action, after) = command_spec(r, session, RendererCall::Play(items, start));
            &&& t.queue.items == items@
            &&& t.state.queue == items@
            &&& t.state.status == PlaybackStatus::Buffering
            &&& after == After::Nothing
            &&& start < items@.len() ==> t.queue.index == Some(start as int) && action
                == RemoteAction::Load(items@[start as int]) && t.state.now_playing == Some(
                items@[start as int],
            )
            &&& 0 < items@.len() <= start ==> action == RemoteAction::Load(items@.last())
            &&& items@.len() == 0 ==> action == RemoteAction::Nothing && t.queue.index is None
        }),
        ({
            let (t, action, after) = command_spec(r, session, RendererCall::Enqueue(items));
            &&& t.queue.items == r.queue.items + items@
            &&& t.state == r.state
            &&& after == After::Sync
            &&& r.queue.items.len() > 0 ==> t.queue.index == r.queue.index && action
                == RemoteAction::Nothing
            &&& r.queue.items.len() == 0 && items@.len() > 0 ==> t.queue.index == Some(0int)
                && action == RemoteAction::Load(items@[0])
        }),
        ({
            let (t, action, after) = command_spec(r, session, RendererCall::PlayNext(items));
            &&& t.state == r.state
            &&& after == After::Sync
            &&& t.queue.items.len() == r.queue.items.len() + items@.len()
            &&& r.queue.index is Some ==> {
                let at = r.queue.index->0 + 1;
                &&& t.queue.index == r.queue.index
                &&& action == RemoteAction::Nothing
                &&& t.queue.items.subrange(0, at) == r.queue.items.subrange(0, at)
                &&& t.queue.items.subrange(at, at + items@.len()) == items@
                &&& t.queue.items.subrange(at + items@.len(), t.queue.items.len() as int)
                    == r.queue.items.subrange(at, r.queue.items.len() as int)
            }
            &&& r.queue.items.len() == 0 && items@.len() > 0 ==> t.queue.index == Some(0int)
                && action == RemoteAction::Load(items@[0])
        }),
{
    if r.queue.index is Some {
        let at = r.queue.index->0 + 1;
        let t = r.queue.inserted_next(items@);
        assert(t.items.subrange(0, at) =~= r.queue.items.subrange(0, at));
        assert(t.items.subrange(at, at + items@.len()) =~= items@);
        assert(t.items.subrange(at + items@.len(), t.items.len() as int)
            =~= r.queue.items.subrange(at, r.queue.items.len() as int));
    }
}

/// With a media session, the device is asked for just what the command says,
/// and without one it is asked nothing. Neither the queue nor the state is
/// changed by a pause, by going on or by a seek; what the device then reports
/// is what counts.
pub proof fn lemma_transport_asked(r: RemoteView, session: Option<i32>, us: u64)
    ensures
        command_spec(r, session, RendererCall::Pause) == (
            r,
            if session is Some {
                RemoteAction::Pause
            } else {
                RemoteAction::Nothing
            },
            After::Nothing,
        ),
        command_spec(r, session, RendererCall::Resume) == (
            r,
            if session is Some {
                RemoteAction::Resume
            } else {
                RemoteAction::Nothing
            },
            After::Nothing,
        ),
        command_spec(r, session, RendererCall::Seek(us)) == (
            r,
            if session is Some {
                RemoteAction::Seek(us)
            } else {
                RemoteAction::Nothing
            },
            After::Nothing,
        ),
        command_spec(r, session, RendererCall::Stop).1 == (if session is Some {
            RemoteAction::Stop
        } else {
            RemoteAction::Nothing
        }),
        command_spec(r, session, RendererCall::Stop).0.queue.items.len() == 0,
        command_spec(r, session, RendererCall::Stop).0.queue.index is None,
        command_spec(r, session, RendererCall::Stop).0.state.now_playing is None,
        command_spec(r, session, RendererCall::Stop).0.state.status == PlaybackStatus::Stopped,
{
}

/// A volume up to the full one is asked for as it is, and more than that as the
/// full one. It is reported once the device has taken it, and only then.
pub proof fn lemma_volume_asked(r: RemoteView, session: Option<i32>, v: u32, ok: bool)
    ensures
        ({
            let (t, action, after) = command_spec(r, session, RendererCall::SetVolume(v));
            let wanted: u32 = if v < 1000 {
                v
            } else {
                1000
            };
            &&& t == r
            &&& action == RemoteAction::SetVolume(wanted)
            &&& t.finished(after, ok).state.volume_milli == (if ok {
                wanted
            } else {
                r.state.volume_milli
            })
            &&& t.finished(after, ok).queue == r.queue
            &&& t.finished(after, ok).state.status == r.state.status
        }),
{
}

/// What the device reports is what is shown: playing as playing, paused as
/// paused, and the time that it tells; a length that it does not tell stays.
/// At the end of an item the one behind it is loaded, and behind the last the
/// renderer is idle.
pub proof fn lemma_report_followed(r: RemoteView, report: CastStatus)
    requires
        r.queue.wf(),
        r.queue.index is Some,
    ensures
        ({
            let (t, action) = status_spec(r, report);
            let i = r.queue.index->0;
            let ended = report.activity == Activity::Finished;
            &&& report.activity == Activity::Playing ==> t.state.status == PlaybackStatus::Playing
            &&& report.activity == Activity::Paused ==> t.state.status == PlaybackStatus::Paused
            &&& report.activity == Activity::Buffering ==> t.state.status
                == PlaybackStatus::Buffering
            &&& report.activity == Activity::Idle ==> t.state.status == PlaybackStatus::Idle
            &&& !ended ==> action == RemoteAction::Nothing && t.queue == r.queue
            &&& report.position_us is Some ==> t.state.position_us == report.position_us->0
            &&& report.position_us is None ==> t.state.position_us == 0
            &&& report.duration_us is Some ==> t.state.duration_us == report.duration_us->0
            &&& report.duration_us is None ==> t.state.duration_us == r.state.duration_us
            &&& t.queue.items == r.queue.items
            &&& ended && i + 1 < r.queue.items.len() ==> {
                &&& action == RemoteAction::Load(r.queue.items[i + 1])
                &&& t.queue.index == Some(i + 1)
                &&& t.state.status == r.state.status
            }
            &&& ended && i + 1 == r.queue.items.len() ==> {
                &&& action == RemoteAction::Nothing
                &&& t.queue.index is None
                &&& t.state.status == PlaybackStatus::Idle
            }
            &&& t.state.volume_milli == r.state.volume_milli
            &&& t.state.now_playing == r.state.now_playing
        }),
{
}

/// A device is shown by its own name where it has one, and otherwise by its
/// model.
pub proof fn lemma_device_shown(d: CastDevice)
    ensures
        d.name@.len() > 0 ==> d.shown_as() == d.name@,
        d.name@.len() == 0 ==> d.shown_as() == d.model@,
{
}

/// What a Chromecast is told of an item is the item: where it is, what it is
/// called, how long it is and of which kind; the line below it where there is
/// one.
pub proof fn lemma_media_described(m: CastMedia, item: QueueItem)
    requires
        describes(m, item),
    ensures
        m.content_id@ == item.stream_url@,
        m.title@ == item.title@,
        m.content_type@ == item.content_type@,
        m.duration_secs == item.duration_secs,
        m.movie <==> item.is_video,
        item.subtitle@.len() > 0 ==> m.line is Some && m.line->0@ == item.subtitle@,
        item.subtitle@.len() == 0 ==> m.line is None,
        m.image == item.image_url,
{
}

/// An item that the device has loaded is the one that plays; the queue stays as
/// it was.
pub proof fn lemma_loaded_plays(r: RemoteView, item: QueueItem, a: Loaded)
    ensures
        playing_on(r, item, a).state.now_playing == Some(item),
        playing_on(r, item, a).state.status == PlaybackStatus::Playing,
        a.duration_us is Some ==> playing_on(r, item, a).state.duration_us == a.duration_us->0,
        playing_on(r, item, a).queue == r.queue,
        playing_on(r, item, a).state.volume_milli == r.state.volume_milli,
        playing_on(r, item, a).state.position_us == r.state.position_us,
{
}

/// What was done is not due again before its time: a ping for four seconds, a
/// question for three quarters of one. After that it is.
pub proof fn lemma_clock_rests(c: CastClock, now_ms: u64, later_ms: u64)
    requires
        now_ms <= later_ms,
    ensures
        c.due_at(now_ms).ping && later_ms <= now_ms + 4000 ==> !c.ticked(now_ms).due_at(
            later_ms,
        ).ping,
        c.due_at(now_ms).status && later_ms <= now_ms + 750 ==> !c.ticked(now_ms).due_at(
            later_ms,
        ).status,
        later_ms > c.heartbeat_ms + 4000 <==> c.due_at(later_ms).ping,
        later_ms > c.status_ms + 750 <==> c.due_at(later_ms).status,
        !c.due_at(now_ms).ping ==> c.ticked(now_ms).heartbeat_ms == c.heartbeat_ms,
        !c.due_at(now_ms).status ==> c.ticked(now_ms).status_ms == c.status_ms,
{
}

/// Where no item is current, a step forward starts with the first one, and one
/// back leads nowhere; with no items there is nothing to load.
pub proof fn lemma_steps_from_nowhere(r: RemoteView, session: Option<i32>)
    requires
        r.queue.index is None,
    ensures
        ({
            let (t, action, after) = command_spec(r, session, RendererCall::Next);
            &&& t.queue.items == r.queue.items
            &&& t.state == r.state
            &&& after == After::Nothing
            &&& r.queue.items.len() > 0 ==> t.queue.index == Some(0int) && action
                == RemoteAction::Load(r.queue.items[0])
            &&& r.queue.items.len() == 0 ==> t.queue.index is None && action
                == RemoteAction::Nothing
        }),
        command_spec(r, session, RendererCall::Previous) == (
            r,
            RemoteAction::Nothing,
            After::Nothing,
        ),
{
}

/// Shuffle, repeat and taking entries out are not offered here: nothing changes,
/// and the device is asked nothing.
pub proof fn lemma_not_offered(
    r: RemoteView,
    session: Option<i32>,
    on: bool,
    mode: crate::queue::RepeatMode,
    i: usize,
)
    ensures
        command_spec(r, session, RendererCall::SetShuffle(on)) == (
            r,
            RemoteAction::Nothing,
            After::Nothing,
        ),
        command_spec(r, session, RendererCall::SetRepeat(mode)) == (
            r,
            RemoteAction::Nothing,
            After::Nothing,
        ),
        command_spec(r, session, RendererCall::RemoveFromQueue(i)) == (
            r,
            RemoteAction::Nothing,
            After::Nothing,
        ),
{
}

/// A report of the end that comes while no item is current starts with the
/// first one, where there is one.
pub proof fn lemma_end_from_nowhere(r: RemoteView, report: CastStatus)
    requires
        r.queue.index is None,
        report.activity == Activity::Finished,
    ensures
        ({
            let (t, action) = status_spec(r, report);
            &&& t.queue.items == r.queue.items
            &&& r.queue.items.len() > 0 ==> t.queue.index == Some(0int) && action
                == RemoteAction::Load(r.queue.items[0])
            &&& r.queue.items.len() == 0 ==> action == RemoteAction::Nothing && t.state.status
                == PlaybackStatus::Idle
        }),
{
}

/// A device that announces its name, its model and its id has these; where it
/// announces no name or id, its host and its service stand in, each for its own.
pub proof fn lemma_announced(
    d: CastDevice,
    a: String,
    b: String,
    c: String,
    host: String,
    full: String,
)
    ensures
        announced(d, Some(a), Some(b), Some(c), host, full) ==> d.name@ == a@ && d.model@ == b@
            && d.uuid@ == c@,
        announced(d, None, None, None, host, full) ==> d.name@ == host@ && d.model@.len() == 0
            && d.uuid@ == full@,
{
}

} // verus!
