//! mpv, the player for video: the commands that it is sent over its socket,
//! and what follows from its events.

use vstd::prelude::*;

use crate::json::{json_of, object, opt_tree, parse_json, push_field, Json, Tree};
use crate::num::{number_of, parse_nat, push_dec, to_time};
use crate::queue::QueueItem;
use crate::remote::{Remote, RemoteView};
use crate::renderer::{PlaybackStatus, RendererCall, StateView};
use crate::text::{chars, str_eq};

verus! {

/// How a file joins mpv's own playlist.
#[derive(Debug, Clone, Copy, PartialEq, Eq, Structural)]
pub enum LoadMode {
    Replace,
    Append,
    AppendPlay,
    InsertNext,
}

impl LoadMode {
    /// mpv's word for a mode.
    pub open spec fn word(self) -> Seq<char> {
        match self {
            LoadMode::Replace => "replace"@,
            LoadMode::Append => "append"@,
            LoadMode::AppendPlay => "append-play"@,
            LoadMode::InsertNext => "insert-next"@,
        }
    }

    pub fn as_str(&self) -> (r: &'static str)
        ensures
            r@ == self.word(),
    {
        match self {
            LoadMode::Replace => "replace",
            LoadMode::Append => "append",
            LoadMode::AppendPlay => "append-play",
            LoadMode::InsertNext => "insert-next",
        }
    }
}

/// A command for mpv.
#[derive(Debug)]
pub enum MpvCommand {
    PlaylistClear,
    Stop,
    LoadFile(String, LoadMode),
    SetPlaylistPos(usize),
    SetPause(bool),
    PlaylistNext,
    PlaylistPrev,
    /// Go to a position, in microseconds.
    Seek(u64),
    /// Set the volume, in percent.
    SetVolume(u32),
}

/// A command as a value.
pub ghost enum MpvView {
    PlaylistClear,
    Stop,
    LoadFile(Seq<char>, LoadMode),
    SetPlaylistPos(int),
    SetPause(bool),
    PlaylistNext,
    PlaylistPrev,
    Seek(int),
    SetVolume(int),
}

impl View for MpvCommand {
    type V = MpvView;

    open spec fn view(&self) -> MpvView {
        match *self {
            MpvCommand::PlaylistClear => MpvView::PlaylistClear,
            MpvCommand::Stop => MpvView::Stop,
            MpvCommand::LoadFile(u, m) => MpvView::LoadFile(u@, m),
            MpvCommand::SetPlaylistPos(i) => MpvView::SetPlaylistPos(i as int),
            MpvCommand::SetPause(b) => MpvView::SetPause(b),
            MpvCommand::PlaylistNext => MpvView::PlaylistNext,
            MpvCommand::PlaylistPrev => MpvView::PlaylistPrev,
            MpvCommand::Seek(us) => MpvView::Seek(us as int),
            MpvCommand::SetVolume(v) => MpvView::SetVolume(v as int),
        }
    }
}

/// What a list of commands holds.
pub open spec fn command_views(v: Seq<MpvCommand>) -> Seq<MpvView> {
    v.map_values(|c: MpvCommand| c@)
}

/// The files of a list of items, each in the given mode.
pub open spec fn loads(items: Seq<QueueItem>, mode: LoadMode) -> Seq<MpvView> {
    items.map_values(|i: QueueItem| MpvView::LoadFile(i.stream_url@, mode))
}

/// The files of a new playlist: the first replaces what is there.
pub open spec fn fresh_loads(items: Seq<QueueItem>) -> Seq<MpvView> {
    Seq::new(
        items.len(),
        |i: int|
            MpvView::LoadFile(
                items[i].stream_url@,
                if i == 0 {
                    LoadMode::Replace
                } else {
                    LoadMode::Append
                },
            ),
    )
}

/// The commands that start a new playlist, apart from the two that clear the
/// old one: the files, the position, and an end to any pause.
pub open spec fn play_commands(items: Seq<QueueItem>, start: int) -> Seq<MpvView> {
    fresh_loads(items) + (if start > 0 {
        seq![MpvView::SetPlaylistPos(start)]
    } else {
        Seq::empty()
    }) + seq![MpvView::SetPause(false)]
}

/// mpv's volume goes to 150 percent.
pub open spec fn mpv_percent(volume_milli: nat) -> nat {
    if volume_milli > 1500 {
        150
    } else {
        volume_milli / 10
    }
}

/// What each command does to the queue and the state, and what mpv is sent.
/// Whether the old playlist is cleared first is told apart: mpv's answer to
/// that does not matter.
pub open spec fn command_spec(r: RemoteView, call: RendererCall) -> (
    RemoteView,
    bool,
    Seq<MpvView>,
) {
    match call {
        RendererCall::Play(items, start) => (
            RemoteView { queue: r.queue.replaced(items@, start as int), ..r }.synced(),
            true,
            play_commands(items@, start as int),
        ),
        RendererCall::Enqueue(items) => (
            RemoteView { queue: r.queue.appended(items@), ..r }.synced(),
            false,
            loads(items@, LoadMode::AppendPlay),
        ),
        RendererCall::PlayNext(items) => (
            RemoteView { queue: r.queue.inserted_next(items@), ..r }.synced(),
            false,
            loads(items@, LoadMode::InsertNext),
        ),
        RendererCall::Pause => (r, false, seq![MpvView::SetPause(true)]),
        RendererCall::Resume => (r, false, seq![MpvView::SetPause(false)]),
        RendererCall::Stop => (
            RemoteView {
                queue: crate::queue::QueueView { items: Seq::empty(), index: None },
                ..r
            }.synced(),
            false,
            seq![MpvView::Stop],
        ),
        RendererCall::Next => (r, false, seq![MpvView::PlaylistNext]),
        RendererCall::Previous => (r, false, seq![MpvView::PlaylistPrev]),
        RendererCall::Seek(us) => (r, false, seq![MpvView::Seek(us as int)]),
        RendererCall::SetVolume(v) => (
            r,
            false,
            seq![MpvView::SetVolume(mpv_percent(v as nat) as int)],
        ),
        _ => (r, false, Seq::empty()),
    }
}

fn load_all(items: &Vec<QueueItem>, mode: LoadMode) -> (r: Vec<MpvCommand>)
    ensures
        command_views(r@) == loads(items@, mode),
{
    let mut out: Vec<MpvCommand> = Vec::new();
    let mut i: usize = 0;
    while i < items.len()
        invariant
            i <= items@.len(),
            out@.len() == i,
            forall|k: int|
                0 <= k < i ==> (#[trigger] out@[k])@ == MpvView::LoadFile(
                    items@[k].stream_url@,
                    mode,
                ),
        decreases items@.len() - i,
    {
        out.push(MpvCommand::LoadFile(items[i].stream_url.clone(), mode));
        i += 1;
    }
    proof {
        assert(command_views(out@) =~= loads(items@, mode));
    }
    out
}

fn load_fresh(items: &Vec<QueueItem>, start: usize) -> (r: Vec<MpvCommand>)
    ensures
        command_views(r@) == play_commands(items@, start as int),
{
    let mut out: Vec<MpvCommand> = Vec::new();
    let mut i: usize = 0;
    while i < items.len()
        invariant
            i <= items@.len(),
            out@.len() == i,
            forall|k: int| 0 <= k < i ==> (#[trigger] out@[k])@ == fresh_loads(items@)[k],
        decreases items@.len() - i,
    {
        let mode: LoadMode = if i == 0 {
            LoadMode::Replace
        } else {
            LoadMode::Append
        };
        out.push(MpvCommand::LoadFile(items[i].stream_url.clone(), mode));
        i += 1;
    }
    if start > 0 {
        out.push(MpvCommand::SetPlaylistPos(start));
    }
    out.push(MpvCommand::SetPause(false));
    proof {
        assert(command_views(out@) =~= play_commands(items@, start as int));
    }
    out
}

fn single(c: MpvCommand) -> (r: Vec<MpvCommand>)
    ensures
        command_views(r@) == seq![c@],
{
    let mut v: Vec<MpvCommand> = Vec::new();
    v.push(c);
    proof {
        assert(command_views(v@) =~= seq![c@]);
    }
    v
}

/// What mpv is sent.
#[derive(Debug)]
pub struct MpvPlan {
    /// First `playlist-clear` and `stop`, whatever mpv answers.
    pub clear_first: bool,
    /// Then these, up to the first that mpv refuses.
    pub commands: Vec<MpvCommand>,
}

/// Carries out a command on the queue and says what mpv is sent.
pub fn plan_command(player: &mut Remote, call: RendererCall) -> (r: MpvPlan)
    requires
        old(player)@.queue.wf(),
    ensures
        (final(player)@, r.clear_first, command_views(r.commands@)) == command_spec(
            old(player)@,
            call,
        ),
        final(player)@.queue.wf(),
{
    match call {
        RendererCall::Play(items, start) => {
            let commands: Vec<MpvCommand> = load_fresh(&items, start);
            player.queue.replace(items, start);
            player.sync();
            MpvPlan { clear_first: true, commands }
        },
        RendererCall::Enqueue(items) => {
            let commands: Vec<MpvCommand> = load_all(&items, LoadMode::AppendPlay);
            player.queue.append(items);
            player.sync();
            MpvPlan { clear_first: false, commands }
        },
        RendererCall::PlayNext(items) => {
            let commands: Vec<MpvCommand> = load_all(&items, LoadMode::InsertNext);
            player.queue.insert_next(items);
            player.sync();
            MpvPlan { clear_first: false, commands }
        },
        RendererCall::Pause => MpvPlan {
            clear_first: false,
            commands: single(MpvCommand::SetPause(true)),
        },
        RendererCall::Resume => MpvPlan {
            clear_first: false,
            commands: single(MpvCommand::SetPause(false)),
        },
        RendererCall::Stop => {
            player.queue.clear();
            proof {
                assert(player@.queue.items =~= Seq::empty());
            }
            player.sync();
            MpvPlan { clear_first: false, commands: single(MpvCommand::Stop) }
        },
        RendererCall::Next => MpvPlan {
            clear_first: false,
            commands: single(MpvCommand::PlaylistNext),
        },
        RendererCall::Previous => MpvPlan {
            clear_first: false,
            commands: single(MpvCommand::PlaylistPrev),
        },
        RendererCall::Seek(us) => MpvPlan {
            clear_first: false,
            commands: single(MpvCommand::Seek(us)),
        },
        RendererCall::SetVolume(v) => {
            let pct: u32 = if v > 1500 {
                150
            } else {
                v / 10
            };
            MpvPlan { clear_first: false, commands: single(MpvCommand::SetVolume(pct)) }
        },
        _ => {
            let none: Vec<MpvCommand> = Vec::new();
            proof {
                assert(command_views(none@) =~= Seq::empty());
            }
            MpvPlan { clear_first: false, commands: none }
        },
    }
}

/// The value of a property that mpv reports. Numbers are in millionths.
#[derive(Debug, Clone, Copy, PartialEq, Eq, Structural)]
pub enum PropertyValue {
    Number(u64),
    Flag(bool),
    Other,
}

/// The state after a property has changed.
pub open spec fn property_changed(s: StateView, name: Seq<char>, data: PropertyValue) -> StateView {
    if name == "time-pos"@ {
        match data {
            PropertyValue::Number(n) => StateView { position_us: n, ..s },
            _ => s,
        }
    } else if name == "duration"@ {
        match data {
            PropertyValue::Number(n) => StateView { duration_us: n, ..s },
            _ => s,
        }
    } else if name == "pause"@ {
        match data {
            PropertyValue::Flag(p) => StateView {
                status: if p {
                    PlaybackStatus::Paused
                } else if s.now_playing is Some {
                    PlaybackStatus::Playing
                } else {
                    PlaybackStatus::Idle
                },
                ..s
            },
            _ => s,
        }
    } else if name == "volume"@ {
        match data {
            PropertyValue::Number(n) => StateView {
                volume_milli: if n / 100_000 > u32::MAX {
                    u32::MAX
                } else {
                    (n / 100_000) as u32
                },
                ..s
            },
            _ => s,
        }
    } else {
        s
    }
}

/// The queue and the state after an event of mpv. At the end of a file the
/// queue moves on; behind the last item the player is idle.
pub open spec fn event_spec(
    r: RemoteView,
    event: Seq<char>,
    name: Seq<char>,
    data: PropertyValue,
) -> RemoteView {
    if event == "property-change"@ {
        RemoteView { state: property_changed(r.state, name, data), ..r }
    } else if event == "start-file"@ {
        RemoteView { state: StateView { status: PlaybackStatus::Buffering, ..r.state }, ..r }
    } else if event == "file-loaded"@ {
        RemoteView { state: StateView { status: PlaybackStatus::Playing, ..r.state }, ..r }
    } else if event == "end-file"@ {
        let t = RemoteView { queue: r.queue.advanced(), ..r }.synced();
        if t.state.now_playing is None {
            RemoteView {
                state: StateView {
                    status: PlaybackStatus::Idle,
                    position_us: 0,
                    duration_us: 0,
                    ..t.state
                },
                ..t
            }
        } else {
            t
        }
    } else if event == "shutdown"@ {
        RemoteView { state: StateView { status: PlaybackStatus::Stopped, ..r.state }, ..r }
    } else {
        r
    }
}

fn change_property(player: &mut Remote, name: &str, data: PropertyValue)
    ensures
        final(player)@ == (RemoteView {
            state: property_changed(old(player)@.state, name@, data),
            ..old(player)@
        }),
{
    if str_eq(name, "time-pos") {
        if let PropertyValue::Number(n) = data {
            player.state.position_us = n;
        }
    } else if str_eq(name, "duration") {
        if let PropertyValue::Number(n) = data {
            player.state.duration_us = n;
        }
    } else if str_eq(name, "pause") {
        if let PropertyValue::Flag(p) = data {
            player.state.status = if p {
                PlaybackStatus::Paused
            } else if player.state.now_playing.is_some() {
                PlaybackStatus::Playing
            } else {
                PlaybackStatus::Idle
            };
        }
    } else if str_eq(name, "volume") {
        if let PropertyValue::Number(n) = data {
            let v: u64 = n / 100_000;
            player.state.volume_milli = if v > u32::MAX as u64 {
                u32::MAX
            } else {
                v as u32
            };
        }
    }
}

/// Takes in an event of mpv; `name` and `data` belong to a change of a
/// property.
pub fn handle_event(player: &mut Remote, event: &str, name: &str, data: PropertyValue)
    requires
        old(player)@.queue.wf(),
    ensures
        final(player)@ == event_spec(old(player)@, event@, name@, data),
        final(player)@.queue.wf(),
{
    if str_eq(event, "property-change") {
        change_property(player, name, data);
    } else if str_eq(event, "start-file") {
        player.state.status = PlaybackStatus::Buffering;
    } else if str_eq(event, "file-loaded") {
        player.state.status = PlaybackStatus::Playing;
    } else if str_eq(event, "end-file") {
        let _at: Option<usize> = player.queue.advance();
        player.sync();
        if player.state.now_playing.is_none() {
            player.state.status = PlaybackStatus::Idle;
            player.state.position_us = 0;
            player.state.duration_us = 0;
        }
    } else if str_eq(event, "shutdown") {
        player.state.status = PlaybackStatus::Stopped;
    }
}

/// Whether mpv's answer to a command says that it was carried out: an answer
/// without an error does.
pub fn reply_ok(error: Option<&str>) -> (r: bool)
    ensures
        r == (match error {
            Some(e) => e@ == "success"@,
            None => true,
        }),
{
    match error {
        Some(e) => str_eq(e, "success"),
        None => true,
    }
}

/// The arguments that mpv is started with, apart from its socket.
pub fn start_args() -> (r: Vec<&'static str>)
    ensures
        r@.map_values(|s: &'static str| s@) == seq![
            "--idle=yes"@,
            "--no-terminal"@,
            "--force-window=immediate"@,
            "--keep-open=yes"@,
            "--audio-display=no"@,
        ],
{
    let mut v: Vec<&'static str> = Vec::new();
    v.push("--idle=yes");
    v.push("--no-terminal");
    v.push("--force-window=immediate");
    v.push("--keep-open=yes");
    v.push("--audio-display=no");
    proof {
        assert(v@.map_values(|s: &'static str| s@) =~= seq![
            "--idle=yes"@,
            "--no-terminal"@,
            "--force-window=immediate"@,
            "--keep-open=yes"@,
            "--audio-display=no"@,
        ]);
    }
    v
}

/// The properties that mpv is to report.
pub fn observed_properties() -> (r: Vec<&'static str>)
    ensures
        r@.map_values(|s: &'static str| s@) == seq![
            "time-pos"@,
            "duration"@,
            "pause"@,
            "volume"@,
            "playlist-pos"@,
            "eof-reached"@,
        ],
{
    let mut v: Vec<&'static str> = Vec::new();
    v.push("time-pos");
    v.push("duration");
    v.push("pause");
    v.push("volume");
    v.push("playlist-pos");
    v.push("eof-reached");
    proof {
        assert(v@.map_values(|s: &'static str| s@) =~= seq![
            "time-pos"@,
            "duration"@,
            "pause"@,
            "volume"@,
            "playlist-pos"@,
            "eof-reached"@,
        ]);
    }
    v
}

// ---------------------------------------------------------------------------
// The socket
// ---------------------------------------------------------------------------

/// A time in seconds, with all its microseconds.
pub open spec fn seconds_text(us: nat) -> Seq<char> {
    crate::num::dec(us / 1000000) + "."@ + micros_text(us % 1000000)
}

/// Six digits.
pub open spec fn micros_text(us: nat) -> Seq<char> {
    crate::num::dec(us / 100000) + crate::num::dec(us / 10000 % 10) + crate::num::dec(
        us / 1000 % 10,
    ) + crate::num::dec(us / 100 % 10) + crate::num::dec(us / 10 % 10) + crate::num::dec(us % 10)
}

fn push_micros(out: &mut String, us: u64)
    requires
        us < 1000000,
    ensures
        final(out)@ == old(out)@ + micros_text(us as nat),
{
    let mut t: String = String::new();
    push_dec(&mut t, us / 100000);
    push_dec(&mut t, us / 10000 % 10);
    push_dec(&mut t, us / 1000 % 10);
    push_dec(&mut t, us / 100 % 10);
    push_dec(&mut t, us / 10 % 10);
    push_dec(&mut t, us % 10);
    proof {
        assert(t@ =~= micros_text(us as nat));
    }
    out.push_str(t.as_str());
}

fn seconds_of(us: u64) -> (r: String)
    ensures
        r@ == seconds_text(us as nat),
{
    let mut r: String = String::new();
    push_dec(&mut r, us / 1000000);
    proof {
        assert(r@ =~= crate::num::dec(us as nat / 1000000));
    }
    r.push_str(".");
    push_micros(&mut r, us % 1000000);
    r
}

/// The words of a command.
pub open spec fn words(c: MpvView) -> Seq<Tree> {
    match c {
        MpvView::PlaylistClear => seq![Tree::Text("playlist-clear"@)],
        MpvView::Stop => seq![Tree::Text("stop"@)],
        MpvView::LoadFile(url, mode) => seq![
            Tree::Text("loadfile"@),
            Tree::Text(url),
            Tree::Text(mode.word()),
        ],
        MpvView::SetPlaylistPos(i) => seq![
            Tree::Text("set_property"@),
            Tree::Text("playlist-pos"@),
            Tree::Number(crate::num::dec(i as nat)),
        ],
        MpvView::SetPause(b) => seq![
            Tree::Text("set_property"@),
            Tree::Text("pause"@),
            Tree::Bool(b),
        ],
        MpvView::PlaylistNext => seq![Tree::Text("playlist-next"@), Tree::Text("weak"@)],
        MpvView::PlaylistPrev => seq![Tree::Text("playlist-prev"@), Tree::Text("weak"@)],
        MpvView::Seek(us) => seq![
            Tree::Text("seek"@),
            Tree::Number(seconds_text(us as nat)),
            Tree::Text("absolute"@),
        ],
        MpvView::SetVolume(v) => seq![
            Tree::Text("set_property"@),
            Tree::Text("volume"@),
            Tree::Number(crate::num::dec(v as nat)),
        ],
    }
}

/// What is sent for some words.
pub open spec fn message(words: Seq<Tree>, id: u32) -> Tree {
    Tree::Object(
        seq![
            ("command"@, Tree::Array(words)),
            ("request_id"@, Tree::Number(crate::num::dec(id as nat))),
        ],
    )
}

/// What values hold.
pub open spec fn trees(v: Seq<Json>) -> Seq<Tree> {
    v.map_values(|j: Json| j@)
}

fn number(n: u64) -> (r: Json)
    ensures
        r@ == Tree::Number(crate::num::dec(n as nat)),
{
    let mut t: String = String::new();
    push_dec(&mut t, n);
    proof {
        assert(t@ =~= crate::num::dec(n as nat));
    }
    Json::Number(t)
}

fn say(v: &mut Vec<Json>, word: Json)
    ensures
        trees(final(v)@) == trees(old(v)@).push(word@),
{
    let ghost before = v@;
    v.push(word);
    proof {
        assert(trees(v@) =~= trees(before).push(word@));
    }
}

fn envelope(words: Vec<Json>, id: u32) -> (r: Json)
    ensures
        r@ == message(trees(words@), id),
{
    let ghost all = trees(words@);
    let list: Json = Json::Array(words);
    proof {
        assert(list@->Array_0 =~= all);
    }
    let mut fields: Vec<(String, Json)> = Vec::new();
    proof {
        assert(crate::json::field_views(fields@) =~= Seq::<(Seq<char>, Tree)>::empty());
    }
    push_field(&mut fields, "command", list);
    push_field(&mut fields, "request_id", number(id as u64));
    proof {
        assert(crate::json::field_views(fields@) =~= seq![
            ("command"@, Tree::Array(all)),
            ("request_id"@, Tree::Number(crate::num::dec(id as nat))),
        ]);
    }
    object(fields)
}

fn text(s: &str) -> (r: Json)
    ensures
        r@ == Tree::Text(s@),
{
    Json::Text(s.to_owned())
}

impl MpvCommand {
    /// What is sent for a command.
    pub fn payload(&self, id: u32) -> (r: Json)
        ensures
            r@ == message(words(self@), id),
    {
        let mut v: Vec<Json> = Vec::new();
        proof {
            assert(trees(v@) =~= Seq::<Tree>::empty());
        }
        match self {
            MpvCommand::PlaylistClear => {
                say(&mut v, text("playlist-clear"));
            },
            MpvCommand::Stop => {
                say(&mut v, text("stop"));
            },
            MpvCommand::LoadFile(url, mode) => {
                say(&mut v, text("loadfile"));
                say(&mut v, text(url.as_str()));
                say(&mut v, text(mode.as_str()));
            },
            MpvCommand::SetPlaylistPos(i) => {
                say(&mut v, text("set_property"));
                say(&mut v, text("playlist-pos"));
                say(&mut v, number(*i as u64));
            },
            MpvCommand::SetPause(b) => {
                say(&mut v, text("set_property"));
                say(&mut v, text("pause"));
                say(&mut v, Json::Bool(*b));
            },
            MpvCommand::PlaylistNext => {
                say(&mut v, text("playlist-next"));
                say(&mut v, text("weak"));
            },
            MpvCommand::PlaylistPrev => {
                say(&mut v, text("playlist-prev"));
                say(&mut v, text("weak"));
            },
            MpvCommand::Seek(us) => {
                say(&mut v, text("seek"));
                say(&mut v, Json::Number(seconds_of(*us)));
                say(&mut v, text("absolute"));
            },
            MpvCommand::SetVolume(p) => {
                say(&mut v, text("set_property"));
                say(&mut v, text("volume"));
                say(&mut v, number(*p as u64));
            },
        }
        proof {
            assert(trees(v@) =~= words(self@));
        }
        envelope(v, id)
    }
}

/// What is sent for a property that mpv is to report.
pub fn observe_payload(property: &str, id: u32) -> (r: Json)
    ensures
        r@ == message(
            seq![
                Tree::Text("observe_property"@),
                Tree::Number(crate::num::dec(1)),
                Tree::Text(property@),
            ],
            id,
        ),
{
    let mut v: Vec<Json> = Vec::new();
    proof {
        assert(trees(v@) =~= Seq::<Tree>::empty());
    }
    say(&mut v, text("observe_property"));
    say(&mut v, number(1));
    say(&mut v, text(property));
    proof {
        assert(trees(v@) =~= seq![
            Tree::Text("observe_property"@),
            Tree::Number(crate::num::dec(1)),
            Tree::Text(property@),
        ]);
    }
    envelope(v, id)
}

/// The requests that mpv has not answered yet.
#[derive(Debug)]
pub struct Ipc {
    /// The number of the next request.
    pub next_id: u32,
    /// The numbers of those that wait for an answer.
    pub waiting: Vec<u32>,
}

/// What a line of mpv is.
#[derive(Debug, Clone, Copy, PartialEq, Eq, Structural)]
pub enum Incoming {
    /// The answer to a request, and whether it was carried out.
    Reply(u32, bool),
    /// Something that happened.
    Event,
    /// Nothing that anybody waits for.
    Nothing,
}

/// A number from zero on that a value holds.
pub open spec fn natural(t: Option<Tree>) -> Option<nat> {
    match t {
        Some(Tree::Number(n)) => crate::num::parsed_nat(n, u64::MAX as nat),
        _ => None,
    }
}

/// A text that a value holds.
pub open spec fn worded(t: Option<Tree>) -> Option<Seq<char>> {
    match t {
        Some(v) => v.text(),
        None => None,
    }
}

/// The lower half of a number.
pub open spec fn low_half(n: nat) -> u32 {
    (n % 0x1_0000_0000) as u32
}

/// What a line of mpv is, given the requests that wait.
pub open spec fn incoming_of(value: Tree, waiting: Set<u32>) -> Incoming {
    match natural(value.at("request_id"@)) {
        Some(n) => if waiting.contains(low_half(n)) {
            Incoming::Reply(
                low_half(n),
                match worded(value.at("error"@)) {
                    Some(e) => e == "success"@,
                    None => true,
                },
            )
        } else {
            Incoming::Nothing
        },
        None => if worded(value.at("event"@)) is Some {
            Incoming::Event
        } else {
            Incoming::Nothing
        },
    }
}

fn natural_in(value: &Json, key: &str) -> (r: Option<u64>)
    ensures
        match r {
            Some(n) => natural(value@.at(key@)) == Some(n as nat),
            None => natural(value@.at(key@)) is None,
        },
{
    match value.get(key) {
        Some(Json::Number(n)) => {
            let digits: Vec<char> = chars(n.as_str());
            parse_nat(digits.as_slice(), u64::MAX)
        },
        _ => None,
    }
}

impl Ipc {
    /// No request waits twice.
    pub open spec fn wf(self) -> bool {
        self.waiting@.no_duplicates()
    }

    /// Nothing was sent yet.
    pub fn new() -> (r: Self)
        ensures
            r.wf(),
            r.next_id == 1,
            r.waiting@.len() == 0,
    {
        Ipc { next_id: 1, waiting: Vec::new() }
    }

    fn place(&self, id: u32) -> (r: Option<usize>)
        ensures
            match r {
                Some(i) => i < self.waiting@.len() && self.waiting@[i as int] == id,
                None => !self.waiting@.contains(id),
            },
    {
        let mut i: usize = 0;
        while i < self.waiting.len()
            invariant
                i <= self.waiting@.len(),
                forall|j: int| 0 <= j < i ==> #[trigger] self.waiting@[j] != id,
            decreases self.waiting@.len() - i,
        {
            if self.waiting[i] == id {
                return Some(i);
            }
            i += 1;
        }
        None
    }

    /// Takes the number for a request; where its answer matters, it waits for
    /// it.
    pub fn request(&mut self, wants_reply: bool) -> (id: u32)
        requires
            old(self).wf(),
        ensures
            final(self).wf(),
            id == old(self).next_id,
            final(self).next_id == (if id == u32::MAX {
                0
            } else {
                (id + 1) as u32
            }),
            final(self).waiting@.to_set() == (if wants_reply {
                old(self).waiting@.to_set().insert(id)
            } else {
                old(self).waiting@.to_set()
            }),
    {
        let id: u32 = self.next_id;
        self.next_id = if id == u32::MAX {
            0
        } else {
            id + 1
        };
        if wants_reply {
            let ghost before = self.waiting@;
            match self.place(id) {
                Some(_) => {
                    proof {
                        assert(before.contains(id));
                        assert(before.to_set().insert(id) =~= before.to_set());
                    }
                },
                None => {
                    self.waiting.push(id);
                    proof {
                        let now = before.push(id);
                        assert(now.no_duplicates());
                        assert forall|x: u32| now.to_set().contains(x)
                            == before.to_set().insert(id).contains(x) by {
                            if now.contains(x) && x != id {
                                let i = choose|i: int| 0 <= i < now.len() && now[i] == x;
                                assert(before[i] == x);
                            }
                            if before.contains(x) {
                                let i = choose|i: int| 0 <= i < before.len() && before[i] == x;
                                assert(now[i] == x);
                            }
                            assert(now[before.len() as int] == id);
                        }
                        assert(now.to_set() =~= before.to_set().insert(id));
                    }
                },
            }
        }
        id
    }

    /// Takes a line of mpv. An answer is for one request, and it is gone then.
    pub fn incoming(&mut self, value: &Json) -> (r: Incoming)
        requires
            old(self).wf(),
        ensures
            final(self).wf(),
            final(self).next_id == old(self).next_id,
            r == incoming_of(value@, old(self).waiting@.to_set()),
            final(self).waiting@.to_set() == (match r {
                Incoming::Reply(id, _) => old(self).waiting@.to_set().remove(id),
                _ => old(self).waiting@.to_set(),
            }),
    {
        match natural_in(value, "request_id") {
            Some(n) => {
                let id: u32 = (n % 0x1_0000_0000) as u32;
                match self.place(id) {
                    Some(i) => {
                        let error: Option<&str> = match value.get("error") {
                            Some(e) => e.as_str(),
                            None => None,
                        };
                        let ghost before = self.waiting@;
                        self.waiting.remove(i);
                        proof {
                            let now = self.waiting@;
                            assert(before.contains(id));
                            assert(now =~= before.remove(i as int));
                            assert forall|x: u32| now.to_set().contains(x)
                                == before.to_set().remove(id).contains(x) by {
                                if now.contains(x) {
                                    let k = choose|k: int| 0 <= k < now.len() && now[k] == x;
                                    let o = if k < i {
                                        k
                                    } else {
                                        k + 1
                                    };
                                    assert(before[o] == x);
                                    assert(before[i as int] == id);
                                }
                                if before.contains(x) && x != id {
                                    let k = choose|k: int| 0 <= k < before.len() && before[k] == x;
                                    let o = if k < i {
                                        k
                                    } else {
                                        k - 1
                                    };
                                    assert(now[o] == x);
                                }
                            }
                            assert(now.to_set() =~= before.to_set().remove(id));
                            assert(now.no_duplicates());
                        }
                        Incoming::Reply(id, reply_ok(error))
                    },
                    None => Incoming::Nothing,
                }
            },
            None => {
                let event: Option<&str> = match value.get("event") {
                    Some(e) => e.as_str(),
                    None => None,
                };
                match event {
                    Some(_) => Incoming::Event,
                    None => Incoming::Nothing,
                }
            },
        }
    }
}

/// Nobody is answered twice: once the answer to a request came, the same line
/// again is nothing that anybody waits for.
pub proof fn lemma_answered_once(value: Tree, waiting: Set<u32>)
    requires
        incoming_of(value, waiting) is Reply,
    ensures
        incoming_of(value, waiting.remove(incoming_of(value, waiting)->Reply_0))
            == Incoming::Nothing,
{
}

/// What a line of mpv tells: the event, and for a change of a property its name
/// and its value.
#[derive(Debug)]
pub struct MpvEvent {
    pub event: String,
    pub name: String,
    pub data: PropertyValue,
}

/// What a line of mpv tells, as a value.
pub ghost struct EventView {
    pub event: Seq<char>,
    pub name: Seq<char>,
    pub data: PropertyValue,
}

impl View for MpvEvent {
    type V = EventView;

    open spec fn view(&self) -> EventView {
        EventView { event: self.event@, name: self.name@, data: self.data }
    }
}

/// The text under a key, or an empty one.
pub open spec fn text_at(t: Tree, key: Seq<char>) -> Seq<char> {
    match t.at(key) {
        Some(Tree::Text(s)) => s,
        _ => Seq::empty(),
    }
}

/// The value of a property, as mpv writes it. A time before the start counts as
/// the start.
pub open spec fn property_of(data: Option<Tree>) -> PropertyValue {
    match data {
        Some(Tree::Bool(b)) => PropertyValue::Flag(b),
        Some(Tree::Number(n)) => match crate::num::number(n) {
            Some(x) => PropertyValue::Number(crate::num::time_of(x) as u64),
            None => PropertyValue::Other,
        },
        _ => PropertyValue::Other,
    }
}

/// What a line tells that is an event.
pub open spec fn told_by(t: Tree) -> EventView {
    EventView {
        event: text_at(t, "event"@),
        name: text_at(t, "name"@),
        data: property_of(t.at("data"@)),
    }
}

fn text_in(value: &Json, key: &str) -> (r: String)
    ensures
        r@ == text_at(value@, key@),
{
    match value.get(key) {
        Some(j) => match j.as_str() {
            Some(s) => s.to_owned(),
            None => {
                let none: String = String::new();
                proof {
                    assert(none@ =~= Seq::empty());
                }
                none
            },
        },
        None => {
            let none: String = String::new();
            proof {
                assert(none@ =~= Seq::empty());
            }
            none
        },
    }
}

/// Takes the value of a property over.
pub fn property_value(data: Option<&Json>) -> (r: PropertyValue)
    ensures
        r == property_of(opt_tree(data)),
{
    match data {
        Some(Json::Bool(b)) => PropertyValue::Flag(*b),
        Some(Json::Number(n)) => {
            let digits: Vec<char> = chars(n.as_str());
            match number_of(digits.as_slice()) {
                Some(x) => PropertyValue::Number(to_time(x)),
                None => PropertyValue::Other,
            }
        },
        _ => PropertyValue::Other,
    }
}

/// What an optional event tells.
pub open spec fn opt_event(e: Option<MpvEvent>) -> Option<EventView> {
    match e {
        Some(e) => Some(e@),
        None => None,
    }
}

impl Ipc {
    /// Takes a line of mpv as it was read. A line that is no JSON says nothing;
    /// where it is an event, what it tells is handed out too.
    pub fn take_line(&mut self, line: &str) -> (r: (Incoming, Option<MpvEvent>))
        requires
            old(self).wf(),
        ensures
            final(self).wf(),
            final(self).next_id == old(self).next_id,
            r.0 == (match json_of(line@) {
                Some(t) => incoming_of(t, old(self).waiting@.to_set()),
                None => Incoming::Nothing,
            }),
            opt_event(r.1) == (if r.0 == Incoming::Event {
                Some(told_by(json_of(line@)->0))
            } else {
                None
            }),
            final(self).waiting@.to_set() == (match r.0 {
                Incoming::Reply(id, _) => old(self).waiting@.to_set().remove(id),
                _ => old(self).waiting@.to_set(),
            }),
    {
        match parse_json(line) {
            None => (Incoming::Nothing, None),
            Some(value) => {
                let heard: Incoming = self.incoming(&value);
                match heard {
                    Incoming::Event => {
                        let event: MpvEvent = MpvEvent {
                            event: text_in(&value, "event"),
                            name: text_in(&value, "name"),
                            data: property_value(value.get("data")),
                        };
                        (heard, Some(event))
                    },
                    _ => (heard, None),
                }
            },
        }
    }
}

/// What mpv is sent for the transport is what was asked for, and nothing else:
/// a pause pauses, going on ends it, a step goes its way, a seek goes to the
/// very position. The queue and the state stay, until mpv reports.
pub proof fn lemma_transport_sent(r: RemoteView, us: u64)
    ensures
        command_spec(r, RendererCall::Pause) == (r, false, seq![MpvView::SetPause(true)]),
        command_spec(r, RendererCall::Resume) == (r, false, seq![MpvView::SetPause(false)]),
        command_spec(r, RendererCall::Next) == (r, false, seq![MpvView::PlaylistNext]),
        command_spec(r, RendererCall::Previous) == (r, false, seq![MpvView::PlaylistPrev]),
        command_spec(r, RendererCall::Seek(us)) == (r, false, seq![MpvView::Seek(us as int)]),
        command_spec(r, RendererCall::Stop).2 == seq![MpvView::Stop],
        command_spec(r, RendererCall::Stop).0.queue.items.len() == 0,
        command_spec(r, RendererCall::Stop).0.queue.index is None,
        command_spec(r, RendererCall::Stop).0.state.now_playing is None,
        command_spec(r, RendererCall::Stop).0.state.queue.len() == 0,
{
}

/// What is to be played replaces mpv's playlist: the files come in the order of
/// the items, the first in place of what was there; then mpv goes to the one to
/// start with, and a pause ends last.
pub proof fn lemma_play_sent(r: RemoteView, items: Vec<QueueItem>, start: usize)
    requires
        start < items@.len(),
    ensures
        ({
            let (t, clear, c) = command_spec(r, RendererCall::Play(items, start));
            let n = items@.len() as int;
            &&& clear
            &&& t.queue.items == items@
            &&& t.queue.index == Some(start as int)
            &&& t.state.queue == items@
            &&& t.state.now_playing == Some(items@[start as int])
            &&& c.len() == n + (if start > 0 {
                2int
            } else {
                1int
            })
            &&& c[0] == MpvView::LoadFile(items@[0].stream_url@, LoadMode::Replace)
            &&& forall|i: int|
                1 <= i < n ==> #[trigger] c[i] == MpvView::LoadFile(
                    items@[i].stream_url@,
                    LoadMode::Append,
                )
            &&& start > 0 ==> c[n] == MpvView::SetPlaylistPos(start as int)
            &&& c.last() == MpvView::SetPause(false)
        }),
{
}

/// Items that are added are sent to mpv in their order, one file each: at the
/// end of its playlist, or as what comes next. The queue here takes them at the
/// same place.
pub proof fn lemma_added_sent(r: RemoteView, items: Vec<QueueItem>, next: bool, i: int)
    requires
        r.queue.wf(),
    ensures
        ({
            let call = if next {
                RendererCall::PlayNext(items)
            } else {
                RendererCall::Enqueue(items)
            };
            let (t, clear, c) = command_spec(r, call);
            let old_items = r.queue.items;
            let at = if !next {
                old_items.len() as int
            } else if r.queue.index is Some {
                r.queue.index->0 + 1
            } else {
                0
            };
            &&& !clear
            &&& c.len() == items@.len()
            &&& 0 <= i < items@.len() ==> c[i] == MpvView::LoadFile(
                items@[i].stream_url@,
                if next {
                    LoadMode::InsertNext
                } else {
                    LoadMode::AppendPlay
                },
            )
            &&& t.queue.items == old_items.subrange(0, at) + items@ + old_items.subrange(
                at,
                old_items.len() as int,
            )
            &&& t.state.queue == t.queue.items
            &&& r.queue.index is Some ==> t.queue.index == r.queue.index
        }),
{
    let old_items = r.queue.items;
    let at = if !next {
        old_items.len() as int
    } else if r.queue.index is Some {
        r.queue.index->0 + 1
    } else {
        0
    };
    let whole = old_items.subrange(0, at) + items@ + old_items.subrange(at, old_items.len() as int);
    if next {
        assert(r.queue.inserted_next(items@).items =~= whole);
    } else {
        assert(r.queue.appended(items@).items =~= whole);
    }
}

/// A volume is sent in whole percents, up to a hundred and fifty.
pub proof fn lemma_volume_sent(r: RemoteView, v: u32)
    ensures
        command_spec(r, RendererCall::SetVolume(v)).0 == r,
        v % 10 == 0 && v <= 1500 ==> command_spec(r, RendererCall::SetVolume(v)).2 == seq![
            MpvView::SetVolume((v / 10) as int),
        ],
        v > 1500 ==> command_spec(r, RendererCall::SetVolume(v)).2 == seq![
            MpvView::SetVolume(150),
        ],
        mpv_percent(v as nat) <= 150,
        v <= 1500 ==> mpv_percent(v as nat) * 10 <= v < mpv_percent(v as nat) * 10 + 10,
{
}

/// The modes have words of their own, in mpv's language.
pub proof fn lemma_mode_words(a: LoadMode, b: LoadMode)
    ensures
        LoadMode::Replace.word() == "replace"@,
        LoadMode::Append.word() == "append"@,
        LoadMode::AppendPlay.word() == "append-play"@,
        LoadMode::InsertNext.word() == "insert-next"@,
        a.word() == b.word() ==> a == b,
{
    reveal_strlit("replace");
    reveal_strlit("append");
    reveal_strlit("append-play");
    reveal_strlit("insert-next");
    assert("replace"@.len() == 7 && "append"@.len() == 6 && "append-play"@.len() == 11
        && "insert-next"@.len() == 11 && "append-play"@[0] == 'a' && "insert-next"@[0] == 'i');
}

/// The words of the commands, as mpv knows them.
pub proof fn lemma_command_words(url: Seq<char>, mode: LoadMode, on: bool, n: nat)
    ensures
        words(MpvView::Stop) == seq![Tree::Text("stop"@)],
        words(MpvView::PlaylistClear) == seq![Tree::Text("playlist-clear"@)],
        words(MpvView::SetPause(on)) == seq![
            Tree::Text("set_property"@),
            Tree::Text("pause"@),
            Tree::Bool(on),
        ],
        words(MpvView::LoadFile(url, mode)) == seq![
            Tree::Text("loadfile"@),
            Tree::Text(url),
            Tree::Text(mode.word()),
        ],
        words(MpvView::PlaylistNext)[0] == Tree::Text("playlist-next"@),
        words(MpvView::PlaylistPrev)[0] == Tree::Text("playlist-prev"@),
        words(MpvView::Seek(n as int)).len() == 3,
        words(MpvView::Seek(n as int))[0] == Tree::Text("seek"@),
        words(MpvView::Seek(n as int))[2] == Tree::Text("absolute"@),
        words(MpvView::SetVolume(n as int)) == seq![
            Tree::Text("set_property"@),
            Tree::Text("volume"@),
            Tree::Number(crate::num::dec(n)),
        ],
        words(MpvView::SetPlaylistPos(n as int)) == seq![
            Tree::Text("set_property"@),
            Tree::Text("playlist-pos"@),
            Tree::Number(crate::num::dec(n)),
        ],
{
}

proof fn lemma_one_digit(d: nat)
    requires
        d < 10,
    ensures
        crate::num::dec(d) == seq![crate::num::digit(d as int)],
        crate::num::is_digit(crate::num::digit(d as int)),
        crate::num::digit_value(crate::num::digit(d as int)) == d,
{
}

proof fn lemma_micros(us: nat)
    requires
        us < 1_000_000,
    ensures
        micros_text(us).len() == 6,
        crate::num::all_digits(micros_text(us)),
        crate::num::digits_value(micros_text(us)) == us,
{
    let a = us / 100000;
    let b = us / 10000 % 10;
    let c = us / 1000 % 10;
    let d = us / 100 % 10;
    let e = us / 10 % 10;
    let f = us % 10;
    assert(us / 10000 == 10 * a + b);
    assert(us / 1000 == 10 * (us / 10000) + c);
    assert(us / 100 == 10 * (us / 1000) + d);
    assert(us / 10 == 10 * (us / 100) + e);
    assert(us == 10 * (us / 10) + f);
    lemma_one_digit(a);
    lemma_one_digit(b);
    lemma_one_digit(c);
    lemma_one_digit(d);
    lemma_one_digit(e);
    lemma_one_digit(f);
    let s = seq![
        crate::num::digit(a as int),
        crate::num::digit(b as int),
        crate::num::digit(c as int),
        crate::num::digit(d as int),
        crate::num::digit(e as int),
        crate::num::digit(f as int),
    ];
    assert(micros_text(us) =~= s);
    let s5 = s.drop_last();
    let s4 = s5.drop_last();
    let s3 = s4.drop_last();
    let s2 = s3.drop_last();
    let s1 = s2.drop_last();
    let s0 = s1.drop_last();
    assert(crate::num::digits_value(s0) == 0);
    assert(crate::num::digits_value(s1) == a);
    assert(crate::num::digits_value(s2) == a * 10 + b);
    assert(crate::num::digits_value(s3) == a * 100 + b * 10 + c);
    assert(crate::num::digits_value(s4) == a * 1000 + b * 100 + c * 10 + d);
    assert(crate::num::digits_value(s5) == a * 10000 + b * 1000 + c * 100 + d * 10 + e);
    assert(crate::num::digits_value(s) == us);
}

/// A position is written in seconds so that all its microseconds are there: read
/// as a number, it is the same position.
pub proof fn lemma_seconds_exact(us: nat)
    requires
        us <= u64::MAX,
    ensures
        crate::num::number(seconds_text(us)) == Some(Some(us as int)),
{
    let whole = crate::num::dec(us / 1_000_000);
    let frac = micros_text(us % 1_000_000);
    crate::num::lemma_dec_digits(us / 1_000_000);
    lemma_micros(us % 1_000_000);
    crate::num::lemma_decimal_number(whole, frac);
}

/// The number of a request comes back with its answer: the one that waits for
/// it is told, and told rightly whether it was carried out. An answer that
/// nobody waits for is nothing, and what has no number and names an event is
/// one.
pub proof fn lemma_replies(value: Tree, waiting: Set<u32>, id: u32)
    ensures
        value.at("request_id"@) == Some(Tree::Number(crate::num::dec(id as nat)))
            && waiting.contains(id) && value.at("error"@) == Some(Tree::Text("success"@))
            ==> incoming_of(value, waiting) == Incoming::Reply(id, true),
        value.at("request_id"@) == Some(Tree::Number(crate::num::dec(id as nat)))
            && waiting.contains(id) && value.at("error"@) == Some(
            Tree::Text("property unavailable"@),
        ) ==> incoming_of(value, waiting) == Incoming::Reply(id, false),
        value.at("request_id"@) == Some(Tree::Number(crate::num::dec(id as nat)))
            && !waiting.contains(id) ==> incoming_of(value, waiting) == Incoming::Nothing,
        value.at("request_id"@) is None && (value.at("event"@) matches Some(Tree::Text(_)))
            ==> incoming_of(value, waiting) == Incoming::Event,
        value.at("request_id"@) is None && value.at("event"@) is None ==> incoming_of(
            value,
            waiting,
        ) == Incoming::Nothing,
{
    crate::num::lemma_parse_dec(id as nat, u64::MAX as nat);
    reveal_strlit("success");
    reveal_strlit("property unavailable");
    assert("success"@.len() == 7 && "property unavailable"@.len() == 20);
}

/// What mpv says of its properties is what is shown: where it is, how long the
/// file is, whether it is paused, and how loud it is. Each leaves the others
/// alone.
pub proof fn lemma_properties_shown(r: RemoteView, n: u64, paused: bool)
    ensures
        ({
            let t = event_spec(r, "property-change"@, "time-pos"@, PropertyValue::Number(n));
            t == (RemoteView { state: StateView { position_us: n, ..r.state }, ..r })
        }),
        ({
            let t = event_spec(r, "property-change"@, "duration"@, PropertyValue::Number(n));
            t == (RemoteView { state: StateView { duration_us: n, ..r.state }, ..r })
        }),
        ({
            let t = event_spec(r, "property-change"@, "pause"@, PropertyValue::Flag(paused));
            &&& paused ==> t.state.status == PlaybackStatus::Paused
            &&& !paused && r.state.now_playing is Some ==> t.state.status == PlaybackStatus::Playing
            &&& !paused && r.state.now_playing is None ==> t.state.status == PlaybackStatus::Idle
            &&& t.queue == r.queue
            &&& t.state.position_us == r.state.position_us
            &&& t.state.volume_milli == r.state.volume_milli
        }),
        ({
            let t = event_spec(r, "property-change"@, "volume"@, PropertyValue::Number(n));
            &&& n / 100_000 <= u32::MAX ==> t.state.volume_milli == n / 100_000
            &&& t.queue == r.queue
            &&& t.state.status == r.state.status
            &&& t.state.position_us == r.state.position_us
        }),
{
    reveal_strlit("time-pos");
    reveal_strlit("duration");
    reveal_strlit("pause");
    reveal_strlit("volume");
    assert("time-pos"@.len() == 8 && "duration"@.len() == 8 && "pause"@.len() == 5
        && "volume"@.len() == 6 && "time-pos"@[0] == 't' && "duration"@[0] == 'd');
}

/// What happens to a file moves the state: one that is opened is on its way, one
/// that was loaded plays, and at the end of one the queue goes on to the next,
/// or behind the last to nothing. When mpv goes, all stops.
pub proof fn lemma_files_followed(r: RemoteView, name: Seq<char>, data: PropertyValue)
    requires
        r.queue.wf(),
        r.queue.index is Some,
    ensures
        event_spec(r, "start-file"@, name, data).state.status == PlaybackStatus::Buffering,
        event_spec(r, "start-file"@, name, data).queue == r.queue,
        event_spec(r, "file-loaded"@, name, data).state.status == PlaybackStatus::Playing,
        event_spec(r, "file-loaded"@, name, data).queue == r.queue,
        event_spec(r, "shutdown"@, name, data).state.status == PlaybackStatus::Stopped,
        event_spec(r, "shutdown"@, name, data).queue == r.queue,
        ({
            let t = event_spec(r, "end-file"@, name, data);
            let i = r.queue.index->0;
            &&& t.queue.items == r.queue.items
            &&& i + 1 < r.queue.items.len() ==> {
                &&& t.queue.index == Some(i + 1)
                &&& t.state.now_playing == Some(r.queue.items[i + 1])
                &&& t.state.current_index == Some(i + 1)
                &&& t.state.status == r.state.status
            }
            &&& i + 1 == r.queue.items.len() ==> {
                &&& t.queue.index is None
                &&& t.state.now_playing is None
                &&& t.state.status == PlaybackStatus::Idle
                &&& t.state.position_us == 0
                &&& t.state.duration_us == 0
            }
        }),
{
    reveal_strlit("property-change");
    reveal_strlit("start-file");
    reveal_strlit("file-loaded");
    reveal_strlit("end-file");
    reveal_strlit("shutdown");
    assert("property-change"@.len() == 15 && "start-file"@.len() == 10 && "file-loaded"@.len()
        == 11 && "end-file"@.len() == 8 && "shutdown"@.len() == 8 && "end-file"@[0] == 'e'
        && "shutdown"@[0] == 's');
}

/// A flag is taken as it is, and whole numbers as so many millionths; what is
/// neither says nothing.
pub proof fn lemma_property_values(b: bool, n: nat)
    requires
        n * 1_000_000 <= u64::MAX,
    ensures
        property_of(Some(Tree::Bool(b))) == PropertyValue::Flag(b),
        property_of(Some(Tree::Number(crate::num::dec(n)))) == PropertyValue::Number(
            (n * 1_000_000) as u64,
        ),
        property_of(Some(Tree::Null)) == PropertyValue::Other,
        property_of(None) == PropertyValue::Other,
{
    crate::num::lemma_dec_number(n);
}

/// Shuffle, repeat and taking entries out are not offered here: nothing changes,
/// and mpv is sent nothing.
pub proof fn lemma_not_offered(r: RemoteView, on: bool, mode: crate::queue::RepeatMode, i: usize)
    ensures
        command_spec(r, RendererCall::SetShuffle(on)) == (r, false, Seq::<MpvView>::empty()),
        command_spec(r, RendererCall::SetRepeat(mode)) == (r, false, Seq::<MpvView>::empty()),
        command_spec(r, RendererCall::RemoveFromQueue(i)) == (r, false, Seq::<MpvView>::empty()),
{
}

/// What is sent is the command, under the number of its request.
pub proof fn lemma_message_said(c: MpvView, id: u32)
    ensures
        message(words(c), id).at("command"@) == Some(Tree::Array(words(c))),
        message(words(c), id).at("request_id"@) == Some(Tree::Number(crate::num::dec(id as nat))),
{
    reveal_strlit("command");
    reveal_strlit("request_id");
    assert("command"@.len() == 7 && "request_id"@.len() == 10);
    reveal_with_fuel(crate::json::entry, 3);
    let v = message(words(c), id)->Object_0;
    assert(v.last() == ("request_id"@, Tree::Number(crate::num::dec(id as nat))));
    assert(v.drop_last().last() == ("command"@, Tree::Array(words(c))));
}

/// What a line of mpv tells is read from it: the event, the property and its
/// value, each under its own key.
pub proof fn lemma_told_by(t: Tree, s: Seq<char>)
    ensures
        t.at("event"@) == Some(Tree::Text(s)) ==> told_by(t).event == s,
        t.at("name"@) == Some(Tree::Text(s)) ==> told_by(t).name == s,
        t.at("name"@) is None ==> told_by(t).name.len() == 0,
        told_by(t).data == property_of(t.at("data"@)),
{
}

} // verus!
