//! The state behind the screens, and how keys change it.

use vstd::prelude::*;

use crate::config::{
    Config, ConfigView, CrossfadeSettings, EqBand, ReplayGainSettings, RendererPref, ServerConfig,
};
use crate::devices::RemoteDevice;
use crate::models::{base_views, BaseItem, BaseView, ItemKind};
use crate::num::{push_dec, push_signed};
use crate::queue::{clone_items, QueueItem};
use crate::renderer::{
    PlaybackState, PlaybackStatus, RendererCall, RendererKind, StateView,
};
use crate::tenths::push_signed_tenths;
use crate::text::{chars, from_chars, is_blank, trim};
use crate::tui::keys::{key_action, key_meaning, Action, Key, Mods, PlayMode};
use crate::tui::screens::Screen;

verus! {

/// A message, and when it was set, in milliseconds.
#[derive(Debug)]
pub struct Status {
    pub text: String,
    pub at_ms: u64,
}

/// Everything that the screens show.
#[derive(Debug)]
pub struct App {
    pub config: Config,
    pub renderer_kind: RendererKind,
    pub renderer_label: String,
    pub screen: Screen,
    pub music_items: Vec<BaseItem>,
    pub video_items: Vec<BaseItem>,
    pub playlists: Vec<BaseItem>,
    pub playlist_items: Vec<BaseItem>,
    pub open_playlist: Option<BaseItem>,
    pub album_tracks: Vec<BaseItem>,
    pub open_album: Option<BaseItem>,
    pub series_children: Vec<BaseItem>,
    pub open_series: Option<BaseItem>,
    pub search_results: Vec<BaseItem>,
    pub devices: Vec<RemoteDevice>,
    /// Counts the searches, so that a late answer to an older one is told.
    pub search_generation: u64,
    pub search_query: String,
    pub search_input_focused: bool,
    /// The selected row.
    pub selected: Option<usize>,
    pub status: Option<Status>,
    pub playback: PlaybackState,
    pub eq_selected_band: usize,
    pub help_open: bool,
    pub should_quit: bool,
}

/// The state as a value.
pub ghost struct AppView {
    pub config: ConfigView,
    pub renderer_kind: RendererKind,
    pub renderer_label: Seq<char>,
    pub screen: Screen,
    pub music_items: Seq<BaseItem>,
    pub video_items: Seq<BaseItem>,
    pub playlists: Seq<BaseItem>,
    pub playlist_items: Seq<BaseItem>,
    pub open_playlist: Option<BaseView>,
    pub album_tracks: Seq<BaseItem>,
    pub open_album: Option<BaseView>,
    pub series_children: Seq<BaseItem>,
    pub open_series: Option<BaseView>,
    pub search_results: Seq<BaseItem>,
    pub devices: Seq<RemoteDevice>,
    pub generation: u64,
    pub query: Seq<char>,
    pub typing: bool,
    pub selected: Option<usize>,
    pub status: Option<(Seq<char>, u64)>,
    pub playback: StateView,
    pub band: usize,
    pub help_open: bool,
    pub quit: bool,
}

/// What an optional item holds.
pub open spec fn opt_base(o: Option<BaseItem>) -> Option<BaseView> {
    match o {
        Some(b) => Some(b@),
        None => None,
    }
}

impl View for App {
    type V = AppView;

    open spec fn view(&self) -> AppView {
        AppView {
            config: self.config@,
            renderer_kind: self.renderer_kind,
            renderer_label: self.renderer_label@,
            screen: self.screen,
            music_items: self.music_items@,
            video_items: self.video_items@,
            playlists: self.playlists@,
            playlist_items: self.playlist_items@,
            open_playlist: opt_base(self.open_playlist),
            album_tracks: self.album_tracks@,
            open_album: opt_base(self.open_album),
            series_children: self.series_children@,
            open_series: opt_base(self.open_series),
            search_results: self.search_results@,
            devices: self.devices@,
            generation: self.search_generation,
            query: self.search_query@,
            typing: self.search_input_focused,
            selected: self.selected,
            status: match self.status {
                Some(s) => Some((s.text@, s.at_ms)),
                None => None,
            },
            playback: self.playback@,
            band: self.eq_selected_band,
            help_open: self.help_open,
            quit: self.should_quit,
        }
    }
}

/// What is to be done outside.
#[derive(Debug)]
pub enum Effect {
    Nothing,
    /// Ask the server for what was typed. The number is that of the search.
    Search(u64, String),
    /// Ask for the tracks of an album.
    OpenAlbum(BaseItem),
    /// Ask for the episodes of a series.
    OpenSeries(BaseItem),
    /// Ask for the entries of a playlist.
    OpenPlaylist(BaseItem),
    /// Find what is to be played of an item, and play it.
    Expand(BaseItem, PlayMode),
    /// Play the queue from an entry on; its title is for the message.
    Jump(Vec<QueueItem>, usize, String),
    /// Take an entry out of the queue; its title is for the message.
    Remove(usize, String),
    /// Play on another device from now on.
    Connect(RemoteDevice),
    /// Use another server from now on.
    UseServer(ServerConfig),
    /// Play on this machine from now on.
    UseLocal,
    /// Something for the renderer.
    Call(RendererCall),
    SetReplayGain(ReplayGainSettings),
    SetCrossfade(CrossfadeSettings),
    /// As before, where only the overlap changed.
    SetOverlap(CrossfadeSettings),
    SetEq(bool, Vec<EqBand>),
    /// Bass and treble, then where each of them begins.
    SetTone(i32, i32, i32, i32),
}

/// What follows from a key.
#[derive(Debug)]
pub struct Step {
    pub effect: Effect,
    /// Load the screen afresh.
    pub load: bool,
    /// Write the configuration down.
    pub save: bool,
}

// ---------------------------------------------------------------------------
// Lists
// ---------------------------------------------------------------------------

/// The item that an entry of the queue is shown as.
pub open spec fn entry_base(q: QueueItem) -> BaseView {
    BaseView {
        id: q.id@,
        name: q.title@,
        type_: if q.is_video {
            "Video"@
        } else {
            "Audio"@
        },
        album: None,
        album_id: None,
        album_artist: None,
        artists: if q.subtitle@.len() == 0 {
            None
        } else {
            Some(seq![q.subtitle@])
        },
        series_name: None,
        production_year: None,
        run_time_ticks: match q.duration_secs {
            Some(s) => Some(crate::models::secs_to_ticks(s as nat) as i64),
            None => None,
        },
        media_type: None,
        container: None,
        index_number: None,
        parent_index_number: None,
        image_tags: None,
        is_folder: None,
        overview: None,
    }
}

/// The item that an entry of the queue is shown as.
pub fn entry_item(q: &QueueItem) -> (r: BaseItem)
    ensures
        r@ == entry_base(*q),
{
    let artists: Option<Vec<String>> = if is_blank(q.subtitle.as_str()) {
        None
    } else {
        let mut v: Vec<String> = Vec::new();
        v.push(q.subtitle.clone());
        proof {
            assert(crate::text::string_views(v@) =~= seq![q.subtitle@]);
        }
        Some(v)
    };
    BaseItem {
        id: q.id.clone(),
        name: q.title.clone(),
        type_: if q.is_video {
            "Video".to_owned()
        } else {
            "Audio".to_owned()
        },
        album: None,
        album_id: None,
        album_artist: None,
        artists,
        series_name: None,
        production_year: None,
        run_time_ticks: match q.duration_secs {
            Some(s) => Some(crate::models::ticks(s)),
            None => None,
        },
        media_type: None,
        container: None,
        index_number: None,
        parent_index_number: None,
        image_tags: None,
        is_folder: None,
        overview: None,
    }
}

/// The items that the entries of a queue are shown as.
pub open spec fn entry_bases(v: Seq<QueueItem>) -> Seq<BaseView> {
    v.map_values(|q: QueueItem| entry_base(q))
}

impl AppView {
    /// The items on the screen.
    pub open spec fn list(self) -> Seq<BaseView> {
        match self.screen {
            Screen::Search => base_views(self.search_results),
            Screen::Music => if self.open_album is Some {
                base_views(self.album_tracks)
            } else {
                base_views(self.music_items)
            },
            Screen::Videos => if self.open_series is Some {
                base_views(self.series_children)
            } else {
                base_views(self.video_items)
            },
            Screen::Playlists => if self.open_playlist is Some {
                base_views(self.playlist_items)
            } else {
                base_views(self.playlists)
            },
            Screen::Queue => entry_bases(self.playback.queue),
            Screen::Devices => Seq::empty(),
            Screen::Settings => Seq::empty(),
        }
    }

    /// How many rows there are to move through.
    pub open spec fn rows(self) -> int {
        match self.screen {
            Screen::Devices => self.devices.len() as int,
            Screen::Settings => self.config.servers.len() as int,
            _ => self.list().len() as int,
        }
    }

    /// The selected item.
    pub open spec fn selected_item(self) -> Option<BaseView> {
        match self.selected {
            Some(i) => if i < self.list().len() {
                Some(self.list()[i as int])
            } else {
                None
            },
            None => None,
        }
    }

    /// With a message.
    pub open spec fn saying(self, text: Seq<char>, now_ms: u64) -> AppView {
        AppView { status: Some((text, now_ms)), ..self }
    }
}

fn copy_items(v: &Vec<BaseItem>) -> (r: Vec<BaseItem>)
    ensures
        base_views(r@) == base_views(v@),
{
    let mut out: Vec<BaseItem> = Vec::new();
    let mut i: usize = 0;
    while i < v.len()
        invariant
            i <= v@.len(),
            out@.len() == i,
            forall|j: int| 0 <= j < i ==> (#[trigger] out@[j])@ == v@[j]@,
        decreases v@.len() - i,
    {
        out.push(v[i].clone());
        i += 1;
    }
    proof {
        assert(base_views(out@) =~= base_views(v@));
    }
    out
}

fn item_at(v: &Vec<BaseItem>, i: usize) -> (r: Option<BaseItem>)
    ensures
        opt_base(r) == (if i < v@.len() {
            Some(base_views(v@)[i as int])
        } else {
            None
        }),
{
    if i < v.len() {
        Some(v[i].clone())
    } else {
        None
    }
}

// ---------------------------------------------------------------------------
// Messages
// ---------------------------------------------------------------------------

pub(crate) fn count_text(before: &str, n: usize, after: &str) -> (r: String)
    ensures
        r@ == before@ + crate::num::dec(n as nat) + after@,
{
    let mut r: String = before.to_owned();
    push_dec(&mut r, n as u64);
    r.push_str(after);
    r
}

pub(crate) fn quoted(before: &str, text: &str, after: &str) -> (r: String)
    ensures
        r@ == before@ + text@ + after@,
{
    let mut r: String = before.to_owned();
    r.push_str(text);
    r.push_str(after);
    r
}

/// How long a message is shown, in milliseconds.
pub const STATUS_TTL_MS: u64 = 4000;

/// The line at the bottom where there is no message.
pub const HELP_LINE: &'static str =
    " ?: help  tab: screen  ↑↓: nav  enter: play/drill  space: pause  s: stop  </>: skip  +/-: vol  z: shuffle  R: repeat  g: replaygain  f/F: crossfade  E: eq  b/B: bass  y/Y: treble  m: local  t: server  /: search  esc: back  q: quit ";

/// How the line at the bottom is painted.
#[derive(Debug, Clone, Copy, PartialEq, Eq, Structural)]
pub enum StatusLook {
    Help,
    Message,
    Trouble,
}

/// How a message is painted.
pub open spec fn message_look(text: Seq<char>) -> StatusLook {
    if crate::text::contains(text, "failed"@) || crate::text::contains(text, "error"@) {
        StatusLook::Trouble
    } else {
        StatusLook::Message
    }
}

/// What a message says.
pub open spec fn status_text(s: Option<(Seq<char>, u64)>) -> Seq<char> {
    match s {
        Some((text, _)) => text,
        None => Seq::empty(),
    }
}

impl App {
    pub fn set_status(&mut self, text: String, now_ms: u64)
        ensures
            final(self)@ == old(self)@.saying(text@, now_ms),
    {
        self.status = Some(Status { text, at_ms: now_ms });
    }

    /// The line at the bottom. A message is forgotten after a while.
    pub fn status_line(&mut self, now_ms: u64) -> (r: (String, StatusLook))
        ensures
            ({
                let shown = match old(self)@.status {
                    Some((text, at)) => now_ms < at + STATUS_TTL_MS,
                    None => false,
                };
                &&& final(self)@ == (if shown {
                    old(self)@
                } else {
                    AppView { status: None, ..old(self)@ }
                })
                &&& r.0@ == " "@ + (if shown {
                    status_text(old(self)@.status)
                } else {
                    HELP_LINE@
                }) + " "@
                &&& r.1 == (if shown {
                    message_look(status_text(old(self)@.status))
                } else {
                    StatusLook::Help
                })
            }),
    {
        let shown: bool = match &self.status {
            Some(s) => now_ms < s.at_ms || now_ms - s.at_ms < STATUS_TTL_MS,
            None => false,
        };
        if !shown {
            self.status = None;
        }
        match &self.status {
            Some(s) => {
                let look: StatusLook = if crate::text::has(s.text.as_str(), "failed")
                    || crate::text::has(s.text.as_str(), "error") {
                    StatusLook::Trouble
                } else {
                    StatusLook::Message
                };
                (quoted(" ", s.text.as_str(), " "), look)
            },
            None => (quoted(" ", HELP_LINE, " "), StatusLook::Help),
        }
    }
}

// ---------------------------------------------------------------------------
// What the actions come to
// ---------------------------------------------------------------------------

/// A search is started: it gets a number of its own, and with nothing to look
/// for its results are empty.
pub open spec fn searching(a: AppView, now_ms: u64) -> AppView {
    let q = crate::text::trimmed(a.query);
    let generation = if a.generation == u64::MAX {
        0
    } else {
        (a.generation + 1) as u64
    };
    if q.len() == 0 {
        AppView { generation, search_results: Seq::empty(), status: None, ..a }
    } else {
        AppView { generation, ..a }.saying("⌕ searching for “"@ + q + "”…"@, now_ms)
    }
}

/// The row that a move down leads to.
pub open spec fn row_down(selected: Option<usize>, rows: int, step: int) -> Option<usize> {
    let i = match selected {
        Some(i) => i as int,
        None => 0,
    };
    if rows == 0 {
        selected
    } else if i + step < rows - 1 {
        Some((i + step) as usize)
    } else {
        Some((rows - 1) as usize)
    }
}

/// The row that a move up leads to.
pub open spec fn row_up(selected: Option<usize>, step: int) -> Option<usize> {
    let i = match selected {
        Some(i) => i as int,
        None => 0,
    };
    if i > step {
        Some((i - step) as usize)
    } else {
        Some(0)
    }
}

/// Another screen is shown, from its first row on.
pub open spec fn showing(a: AppView, s: Screen) -> AppView {
    let b = AppView { screen: s, selected: Some(0), ..a };
    match s {
        Screen::Music => AppView { open_album: None, ..b },
        Screen::Videos => AppView { open_series: None, ..b },
        Screen::Playlists => AppView { open_playlist: None, ..b },
        Screen::Search => AppView { typing: true, ..b },
        _ => b,
    }
}

/// Whether a screen is loaded when it is shown by its number.
pub open spec fn loads(s: Screen) -> bool {
    s == Screen::Music || s == Screen::Videos || s == Screen::Playlists || s == Screen::Devices
}

/// What is open on the screen is closed.
pub open spec fn backed(a: AppView) -> AppView {
    if a.screen == Screen::Music && a.open_album is Some {
        AppView { open_album: None, album_tracks: Seq::empty(), selected: Some(0), ..a }
    } else if a.screen == Screen::Videos && a.open_series is Some {
        AppView { open_series: None, series_children: Seq::empty(), selected: Some(0), ..a }
    } else if a.screen == Screen::Playlists && a.open_playlist is Some {
        AppView { open_playlist: None, playlist_items: Seq::empty(), selected: Some(0), ..a }
    } else {
        a
    }
}

/// What playing the selected item comes to.
pub ghost enum PlayView {
    /// Nothing is selected.
    Nothing,
    OpenAlbum(BaseView),
    OpenSeries(BaseView),
    OpenPlaylist(BaseView),
    Expand(BaseView, PlayMode),
}

/// What playing the selected item comes to: what holds other items is opened
/// first, where it is to be played the plain way.
pub open spec fn play_choice(a: AppView, mode: PlayMode) -> PlayView {
    match a.selected_item() {
        None => PlayView::Nothing,
        Some(item) => if mode == PlayMode::PlayNow && a.screen == Screen::Playlists
            && a.open_playlist is None {
            PlayView::OpenPlaylist(item)
        } else if mode == PlayMode::PlayNow && a.screen == Screen::Music && item.kind()
            == ItemKind::MusicAlbum && a.open_album is None {
            PlayView::OpenAlbum(item)
        } else if mode == PlayMode::PlayNow && a.screen == Screen::Videos && item.kind()
            == ItemKind::Series && a.open_series is None {
            PlayView::OpenSeries(item)
        } else {
            PlayView::Expand(item, mode)
        },
    }
}

/// The state after the selected item was chosen to be played.
pub open spec fn play_after(a: AppView, mode: PlayMode, now_ms: u64) -> AppView {
    match play_choice(a, mode) {
        PlayView::Nothing => a.saying("Nothing selected."@, now_ms),
        PlayView::OpenAlbum(item) => AppView {
            open_album: Some(item),
            selected: Some(0),
            ..a
        },
        PlayView::OpenSeries(item) => AppView {
            open_series: Some(item),
            selected: Some(0),
            ..a
        },
        PlayView::OpenPlaylist(item) => AppView {
            open_playlist: Some(item),
            selected: Some(0),
            ..a
        },
        PlayView::Expand(_, _) => a,
    }
}

/// What is to be done for a choice.
pub open spec fn play_effect(c: PlayView, e: Effect) -> bool {
    match c {
        PlayView::Nothing => e is Nothing,
        PlayView::OpenAlbum(item) => e is OpenAlbum && e->OpenAlbum_0@ == item,
        PlayView::OpenSeries(item) => e is OpenSeries && e->OpenSeries_0@ == item,
        PlayView::OpenPlaylist(item) => e is OpenPlaylist && e->OpenPlaylist_0@ == item,
        PlayView::Expand(item, mode) => e is Expand && e->Expand_0@ == item && e->Expand_1
            == mode,
    }
}

/// The queue entry that is selected.
pub open spec fn selected_entry(a: AppView) -> Option<int> {
    match a.selected {
        Some(i) => if i < a.playback.queue.len() {
            Some(i as int)
        } else {
            None
        },
        None => None,
    }
}

/// Another server is chosen. What is shown stays until it is in use.
pub open spec fn on_server(a: AppView, i: int) -> AppView {
    AppView { config: ConfigView { current: Some(a.config.servers[i].name@), ..a.config }, ..a }
}

/// The place of the first server with the name of the one at a place.
pub open spec fn first_named(a: AppView, i: int) -> int {
    match crate::config::server_index(a.config.servers, a.config.servers[i].name@, 0) {
        Some(k) => k,
        None => i,
    }
}

/// The state after the screen's selection was chosen.
pub open spec fn choose_after(a: AppView, now_ms: u64) -> AppView {
    match a.screen {
        Screen::Devices => match a.selected {
            Some(i) => if i < a.devices.len() {
                a.saying("Connecting to "@ + a.devices[i as int].shown_as() + "…"@, now_ms)
            } else {
                a.saying("device: no device selected"@, now_ms)
            },
            None => a.saying("device: no device selected"@, now_ms),
        },
        Screen::Settings => match a.selected {
            Some(i) => if i < a.config.servers.len() {
                on_server(a, first_named(a, i as int))
            } else {
                a
            },
            None => a,
        },
        Screen::Queue => match a.selected {
            Some(i) => if i < a.playback.queue.len() {
                a
            } else {
                a.saying("Nothing to jump to."@, now_ms)
            },
            None => a,
        },
        _ => play_after(a, PlayMode::PlayNow, now_ms),
    }
}

/// What is to be done for the screen's selection.
pub open spec fn choose_step(a: AppView, r: Step) -> bool {
    match a.screen {
        Screen::Devices => {
            &&& !r.load
            &&& !r.save
            &&& match a.selected {
                Some(i) => if i < a.devices.len() {
                    r.effect == Effect::Connect(a.devices[i as int])
                } else {
                    r.effect is Nothing
                },
                None => r.effect is Nothing,
            }
        },
        Screen::Settings => match a.selected {
            Some(i) => if i < a.config.servers.len() {
                r.effect == Effect::UseServer(a.config.servers[first_named(a, i as int)])
                    && !r.load && !r.save
            } else {
                r.effect is Nothing && !r.load && !r.save
            },
            None => r.effect is Nothing && !r.load && !r.save,
        },
        Screen::Queue => {
            &&& !r.load
            &&& !r.save
            &&& match selected_entry(a) {
                Some(i) => r.effect is Jump && r.effect->Jump_0@ == a.playback.queue
                    && r.effect->Jump_1 == i && r.effect->Jump_2@
                    == a.playback.queue[i].title@,
                None => r.effect is Nothing,
            }
        },
        _ => play_effect(play_choice(a, PlayMode::PlayNow), r.effect) && !r.load && !r.save,
    }
}

/// A signed number of decibels.
pub open spec fn db(n: i32) -> Seq<char> {
    crate::num::dec_signed(n as int)
}

/// The state after an action.
#[verifier::opaque]
pub open spec fn after(a: AppView, act: Action, now_ms: u64) -> AppView {
    match act {
        Action::Ignore => a,
        Action::Quit => AppView { quit: true, ..a },
        Action::OpenHelp => AppView { help_open: true, ..a },
        Action::CloseHelp => AppView { help_open: false, ..a },
        Action::Unfocus => AppView { typing: false, ..a },
        Action::Type(c) => searching(
            AppView { query: a.query.push(c), selected: Some(0), ..a },
            now_ms,
        ),
        Action::Erase => searching(
            AppView {
                query: if a.query.len() > 0 {
                    a.query.drop_last()
                } else {
                    a.query
                },
                selected: Some(0),
                ..a
            },
            now_ms,
        ),
        Action::ClearQuery => searching(AppView { query: Seq::empty(), ..a }, now_ms),
        Action::Down(n) => AppView { selected: row_down(a.selected, a.rows(), n as int), ..a },
        Action::Up(n) => AppView { selected: row_up(a.selected, n as int), ..a },
        Action::NextScreen => AppView {
            screen: Screen::tabs()[(a.screen.place() + 1) % 7],
            selected: Some(0),
            ..a
        },
        Action::PrevScreen => AppView {
            screen: Screen::tabs()[(a.screen.place() + 6) % 7],
            selected: Some(0),
            ..a
        },
        Action::Show(s) => showing(a, s),
        Action::FocusSearch => AppView { screen: Screen::Search, typing: true, ..a },
        Action::Refresh => a.saying("Refreshed."@, now_ms),
        Action::Back => backed(a),
        Action::Choose => choose_after(a, now_ms),
        Action::Play(mode) => play_after(a, mode, now_ms),
        Action::TogglePause => a,
        Action::Stop => a,
        Action::Next => a,
        Action::Previous => a,
        Action::Louder => a,
        Action::Quieter => a,
        Action::UseLocal => AppView {
            renderer_kind: RendererKind::Mpv,
            renderer_label: "this machine"@,
            config: ConfigView { renderer: RendererPref::Mpv, ..a.config },
            ..a
        }.saying("Streaming locally (symphonia audio, mpv video)."@, now_ms),
        Action::CycleServer => if a.config.servers.len() == 0 {
            a.saying("No other server to switch to."@, now_ms)
        } else {
            on_server(a, first_named(a, a.config.next_index()))
        },
        Action::ToggleShuffle => a.saying(
            if a.playback.shuffle {
                "Shuffle off"@
            } else {
                "Shuffle on"@
            },
            now_ms,
        ),
        Action::CycleRepeat => a.saying(
            "Repeat: "@ + a.playback.repeat.successor().name(),
            now_ms,
        ),
        Action::RemoveSelected => if a.selected is Some && selected_entry(a) is None {
            a.saying("Nothing to remove."@, now_ms)
        } else {
            a
        },
        Action::ClearQueue => a.saying("Queue cleared."@, now_ms),
        Action::CycleReplayGain => a,
        Action::CycleCrossfade => a,
        Action::CycleOverlap => a,
        Action::NudgeBass(d) => toned(a, d as int, 0, now_ms),
        Action::NudgeTreble(d) => toned(a, 0, d as int, now_ms),
        Action::ToggleEq => AppView {
            config: ConfigView { eq_enabled: !a.config.eq_enabled, ..a.config },
            ..a
        },
        Action::PrevBand => if a.config.bands.len() > 0 {
            AppView {
                band: ((a.band + a.config.bands.len() - 1) % (a.config.bands.len() as int)) as usize,
                ..a
            }
        } else {
            a
        },
        Action::NextBand => if a.config.bands.len() > 0 {
            AppView { band: ((a.band + 1) % (a.config.bands.len() as int)) as usize, ..a }
        } else {
            a
        },
        Action::NudgeBand(d) => banded(a, d as int, now_ms),
    }
}

/// The tone shelves are moved.
pub open spec fn toned(a: AppView, d_bass: int, d_treble: int, now_ms: u64) -> AppView {
    let bass = crate::config::clamped(a.config.bass + d_bass, -24, 24) as i32;
    let treble = crate::config::clamped(a.config.treble + d_treble, -24, 24) as i32;
    AppView { config: ConfigView { bass, treble, ..a.config }, ..a }.saying(
        "Tone: bass "@ + db(bass) + " dB   treble "@ + db(treble) + " dB"@,
        now_ms,
    )
}

/// The band that is selected: itself, or the last one.
pub open spec fn chosen_band(a: AppView) -> int {
    if a.band < a.config.bands.len() {
        a.band as int
    } else {
        a.config.bands.len() - 1
    }
}

/// The gain of the selected band is changed.
pub open spec fn banded(a: AppView, d: int, now_ms: u64) -> AppView {
    if a.config.bands.len() == 0 {
        a.saying("No EQ bands — add [[eq_band_settings]] to config.toml"@, now_ms)
    } else {
        let i = chosen_band(a);
        let b = a.config.bands[i];
        let gain = crate::config::clamped(b.gain + d, -240, 240) as i32;
        AppView {
            config: ConfigView {
                bands: a.config.bands.update(i, EqBand { gain, ..b }),
                ..a.config
            },
            ..a
        }.saying(
            "band "@ + crate::num::dec((i + 1) as nat) + ": "@ + crate::num::dec_int(
                b.cutoff as int,
            ) + " Hz → "@ + crate::tenths::signed_tenths(gain as int) + " dB"@,
            now_ms,
        )
    }
}

/// A volume one step up, at most half as much again as full.
pub open spec fn louder(v: u32) -> u32 {
    if v >= 1450 {
        1500
    } else {
        (v + 50) as u32
    }
}

/// A volume one step down.
pub open spec fn quieter(v: u32) -> u32 {
    if v <= 50 {
        0
    } else {
        (v - 50) as u32
    }
}

/// Nothing but an effect.
pub open spec fn only(r: Step) -> bool {
    !r.load && !r.save
}

/// What is to be done for an action. `a` is the state before it.
#[verifier::opaque]
pub open spec fn step_for(a: AppView, act: Action, now_ms: u64, r: Step) -> bool {
    match act {
        Action::Type(_) => search_step(after(a, act, now_ms), r),
        Action::Erase => search_step(after(a, act, now_ms), r),
        Action::ClearQuery => search_step(after(a, act, now_ms), r),
        Action::NextScreen => r.effect is Nothing && r.load && !r.save,
        Action::PrevScreen => r.effect is Nothing && r.load && !r.save,
        Action::Show(s) => r.effect is Nothing && r.load == loads(s) && !r.save,
        Action::Refresh => r.effect is Nothing && r.load && !r.save,
        Action::Choose => choose_step(a, r),
        Action::Play(mode) => play_effect(play_choice(a, mode), r.effect) && only(r),
        Action::TogglePause => r.effect == Effect::Call(
            if a.playback.status == PlaybackStatus::Playing {
                RendererCall::Pause
            } else {
                RendererCall::Resume
            },
        ) && only(r),
        Action::Stop => r.effect == Effect::Call(RendererCall::Stop) && only(r),
        Action::Next => r.effect == Effect::Call(RendererCall::Next) && only(r),
        Action::Previous => r.effect == Effect::Call(RendererCall::Previous) && only(r),
        Action::Louder => r.effect == Effect::Call(
            RendererCall::SetVolume(louder(a.playback.volume_milli)),
        ) && only(r),
        Action::Quieter => r.effect == Effect::Call(
            RendererCall::SetVolume(quieter(a.playback.volume_milli)),
        ) && only(r),
        Action::UseLocal => r.effect is UseLocal && !r.load && r.save,
        Action::CycleServer => if a.config.servers.len() == 0 {
            r.effect is Nothing && r.load && !r.save
        } else {
            r.effect == Effect::UseServer(
                a.config.servers[first_named(a, a.config.next_index())],
            ) && r.load && !r.save
        },
        Action::ToggleShuffle => r.effect == Effect::Call(
            RendererCall::SetShuffle(!a.playback.shuffle),
        ) && only(r),
        Action::CycleRepeat => r.effect == Effect::Call(
            RendererCall::SetRepeat(a.playback.repeat.successor()),
        ) && only(r),
        Action::RemoveSelected => match selected_entry(a) {
            Some(i) => r.effect is Remove && r.effect->Remove_0 == i && r.effect->Remove_1@
                == a.playback.queue[i].title@ && only(r),
            None => r.effect is Nothing && only(r),
        },
        Action::ClearQueue => r.effect == Effect::Call(RendererCall::Stop) && only(r),
        Action::CycleReplayGain => r.effect == Effect::SetReplayGain(
            ReplayGainSettings {
                mode: a.config.replaygain.mode.successor(),
                ..a.config.replaygain
            },
        ) && only(r),
        Action::CycleCrossfade => r.effect == Effect::SetCrossfade(
            CrossfadeSettings {
                mode: a.config.crossfade.mode.successor(),
                ..a.config.crossfade
            },
        ) && only(r),
        Action::CycleOverlap => r.effect == Effect::SetOverlap(
            CrossfadeSettings {
                duration_ms: crate::config::next_overlap(
                    a.config.crossfade.duration_ms as nat,
                ) as u32,
                ..a.config.crossfade
            },
        ) && only(r),
        Action::NudgeBass(_) => tone_step(after(a, act, now_ms), r),
        Action::NudgeTreble(_) => tone_step(after(a, act, now_ms), r),
        Action::ToggleEq => eq_step(after(a, act, now_ms), r),
        Action::NudgeBand(_) => if a.config.bands.len() == 0 {
            r.effect is Nothing && only(r)
        } else {
            eq_step(after(a, act, now_ms), r)
        },
        _ => r.effect is Nothing && only(r),
    }
}

/// The server is asked where there is something to look for. `b` is the state
/// after the search was started.
pub open spec fn search_step(b: AppView, r: Step) -> bool {
    let q = crate::text::trimmed(b.query);
    only(r) && if q.len() == 0 {
        r.effect is Nothing
    } else {
        r.effect is Search && r.effect->Search_0 == b.generation && r.effect->Search_1@ == q
    }
}

/// The tone goes to the renderer.
pub open spec fn tone_step(b: AppView, r: Step) -> bool {
    r.effect == Effect::SetTone(
        b.config.bass,
        b.config.treble,
        b.config.bass_cutoff,
        b.config.treble_cutoff,
    ) && !r.load && r.save
}

/// The equalizer goes to the renderer.
pub open spec fn eq_step(b: AppView, r: Step) -> bool {
    r.effect is SetEq && r.effect->SetEq_0 == b.config.eq_enabled && r.effect->SetEq_1@
        == b.config.bands && !r.load && r.save
}

impl App {
    /// The name under which a kind of renderer is shown at first.
    pub open spec fn first_label(kind: RendererKind) -> Seq<char> {
        match kind {
            RendererKind::Mpv => "this machine"@,
            RendererKind::Chromecast => "Chromecast"@,
            RendererKind::Upnp => "UPnP"@,
        }
    }

    /// The first screen, with nothing loaded yet.
    pub fn new(config: Config, kind: RendererKind) -> (r: Self)
        ensures
            r@.config == config@,
            r@.renderer_kind == kind,
            r@.renderer_label == App::first_label(kind),
            r@.screen == Screen::Music,
            r@.selected == Some(0usize),
            r@.typing,
            r@.generation == 0,
            r@.query.len() == 0,
            r@.status is None,
            !r@.help_open,
            !r@.quit,
            r@.band == 0,
            r@.list().len() == 0,
            r@.open_album is None && r@.open_series is None && r@.open_playlist is None,
            r@.devices.len() == 0,
            r@.playback.status == PlaybackStatus::Idle,
            r@.playback.queue.len() == 0,
    {
        App {
            config,
            renderer_kind: kind,
            renderer_label: match kind {
                RendererKind::Mpv => "this machine".to_owned(),
                RendererKind::Chromecast => "Chromecast".to_owned(),
                RendererKind::Upnp => "UPnP".to_owned(),
            },
            screen: Screen::Music,
            music_items: Vec::new(),
            video_items: Vec::new(),
            playlists: Vec::new(),
            playlist_items: Vec::new(),
            open_playlist: None,
            album_tracks: Vec::new(),
            open_album: None,
            series_children: Vec::new(),
            open_series: None,
            search_results: Vec::new(),
            devices: Vec::new(),
            search_generation: 0,
            search_query: String::new(),
            search_input_focused: true,
            selected: Some(0),
            status: None,
            playback: PlaybackState::default(),
            eq_selected_band: 0,
            help_open: false,
            should_quit: false,
        }
    }

    /// The items on the screen.
    pub fn current_list(&self) -> (r: Vec<BaseItem>)
        ensures
            base_views(r@) == self@.list(),
    {
        match self.screen {
            Screen::Search => copy_items(&self.search_results),
            Screen::Music => if self.open_album.is_some() {
                copy_items(&self.album_tracks)
            } else {
                copy_items(&self.music_items)
            },
            Screen::Videos => if self.open_series.is_some() {
                copy_items(&self.series_children)
            } else {
                copy_items(&self.video_items)
            },
            Screen::Playlists => if self.open_playlist.is_some() {
                copy_items(&self.playlist_items)
            } else {
                copy_items(&self.playlists)
            },
            Screen::Queue => {
                let q: &Vec<QueueItem> = &self.playback.queue;
                let mut out: Vec<BaseItem> = Vec::new();
                let mut i: usize = 0;
                while i < q.len()
                    invariant
                        i <= q@.len(),
                        out@.len() == i,
                        forall|j: int|
                            0 <= j < i ==> (#[trigger] out@[j])@ == entry_base(q@[j]),
                    decreases q@.len() - i,
                {
                    out.push(entry_item(&q[i]));
                    i += 1;
                }
                proof {
                    assert(base_views(out@) =~= entry_bases(q@));
                }
                out
            },
            Screen::Devices => {
                let out: Vec<BaseItem> = Vec::new();
                proof {
                    assert(base_views(out@) =~= Seq::empty());
                }
                out
            },
            Screen::Settings => {
                let out: Vec<BaseItem> = Vec::new();
                proof {
                    assert(base_views(out@) =~= Seq::empty());
                }
                out
            },
        }
    }

    /// The selected item.
    pub fn selected_item(&self) -> (r: Option<BaseItem>)
        ensures
            opt_base(r) == self@.selected_item(),
    {
        match self.selected {
            Some(i) => {
                let list: Vec<BaseItem> = self.current_list();
                item_at(&list, i)
            },
            None => None,
        }
    }

    /// How many rows there are to move through.
    pub fn list_len(&self) -> (r: usize)
        ensures
            r == self@.rows(),
    {
        match self.screen {
            Screen::Devices => self.devices.len(),
            Screen::Settings => self.config.servers.len(),
            Screen::Search => self.search_results.len(),
            Screen::Music => if self.open_album.is_some() {
                self.album_tracks.len()
            } else {
                self.music_items.len()
            },
            Screen::Videos => if self.open_series.is_some() {
                self.series_children.len()
            } else {
                self.video_items.len()
            },
            Screen::Playlists => if self.open_playlist.is_some() {
                self.playlist_items.len()
            } else {
                self.playlists.len()
            },
            Screen::Queue => self.playback.queue.len(),
        }
    }

    /// Starts a search for what was typed.
    fn run_search(&mut self, now_ms: u64) -> (r: Step)
        ensures
            final(self)@ == searching(old(self)@, now_ms),
            search_step(final(self)@, r),
    {
        self.search_generation = self.search_generation.wrapping_add(1);
        let all: Vec<char> = chars(self.search_query.as_str());
        let q: &[char] = trim(&all);
        if q.len() == 0 {
            self.search_results = Vec::new();
            self.status = None;
            proof {
                assert(self@.search_results =~= Seq::empty());
            }
            return Step { effect: Effect::Nothing, load: false, save: false };
        }
        let query: String = from_chars(q);
        let text: String = quoted("⌕ searching for “", query.as_str(), "”…");
        self.set_status(text, now_ms);
        Step { effect: Effect::Search(self.search_generation, query), load: false, save: false }
    }

    /// Chooses the selected item to be played.
    fn play_selected(&mut self, mode: PlayMode, now_ms: u64) -> (r: Effect)
        ensures
            final(self)@ == play_after(old(self)@, mode, now_ms),
            play_effect(play_choice(old(self)@, mode), r),
    {
        let item: BaseItem = match self.selected_item() {
            Some(i) => i,
            None => {
                self.set_status("Nothing selected.".to_owned(), now_ms);
                return Effect::Nothing;
            },
        };
        if mode == PlayMode::PlayNow {
            if self.screen == Screen::Playlists && self.open_playlist.is_none() {
                self.open_playlist = Some(item.clone());
                self.selected = Some(0);
                return Effect::OpenPlaylist(item);
            }
            let kind: ItemKind = item.kind();
            if self.screen == Screen::Music && kind == ItemKind::MusicAlbum
                && self.open_album.is_none() {
                self.open_album = Some(item.clone());
                self.selected = Some(0);
                return Effect::OpenAlbum(item);
            }
            if self.screen == Screen::Videos && kind == ItemKind::Series
                && self.open_series.is_none() {
                self.open_series = Some(item.clone());
                self.selected = Some(0);
                return Effect::OpenSeries(item);
            }
        }
        Effect::Expand(item, mode)
    }

    fn close_open(&mut self)
        ensures
            final(self)@ == backed(old(self)@),
    {
        if self.screen == Screen::Music && self.open_album.is_some() {
            self.open_album = None;
            self.album_tracks = Vec::new();
            self.selected = Some(0);
            proof {
                assert(self@.album_tracks =~= Seq::empty());
            }
        } else if self.screen == Screen::Videos && self.open_series.is_some() {
            self.open_series = None;
            self.series_children = Vec::new();
            self.selected = Some(0);
            proof {
                assert(self@.series_children =~= Seq::empty());
            }
        } else if self.screen == Screen::Playlists && self.open_playlist.is_some() {
            self.open_playlist = None;
            self.playlist_items = Vec::new();
            self.selected = Some(0);
            proof {
                assert(self@.playlist_items =~= Seq::empty());
            }
        }
    }

    fn show(&mut self, s: Screen)
        ensures
            final(self)@ == showing(old(self)@, s),
    {
        self.screen = s;
        self.selected = Some(0);
        match s {
            Screen::Music => {
                self.open_album = None;
            },
            Screen::Videos => {
                self.open_series = None;
            },
            Screen::Playlists => {
                self.open_playlist = None;
            },
            Screen::Search => {
                self.search_input_focused = true;
            },
            _ => {},
        }
    }

    /// Chooses the server with the name of the one at a place.
    fn switch_server(&mut self, i: usize) -> (r: Effect)
        requires
            i < old(self).config.servers@.len(),
        ensures
            final(self)@ == on_server(old(self)@, first_named(old(self)@, i as int)),
            r == Effect::UseServer(
                old(self)@.config.servers[first_named(old(self)@, i as int)],
            ),
    {
        let ghost a = self@;
        let name: String = self.config.servers[i].name.clone();
        proof {
            crate::config::lemma_server_index(self.config.servers@, name@, 0);
        }
        let _ok = self.config.switch_to(name.as_str());
        let server: ServerConfig = match self.config.current() {
            Some(s) => s.clone(),
            None => self.config.servers[i].clone(),
        };
        proof {
            assert(self@.config == (ConfigView { current: Some(server.name@), ..a.config }));
        }
        Effect::UseServer(server)
    }
}

fn nothing_more() -> (r: Step)
    ensures
        r.effect is Nothing,
        only(r),
{
    Step { effect: Effect::Nothing, load: false, save: false }
}

fn calling(call: RendererCall) -> (r: Step)
    ensures
        r.effect == Effect::Call(call),
        only(r),
{
    Step { effect: Effect::Call(call), load: false, save: false }
}

fn clone_bands(v: &Vec<EqBand>) -> (r: Vec<EqBand>)
    ensures
        r@ == v@,
{
    let mut r: Vec<EqBand> = Vec::new();
    let mut i: usize = 0;
    while i < v.len()
        invariant
            i <= v@.len(),
            r@ == v@.take(i as int),
        decreases v@.len() - i,
    {
        r.push(v[i]);
        i += 1;
        proof {
            assert(r@ =~= v@.take(i as int));
        }
    }
    proof {
        assert(v@.take(i as int) =~= v@);
    }
    r
}

impl App {
    fn move_down(&mut self, n: usize)
        ensures
            final(self)@ == (AppView {
                selected: row_down(old(self)@.selected, old(self)@.rows(), n as int),
                ..old(self)@
            }),
    {
        let rows: usize = self.list_len();
        if rows > 0 {
            let i: usize = match self.selected {
                Some(i) => i,
                None => 0,
            };
            let last: usize = rows - 1;
            self.selected = if i < last && n < last - i {
                Some(i + n)
            } else {
                Some(last)
            };
        }
    }

    fn move_up(&mut self, n: usize)
        ensures
            final(self)@ == (AppView {
                selected: row_up(old(self)@.selected, n as int),
                ..old(self)@
            }),
    {
        let i: usize = match self.selected {
            Some(i) => i,
            None => 0,
        };
        self.selected = if i > n {
            Some(i - n)
        } else {
            Some(0)
        };
    }

    fn take_selection(&mut self, now_ms: u64) -> (r: Step)
        ensures
            final(self)@ == choose_after(old(self)@, now_ms),
            choose_step(old(self)@, r),
    {
        match self.screen {
            Screen::Devices => {
                if let Some(i) = self.selected {
                    if i < self.devices.len() {
                        let d: RemoteDevice = self.devices[i].clone();
                        let name: String = d.display_name();
                        let text: String = quoted("Connecting to ", name.as_str(), "…");
                        self.set_status(text, now_ms);
                        return Step { effect: Effect::Connect(d), load: false, save: false };
                    }
                }
                self.set_status("device: no device selected".to_owned(), now_ms);
                nothing_more()
            },
            Screen::Settings => {
                if let Some(i) = self.selected {
                    if i < self.config.servers.len() {
                        let effect: Effect = self.switch_server(i);
                        return Step { effect, load: false, save: false };
                    }
                }
                nothing_more()
            },
            Screen::Queue => {
                if let Some(i) = self.selected {
                    if i < self.playback.queue.len() {
                        let items: Vec<QueueItem> = clone_items(&self.playback.queue);
                        let title: String = self.playback.queue[i].title.clone();
                        return Step {
                            effect: Effect::Jump(items, i, title),
                            load: false,
                            save: false,
                        };
                    }
                    self.set_status("Nothing to jump to.".to_owned(), now_ms);
                }
                nothing_more()
            },
            _ => {
                let effect: Effect = self.play_selected(PlayMode::PlayNow, now_ms);
                Step { effect, load: false, save: false }
            },
        }
    }

    fn nudge_tone(&mut self, d_bass: i32, d_treble: i32, now_ms: u64) -> (r: Step)
        ensures
            final(self)@ == toned(old(self)@, d_bass as int, d_treble as int, now_ms),
            tone_step(final(self)@, r),
    {
        let ghost a = self@;
        self.config.nudge_tone(d_bass, d_treble);
        let mut text: String = "Tone: bass ".to_owned();
        push_signed(&mut text, self.config.bass as i64);
        text.push_str(" dB   treble ");
        push_signed(&mut text, self.config.treble as i64);
        text.push_str(" dB");
        self.set_status(text, now_ms);
        proof {
            assert(self@.config == (ConfigView {
                bass: self.config.bass,
                treble: self.config.treble,
                ..a.config
            }));
        }
        Step {
            effect: Effect::SetTone(
                self.config.bass,
                self.config.treble,
                self.config.bass_cutoff,
                self.config.treble_cutoff,
            ),
            load: false,
            save: true,
        }
    }

    fn nudge_band(&mut self, d: i32, now_ms: u64) -> (r: Step)
        ensures
            final(self)@ == banded(old(self)@, d as int, now_ms),
            old(self)@.config.bands.len() == 0 ==> r.effect is Nothing && only(r),
            old(self)@.config.bands.len() > 0 ==> eq_step(final(self)@, r),
    {
        let ghost a = self@;
        match self.config.nudge_eq_band_gain(self.eq_selected_band, d) {
            None => {
                self.set_status(
                    "No EQ bands — add [[eq_band_settings]] to config.toml".to_owned(),
                    now_ms,
                );
                nothing_more()
            },
            Some(i) => {
                let band: EqBand = self.config.eq_band_settings[i];
                let n: usize = self.config.eq_band_settings.len();
                let mut text: String = "band ".to_owned();
                push_dec(&mut text, i as u64 + 1);
                text.push_str(": ");
                crate::num::push_int(&mut text, band.cutoff as i64);
                text.push_str(" Hz → ");
                push_signed_tenths(&mut text, band.gain as i64);
                text.push_str(" dB");
                self.set_status(text, now_ms);
                proof {
                    let at = chosen_band(a);
                    let b = a.config.bands[at];
                    assert(i == at);
                    assert(self@.config == (ConfigView {
                        bands: a.config.bands.update(at, EqBand { gain: band.gain, ..b }),
                        ..a.config
                    }));
                }
                Step {
                    effect: Effect::SetEq(
                        self.config.eq_enabled,
                        clone_bands(&self.config.eq_band_settings),
                    ),
                    load: false,
                    save: true,
                }
            },
        }
    }

    fn move_band(&mut self, forward: bool)
        ensures
            final(self)@ == after(
                old(self)@,
                if forward {
                    Action::NextBand
                } else {
                    Action::PrevBand
                },
                0,
            ),
    {
        proof {
            reveal(after);
        }
        let n: usize = self.config.eq_band_settings.len();
        if n > 0 {
            let at: usize = self.eq_selected_band % n;
            proof {
                let s = self.eq_selected_band as int;
                let m = n as int;
                vstd::arithmetic::div_mod::lemma_add_mod_noop(s, 1, m);
                vstd::arithmetic::div_mod::lemma_add_mod_noop(s, m - 1, m);
                vstd::arithmetic::div_mod::lemma_small_mod((at + 1) as nat, n as nat + 1);
                if at + 1 == m {
                    assert((at + 1) % m == 0) by (nonlinear_arith)
                        requires
                            at + 1 == m,
                            m > 0,
                    ;
                } else {
                    vstd::arithmetic::div_mod::lemma_small_mod((at + 1) as nat, n as nat);
                }
                if at == 0 {
                    vstd::arithmetic::div_mod::lemma_small_mod((m - 1) as nat, n as nat);
                } else {
                    vstd::arithmetic::div_mod::lemma_small_mod((at - 1) as nat, n as nat);
                    vstd::arithmetic::div_mod::lemma_mod_add_multiples_vanish(at - 1, m);
                }
                vstd::arithmetic::div_mod::lemma_mod_twice(s, m);
                vstd::arithmetic::div_mod::lemma_small_mod(
                    if m > 1 {
                        1
                    } else {
                        0
                    },
                    n as nat,
                );
                vstd::arithmetic::div_mod::lemma_small_mod((m - 1) as nat, n as nat);
                if m == 1 {
                    assert(1int % 1 == 0);
                }
            }
            if forward {
                self.eq_selected_band = if at + 1 < n {
                    at + 1
                } else {
                    0
                };
            } else {
                self.eq_selected_band = if at > 0 {
                    at - 1
                } else {
                    n - 1
                };
            }
        }
    }
}

impl App {
    fn use_local(&mut self, now_ms: u64) -> (r: Step)
        ensures
            final(self)@ == after(old(self)@, Action::UseLocal, now_ms),
            step_for(old(self)@, Action::UseLocal, now_ms, r),
    {
        proof {
            reveal(after);
            reveal(step_for);
        }
        self.renderer_kind = RendererKind::Mpv;
        self.renderer_label = "this machine".to_owned();
        self.config.renderer = RendererPref::Mpv;
        self.set_status("Streaming locally (symphonia audio, mpv video).".to_owned(), now_ms);
        Step { effect: Effect::UseLocal, load: false, save: true }
    }

    fn cycle_server(&mut self, now_ms: u64) -> (r: Step)
        ensures
            final(self)@ == after(old(self)@, Action::CycleServer, now_ms),
            step_for(old(self)@, Action::CycleServer, now_ms, r),
    {
        proof {
            reveal(after);
            reveal(step_for);
        }
        let n: usize = self.config.servers.len();
        if n == 0 {
            self.set_status("No other server to switch to.".to_owned(), now_ms);
            return Step { effect: Effect::Nothing, load: true, save: false };
        }
        let cur: usize = match self.config.current_position() {
            Some(i) => i,
            None => 0,
        };
        let next: usize = (cur + 1) % n;
        let effect: Effect = self.switch_server(next);
        Step { effect, load: true, save: false }
    }

    fn remove_selected(&mut self, now_ms: u64) -> (r: Step)
        ensures
            final(self)@ == after(old(self)@, Action::RemoveSelected, now_ms),
            step_for(old(self)@, Action::RemoveSelected, now_ms, r),
    {
        proof {
            reveal(after);
            reveal(step_for);
        }
        if let Some(i) = self.selected {
            if i < self.playback.queue.len() {
                let title: String = self.playback.queue[i].title.clone();
                return Step { effect: Effect::Remove(i, title), load: false, save: false };
            }
            self.set_status("Nothing to remove.".to_owned(), now_ms);
        }
        nothing_more()
    }

    fn type_char(&mut self, c: char, now_ms: u64) -> (r: Step)
        ensures
            final(self)@ == after(old(self)@, Action::Type(c), now_ms),
            step_for(old(self)@, Action::Type(c), now_ms, r),
    {
        proof {
            reveal(after);
            reveal(step_for);
        }
        self.search_query.push(c);
        self.selected = Some(0);
        self.run_search(now_ms)
    }

    fn erase_char(&mut self, now_ms: u64) -> (r: Step)
        ensures
            final(self)@ == after(old(self)@, Action::Erase, now_ms),
            step_for(old(self)@, Action::Erase, now_ms, r),
    {
        proof {
            reveal(after);
            reveal(step_for);
        }
        let ghost q = self.search_query@;
        let all: Vec<char> = chars(self.search_query.as_str());
        let n: usize = all.len();
        if n > 0 {
            self.search_query = from_chars(
                vstd::slice::slice_subrange(all.as_slice(), 0, n - 1),
            );
            proof {
                assert(self.search_query@ =~= q.drop_last());
            }
        }
        self.selected = Some(0);
        self.run_search(now_ms)
    }

    fn clear_query(&mut self, now_ms: u64) -> (r: Step)
        ensures
            final(self)@ == after(old(self)@, Action::ClearQuery, now_ms),
            step_for(old(self)@, Action::ClearQuery, now_ms, r),
    {
        proof {
            reveal(after);
            reveal(step_for);
        }
        self.search_query = String::new();
        proof {
            assert(self.search_query@ =~= Seq::empty());
        }
        self.run_search(now_ms)
    }

    fn on_ignore(&mut self, now_ms: u64) -> (r: Step)
        ensures
            final(self)@ == after(old(self)@, Action::Ignore, now_ms),
            step_for(old(self)@, Action::Ignore, now_ms, r),
    {
        proof {
            reveal(after);
            reveal(step_for);
        }
        nothing_more()
    }

    fn on_quit(&mut self, now_ms: u64) -> (r: Step)
        ensures
            final(self)@ == after(old(self)@, Action::Quit, now_ms),
            step_for(old(self)@, Action::Quit, now_ms, r),
    {
        proof {
            reveal(after);
            reveal(step_for);
        }
        self.should_quit = true;
        nothing_more()
    }

    fn on_open_help(&mut self, now_ms: u64) -> (r: Step)
        ensures
            final(self)@ == after(old(self)@, Action::OpenHelp, now_ms),
            step_for(old(self)@, Action::OpenHelp, now_ms, r),
    {
        proof {
            reveal(after);
            reveal(step_for);
        }
        self.help_open = true;
        nothing_more()
    }

    fn on_close_help(&mut self, now_ms: u64) -> (r: Step)
        ensures
            final(self)@ == after(old(self)@, Action::CloseHelp, now_ms),
            step_for(old(self)@, Action::CloseHelp, now_ms, r),
    {
        proof {
            reveal(after);
            reveal(step_for);
        }
        self.help_open = false;
        nothing_more()
    }

    fn on_unfocus(&mut self, now_ms: u64) -> (r: Step)
        ensures
            final(self)@ == after(old(self)@, Action::Unfocus, now_ms),
            step_for(old(self)@, Action::Unfocus, now_ms, r),
    {
        proof {
            reveal(after);
            reveal(step_for);
        }
        self.search_input_focused = false;
        nothing_more()
    }

    fn on_down(&mut self, n: usize, now_ms: u64) -> (r: Step)
        ensures
            final(self)@ == after(old(self)@, Action::Down(n), now_ms),
            step_for(old(self)@, Action::Down(n), now_ms, r),
    {
        proof {
            reveal(after);
            reveal(step_for);
        }
        self.move_down(n);
        nothing_more()
    }

    fn on_up(&mut self, n: usize, now_ms: u64) -> (r: Step)
        ensures
            final(self)@ == after(old(self)@, Action::Up(n), now_ms),
            step_for(old(self)@, Action::Up(n), now_ms, r),
    {
        proof {
            reveal(after);
            reveal(step_for);
        }
        self.move_up(n);
        nothing_more()
    }

    fn on_focus_search(&mut self, now_ms: u64) -> (r: Step)
        ensures
            final(self)@ == after(old(self)@, Action::FocusSearch, now_ms),
            step_for(old(self)@, Action::FocusSearch, now_ms, r),
    {
        proof {
            reveal(after);
            reveal(step_for);
        }
        self.screen = Screen::Search;
        self.search_input_focused = true;
        nothing_more()
    }

    fn on_back(&mut self, now_ms: u64) -> (r: Step)
        ensures
            final(self)@ == after(old(self)@, Action::Back, now_ms),
            step_for(old(self)@, Action::Back, now_ms, r),
    {
        proof {
            reveal(after);
            reveal(step_for);
        }
        self.close_open();
        nothing_more()
    }

    fn on_prev_band(&mut self, now_ms: u64) -> (r: Step)
        ensures
            final(self)@ == after(old(self)@, Action::PrevBand, now_ms),
            step_for(old(self)@, Action::PrevBand, now_ms, r),
    {
        proof {
            reveal(after);
            reveal(step_for);
        }
        self.move_band(false);
        nothing_more()
    }

    fn on_next_band(&mut self, now_ms: u64) -> (r: Step)
        ensures
            final(self)@ == after(old(self)@, Action::NextBand, now_ms),
            step_for(old(self)@, Action::NextBand, now_ms, r),
    {
        proof {
            reveal(after);
            reveal(step_for);
        }
        self.move_band(true);
        nothing_more()
    }

    fn on_next_screen(&mut self, now_ms: u64) -> (r: Step)
        ensures
            final(self)@ == after(old(self)@, Action::NextScreen, now_ms),
            step_for(old(self)@, Action::NextScreen, now_ms, r),
    {
        proof {
            reveal(after);
            reveal(step_for);
        }
        self.screen = self.screen.next();
        self.selected = Some(0);
        Step { effect: Effect::Nothing, load: true, save: false }
    }

    fn on_prev_screen(&mut self, now_ms: u64) -> (r: Step)
        ensures
            final(self)@ == after(old(self)@, Action::PrevScreen, now_ms),
            step_for(old(self)@, Action::PrevScreen, now_ms, r),
    {
        proof {
            reveal(after);
            reveal(step_for);
        }
        self.screen = self.screen.prev();
        self.selected = Some(0);
        Step { effect: Effect::Nothing, load: true, save: false }
    }

    fn on_show(&mut self, s: Screen, now_ms: u64) -> (r: Step)
        ensures
            final(self)@ == after(old(self)@, Action::Show(s), now_ms),
            step_for(old(self)@, Action::Show(s), now_ms, r),
    {
        proof {
            reveal(after);
            reveal(step_for);
        }
        self.show(s);
        let load: bool = match s {
            Screen::Music => true,
            Screen::Videos => true,
            Screen::Playlists => true,
            Screen::Devices => true,
            _ => false,
        };
        Step { effect: Effect::Nothing, load, save: false }
    }

    fn on_refresh(&mut self, now_ms: u64) -> (r: Step)
        ensures
            final(self)@ == after(old(self)@, Action::Refresh, now_ms),
            step_for(old(self)@, Action::Refresh, now_ms, r),
    {
        proof {
            reveal(after);
            reveal(step_for);
        }
        self.set_status("Refreshed.".to_owned(), now_ms);
        Step { effect: Effect::Nothing, load: true, save: false }
    }

    fn on_toggle_pause(&mut self, now_ms: u64) -> (r: Step)
        ensures
            final(self)@ == after(old(self)@, Action::TogglePause, now_ms),
            step_for(old(self)@, Action::TogglePause, now_ms, r),
    {
        proof {
            reveal(after);
            reveal(step_for);
        }
        if self.playback.status == PlaybackStatus::Playing {
            calling(RendererCall::Pause)
        } else {
            calling(RendererCall::Resume)
        }
    }

    fn on_stop(&mut self, now_ms: u64) -> (r: Step)
        ensures
            final(self)@ == after(old(self)@, Action::Stop, now_ms),
            step_for(old(self)@, Action::Stop, now_ms, r),
    {
        proof {
            reveal(after);
            reveal(step_for);
        }
        calling(RendererCall::Stop)
    }

    fn on_next(&mut self, now_ms: u64) -> (r: Step)
        ensures
            final(self)@ == after(old(self)@, Action::Next, now_ms),
            step_for(old(self)@, Action::Next, now_ms, r),
    {
        proof {
            reveal(after);
            reveal(step_for);
        }
        calling(RendererCall::Next)
    }

    fn on_previous(&mut self, now_ms: u64) -> (r: Step)
        ensures
            final(self)@ == after(old(self)@, Action::Previous, now_ms),
            step_for(old(self)@, Action::Previous, now_ms, r),
    {
        proof {
            reveal(after);
            reveal(step_for);
        }
        calling(RendererCall::Previous)
    }

    fn on_louder(&mut self, now_ms: u64) -> (r: Step)
        ensures
            final(self)@ == after(old(self)@, Action::Louder, now_ms),
            step_for(old(self)@, Action::Louder, now_ms, r),
    {
        proof {
            reveal(after);
            reveal(step_for);
        }
        let v: u32 = self.playback.volume_milli;
        calling(
            RendererCall::SetVolume(
                if v >= 1450 {
                    1500
                } else {
                    v + 50
                },
            ),
        )
    }

    fn on_quieter(&mut self, now_ms: u64) -> (r: Step)
        ensures
            final(self)@ == after(old(self)@, Action::Quieter, now_ms),
            step_for(old(self)@, Action::Quieter, now_ms, r),
    {
        proof {
            reveal(after);
            reveal(step_for);
        }
        let v: u32 = self.playback.volume_milli;
        calling(
            RendererCall::SetVolume(
                if v <= 50 {
                    0
                } else {
                    v - 50
                },
            ),
        )
    }

    fn on_toggle_shuffle(&mut self, now_ms: u64) -> (r: Step)
        ensures
            final(self)@ == after(old(self)@, Action::ToggleShuffle, now_ms),
            step_for(old(self)@, Action::ToggleShuffle, now_ms, r),
    {
        proof {
            reveal(after);
            reveal(step_for);
        }
        let on: bool = self.playback.shuffle;
        let text: String = if on {
            "Shuffle off".to_owned()
        } else {
            "Shuffle on".to_owned()
        };
        self.set_status(text, now_ms);
        calling(RendererCall::SetShuffle(!on))
    }

    fn on_cycle_repeat(&mut self, now_ms: u64) -> (r: Step)
        ensures
            final(self)@ == after(old(self)@, Action::CycleRepeat, now_ms),
            step_for(old(self)@, Action::CycleRepeat, now_ms, r),
    {
        proof {
            reveal(after);
            reveal(step_for);
        }
        let next = self.playback.repeat.next();
        let mut text: String = "Repeat: ".to_owned();
        text.push_str(next.label());
        self.set_status(text, now_ms);
        calling(RendererCall::SetRepeat(next))
    }

    fn on_clear_queue(&mut self, now_ms: u64) -> (r: Step)
        ensures
            final(self)@ == after(old(self)@, Action::ClearQueue, now_ms),
            step_for(old(self)@, Action::ClearQueue, now_ms, r),
    {
        proof {
            reveal(after);
            reveal(step_for);
        }
        self.set_status("Queue cleared.".to_owned(), now_ms);
        calling(RendererCall::Stop)
    }

    fn on_choose(&mut self, now_ms: u64) -> (r: Step)
        ensures
            final(self)@ == after(old(self)@, Action::Choose, now_ms),
            step_for(old(self)@, Action::Choose, now_ms, r),
    {
        proof {
            reveal(after);
            reveal(step_for);
        }
        self.take_selection(now_ms)
    }

    fn on_play(&mut self, mode: PlayMode, now_ms: u64) -> (r: Step)
        ensures
            final(self)@ == after(old(self)@, Action::Play(mode), now_ms),
            step_for(old(self)@, Action::Play(mode), now_ms, r),
    {
        proof {
            reveal(after);
            reveal(step_for);
        }
        let effect: Effect = self.play_selected(mode, now_ms);
        Step { effect, load: false, save: false }
    }

    fn on_cycle_replay_gain(&mut self, now_ms: u64) -> (r: Step)
        ensures
            final(self)@ == after(old(self)@, Action::CycleReplayGain, now_ms),
            step_for(old(self)@, Action::CycleReplayGain, now_ms, r),
    {
        proof {
            reveal(after);
            reveal(step_for);
        }
        let mut s: ReplayGainSettings = self.config.replaygain;
        s.mode = s.mode.next();
        Step { effect: Effect::SetReplayGain(s), load: false, save: false }
    }

    fn on_cycle_crossfade(&mut self, now_ms: u64) -> (r: Step)
        ensures
            final(self)@ == after(old(self)@, Action::CycleCrossfade, now_ms),
            step_for(old(self)@, Action::CycleCrossfade, now_ms, r),
    {
        proof {
            reveal(after);
            reveal(step_for);
        }
        let mut s: CrossfadeSettings = self.config.crossfade;
        s.mode = s.mode.next();
        Step { effect: Effect::SetCrossfade(s), load: false, save: false }
    }

    fn on_cycle_overlap(&mut self, now_ms: u64) -> (r: Step)
        ensures
            final(self)@ == after(old(self)@, Action::CycleOverlap, now_ms),
            step_for(old(self)@, Action::CycleOverlap, now_ms, r),
    {
        proof {
            reveal(after);
            reveal(step_for);
        }
        let s: CrossfadeSettings = self.config.crossfade.next_duration();
        Step { effect: Effect::SetOverlap(s), load: false, save: false }
    }

    fn on_nudge_bass(&mut self, d: i32, now_ms: u64) -> (r: Step)
        ensures
            final(self)@ == after(old(self)@, Action::NudgeBass(d), now_ms),
            step_for(old(self)@, Action::NudgeBass(d), now_ms, r),
    {
        proof {
            reveal(after);
            reveal(step_for);
        }
        self.nudge_tone(d, 0, now_ms)
    }

    fn on_nudge_treble(&mut self, d: i32, now_ms: u64) -> (r: Step)
        ensures
            final(self)@ == after(old(self)@, Action::NudgeTreble(d), now_ms),
            step_for(old(self)@, Action::NudgeTreble(d), now_ms, r),
    {
        proof {
            reveal(after);
            reveal(step_for);
        }
        self.nudge_tone(0, d, now_ms)
    }

    fn on_toggle_eq(&mut self, now_ms: u64) -> (r: Step)
        ensures
            final(self)@ == after(old(self)@, Action::ToggleEq, now_ms),
            step_for(old(self)@, Action::ToggleEq, now_ms, r),
    {
        proof {
            reveal(after);
            reveal(step_for);
        }
        self.config.eq_enabled = !self.config.eq_enabled;
        Step {
            effect: Effect::SetEq(
                self.config.eq_enabled,
                clone_bands(&self.config.eq_band_settings),
            ),
            load: false,
            save: true,
        }
    }

    fn on_nudge_band(&mut self, d: i32, now_ms: u64) -> (r: Step)
        ensures
            final(self)@ == after(old(self)@, Action::NudgeBand(d), now_ms),
            step_for(old(self)@, Action::NudgeBand(d), now_ms, r),
    {
        proof {
            reveal(after);
            reveal(step_for);
        }
        self.nudge_band(d, now_ms)
    }

    /// Does what an action asks for, as far as it lies here, and says what is
    /// to be done outside.
    pub fn act(&mut self, act: Action, now_ms: u64) -> (r: Step)
        ensures
            final(self)@ == after(old(self)@, act, now_ms),
            step_for(old(self)@, act, now_ms, r),
    {
        match act {
            Action::Ignore => self.on_ignore(now_ms),
            Action::Quit => self.on_quit(now_ms),
            Action::OpenHelp => self.on_open_help(now_ms),
            Action::CloseHelp => self.on_close_help(now_ms),
            Action::Unfocus => self.on_unfocus(now_ms),
            Action::Down(n) => self.on_down(n, now_ms),
            Action::Up(n) => self.on_up(n, now_ms),
            Action::FocusSearch => self.on_focus_search(now_ms),
            Action::Back => self.on_back(now_ms),
            Action::PrevBand => self.on_prev_band(now_ms),
            Action::NextBand => self.on_next_band(now_ms),
            Action::NextScreen => self.on_next_screen(now_ms),
            Action::PrevScreen => self.on_prev_screen(now_ms),
            Action::Show(s) => self.on_show(s, now_ms),
            Action::Refresh => self.on_refresh(now_ms),
            Action::Type(c) => self.type_char(c, now_ms),
            Action::Erase => self.erase_char(now_ms),
            Action::ClearQuery => self.clear_query(now_ms),
            Action::TogglePause => self.on_toggle_pause(now_ms),
            Action::Stop => self.on_stop(now_ms),
            Action::Next => self.on_next(now_ms),
            Action::Previous => self.on_previous(now_ms),
            Action::Louder => self.on_louder(now_ms),
            Action::Quieter => self.on_quieter(now_ms),
            Action::ToggleShuffle => self.on_toggle_shuffle(now_ms),
            Action::CycleRepeat => self.on_cycle_repeat(now_ms),
            Action::ClearQueue => self.on_clear_queue(now_ms),
            Action::Choose => self.on_choose(now_ms),
            Action::Play(mode) => self.on_play(mode, now_ms),
            Action::RemoveSelected => self.remove_selected(now_ms),
            Action::UseLocal => self.use_local(now_ms),
            Action::CycleServer => self.cycle_server(now_ms),
            Action::CycleReplayGain => self.on_cycle_replay_gain(now_ms),
            Action::CycleCrossfade => self.on_cycle_crossfade(now_ms),
            Action::CycleOverlap => self.on_cycle_overlap(now_ms),
            Action::NudgeBass(d) => self.on_nudge_bass(d, now_ms),
            Action::NudgeTreble(d) => self.on_nudge_treble(d, now_ms),
            Action::ToggleEq => self.on_toggle_eq(now_ms),
            Action::NudgeBand(d) => self.on_nudge_band(d, now_ms),
        }
    }

    /// Takes a key.
    pub fn handle_key(&mut self, key: Key, mods: Mods, now_ms: u64) -> (r: Step)
        ensures
            ({
                let a = old(self)@;
                let act = key_meaning(a.help_open, a.typing, a.screen, key, mods);
                &&& final(self)@ == after(a, act, now_ms)
                &&& step_for(a, act, now_ms, r)
            }),
    {
        let act: Action = key_action(
            self.help_open,
            self.search_input_focused,
            self.screen,
            key,
            mods,
        );
        self.act(act, now_ms)
    }
}

/// Moving through a list never leaves it: where there are rows, a move down
/// ends on one of them.
pub proof fn lemma_selection_stays(selected: Option<usize>, rows: int, step: int)
    requires
        0 < rows <= usize::MAX,
        step >= 0,
    ensures
        row_down(selected, rows, step) is Some,
        0 <= row_down(selected, rows, step)->0 < rows,
        selected is Some && selected->0 < rows ==> row_up(selected, step)->0 < rows,
{
}

/// Whatever is done on the queue screen, what is in the queue is handed back
/// whole: a jump plays the same items from another one on.
pub proof fn lemma_jump_keeps_queue(a: AppView, r: Step)
    requires
        a.screen == Screen::Queue,
        choose_step(a, r),
        selected_entry(a) is Some,
    ensures
        r.effect is Jump,
        r.effect->Jump_0@ == a.playback.queue,
        r.effect->Jump_1 < a.playback.queue.len(),
{
}

/// The keys of the transport ask the renderer for what they are for, and change
/// nothing here: a renderer that plays is paused, any other goes on.
pub proof fn lemma_transport_steps(a: AppView, now_ms: u64, r: Step)
    ensures
        step_for(a, Action::TogglePause, now_ms, r) && a.playback.status
            == PlaybackStatus::Playing ==> r.effect == Effect::Call(RendererCall::Pause),
        step_for(a, Action::TogglePause, now_ms, r) && a.playback.status
            != PlaybackStatus::Playing ==> r.effect == Effect::Call(RendererCall::Resume),
        step_for(a, Action::Stop, now_ms, r) ==> r.effect == Effect::Call(RendererCall::Stop),
        step_for(a, Action::Next, now_ms, r) ==> r.effect == Effect::Call(RendererCall::Next),
        step_for(a, Action::Previous, now_ms, r) ==> r.effect == Effect::Call(
            RendererCall::Previous,
        ),
        step_for(a, Action::ClearQueue, now_ms, r) ==> r.effect == Effect::Call(
            RendererCall::Stop,
        ),
        after(a, Action::TogglePause, now_ms) == a,
        after(a, Action::Stop, now_ms) == a,
        after(a, Action::Next, now_ms) == a,
        after(a, Action::Previous, now_ms) == a,
{
    reveal(after);
    reveal(step_for);
}

/// A step of the volume is a twentieth of the full one, up or down; it goes no
/// further than silence and half as much again as full. Between these, a step
/// down undoes a step up.
pub proof fn lemma_volume_steps(a: AppView, now_ms: u64, r: Step, v: u32)
    ensures
        step_for(a, Action::Louder, now_ms, r) ==> r.effect == Effect::Call(
            RendererCall::SetVolume(louder(a.playback.volume_milli)),
        ),
        step_for(a, Action::Quieter, now_ms, r) ==> r.effect == Effect::Call(
            RendererCall::SetVolume(quieter(a.playback.volume_milli)),
        ),
        v <= 1450 ==> louder(v) == v + 50,
        v > 1450 ==> louder(v) == 1500,
        v >= 50 ==> quieter(v) == v - 50,
        v < 50 ==> quieter(v) == 0,
        v <= 1450 ==> quieter(louder(v)) == v,
{
    reveal(step_for);
}

/// Shuffle is turned over and repeat goes on to the next mode, and both are
/// said; the renderer is asked for what is said.
pub proof fn lemma_order_steps(a: AppView, now_ms: u64, r: Step)
    ensures
        step_for(a, Action::ToggleShuffle, now_ms, r) ==> r.effect == Effect::Call(
            RendererCall::SetShuffle(!a.playback.shuffle),
        ),
        step_for(a, Action::CycleRepeat, now_ms, r) ==> r.effect == Effect::Call(
            RendererCall::SetRepeat(a.playback.repeat.successor()),
        ),
        after(a, Action::ToggleShuffle, now_ms).status == Some(
            (
                if a.playback.shuffle {
                    "Shuffle off"@
                } else {
                    "Shuffle on"@
                },
                now_ms,
            ),
        ),
        after(a, Action::CycleRepeat, now_ms).status == Some(
            ("Repeat: "@ + a.playback.repeat.successor().name(), now_ms),
        ),
{
    reveal(after);
    reveal(step_for);
}

/// A move goes by so many rows, down or up, and stops at the ends.
pub proof fn lemma_moves(a: AppView, i: usize, n: usize, now_ms: u64)
    requires
        a.selected == Some(i),
        i < a.rows() <= usize::MAX,
    ensures
        i + n < a.rows() ==> after(a, Action::Down(n), now_ms).selected is Some && after(
            a,
            Action::Down(n),
            now_ms,
        ).selected->0 == i + n,
        i + n >= a.rows() ==> after(a, Action::Down(n), now_ms).selected is Some && after(
            a,
            Action::Down(n),
            now_ms,
        ).selected->0 == a.rows() - 1,
        i >= n ==> after(a, Action::Up(n), now_ms).selected is Some && after(
            a,
            Action::Up(n),
            now_ms,
        ).selected->0 == i - n,
        i < n ==> after(a, Action::Up(n), now_ms).selected == Some(0usize),
        after(a, Action::Down(n), now_ms).screen == a.screen,
        after(a, Action::Up(n), now_ms).screen == a.screen,
{
    reveal(after);
}

/// The screen that was asked for is shown, from its first row on, with nothing
/// open on it; one that lists what the server has, or the devices, is loaded.
pub proof fn lemma_screens_shown(a: AppView, s: Screen, now_ms: u64, r: Step)
    ensures
        ({
            let b = after(a, Action::Show(s), now_ms);
            &&& b.screen == s
            &&& b.selected == Some(0usize)
            &&& s == Screen::Music ==> b.open_album is None
            &&& s == Screen::Videos ==> b.open_series is None
            &&& s == Screen::Playlists ==> b.open_playlist is None
            &&& s == Screen::Search ==> b.typing
            &&& b.playback == a.playback
            &&& b.config == a.config
        }),
        step_for(a, Action::Show(s), now_ms, r) ==> (r.load <==> s == Screen::Music || s
            == Screen::Videos || s == Screen::Playlists || s == Screen::Devices),
        step_for(a, Action::NextScreen, now_ms, r) ==> r.load,
        after(a, Action::NextScreen, now_ms).screen == Screen::tabs()[(a.screen.place() + 1) % 7],
        after(after(a, Action::NextScreen, now_ms), Action::PrevScreen, now_ms).screen == a.screen,
        after(a, Action::NextScreen, now_ms).selected == Some(0usize),
        after(a, Action::FocusSearch, now_ms).screen == Screen::Search,
        after(a, Action::FocusSearch, now_ms).typing,
        !after(a, Action::Unfocus, now_ms).typing,
        after(a, Action::Quit, now_ms).quit,
        after(a, Action::OpenHelp, now_ms).help_open,
        !after(a, Action::CloseHelp, now_ms).help_open,
{
    reveal(after);
    reveal(step_for);
    crate::tui::screens::lemma_tabs_circle(a.screen);
}

/// A character that is typed is added to what is searched for, and one that is
/// erased is taken off its end: to erase undoes to type. The server is asked for
/// what stands there then, without the blanks round it, under a number that no
/// search before it has.
pub proof fn lemma_searches(a: AppView, c: char, now_ms: u64, r: Step)
    requires
        a.generation < u64::MAX - 1,
    ensures
        ({
            let b = after(a, Action::Type(c), now_ms);
            let e = after(b, Action::Erase, now_ms);
            let q = crate::text::trimmed(a.query + seq![c]);
            &&& b.query == a.query + seq![c]
            &&& e.query == a.query
            &&& b.generation == a.generation + 1
            &&& e.generation == a.generation + 2
            &&& b.selected == Some(0usize)
            &&& step_for(a, Action::Type(c), now_ms, r) && q.len() > 0 ==> r.effect is Search
                && r.effect->Search_0 == b.generation && r.effect->Search_1@ == q
            &&& step_for(a, Action::Type(c), now_ms, r) && q.len() == 0 ==> r.effect is Nothing
                && b.search_results.len() == 0
        }),
        after(a, Action::ClearQuery, now_ms).query.len() == 0,
        after(a, Action::ClearQuery, now_ms).search_results.len() == 0,
{
    reveal(after);
    reveal(step_for);
    assert(a.query.push(c) =~= a.query + seq![c]);
    assert(a.query.push(c).drop_last() =~= a.query);
    let none = Seq::<char>::empty();
    assert(crate::text::trim_start(none) == none);
    assert(crate::text::trimmed(none) == none);
}

/// What is played, added or put next is the item that is selected, in the way
/// that was asked for. An album, a series or a playlist is opened where it is
/// only to be played the plain way on its own screen; without a selection
/// nothing is played.
pub proof fn lemma_selected_played(a: AppView, mode: PlayMode, i: usize, now_ms: u64, r: Step)
    requires
        step_for(a, Action::Play(mode), now_ms, r),
        a.selected == Some(i),
    ensures
        i >= a.list().len() ==> r.effect is Nothing,
        i < a.list().len() && mode != PlayMode::PlayNow ==> r.effect is Expand
            && r.effect->Expand_0@ == a.list()[i as int] && r.effect->Expand_1 == mode,
        i < a.list().len() && mode == PlayMode::PlayNow && a.list()[i as int].kind().playable()
            && a.screen != Screen::Playlists ==> r.effect is Expand && r.effect->Expand_0@
            == a.list()[i as int],
        i < a.list().len() && mode == PlayMode::PlayNow && a.screen == Screen::Music
            && a.open_album is None && a.list()[i as int].kind() == ItemKind::MusicAlbum
            ==> r.effect is OpenAlbum && r.effect->OpenAlbum_0@ == a.list()[i as int] && after(
            a,
            Action::Play(mode),
            now_ms,
        ).open_album == Some(a.list()[i as int]),
        i < a.list().len() && mode == PlayMode::PlayNow && a.screen == Screen::Videos
            && a.open_series is None && a.list()[i as int].kind() == ItemKind::Series
            ==> r.effect is OpenSeries && r.effect->OpenSeries_0@ == a.list()[i as int],
        i < a.list().len() && mode == PlayMode::PlayNow && a.screen == Screen::Playlists
            && a.open_playlist is None ==> r.effect is OpenPlaylist && r.effect->OpenPlaylist_0@
            == a.list()[i as int],
        !r.load && !r.save,
{
    reveal(after);
    reveal(step_for);
}

/// On the queue an entry is taken out by its place, and one that is chosen is
/// jumped to; on the other screens of devices and servers the one that is
/// selected is used.
pub proof fn lemma_selected_used(a: AppView, i: usize, now_ms: u64, r: Step)
    requires
        a.selected == Some(i),
    ensures
        step_for(a, Action::RemoveSelected, now_ms, r) && i < a.playback.queue.len() ==> r.effect
            is Remove && r.effect->Remove_0 == i && r.effect->Remove_1@
            == a.playback.queue[i as int].title@,
        step_for(a, Action::RemoveSelected, now_ms, r) && i >= a.playback.queue.len() ==> r.effect
            is Nothing,
        step_for(a, Action::Choose, now_ms, r) && a.screen == Screen::Queue && i
            < a.playback.queue.len() ==> r.effect is Jump && r.effect->Jump_0@
            == a.playback.queue && r.effect->Jump_1 == i,
        step_for(a, Action::Choose, now_ms, r) && a.screen == Screen::Devices && i
            < a.devices.len() ==> r.effect == Effect::Connect(a.devices[i as int]),
        step_for(a, Action::Choose, now_ms, r) && a.screen == Screen::Devices && i
            >= a.devices.len() ==> r.effect is Nothing,
{
    reveal(step_for);
}

/// To go back closes what is open on the screen, and shows the list again from
/// its first row; where nothing is open, nothing happens.
pub proof fn lemma_back_closes(a: AppView, now_ms: u64)
    ensures
        ({
            let b = after(a, Action::Back, now_ms);
            &&& a.screen == Screen::Music && a.open_album is Some ==> b.open_album is None
                && b.list() == base_views(a.music_items) && b.selected == Some(0usize)
            &&& a.screen == Screen::Videos && a.open_series is Some ==> b.open_series is None
                && b.list() == base_views(a.video_items) && b.selected == Some(0usize)
            &&& a.screen == Screen::Playlists && a.open_playlist is Some ==> b.open_playlist is None
                && b.list() == base_views(a.playlists) && b.selected == Some(0usize)
            &&& a.screen == Screen::Queue || a.screen == Screen::Search || a.screen
                == Screen::Devices || a.screen == Screen::Settings ==> b == a
            &&& b.screen == a.screen
        }),
{
    reveal(after);
}

/// What each screen lists: on an open album its tracks, on the queue its
/// entries under their titles, and so on.
pub proof fn lemma_lists(a: AppView, i: int)
    ensures
        a.screen == Screen::Search ==> a.list() == base_views(a.search_results),
        a.screen == Screen::Music && a.open_album is Some ==> a.list() == base_views(
            a.album_tracks,
        ),
        a.screen == Screen::Music && a.open_album is None ==> a.list() == base_views(a.music_items),
        a.screen == Screen::Videos && a.open_series is Some ==> a.list() == base_views(
            a.series_children,
        ),
        a.screen == Screen::Videos && a.open_series is None ==> a.list() == base_views(
            a.video_items,
        ),
        a.screen == Screen::Playlists && a.open_playlist is Some ==> a.list() == base_views(
            a.playlist_items,
        ),
        a.screen == Screen::Playlists && a.open_playlist is None ==> a.list() == base_views(
            a.playlists,
        ),
        a.screen == Screen::Queue ==> a.list().len() == a.playback.queue.len(),
        a.screen == Screen::Queue && 0 <= i < a.playback.queue.len() ==> a.list()[i].id
            == a.playback.queue[i].id@ && a.list()[i].name == a.playback.queue[i].title@,
        a.screen == Screen::Devices ==> a.rows() == a.devices.len(),
        a.screen == Screen::Settings ==> a.rows() == a.config.servers.len(),
{
}

/// An entry of the queue is shown by its own id and title, as video or audio,
/// with its line as its artist and its length.
pub proof fn lemma_entry_shown(q: QueueItem)
    ensures
        entry_base(q).id == q.id@,
        entry_base(q).name == q.title@,
        entry_base(q).kind() == (if q.is_video {
            ItemKind::Video
        } else {
            ItemKind::Audio
        }),
        !q.is_video ==> entry_base(q).line() == q.subtitle@,
        q.duration_secs is None ==> entry_base(q).run_time_ticks is None,
        q.duration_secs is Some && q.duration_secs->0 * 10_000_000 <= i64::MAX ==> entry_base(
            q,
        ).run_time_ticks is Some && entry_base(q).run_time_ticks->0 == q.duration_secs->0
            * 10_000_000,
{
    crate::models::lemma_kind_names();
    if !q.is_video {
        crate::models::lemma_track_line(entry_base(q));
    }
    if q.duration_secs is Some && q.duration_secs->0 * 10_000_000 <= i64::MAX {
        crate::models::lemma_secs_to_ticks(q.duration_secs->0 as nat);
    }
    if !q.is_video && q.subtitle@.len() == 0 {
        assert(entry_base(q).performers() =~= q.subtitle@);
    }
}

/// The shelves of the tone are moved by so many decibels and no further than
/// twenty-four, and the renderer is told where they are then; the gain of a band
/// likewise, by tenths. The equalizer is turned over.
pub proof fn lemma_sound_steps(a: AppView, d: i32, now_ms: u64, r: Step)
    ensures
        ({
            let b = after(a, Action::NudgeBass(d), now_ms);
            &&& -24 <= a.config.bass + d <= 24 ==> b.config.bass == a.config.bass + d
            &&& a.config.bass + d > 24 ==> b.config.bass == 24
            &&& a.config.bass + d < -24 ==> b.config.bass == -24
            &&& -24 <= a.config.treble <= 24 ==> b.config.treble == a.config.treble
            &&& step_for(a, Action::NudgeBass(d), now_ms, r) ==> r.effect == Effect::SetTone(
                b.config.bass,
                b.config.treble,
                a.config.bass_cutoff,
                a.config.treble_cutoff,
            ) && r.save
        }),
        ({
            let b = after(a, Action::NudgeTreble(d), now_ms);
            &&& -24 <= a.config.treble + d <= 24 ==> b.config.treble == a.config.treble + d
            &&& a.config.treble + d > 24 ==> b.config.treble == 24
            &&& a.config.treble + d < -24 ==> b.config.treble == -24
            &&& -24 <= a.config.bass <= 24 ==> b.config.bass == a.config.bass
        }),
        ({
            let b = after(a, Action::ToggleEq, now_ms);
            &&& b.config.eq_enabled == !a.config.eq_enabled
            &&& b.config.bands == a.config.bands
            &&& step_for(a, Action::ToggleEq, now_ms, r) ==> r.effect is SetEq && r.effect->SetEq_0
                == !a.config.eq_enabled && r.effect->SetEq_1@ == a.config.bands && r.save
        }),
        a.band < a.config.bands.len() ==> {
            let b = after(a, Action::NudgeBand(d), now_ms);
            let old_band = a.config.bands[a.band as int];
            let new_band = b.config.bands[a.band as int];
            &&& b.config.bands.len() == a.config.bands.len()
            &&& forall|k: int|
                0 <= k < a.config.bands.len() && k != a.band ==> #[trigger] b.config.bands[k]
                    == a.config.bands[k]
            &&& -240 <= old_band.gain + d <= 240 ==> new_band.gain == old_band.gain + d
            &&& old_band.gain + d > 240 ==> new_band.gain == 240
            &&& old_band.gain + d < -240 ==> new_band.gain == -240
            &&& new_band.cutoff == old_band.cutoff
            &&& new_band.q == old_band.q
        },
{
    reveal(after);
    reveal(step_for);
}

/// The modes of loudness and overlap go on to the next, and the renderer is
/// asked for the new one with all else as it was.
pub proof fn lemma_mode_steps(a: AppView, now_ms: u64, r: Step)
    ensures
        step_for(a, Action::CycleReplayGain, now_ms, r) ==> r.effect is SetReplayGain
            && r.effect->SetReplayGain_0.mode == a.config.replaygain.mode.successor()
            && r.effect->SetReplayGain_0.preamp_mdb == a.config.replaygain.preamp_mdb,
        step_for(a, Action::CycleCrossfade, now_ms, r) ==> r.effect is SetCrossfade
            && r.effect->SetCrossfade_0.mode == a.config.crossfade.mode.successor()
            && r.effect->SetCrossfade_0.duration_ms == a.config.crossfade.duration_ms,
        step_for(a, Action::CycleOverlap, now_ms, r) ==> r.effect is SetOverlap
            && r.effect->SetOverlap_0.mode == a.config.crossfade.mode
            && r.effect->SetOverlap_0.duration_ms == crate::config::next_overlap(
            a.config.crossfade.duration_ms as nat,
        ) as u32,
        step_for(a, Action::UseLocal, now_ms, r) ==> r.effect is UseLocal && r.save,
        after(a, Action::UseLocal, now_ms).renderer_kind == RendererKind::Mpv,
        after(a, Action::UseLocal, now_ms).config.renderer == RendererPref::Mpv,
{
    reveal(after);
    reveal(step_for);
}

/// A message that tells of a failure is painted as trouble.
pub proof fn lemma_trouble_painted(text: Seq<char>)
    ensures
        crate::text::contains(text, "failed"@) ==> message_look(text) == StatusLook::Trouble,
        crate::text::contains(text, "error"@) ==> message_look(text) == StatusLook::Trouble,
        !crate::text::contains(text, "failed"@) && !crate::text::contains(text, "error"@)
            ==> message_look(text) == StatusLook::Message,
{
}

} // verus!
