//! What comes back from outside, and what the screens make of it.

use vstd::prelude::*;

use crate::cast::CastDevice;
use crate::config::{
    CrossfadeMode, CrossfadeSettings, RendererPref, ReplayGainSettings, ServerConfig,
};
use crate::devices::{merge, RemoteDevice};
use crate::jellyfin::{JellyfinClient, StreamFormat};
use crate::media::{MediaClient, StreamError};
use crate::models::{BaseItem, BaseView, ItemKind};
use crate::num::push_dec;
use crate::queue::QueueItem;
use crate::renderer::{RendererCall, RendererKind};
use crate::tenths::push_seconds;
use crate::tui::app::{count_text, quoted, App, AppView};
use crate::tui::keys::PlayMode;
use crate::tui::screens::{sort_album_tracks, Screen};
use crate::upnp::UpnpDevice;

verus! {

/// What is asked for to load a screen.
#[derive(Debug, Clone, Copy, PartialEq, Eq, Structural)]
pub enum ScreenLoad {
    /// All albums.
    Albums,
    /// All movies and series.
    Videos,
    Playlists,
    /// The devices on the network.
    Devices,
    /// Nothing: the screen shows what is there already.
    Nothing,
}

/// What a screen lists.
pub open spec fn load_of(screen: Screen) -> ScreenLoad {
    match screen {
        Screen::Music => ScreenLoad::Albums,
        Screen::Videos => ScreenLoad::Videos,
        Screen::Playlists => ScreenLoad::Playlists,
        Screen::Devices => ScreenLoad::Devices,
        _ => ScreenLoad::Nothing,
    }
}

/// What is asked for to load a screen.
pub fn load_screen(screen: Screen) -> (r: ScreenLoad)
    ensures
        r == load_of(screen),
        r == (match screen {
            Screen::Music => ScreenLoad::Albums,
            Screen::Videos => ScreenLoad::Videos,
            Screen::Playlists => ScreenLoad::Playlists,
            Screen::Devices => ScreenLoad::Devices,
            _ => ScreenLoad::Nothing,
        }),
{
    match screen {
        Screen::Music => ScreenLoad::Albums,
        Screen::Videos => ScreenLoad::Videos,
        Screen::Playlists => ScreenLoad::Playlists,
        Screen::Devices => ScreenLoad::Devices,
        _ => ScreenLoad::Nothing,
    }
}

/// The kinds of items that a screen lists.
pub fn screen_kinds(load: ScreenLoad) -> (r: Vec<&'static str>)
    ensures
        crate::text::str_views(r@) == (match load {
            ScreenLoad::Albums => seq!["MusicAlbum"@],
            ScreenLoad::Videos => seq!["Movie"@, "Series"@],
            ScreenLoad::Playlists => seq!["Playlist"@],
            _ => Seq::empty(),
        }),
{
    let mut r: Vec<&'static str> = Vec::new();
    match load {
        ScreenLoad::Albums => {
            r.push("MusicAlbum");
        },
        ScreenLoad::Videos => {
            r.push("Movie");
            r.push("Series");
        },
        ScreenLoad::Playlists => {
            r.push("Playlist");
        },
        _ => {},
    }
    proof {
        assert(crate::text::str_views(r@) =~= (match load {
            ScreenLoad::Albums => seq!["MusicAlbum"@],
            ScreenLoad::Videos => seq!["Movie"@, "Series"@],
            ScreenLoad::Playlists => seq!["Playlist"@],
            _ => Seq::empty(),
        }));
    }
    r
}

/// The kinds that a search on its screen looks for.
pub fn search_kinds() -> (r: Vec<&'static str>)
    ensures
        crate::text::str_views(r@) == seq![
            "Audio"@,
            "MusicAlbum"@,
            "MusicArtist"@,
            "Movie"@,
            "Series"@,
            "Episode"@,
        ],
{
    let r: Vec<&'static str> = vec![
        "Audio",
        "MusicAlbum",
        "MusicArtist",
        "Movie",
        "Series",
        "Episode",
    ];
    proof {
        assert(crate::text::str_views(r@) =~= seq![
            "Audio"@,
            "MusicAlbum"@,
            "MusicArtist"@,
            "Movie"@,
            "Series"@,
            "Episode"@,
        ]);
    }
    r
}

/// How many hits a search on its screen asks for.
pub const SEARCH_LIMIT: u32 = 50;

/// The order in which the parts of something come.
pub const BY_NUMBER: &'static str = "ParentIndexNumber,IndexNumber,SortName";

/// What is to be asked for to find what an item holds.
#[derive(Debug, Clone, Copy, PartialEq, Eq, Structural)]
pub enum Expansion {
    /// The tracks right in it, by number.
    Tracks,
    /// All tracks below it, by album.
    AllTracks,
    /// The entries of a playlist.
    Entries,
    /// All episodes below it, by number.
    Episodes,
    /// Nothing: it is played itself.
    Itself,
}

/// What is played of a kind of item.
pub open spec fn expansion_of(kind: ItemKind) -> Expansion {
    match kind {
        ItemKind::MusicAlbum => Expansion::Tracks,
        ItemKind::MusicArtist => Expansion::AllTracks,
        ItemKind::Playlist => Expansion::Entries,
        ItemKind::Series => Expansion::Episodes,
        _ => Expansion::Itself,
    }
}

/// What is to be asked for to find what is played of a kind of item.
pub fn expand_playable(kind: ItemKind) -> (r: Expansion)
    ensures
        r == expansion_of(kind),
        r == (match kind {
            ItemKind::MusicAlbum => Expansion::Tracks,
            ItemKind::MusicArtist => Expansion::AllTracks,
            ItemKind::Playlist => Expansion::Entries,
            ItemKind::Series => Expansion::Episodes,
            _ => Expansion::Itself,
        }),
{
    match kind {
        ItemKind::MusicAlbum => Expansion::Tracks,
        ItemKind::MusicArtist => Expansion::AllTracks,
        ItemKind::Playlist => Expansion::Entries,
        ItemKind::Series => Expansion::Episodes,
        _ => Expansion::Itself,
    }
}

/// What can be played as it is is never expanded.
pub proof fn lemma_playable_is_itself(kind: ItemKind)
    requires
        kind.playable(),
    ensures
        !(kind == ItemKind::MusicAlbum || kind == ItemKind::MusicArtist || kind
            == ItemKind::Playlist || kind == ItemKind::Series),
{
}

/// How a stream is asked for.
pub open spec fn format_for(hls: bool, kind: RendererKind) -> StreamFormat {
    if hls || kind == RendererKind::Chromecast {
        StreamFormat::Hls
    } else {
        StreamFormat::Direct
    }
}

/// How a stream is asked for: in pieces where that is forced, and for a
/// Chromecast, which plays fewer containers; as it is stored otherwise.
pub fn stream_format(hls: bool, kind: RendererKind) -> (r: StreamFormat)
    ensures
        r == format_for(hls, kind),
        r == (if hls || kind == RendererKind::Chromecast {
            StreamFormat::Hls
        } else {
            StreamFormat::Direct
        }),
{
    if hls || kind == RendererKind::Chromecast {
        StreamFormat::Hls
    } else {
        StreamFormat::Direct
    }
}

/// The tag of an item's picture.
pub open spec fn picture_tag(item: BaseView) -> Option<Seq<char>> {
    match item.image_tags {
        Some(t) => match t.at("Primary"@) {
            Some(v) => v.text(),
            None => None,
        },
        None => None,
    }
}

/// The tag of an item's picture.
pub fn primary_tag(item: &BaseItem) -> (r: Option<&str>)
    ensures
        crate::jellyfin::slice_view(r) == picture_tag(item@),
{
    match &item.image_tags {
        Some(t) => match t.get("Primary") {
            Some(v) => v.as_str(),
            None => None,
        },
        None => None,
    }
}

/// What a renderer is told of an item, given the addresses of its stream and
/// of its picture.
pub fn queue_item(item: &BaseItem, stream_url: String, image_url: Option<String>) -> (r: QueueItem)
    ensures
        r.id@ == item@.id,
        r.title@ == item@.name,
        r.subtitle@ == item@.line(),
        r.stream_url == stream_url,
        r.image_url == image_url,
        r.duration_secs == (match item.run_time_ticks {
            Some(t) => Some(crate::models::ticks_to_secs(t as int) as u64),
            None => None,
        }),
        r.is_video == item@.kind().video(),
        r.content_type@ == crate::jellyfin::url_type(stream_url@),
{
    let content_type: String = JellyfinClient::content_type_for_url(
        stream_url.as_str(),
    ).to_owned();
    QueueItem {
        id: item.id.clone(),
        title: item.name.clone(),
        subtitle: item.subtitle(),
        stream_url,
        image_url,
        duration_secs: item.duration_secs(),
        is_video: item.kind().is_video(),
        content_type,
    }
}

/// Whether this is what a renderer is told of an item.
pub open spec fn queued(
    client: MediaClient,
    item: BaseItem,
    format: StreamFormat,
    q: QueueItem,
) -> bool {
    &&& client.streams_at(item, format, q.stream_url@)
    &&& q.content_type@ == crate::jellyfin::url_type(q.stream_url@)
    &&& q.id@ == item@.id
    &&& q.title@ == item@.name
    &&& q.subtitle@ == item@.line()
    &&& q.is_video == item@.kind().video()
    &&& q.duration_secs == (match item.run_time_ticks {
        Some(t) => Some(crate::models::ticks_to_secs(t as int) as u64),
        None => None,
    })
    &&& match picture_tag(item@) {
        Some(tag) => q.image_url matches Some(url) && client.pictures_at(
            item@.id,
            tag,
            480,
            url@,
        ),
        None => q.image_url is None,
    }
}

/// What a renderer is told of an item.
pub fn base_item_to_queue(client: &MediaClient, item: &BaseItem, format: StreamFormat) -> (r:
    Result<QueueItem, StreamError>)
    ensures
        r is Ok <==> client.has_login(),
        r matches Ok(q) ==> queued(*client, *item, format, q),
{
    match client.stream_url(item, format) {
        Ok(url) => {
            let image_url: Option<String> = match primary_tag(item) {
                Some(tag) => Some(client.image_url(item.id.as_str(), tag, 480)),
                None => None,
            };
            Ok(queue_item(item, url, image_url))
        },
        Err(e) => Err(e),
    }
}

/// What a renderer is told of some items; those without a stream are left out.
pub fn queue_items(client: &MediaClient, items: &Vec<BaseItem>, format: StreamFormat) -> (r: Vec<
    QueueItem,
>)
    ensures
        r@.len() == (if client.has_login() {
            items@.len()
        } else {
            0
        }),
        forall|i: int|
            0 <= i < r@.len() ==> queued(*client, items@[i], format, #[trigger] r@[i]),
{
    let mut r: Vec<QueueItem> = Vec::new();
    let mut i: usize = 0;
    while i < items.len()
        invariant
            i <= items@.len(),
            r@.len() == (if client.has_login() {
                i as int
            } else {
                0
            }),
            forall|j: int|
                0 <= j < r@.len() ==> queued(*client, items@[j], format, #[trigger] r@[j]),
        decreases items@.len() - i,
    {
        if let Ok(q) = base_item_to_queue(client, &items[i], format) {
            r.push(q);
        }
        i += 1;
    }
    r
}

/// What is handed to the renderer, the title of its first item, and how many
/// there are.
#[derive(Debug)]
pub struct Playing {
    pub call: RendererCall,
    pub title: String,
    pub count: usize,
}

/// Whether this is what playing some items asks of the renderer.
pub open spec fn asks(mode: PlayMode, items: Vec<QueueItem>, call: RendererCall) -> bool {
    call == (match mode {
        PlayMode::PlayNow => RendererCall::Play(items, 0),
        PlayMode::PlayContainer => RendererCall::Play(items, 0),
        PlayMode::Enqueue => RendererCall::Enqueue(items),
        PlayMode::PlayNext => RendererCall::PlayNext(items),
    })
}

/// What playing some items asks of the renderer.
pub fn play_call(mode: PlayMode, items: Vec<QueueItem>) -> (r: RendererCall)
    ensures
        asks(mode, items, r),
{
    match mode {
        PlayMode::PlayNow => RendererCall::Play(items, 0),
        PlayMode::PlayContainer => RendererCall::Play(items, 0),
        PlayMode::Enqueue => RendererCall::Enqueue(items),
        PlayMode::PlayNext => RendererCall::PlayNext(items),
    }
}

/// A number of things in words.
pub open spec fn counted(before: Seq<char>, n: nat, after: Seq<char>) -> Seq<char> {
    before + crate::num::dec(n) + after
}

/// The message once items were handed to the renderer.
pub open spec fn played_text(mode: PlayMode, title: Seq<char>, count: nat) -> Seq<char> {
    match mode {
        PlayMode::PlayNow => "▶ Playing “"@ + title + "” ("@ + crate::num::dec(count)
            + " item(s))"@,
        PlayMode::PlayContainer => counted("▶▶ Playing full container ("@, count, " item(s))"@),
        PlayMode::Enqueue => counted("+ Queued "@, count, " item(s)"@),
        PlayMode::PlayNext => counted("↥ Playing next: "@, count, " item(s)"@),
    }
}

/// What went wrong, behind what was tried.
pub open spec fn trouble(what: Seq<char>, why: Seq<char>) -> Seq<char> {
    what + why + ""@
}

/// An optional message of what went wrong.
pub open spec fn failure(e: Option<String>) -> Option<Seq<char>> {
    crate::text::opt_view(e)
}

impl App {
    /// Takes the items of a screen.
    pub fn screen_loaded(&mut self, load: ScreenLoad, items: Vec<BaseItem>, now_ms: u64)
        ensures
            final(self)@ == ({
                let n = items@.len();
                match load {
                    ScreenLoad::Albums => AppView { music_items: items@, ..old(self)@ }.saying(
                        counted("♪ "@, n, " album(s)"@),
                        now_ms,
                    ),
                    ScreenLoad::Videos => AppView { video_items: items@, ..old(self)@ }.saying(
                        counted("▶ "@, n, " item(s)"@),
                        now_ms,
                    ),
                    ScreenLoad::Playlists => AppView { playlists: items@, ..old(self)@ },
                    _ => old(self)@,
                }
            }),
    {
        let n: usize = items.len();
        match load {
            ScreenLoad::Albums => {
                self.music_items = items;
                self.set_status(count_text("♪ ", n, " album(s)"), now_ms);
            },
            ScreenLoad::Videos => {
                self.video_items = items;
                self.set_status(count_text("▶ ", n, " item(s)"), now_ms);
            },
            ScreenLoad::Playlists => {
                self.playlists = items;
            },
            _ => {},
        }
    }

    /// Takes the devices that were found.
    pub fn devices_found(&mut self, casts: Vec<CastDevice>, upnps: Vec<UpnpDevice>, now_ms: u64)
        ensures
            crate::sort::sorts(
                crate::devices::both(casts@, upnps@),
                final(self)@.devices,
            ),
            final(self)@ == (AppView { devices: final(self)@.devices, ..old(self)@ }).saying(
                counted("Found "@, casts@.len() + upnps@.len(), " device(s)."@),
                now_ms,
            ),
    {
        let ghost n = casts@.len() + upnps@.len();
        let all: Vec<RemoteDevice> = merge(casts, upnps);
        let text: String = count_text("Found ", all.len(), " device(s).");
        self.devices = all;
        self.set_status(text, now_ms);
    }

    /// Takes the hits of a search; those of an older search than the last one
    /// are dropped.
    pub fn search_done(
        &mut self,
        generation: u64,
        query: &str,
        hits: Vec<BaseItem>,
        now_ms: u64,
    )
        ensures
            final(self)@ == (if generation != old(self)@.generation {
                old(self)@
            } else {
                AppView { search_results: hits@, ..old(self)@ }.saying(
                    "⌕ "@ + crate::num::dec(hits@.len()) + " match(es) for “"@ + query@ + "”"@,
                    now_ms,
                )
            }),
    {
        if generation == self.search_generation {
            let mut text: String = count_text("⌕ ", hits.len(), " match(es) for “");
            text.push_str(query);
            text.push_str("”");
            self.search_results = hits;
            self.set_status(text, now_ms);
        }
    }

    /// Takes the failure of a search; that of an older search than the last
    /// one is dropped.
    pub fn search_failed(&mut self, generation: u64, why: &str, now_ms: u64)
        ensures
            final(self)@ == (if generation != old(self)@.generation {
                old(self)@
            } else {
                old(self)@.saying("⌕ search failed: "@ + why@ + ""@, now_ms)
            }),
    {
        if generation == self.search_generation {
            self.set_status(quoted("⌕ search failed: ", why, ""), now_ms);
        }
    }

    /// Takes the tracks of an open album, in order.
    pub fn album_opened(&mut self, name: &str, tracks: Vec<BaseItem>, now_ms: u64)
        ensures
            crate::sort::sorts(tracks@, final(self)@.album_tracks),
            final(self)@ == (AppView {
                album_tracks: final(self)@.album_tracks,
                ..old(self)@
            }).saying(
                "◈ "@ + name@ + " — "@ + crate::num::dec(tracks@.len()) + " track(s)"@,
                now_ms,
            ),
    {
        let ghost n = tracks@.len();
        let mut tracks: Vec<BaseItem> = tracks;
        sort_album_tracks(&mut tracks);
        let mut text: String = "◈ ".to_owned();
        text.push_str(name);
        text.push_str(" — ");
        push_dec(&mut text, tracks.len() as u64);
        text.push_str(" track(s)");
        self.album_tracks = tracks;
        self.set_status(text, now_ms);
    }

    /// Takes the episodes of an open series.
    pub fn series_opened(&mut self, name: &str, episodes: Vec<BaseItem>, now_ms: u64)
        ensures
            final(self)@ == (AppView { series_children: episodes@, ..old(self)@ }).saying(
                "▶ "@ + name@ + " — "@ + crate::num::dec(episodes@.len()) + " episode(s)"@,
                now_ms,
            ),
    {
        let mut text: String = "▶ ".to_owned();
        text.push_str(name);
        text.push_str(" — ");
        push_dec(&mut text, episodes.len() as u64);
        text.push_str(" episode(s)");
        self.series_children = episodes;
        self.set_status(text, now_ms);
    }

    /// Takes the entries of an open playlist.
    pub fn playlist_opened(&mut self, entries: Vec<BaseItem>, now_ms: u64)
        ensures
            final(self)@ == (AppView { playlist_items: entries@, ..old(self)@ }).saying(
                counted("Loaded "@, entries@.len(), " items"@),
                now_ms,
            ),
    {
        let text: String = count_text("Loaded ", entries.len(), " items");
        self.playlist_items = entries;
        self.set_status(text, now_ms);
    }

    /// Says that something went wrong.
    pub fn failed(&mut self, what: &str, why: &str, now_ms: u64)
        ensures
            final(self)@ == old(self)@.saying(trouble(what@, why@), now_ms),
    {
        self.set_status(quoted(what, why, ""), now_ms);
    }

    /// Takes what was found to be played of an item.
    pub fn expanded(
        &mut self,
        client: &MediaClient,
        mode: PlayMode,
        items: Vec<BaseItem>,
        format: StreamFormat,
        now_ms: u64,
    ) -> (r: Option<Playing>)
        ensures
            r is Some <==> items@.len() > 0 && client.has_login(),
            match r {
                None => final(self)@ == old(self)@.saying(
                    if items@.len() == 0 {
                        "Nothing playable here."@
                    } else {
                        "No playable stream URLs."@
                    },
                    now_ms,
                ),
                Some(p) => {
                    &&& final(self)@ == old(self)@
                    &&& p.title@ == items@[0]@.name
                    &&& p.count == items@.len()
                    &&& exists|q: Vec<QueueItem>|
                        {
                            &&& #[trigger] asks(mode, q, p.call)
                            &&& q@.len() == items@.len()
                            &&& forall|i: int|
                                0 <= i < q@.len() ==> queued(
                                    *client,
                                    items@[i],
                                    format,
                                    #[trigger] q@[i],
                                )
                        }
                },
            },
    {
        if items.len() == 0 {
            self.set_status("Nothing playable here.".to_owned(), now_ms);
            return None;
        }
        let q: Vec<QueueItem> = queue_items(client, &items, format);
        if q.len() == 0 {
            self.set_status("No playable stream URLs.".to_owned(), now_ms);
            return None;
        }
        let title: String = q[0].title.clone();
        let count: usize = q.len();
        let ghost kept = q;
        let call: RendererCall = play_call(mode, q);
        proof {
            assert(asks(mode, kept, call));
        }
        Some(Playing { call, title, count })
    }

    /// Takes the outcome of playing some items.
    pub fn played(
        &mut self,
        mode: PlayMode,
        title: &str,
        count: usize,
        error: Option<String>,
        now_ms: u64,
    )
        ensures
            final(self)@ == old(self)@.saying(
                match failure(error) {
                    None => played_text(mode, title@, count as nat),
                    Some(e) => trouble("renderer: "@, e),
                },
                now_ms,
            ),
    {
        match error {
            Some(e) => {
                self.failed("renderer: ", e.as_str(), now_ms);
            },
            None => {
                let text: String = match mode {
                    PlayMode::PlayNow => {
                        let mut r: String = "▶ Playing “".to_owned();
                        r.push_str(title);
                        r.push_str("” (");
                        push_dec(&mut r, count as u64);
                        r.push_str(" item(s))");
                        r
                    },
                    PlayMode::PlayContainer => count_text(
                        "▶▶ Playing full container (",
                        count,
                        " item(s))",
                    ),
                    PlayMode::Enqueue => count_text("+ Queued ", count, " item(s)"),
                    PlayMode::PlayNext => count_text("↥ Playing next: ", count, " item(s)"),
                };
                self.set_status(text, now_ms);
            },
        }
    }

    /// Takes the outcome of a jump within the queue.
    pub fn jumped(&mut self, title: &str, error: Option<String>, now_ms: u64)
        ensures
            final(self)@ == old(self)@.saying(
                match failure(error) {
                    None => "▶ Jumped to “"@ + title@ + "”"@,
                    Some(e) => trouble("jump: "@, e),
                },
                now_ms,
            ),
    {
        match error {
            Some(e) => {
                self.failed("jump: ", e.as_str(), now_ms);
            },
            None => {
                self.set_status(quoted("▶ Jumped to “", title, "”"), now_ms);
            },
        }
    }

    /// Takes the outcome of taking an entry out of the queue.
    pub fn removed(&mut self, title: &str, error: Option<String>, now_ms: u64)
        ensures
            final(self)@ == old(self)@.saying(
                match failure(error) {
                    None => "− Removed “"@ + title@ + "”"@,
                    Some(e) => trouble("remove: "@, e),
                },
                now_ms,
            ),
    {
        match error {
            Some(e) => {
                self.failed("remove: ", e.as_str(), now_ms);
            },
            None => {
                self.set_status(quoted("− Removed “", title, "”"), now_ms);
            },
        }
    }

    /// Takes the outcome of a change of the server. Once it is in use, what was
    /// shown of the one before is forgotten, and the result says so.
    pub fn switched(&mut self, server: &ServerConfig, error: Option<String>, now_ms: u64) -> (ok:
        bool)
        ensures
            ok == (error is None),
            final(self)@ == (match failure(error) {
                None => AppView {
                    music_items: Seq::empty(),
                    video_items: Seq::empty(),
                    playlists: Seq::empty(),
                    playlist_items: Seq::empty(),
                    open_playlist: None,
                    search_results: Seq::empty(),
                    ..old(self)@
                }.saying(
                    "◉ Switched to `"@ + server.name@ + "` ("@ + server.url@ + ", as "@
                        + server.user_name@ + ")"@,
                    now_ms,
                ),
                Some(e) => old(self)@.saying(trouble("switch: "@, e), now_ms),
            }),
    {
        match error {
            Some(e) => {
                self.failed("switch: ", e.as_str(), now_ms);
                false
            },
            None => {
                self.music_items = Vec::new();
                self.video_items = Vec::new();
                self.playlists = Vec::new();
                self.playlist_items = Vec::new();
                self.open_playlist = None;
                self.search_results = Vec::new();
                let mut text: String = "◉ Switched to `".to_owned();
                text.push_str(server.name.as_str());
                text.push_str("` (");
                text.push_str(server.url.as_str());
                text.push_str(", as ");
                text.push_str(server.user_name.as_str());
                text.push_str(")");
                self.set_status(text, now_ms);
                proof {
                    assert(self@.music_items =~= Seq::empty());
                    assert(self@.video_items =~= Seq::empty());
                    assert(self@.playlists =~= Seq::empty());
                    assert(self@.playlist_items =~= Seq::empty());
                    assert(self@.search_results =~= Seq::empty());
                }
                true
            },
        }
    }

    /// Takes over a device that is connected.
    pub fn connected(&mut self, device: &RemoteDevice, now_ms: u64)
        ensures
            ({
                let name = device.shown_as();
                let a = old(self)@;
                let kind = match *device {
                    RemoteDevice::Cast(_) => RendererKind::Chromecast,
                    RemoteDevice::Upnp(_) => RendererKind::Upnp,
                };
                final(self)@ == (AppView {
                    renderer_kind: kind,
                    renderer_label: name,
                    config: match *device {
                        RemoteDevice::Cast(_) => crate::config::ConfigView {
                            renderer: RendererPref::Chromecast,
                            last_chromecast: Some(name),
                            ..a.config
                        },
                        RemoteDevice::Upnp(_) => crate::config::ConfigView {
                            renderer: RendererPref::Upnp,
                            last_upnp: Some(name),
                            ..a.config
                        },
                    },
                    ..a
                }).saying("Streaming to "@ + name + "."@, now_ms)
            }),
    {
        let name: String = device.display_name();
        match device {
            RemoteDevice::Cast(_) => {
                self.renderer_kind = RendererKind::Chromecast;
                self.config.renderer = RendererPref::Chromecast;
                self.config.last_chromecast = Some(name.clone());
            },
            RemoteDevice::Upnp(_) => {
                self.renderer_kind = RendererKind::Upnp;
                self.config.renderer = RendererPref::Upnp;
                self.config.last_upnp = Some(name.clone());
            },
        }
        let text: String = quoted("Streaming to ", name.as_str(), ".");
        self.renderer_label = name;
        self.set_status(text, now_ms);
    }

    /// Takes the outcome of a change of the loudness settings; it is written
    /// down where the renderer took it, which the result says.
    pub fn replaygain_set(
        &mut self,
        settings: ReplayGainSettings,
        error: Option<String>,
        now_ms: u64,
    ) -> (save: bool)
        ensures
            save == (error is None),
            final(self)@ == (match failure(error) {
                None => AppView {
                    config: crate::config::ConfigView {
                        replaygain: settings,
                        ..old(self)@.config
                    },
                    ..old(self)@
                }.saying("ReplayGain: "@ + settings.mode.name() + ""@, now_ms),
                Some(e) => old(self)@.saying(trouble("replaygain: "@, e), now_ms),
            }),
    {
        match error {
            Some(e) => {
                self.failed("replaygain: ", e.as_str(), now_ms);
                false
            },
            None => {
                self.config.replaygain = settings;
                self.set_status(quoted("ReplayGain: ", settings.mode.label(), ""), now_ms);
                true
            },
        }
    }

    /// Takes the outcome of a change of the overlap's mode.
    pub fn crossfade_set(
        &mut self,
        settings: CrossfadeSettings,
        error: Option<String>,
        now_ms: u64,
    ) -> (save: bool)
        ensures
            save == (error is None),
            final(self)@ == (match failure(error) {
                None => AppView {
                    config: crate::config::ConfigView {
                        crossfade: settings,
                        ..old(self)@.config
                    },
                    ..old(self)@
                }.saying(
                    if settings.mode == CrossfadeMode::Off {
                        "Crossfade: off"@
                    } else {
                        "Crossfade: "@ + settings.mode.name() + " ("@ + crate::tenths::seconds(
                            settings.duration_ms as int,
                        ) + "s)"@
                    },
                    now_ms,
                ),
                Some(e) => old(self)@.saying(trouble("crossfade: "@, e), now_ms),
            }),
    {
        match error {
            Some(e) => {
                self.failed("crossfade: ", e.as_str(), now_ms);
                false
            },
            None => {
                self.config.crossfade = settings;
                let text: String = if settings.mode == CrossfadeMode::Off {
                    "Crossfade: off".to_owned()
                } else {
                    let mut r: String = "Crossfade: ".to_owned();
                    r.push_str(settings.mode.label());
                    r.push_str(" (");
                    push_seconds(&mut r, settings.duration_ms);
                    r.push_str("s)");
                    r
                };
                self.set_status(text, now_ms);
                true
            },
        }
    }

    /// Takes the outcome of a change of the overlap's length.
    pub fn overlap_set(
        &mut self,
        settings: CrossfadeSettings,
        error: Option<String>,
        now_ms: u64,
    ) -> (save: bool)
        ensures
            save == (error is None),
            final(self)@ == (match failure(error) {
                None => AppView {
                    config: crate::config::ConfigView {
                        crossfade: settings,
                        ..old(self)@.config
                    },
                    ..old(self)@
                }.saying(
                    "Crossfade duration: "@ + crate::tenths::seconds(settings.duration_ms as int) + "s"@,
                    now_ms,
                ),
                Some(e) => old(self)@.saying(trouble("crossfade: "@, e), now_ms),
            }),
    {
        match error {
            Some(e) => {
                self.failed("crossfade: ", e.as_str(), now_ms);
                false
            },
            None => {
                self.config.crossfade = settings;
                let mut text: String = "Crossfade duration: ".to_owned();
                push_seconds(&mut text, settings.duration_ms);
                text.push_str("s");
                self.set_status(text, now_ms);
                true
            },
        }
    }

    /// Takes the outcome of turning the equalizer on or off.
    pub fn eq_set(&mut self, error: Option<String>, now_ms: u64)
        ensures
            final(self)@ == old(self)@.saying(
                match failure(error) {
                    None => if old(self)@.config.eq_enabled {
                        "EQ: on"@
                    } else {
                        "EQ: off"@
                    },
                    Some(e) => trouble("eq: "@, e),
                },
                now_ms,
            ),
    {
        match error {
            Some(e) => {
                self.failed("eq: ", e.as_str(), now_ms);
            },
            None => {
                let text: String = if self.config.eq_enabled {
                    "EQ: on".to_owned()
                } else {
                    "EQ: off".to_owned()
                };
                self.set_status(text, now_ms);
            },
        }
    }
}

/// Each search has a number of its own: what was asked before the last key is
/// told from what was asked after it, and dropped.
pub proof fn lemma_stale_search_told(a: AppView, now_ms: u64)
    ensures
        crate::tui::app::searching(a, now_ms).generation != a.generation,
{
}

/// What is played now replaces the queue and starts with its first item; what is
/// queued comes last, and what is to come next comes next: the same items each
/// time.
pub proof fn lemma_modes_ask(items: Vec<QueueItem>, call: RendererCall)
    ensures
        asks(PlayMode::PlayNow, items, call) <==> call == RendererCall::Play(items, 0),
        asks(PlayMode::PlayContainer, items, call) <==> call == RendererCall::Play(items, 0),
        asks(PlayMode::Enqueue, items, call) <==> call == RendererCall::Enqueue(items),
        asks(PlayMode::PlayNext, items, call) <==> call == RendererCall::PlayNext(items),
{
}

/// A renderer is told of an item what the item is: its id, its name, whether it
/// is a video, and its length in whole seconds.
pub proof fn lemma_queued(client: MediaClient, item: BaseItem, format: StreamFormat, q: QueueItem)
    requires
        queued(client, item, format, q),
    ensures
        q.id@ == item.id@,
        q.title@ == item.name@,
        q.subtitle@ == item@.line(),
        q.is_video <==> item@.kind().video(),
        item.run_time_ticks is None ==> q.duration_secs is None,
        item.run_time_ticks is Some && item.run_time_ticks->0 >= 0 ==> q.duration_secs is Some
            && q.duration_secs->0 == item.run_time_ticks->0 as int / 10_000_000,
        client.streams_at(item, format, q.stream_url@),
        q.content_type@ == crate::jellyfin::url_type(q.stream_url@),
        picture_tag(item@) is None ==> q.image_url is None,
        picture_tag(item@) is Some ==> q.image_url is Some && client.pictures_at(
            item.id@,
            picture_tag(item@)->0,
            480,
            q.image_url->0@,
        ),
{
}

/// The picture of an item is the one that its server calls the primary one.
pub proof fn lemma_picture_tag(item: BaseView, tag: Seq<char>)
    ensures
        item.image_tags is None ==> picture_tag(item) is None,
        item.image_tags is Some && item.image_tags->0.at("Primary"@) == Some(
            crate::json::Tree::Text(tag),
        ) ==> picture_tag(item) == Some(tag),
        item.image_tags is Some && item.image_tags->0.at("Primary"@) is None ==> picture_tag(item)
            is None,
{
}

/// What is said of items that were handed over: how many they are, and what was
/// done with them.
pub proof fn lemma_played_text(title: Seq<char>, count: nat)
    ensures
        played_text(PlayMode::PlayNow, title, count) == "▶ Playing “"@ + title + "” ("@
            + crate::num::dec(count) + " item(s))"@,
        played_text(PlayMode::PlayContainer, title, count) == "▶▶ Playing full container ("@
            + crate::num::dec(count) + " item(s))"@,
        played_text(PlayMode::Enqueue, title, count) == "+ Queued "@ + crate::num::dec(count)
            + " item(s)"@,
        played_text(PlayMode::PlayNext, title, count) == "↥ Playing next: "@ + crate::num::dec(
            count,
        ) + " item(s)"@,
{
}

/// Each screen loads what it lists, and the others load nothing; an album is
/// played by its tracks, an artist by all of theirs, a playlist by its entries,
/// a series by its episodes, and what can be played by itself. A Chromecast gets
/// its streams in pieces, and any other renderer as they are, unless pieces are
/// forced.
pub proof fn lemma_what_is_asked(screen: Screen, kind: ItemKind, hls: bool, renderer: RendererKind)
    ensures
        load_of(Screen::Music) == ScreenLoad::Albums,
        load_of(Screen::Videos) == ScreenLoad::Videos,
        load_of(Screen::Playlists) == ScreenLoad::Playlists,
        load_of(Screen::Devices) == ScreenLoad::Devices,
        screen == Screen::Queue || screen == Screen::Search || screen == Screen::Settings
            ==> load_of(screen) == ScreenLoad::Nothing,
        expansion_of(ItemKind::MusicAlbum) == Expansion::Tracks,
        expansion_of(ItemKind::MusicArtist) == Expansion::AllTracks,
        expansion_of(ItemKind::Playlist) == Expansion::Entries,
        expansion_of(ItemKind::Series) == Expansion::Episodes,
        kind.playable() ==> expansion_of(kind) == Expansion::Itself,
        format_for(true, renderer) == StreamFormat::Hls,
        format_for(hls, RendererKind::Chromecast) == StreamFormat::Hls,
        renderer != RendererKind::Chromecast ==> format_for(false, renderer)
            == StreamFormat::Direct,
{
}

} // verus!
