//! The items of a media library.

use vstd::prelude::*;

use crate::json::{Json, Tree};
use crate::num::push_int;
use crate::queue::clone_opt;
use crate::text::{is_blank, join_strings, opt_view, str_eq, string_views};

verus! {

/// The answer to a login.
#[derive(Debug)]
pub struct AuthResult {
    pub access_token: String,
    pub server_id: String,
    pub user: AuthUser,
}

/// The user that a login is for.
#[derive(Debug)]
pub struct AuthUser {
    pub id: String,
    pub name: String,
}

/// The kind of an item.
#[derive(Debug, Clone, Copy, PartialEq, Eq, Hash, Structural)]
pub enum ItemKind {
    Audio,
    MusicAlbum,
    MusicArtist,
    Playlist,
    Movie,
    Series,
    Season,
    Episode,
    Video,
    Folder,
    Other,
}

impl ItemKind {
    /// The kind with a name.
    pub open spec fn named(s: Seq<char>) -> ItemKind {
        if s == "Audio"@ {
            ItemKind::Audio
        } else if s == "MusicAlbum"@ {
            ItemKind::MusicAlbum
        } else if s == "MusicArtist"@ {
            ItemKind::MusicArtist
        } else if s == "Playlist"@ {
            ItemKind::Playlist
        } else if s == "Movie"@ {
            ItemKind::Movie
        } else if s == "Series"@ {
            ItemKind::Series
        } else if s == "Season"@ {
            ItemKind::Season
        } else if s == "Episode"@ {
            ItemKind::Episode
        } else if s == "Video"@ {
            ItemKind::Video
        } else if s == "Folder"@ || s == "CollectionFolder"@ {
            ItemKind::Folder
        } else {
            ItemKind::Other
        }
    }

    /// Music of any size.
    pub open spec fn audio(self) -> bool {
        self == ItemKind::Audio || self == ItemKind::MusicAlbum || self == ItemKind::MusicArtist
    }

    /// Moving pictures of any size.
    pub open spec fn video(self) -> bool {
        self == ItemKind::Movie || self == ItemKind::Series || self == ItemKind::Season || self
            == ItemKind::Episode || self == ItemKind::Video
    }

    /// A single piece that can be played as it is.
    pub open spec fn playable(self) -> bool {
        self == ItemKind::Audio || self == ItemKind::Movie || self == ItemKind::Episode || self
            == ItemKind::Video
    }

    /// The sign that stands before an item.
    pub open spec fn sign(self) -> Seq<char> {
        match self {
            ItemKind::Audio => "♪"@,
            ItemKind::MusicAlbum => "◈"@,
            ItemKind::MusicArtist => "◊"@,
            ItemKind::Playlist => "▤"@,
            ItemKind::Movie => "▶"@,
            ItemKind::Series => "▤"@,
            ItemKind::Season => "◱"@,
            ItemKind::Episode => "▶"@,
            ItemKind::Video => "▶"@,
            ItemKind::Folder => "▸"@,
            ItemKind::Other => "•"@,
        }
    }

    pub fn parse(s: &str) -> (r: Self)
        ensures
            r == ItemKind::named(s@),
    {
        if str_eq(s, "Audio") {
            ItemKind::Audio
        } else if str_eq(s, "MusicAlbum") {
            ItemKind::MusicAlbum
        } else if str_eq(s, "MusicArtist") {
            ItemKind::MusicArtist
        } else if str_eq(s, "Playlist") {
            ItemKind::Playlist
        } else if str_eq(s, "Movie") {
            ItemKind::Movie
        } else if str_eq(s, "Series") {
            ItemKind::Series
        } else if str_eq(s, "Season") {
            ItemKind::Season
        } else if str_eq(s, "Episode") {
            ItemKind::Episode
        } else if str_eq(s, "Video") {
            ItemKind::Video
        } else if str_eq(s, "Folder") || str_eq(s, "CollectionFolder") {
            ItemKind::Folder
        } else {
            ItemKind::Other
        }
    }

    pub fn is_audio(&self) -> (r: bool)
        ensures
            r == self.audio(),
    {
        matches!(self, ItemKind::Audio | ItemKind::MusicAlbum | ItemKind::MusicArtist)
    }

    pub fn is_video(&self) -> (r: bool)
        ensures
            r == self.video(),
    {
        matches!(
            self,
            ItemKind::Movie | ItemKind::Series | ItemKind::Season | ItemKind::Episode | ItemKind::Video
        )
    }

    pub fn is_playable(&self) -> (r: bool)
        ensures
            r == self.playable(),
    {
        matches!(self, ItemKind::Audio | ItemKind::Movie | ItemKind::Episode | ItemKind::Video)
    }

    pub fn icon(&self) -> (r: &'static str)
        ensures
            r@ == self.sign(),
    {
        match self {
            ItemKind::Audio => "♪",
            ItemKind::MusicAlbum => "◈",
            ItemKind::MusicArtist => "◊",
            ItemKind::Playlist => "▤",
            ItemKind::Movie => "▶",
            ItemKind::Series => "▤",
            ItemKind::Season => "◱",
            ItemKind::Episode => "▶",
            ItemKind::Video => "▶",
            ItemKind::Folder => "▸",
            ItemKind::Other => "•",
        }
    }
}

/// No kind is both music and video, and every kind that can be played is one
/// of the two.
pub proof fn lemma_kinds_apart(k: ItemKind)
    ensures
        !(k.audio() && k.video()),
        k.playable() ==> k.audio() || k.video(),
{
}

/// An item of a library, as a server describes it.
#[derive(Debug)]
pub struct BaseItem {
    pub id: String,
    pub name: String,
    pub type_: String,
    pub album: Option<String>,
    pub album_id: Option<String>,
    pub album_artist: Option<String>,
    pub artists: Option<Vec<String>>,
    pub series_name: Option<String>,
    pub production_year: Option<i32>,
    /// The length, in units of 100 nanoseconds.
    pub run_time_ticks: Option<i64>,
    pub media_type: Option<String>,
    /// The container of the source, such as `mp3`, `flac` or `mkv`.
    pub container: Option<String>,
    pub index_number: Option<i32>,
    pub parent_index_number: Option<i32>,
    pub image_tags: Option<Json>,
    pub is_folder: Option<bool>,
    pub overview: Option<String>,
}

/// An item by what it holds.
pub ghost struct BaseView {
    pub id: Seq<char>,
    pub name: Seq<char>,
    pub type_: Seq<char>,
    pub album: Option<Seq<char>>,
    pub album_id: Option<Seq<char>>,
    pub album_artist: Option<Seq<char>>,
    pub artists: Option<Seq<Seq<char>>>,
    pub series_name: Option<Seq<char>>,
    pub production_year: Option<i32>,
    pub run_time_ticks: Option<i64>,
    pub media_type: Option<Seq<char>>,
    pub container: Option<Seq<char>>,
    pub index_number: Option<i32>,
    pub parent_index_number: Option<i32>,
    pub image_tags: Option<Tree>,
    pub is_folder: Option<bool>,
    pub overview: Option<Seq<char>>,
}

/// What an optional list of strings holds.
pub open spec fn opt_strings(o: Option<Vec<String>>) -> Option<Seq<Seq<char>>> {
    match o {
        Some(v) => Some(string_views(v@)),
        None => None,
    }
}

/// What an optional JSON value holds.
pub open spec fn opt_json(o: Option<Json>) -> Option<Tree> {
    match o {
        Some(j) => Some(j@),
        None => None,
    }
}

impl View for BaseItem {
    type V = BaseView;

    open spec fn view(&self) -> BaseView {
        BaseView {
            id: self.id@,
            name: self.name@,
            type_: self.type_@,
            album: opt_view(self.album),
            album_id: opt_view(self.album_id),
            album_artist: opt_view(self.album_artist),
            artists: opt_strings(self.artists),
            series_name: opt_view(self.series_name),
            production_year: self.production_year,
            run_time_ticks: self.run_time_ticks,
            media_type: opt_view(self.media_type),
            container: opt_view(self.container),
            index_number: self.index_number,
            parent_index_number: self.parent_index_number,
            image_tags: opt_json(self.image_tags),
            is_folder: self.is_folder,
            overview: opt_view(self.overview),
        }
    }
}

/// What a list of items holds.
pub open spec fn base_views(v: Seq<BaseItem>) -> Seq<BaseView> {
    v.map_values(|i: BaseItem| i@)
}

/// Adds an item to a list.
pub fn push_base(out: &mut Vec<BaseItem>, item: BaseItem)
    ensures
        base_views(final(out)@) == base_views(old(out)@).push(item@),
{
    out.push(item);
    proof {
        assert(base_views(out@) =~= base_views(old(out)@).push(item@));
    }
}

fn clone_strings(o: &Option<Vec<String>>) -> (r: Option<Vec<String>>)
    ensures
        opt_strings(r) == opt_strings(*o),
{
    match o {
        None => None,
        Some(v) => {
            let mut out: Vec<String> = Vec::new();
            let mut i: usize = 0;
            while i < v.len()
                invariant
                    i <= v@.len(),
                    out@ == v@.take(i as int),
                decreases v@.len() - i,
            {
                out.push(v[i].clone());
                i += 1;
                proof {
                    assert(out@ =~= v@.take(i as int));
                }
            }
            proof {
                assert(v@.take(i as int) =~= v@);
            }
            Some(out)
        },
    }
}

impl Clone for BaseItem {
    fn clone(&self) -> (r: Self)
        ensures
            r@ == self@,
    {
        BaseItem {
            id: self.id.clone(),
            name: self.name.clone(),
            type_: self.type_.clone(),
            album: clone_opt(&self.album),
            album_id: clone_opt(&self.album_id),
            album_artist: clone_opt(&self.album_artist),
            artists: clone_strings(&self.artists),
            series_name: clone_opt(&self.series_name),
            production_year: self.production_year,
            run_time_ticks: self.run_time_ticks,
            media_type: clone_opt(&self.media_type),
            container: clone_opt(&self.container),
            index_number: self.index_number,
            parent_index_number: self.parent_index_number,
            image_tags: match &self.image_tags {
                Some(j) => Some(j.clone()),
                None => None,
            },
            is_folder: self.is_folder,
            overview: clone_opt(&self.overview),
        }
    }
}

/// The units of a second in which lengths are told.
pub const TICKS_PER_SECOND: i64 = 10_000_000;

/// Whole seconds in a length; a negative length wraps around.
pub open spec fn ticks_to_secs(t: int) -> int {
    if t >= 0 {
        t / 10_000_000
    } else if (-t) / 10_000_000 == 0 {
        0
    } else {
        0x1_0000_0000_0000_0000 - (-t) / 10_000_000
    }
}

/// A length of whole seconds in ticks, in 64 bits with a sign.
pub open spec fn secs_to_ticks(secs: nat) -> int {
    crate::stream::signed(((secs * 10_000_000) % 0x1_0000_0000_0000_0000) as int)
}

/// A length of whole seconds in ticks.
pub fn ticks(secs: u64) -> (r: i64)
    ensures
        r == secs_to_ticks(secs as nat),
{
    proof {
        assert(secs as int * 10_000_000 <= u64::MAX * 10_000_000);
    }
    let low: u64 = ((secs as u128 * 10_000_000) % 0x1_0000_0000_0000_0000) as u64;
    crate::stream::to_signed(low)
}

/// A length survives the way into ticks and back, as long as it fits.
pub proof fn lemma_ticks_round_trip(secs: nat)
    requires
        secs * 10_000_000 <= i64::MAX,
    ensures
        ticks_to_secs(secs_to_ticks(secs)) == secs,
{
}

/// A number with at least two digits; a sign takes the place of one.
pub open spec fn padded2(n: int) -> Seq<char> {
    if 0 <= n < 10 {
        seq!['0'] + crate::num::dec_int(n)
    } else {
        crate::num::dec_int(n)
    }
}

fn push_padded2(out: &mut String, n: i32)
    ensures
        final(out)@ == old(out)@ + padded2(n as int),
{
    if 0 <= n && n < 10 {
        out.push('0');
    }
    push_int(out, n as i64);
    proof {
        assert(out@ =~= old(out)@ + padded2(n as int));
    }
}

/// The text, or none at all.
pub open spec fn or_empty(o: Option<Seq<char>>) -> Seq<char> {
    match o {
        Some(s) => s,
        None => Seq::empty(),
    }
}

/// A year in decimal.
pub open spec fn year_text(y: Option<i32>) -> Seq<char> {
    match y {
        Some(n) => crate::num::dec_int(n as int),
        None => Seq::empty(),
    }
}

impl BaseView {
    pub open spec fn kind(self) -> ItemKind {
        ItemKind::named(self.type_)
    }

    /// The artists of a track: those listed, else the one of the album.
    pub open spec fn performers(self) -> Seq<char> {
        match self.artists {
            Some(a) => if a.len() == 0 {
                or_empty(self.album_artist)
            } else {
                crate::text::joined(a, ", "@)
            },
            None => or_empty(self.album_artist),
        }
    }

    /// The line under an item's name.
    pub open spec fn line(self) -> Seq<char> {
        match self.kind() {
            ItemKind::Audio => {
                let artists = self.performers();
                let album = or_empty(self.album);
                if album.len() == 0 {
                    artists
                } else if artists.len() == 0 {
                    album
                } else {
                    artists + " — "@ + album
                }
            },
            ItemKind::MusicAlbum => match self.album_artist {
                Some(a) => a,
                None => match self.artists {
                    Some(a) => crate::text::joined(a, ", "@),
                    None => Seq::empty(),
                },
            },
            ItemKind::Movie => year_text(self.production_year),
            ItemKind::Series => year_text(self.production_year),
            ItemKind::Episode => match (self.parent_index_number, self.index_number) {
                (Some(s), Some(e)) => "S"@ + padded2(s as int) + "E"@ + padded2(e as int)
                    + " — "@ + or_empty(self.series_name),
                _ => or_empty(self.series_name),
            },
            _ => Seq::empty(),
        }
    }
}

fn text_or_empty(o: &Option<String>) -> (r: String)
    ensures
        r@ == or_empty(opt_view(*o)),
{
    match o {
        Some(s) => s.clone(),
        None => {
            let r: String = String::new();
            proof {
                assert(r@ =~= Seq::empty());
            }
            r
        },
    }
}

fn year_or_empty(y: Option<i32>) -> (r: String)
    ensures
        r@ == year_text(y),
{
    let mut r: String = String::new();
    if let Some(n) = y {
        push_int(&mut r, n as i64);
    }
    proof {
        assert(r@ =~= year_text(y));
    }
    r
}

impl BaseItem {
    pub fn kind(&self) -> (r: ItemKind)
        ensures
            r == self@.kind(),
    {
        ItemKind::parse(self.type_.as_str())
    }

    /// The length in whole seconds.
    pub fn duration_secs(&self) -> (r: Option<u64>)
        ensures
            r == (match self.run_time_ticks {
                Some(t) => Some(ticks_to_secs(t as int) as u64),
                None => None,
            }),
    {
        match self.run_time_ticks {
            Some(t) => if t >= 0 {
                Some((t / TICKS_PER_SECOND) as u64)
            } else {
                let m: u64 = (-(t as i128)) as u64 / 10_000_000;
                if m == 0 {
                    Some(0)
                } else {
                    Some(u64::MAX - m + 1)
                }
            },
            None => None,
        }
    }

    /// The line under an item's name.
    pub fn subtitle(&self) -> (r: String)
        ensures
            r@ == self@.line(),
    {
        proof {
            reveal_strlit("");
        }
        match self.kind() {
            ItemKind::Audio => {
                let artists: String = match &self.artists {
                    Some(a) => if a.len() == 0 {
                        text_or_empty(&self.album_artist)
                    } else {
                        join_strings(a, ", ")
                    },
                    None => text_or_empty(&self.album_artist),
                };
                let album: String = text_or_empty(&self.album);
                if is_blank(album.as_str()) {
                    artists
                } else if is_blank(artists.as_str()) {
                    album
                } else {
                    let mut r: String = artists;
                    r.push_str(" — ");
                    r.push_str(album.as_str());
                    r
                }
            },
            ItemKind::MusicAlbum => match &self.album_artist {
                Some(a) => a.clone(),
                None => match &self.artists {
                    Some(a) => join_strings(a, ", "),
                    None => text_or_empty(&None),
                },
            },
            ItemKind::Movie => year_or_empty(self.production_year),
            ItemKind::Series => year_or_empty(self.production_year),
            ItemKind::Episode => match (self.parent_index_number, self.index_number) {
                (Some(s), Some(e)) => {
                    let mut r: String = "S".to_owned();
                    push_padded2(&mut r, s);
                    r.push_str("E");
                    push_padded2(&mut r, e);
                    r.push_str(" — ");
                    let series: String = text_or_empty(&self.series_name);
                    r.push_str(series.as_str());
                    r
                },
                _ => text_or_empty(&self.series_name),
            },
            _ => text_or_empty(&None),
        }
    }
}

/// The items of an answer.
#[derive(Debug)]
pub struct SearchResult {
    pub items: Vec<BaseItem>,
    pub total_record_count: i64,
}

/// The hits of a quick search.
#[derive(Debug)]
pub struct SearchHintResult {
    pub search_hints: Vec<SearchHint>,
    pub total_record_count: i64,
}

/// A hit of a quick search.
#[derive(Debug)]
pub struct SearchHint {
    pub id: String,
    pub name: String,
    pub type_: String,
    pub album: Option<String>,
    pub album_artist: Option<String>,
    pub artists: Option<Vec<String>>,
    pub production_year: Option<i32>,
    pub run_time_ticks: Option<i64>,
    pub media_type: Option<String>,
    pub series_name: Option<String>,
}

impl SearchHint {
    /// The item that a hit stands for.
    pub open spec fn as_base(self) -> BaseView {
        BaseView {
            id: self.id@,
            name: self.name@,
            type_: self.type_@,
            album: opt_view(self.album),
            album_id: None,
            album_artist: opt_view(self.album_artist),
            artists: opt_strings(self.artists),
            series_name: opt_view(self.series_name),
            production_year: self.production_year,
            run_time_ticks: self.run_time_ticks,
            media_type: opt_view(self.media_type),
            container: None,
            index_number: None,
            parent_index_number: None,
            image_tags: None,
            is_folder: None,
            overview: None,
        }
    }

    pub fn into_base_item(self) -> (r: BaseItem)
        ensures
            r@ == self.as_base(),
    {
        BaseItem {
            id: self.id,
            name: self.name,
            type_: self.type_,
            album: self.album,
            album_id: None,
            album_artist: self.album_artist,
            artists: self.artists,
            series_name: self.series_name,
            production_year: self.production_year,
            run_time_ticks: self.run_time_ticks,
            media_type: self.media_type,
            container: None,
            index_number: None,
            parent_index_number: None,
            image_tags: None,
            is_folder: None,
            overview: None,
        }
    }
}

/// What hits stand for.
pub open spec fn hint_bases(v: Seq<SearchHint>) -> Seq<BaseView> {
    v.map_values(|h: SearchHint| h.as_base())
}

/// One of the parts of a user's library.
#[derive(Debug)]
pub struct UserView {
    pub id: String,
    pub name: String,
    pub collection_type: Option<String>,
}

/// The parts of a user's library.
#[derive(Debug)]
pub struct UserViewsResult {
    pub items: Vec<UserView>,
}

/// A playlist is an item like any other.
pub type Playlist = BaseItem;

/// So is an entry of one.
pub type PlaylistItem = BaseItem;

/// Each kind has the name that servers give it; a name that none has is of some
/// other kind.
pub proof fn lemma_kind_names()
    ensures
        ItemKind::named("Audio"@) == ItemKind::Audio,
        ItemKind::named("MusicAlbum"@) == ItemKind::MusicAlbum,
        ItemKind::named("MusicArtist"@) == ItemKind::MusicArtist,
        ItemKind::named("Playlist"@) == ItemKind::Playlist,
        ItemKind::named("Movie"@) == ItemKind::Movie,
        ItemKind::named("Series"@) == ItemKind::Series,
        ItemKind::named("Season"@) == ItemKind::Season,
        ItemKind::named("Episode"@) == ItemKind::Episode,
        ItemKind::named("Video"@) == ItemKind::Video,
        ItemKind::named("Folder"@) == ItemKind::Folder,
        ItemKind::named("CollectionFolder"@) == ItemKind::Folder,
        ItemKind::named(Seq::empty()) == ItemKind::Other,
{
    reveal_strlit("Audio");
    reveal_strlit("MusicAlbum");
    reveal_strlit("MusicArtist");
    reveal_strlit("Playlist");
    reveal_strlit("Movie");
    reveal_strlit("Series");
    reveal_strlit("Season");
    reveal_strlit("Episode");
    reveal_strlit("Video");
    reveal_strlit("Folder");
    reveal_strlit("CollectionFolder");
    assert("Audio"@.len() == 5 && "Audio"@[0] == 'A');
    assert("Movie"@.len() == 5 && "Movie"@[0] == 'M');
    assert("Video"@.len() == 5 && "Video"@[0] == 'V');
    assert("MusicAlbum"@.len() == 10 && "MusicArtist"@.len() == 11 && "Playlist"@.len() == 8);
    assert("Series"@.len() == 6 && "Series"@[0] == 'S' && "Series"@[2] == 'r');
    assert("Season"@.len() == 6 && "Season"@[0] == 'S' && "Season"@[2] == 'a');
    assert("Folder"@.len() == 6 && "Folder"@[0] == 'F');
    assert("Episode"@.len() == 7 && "CollectionFolder"@.len() == 16);
}

/// What can be played is a track, a film, an episode or a video; an album, an
/// artist, a series, a season, a playlist or a folder is looked into.
pub proof fn lemma_kinds_sorted(k: ItemKind)
    ensures
        k.playable() <==> (k == ItemKind::Audio || k == ItemKind::Movie || k == ItemKind::Episode
            || k == ItemKind::Video),
        k == ItemKind::Audio || k == ItemKind::MusicAlbum || k == ItemKind::MusicArtist
            ==> k.audio() && !k.video(),
        k == ItemKind::Movie || k == ItemKind::Series || k == ItemKind::Season || k
            == ItemKind::Episode || k == ItemKind::Video ==> k.video() && !k.audio(),
        k == ItemKind::Playlist || k == ItemKind::Folder || k == ItemKind::Other ==> !k.audio()
            && !k.video() && !k.playable(),
{
}

/// A length in ticks is so many whole seconds, and no more than that.
pub proof fn lemma_ticks_floor(t: int)
    requires
        t >= 0,
    ensures
        ticks_to_secs(t) * 10_000_000 <= t,
        t < (ticks_to_secs(t) + 1) * 10_000_000,
{
}

/// Whole seconds are ten million ticks each, as long as they fit.
pub proof fn lemma_secs_to_ticks(secs: nat)
    requires
        secs * 10_000_000 <= i64::MAX,
    ensures
        secs_to_ticks(secs) == secs * 10_000_000,
{
}

/// Under a track stand its artists and its album, with a dash between them
/// where there are both; the artist of the album stands in where no other is
/// named.
pub proof fn lemma_track_line(v: BaseView)
    requires
        v.kind() == ItemKind::Audio,
    ensures
        v.artists is Some && v.artists->0.len() == 1 ==> v.performers() == v.artists->0[0],
        v.artists is None || v.artists->0.len() == 0 ==> v.performers() == or_empty(v.album_artist),
        v.album is None || v.album->0.len() == 0 ==> v.line() == v.performers(),
        v.album is Some && v.performers().len() == 0 ==> v.line() == v.album->0,
        v.album is Some && v.album->0.len() > 0 && v.performers().len() > 0 ==> v.line()
            == v.performers() + " — "@ + v.album->0,
{
    if v.artists is Some && v.artists->0.len() == 1 {
        let a = v.artists->0;
        assert(a =~= seq![a[0]]);
        assert(crate::text::joined(a, ", "@) =~= a[0]) by {
            reveal_with_fuel(crate::text::joined, 2);
        }
    }
    if v.album is Some && v.performers().len() == 0 && v.album->0.len() == 0 {
        assert(v.line() =~= v.album->0);
    }
}

/// Under an album stands its artist, under a film or a series its year, and
/// under an episode its season, its number and its series.
pub proof fn lemma_other_lines(v: BaseView)
    ensures
        v.kind() == ItemKind::MusicAlbum && v.album_artist is Some ==> v.line() == v.album_artist->0,
        (v.kind() == ItemKind::Movie || v.kind() == ItemKind::Series) && v.production_year is Some
            ==> v.line() == crate::num::dec_int(v.production_year->0 as int),
        (v.kind() == ItemKind::Movie || v.kind() == ItemKind::Series) && v.production_year is None
            ==> v.line().len() == 0,
        v.kind() == ItemKind::Episode && v.index_number is Some && v.parent_index_number is Some
            ==> v.line() == "S"@ + padded2(v.parent_index_number->0 as int) + "E"@ + padded2(
            v.index_number->0 as int,
        ) + " — "@ + or_empty(v.series_name),
        v.kind() == ItemKind::Episode && v.index_number is None ==> v.line() == or_empty(
            v.series_name,
        ),
        v.kind() == ItemKind::Playlist || v.kind() == ItemKind::Folder ==> v.line().len() == 0,
{
}

/// A season or an episode below ten is written with a zero before it.
pub proof fn lemma_padded2(n: int)
    ensures
        0 <= n < 100 ==> padded2(n) == crate::num::dec2(n as nat),
        n >= 100 ==> padded2(n) == crate::num::dec(n as nat),
{
}

/// A hit of a quick search stands for the item with that id, name and kind, and
/// keeps what is told of it.
pub proof fn lemma_hint_is_item(h: SearchHint)
    ensures
        h.as_base().id == h.id@,
        h.as_base().name == h.name@,
        h.as_base().type_ == h.type_@,
        h.as_base().album == opt_view(h.album),
        h.as_base().album_artist == opt_view(h.album_artist),
        h.as_base().artists == opt_strings(h.artists),
        h.as_base().series_name == opt_view(h.series_name),
        h.as_base().production_year == h.production_year,
        h.as_base().run_time_ticks == h.run_time_ticks,
        h.as_base().media_type == opt_view(h.media_type),
{
}

} // verus!
