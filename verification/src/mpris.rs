//! The player as the desktop sees it: what it is told of the player's state, and
//! what its wishes come to.

use vstd::prelude::*;

use crate::queue::{clone_opt, QueueItem, RepeatMode};
use crate::renderer::{CallView, PlaybackState, PlaybackStatus, RendererCall};
use crate::text::{chars, from_chars, is_blank, str_eq};

verus! {

/// The status as the desktop knows it.
#[derive(Debug, Clone, Copy, PartialEq, Eq, Structural)]
pub enum MprisStatus {
    Playing,
    Paused,
    Stopped,
}

/// What is repeated, as the desktop knows it.
#[derive(Debug, Clone, Copy, PartialEq, Eq, Structural)]
pub enum LoopStatus {
    Nothing,
    Track,
    Playlist,
}

/// The status as the desktop knows it.
pub open spec fn desktop_status(status: PlaybackStatus) -> MprisStatus {
    match status {
        PlaybackStatus::Playing => MprisStatus::Playing,
        PlaybackStatus::Buffering => MprisStatus::Playing,
        PlaybackStatus::Paused => MprisStatus::Paused,
        PlaybackStatus::Idle => MprisStatus::Stopped,
        PlaybackStatus::Stopped => MprisStatus::Stopped,
    }
}

/// The status as the desktop knows it.
pub fn mpris_status(status: PlaybackStatus) -> (r: MprisStatus)
    ensures
        r == desktop_status(status),
{
    match status {
        PlaybackStatus::Playing => MprisStatus::Playing,
        PlaybackStatus::Buffering => MprisStatus::Playing,
        PlaybackStatus::Paused => MprisStatus::Paused,
        PlaybackStatus::Idle => MprisStatus::Stopped,
        PlaybackStatus::Stopped => MprisStatus::Stopped,
    }
}

/// A repeat mode as the desktop knows it.
pub open spec fn loop_of(repeat: RepeatMode) -> LoopStatus {
    match repeat {
        RepeatMode::Off => LoopStatus::Nothing,
        RepeatMode::One => LoopStatus::Track,
        RepeatMode::All => LoopStatus::Playlist,
    }
}

/// The repeat mode that the desktop asks for.
pub open spec fn repeat_of(status: LoopStatus) -> RepeatMode {
    match status {
        LoopStatus::Nothing => RepeatMode::Off,
        LoopStatus::Track => RepeatMode::One,
        LoopStatus::Playlist => RepeatMode::All,
    }
}

/// A repeat mode as the desktop knows it.
pub fn loop_status(repeat: RepeatMode) -> (r: LoopStatus)
    ensures
        r == loop_of(repeat),
{
    match repeat {
        RepeatMode::Off => LoopStatus::Nothing,
        RepeatMode::One => LoopStatus::Track,
        RepeatMode::All => LoopStatus::Playlist,
    }
}

/// The repeat mode that the desktop asks for.
pub fn repeat_mode(status: LoopStatus) -> (r: RepeatMode)
    ensures
        r == repeat_of(status),
{
    match status {
        LoopStatus::Nothing => RepeatMode::Off,
        LoopStatus::Track => RepeatMode::One,
        LoopStatus::Playlist => RepeatMode::All,
    }
}

/// What the desktop sets is what it reads back, and the other way round.
pub proof fn lemma_loop_round_trip(m: RepeatMode, s: LoopStatus)
    ensures
        repeat_of(loop_of(m)) == m,
        loop_of(repeat_of(s)) == s,
{
}

// ---------------------------------------------------------------------------
// Tracks
// ---------------------------------------------------------------------------

/// The id of no track.
pub const NO_TRACK: &'static str = "/org/mpris/MediaPlayer2/TrackList/NoTrack";

/// A letter, a digit or an underscore.
pub open spec fn path_char(c: char) -> bool {
    ('a' <= c && c <= 'z') || ('A' <= c && c <= 'Z') || ('0' <= c && c <= '9') || c == '_'
}

/// A character, or what stands for it in a path.
pub open spec fn safe_char(c: char) -> char {
    if path_char(c) {
        c
    } else {
        '_'
    }
}

/// The last part of a track's id.
pub open spec fn safe_id(id: Seq<char>) -> Seq<char> {
    if id.len() == 0 {
        seq!['_']
    } else {
        id.map_values(|c: char| safe_char(c))
    }
}

/// A track's id on the bus.
pub open spec fn track_path(id: Seq<char>) -> Seq<char> {
    "/rs/tsirysndr/fin/track/"@ + safe_id(id)
}

/// Whether a text is a path on the bus with at least one part: parts that are
/// not empty, each behind a slash.
pub open spec fn object_path(s: Seq<char>) -> bool {
    &&& s.len() >= 2
    &&& s[0] == '/'
    &&& s.last() != '/'
    &&& forall|i: int| 0 <= i < s.len() ==> #[trigger] s[i] == '/' || path_char(s[i])
    &&& forall|i: int| 0 <= i < s.len() - 1 && s[i] == '/' ==> #[trigger] s[i + 1] != '/'
}

/// The id of every track is a path on the bus, whatever the id that the server
/// gave it.
pub proof fn lemma_track_ids_are_paths(id: Seq<char>)
    ensures
        object_path(track_path(id)),
{
    reveal_strlit("/rs/tsirysndr/fin/track/");
    let s = track_path(id);
    let p = "/rs/tsirysndr/fin/track/"@;
    assert(s.last() == safe_id(id).last());
    assert(path_char(safe_id(id).last()));
    assert forall|i: int| 0 <= i < s.len() implies #[trigger] s[i] == '/' || path_char(s[i]) by {
        if i < p.len() {
            assert(s[i] == p[i]);
        } else {
            assert(s[i] == safe_id(id)[i - p.len()]);
        }
    }
    assert forall|i: int| 0 <= i < s.len() - 1 && s[i] == '/' implies #[trigger] s[i + 1] != '/' by {
        if i + 1 < p.len() {
            assert(s[i] == p[i] && s[i + 1] == p[i + 1]);
        } else {
            assert(s[i + 1] == safe_id(id)[i + 1 - p.len()]);
        }
    }
}

/// A track's id on the bus.
pub fn track_id(item: &QueueItem) -> (r: String)
    ensures
        r@ == track_path(item.id@),
{
    let id: Vec<char> = chars(item.id.as_str());
    let mut safe: Vec<char> = Vec::new();
    let mut i: usize = 0;
    while i < id.len()
        invariant
            i <= id@.len(),
            safe@.len() == i,
            forall|j: int| 0 <= j < i ==> #[trigger] safe@[j] == safe_char(id@[j]),
        decreases id@.len() - i,
    {
        let c: char = id[i];
        let ok: bool = ('a' <= c && c <= 'z') || ('A' <= c && c <= 'Z') || ('0' <= c && c <= '9')
            || c == '_';
        safe.push(
            if ok {
                c
            } else {
                '_'
            },
        );
        i += 1;
    }
    if safe.len() == 0 {
        safe.push('_');
    }
    proof {
        assert(safe@ =~= safe_id(item.id@));
    }
    let mut r: String = "/rs/tsirysndr/fin/track/".to_owned();
    let tail: String = from_chars(safe.as_slice());
    r.push_str(tail.as_str());
    r
}

/// What the desktop is told of a track.
#[derive(Debug)]
pub struct Metadata {
    pub track_id: String,
    pub title: Option<String>,
    pub artist: Option<String>,
    /// In microseconds.
    pub length_us: Option<i64>,
    pub art_url: Option<String>,
}

/// What the desktop is told of a track, as a value.
pub ghost struct MetadataView {
    pub track_id: Seq<char>,
    pub title: Option<Seq<char>>,
    pub artist: Option<Seq<char>>,
    pub length_us: Option<i64>,
    pub art_url: Option<Seq<char>>,
}

impl View for Metadata {
    type V = MetadataView;

    open spec fn view(&self) -> MetadataView {
        MetadataView {
            track_id: self.track_id@,
            title: crate::text::opt_view(self.title),
            artist: crate::text::opt_view(self.artist),
            length_us: self.length_us,
            art_url: crate::text::opt_view(self.art_url),
        }
    }
}

/// Microseconds as the bus carries them.
pub open spec fn bus_time(us: int) -> i64 {
    if us > i64::MAX {
        i64::MAX
    } else {
        us as i64
    }
}

/// The length of what plays: as the renderer knows it, else as the server
/// said.
pub open spec fn length_us(duration_us: u64, item: QueueItem) -> int {
    if duration_us > 0 {
        duration_us as int
    } else {
        match item.duration_secs {
            Some(s) => s * 1000000,
            None => 0,
        }
    }
}

/// What the desktop is told of a state's track.
pub open spec fn metadata_of(now_playing: Option<QueueItem>, duration_us: u64) -> MetadataView {
    match now_playing {
        None => MetadataView {
            track_id: NO_TRACK@,
            title: None,
            artist: None,
            length_us: None,
            art_url: None,
        },
        Some(item) => MetadataView {
            track_id: track_path(item.id@),
            title: Some(item.title@),
            artist: if item.subtitle@.len() == 0 {
                None
            } else {
                Some(item.subtitle@)
            },
            length_us: if length_us(duration_us, item) > 0 {
                Some(bus_time(length_us(duration_us, item)))
            } else {
                None
            },
            art_url: crate::text::opt_view(item.image_url),
        },
    }
}

fn to_bus(us: u128) -> (r: i64)
    ensures
        r == bus_time(us as int),
{
    if us > i64::MAX as u128 {
        i64::MAX
    } else {
        us as i64
    }
}

/// What the desktop is told of a state's track.
pub fn metadata(state: &PlaybackState) -> (r: Metadata)
    ensures
        r@ == metadata_of(state.now_playing, state.duration_us),
{
    match &state.now_playing {
        None => Metadata {
            track_id: NO_TRACK.to_owned(),
            title: None,
            artist: None,
            length_us: None,
            art_url: None,
        },
        Some(item) => {
            let us: u128 = if state.duration_us > 0 {
                state.duration_us as u128
            } else {
                match item.duration_secs {
                    Some(s) => (s as u128) * 1000000,
                    None => 0,
                }
            };
            Metadata {
                track_id: track_id(item),
                title: Some(item.title.clone()),
                artist: if is_blank(item.subtitle.as_str()) {
                    None
                } else {
                    Some(item.subtitle.clone())
                },
                length_us: if us > 0 {
                    Some(to_bus(us))
                } else {
                    None
                },
                art_url: clone_opt(&item.image_url),
            }
        },
    }
}

// ---------------------------------------------------------------------------
// Wishes
// ---------------------------------------------------------------------------

/// What the key for play and pause asks for.
pub fn play_pause(status: PlaybackStatus) -> (r: RendererCall)
    ensures
        r is Pause <==> status == PlaybackStatus::Playing || status == PlaybackStatus::Buffering,
        r is Resume <==> !(status == PlaybackStatus::Playing || status
            == PlaybackStatus::Buffering),
        r == (if desktop_status(status) == MprisStatus::Playing {
            RendererCall::Pause
        } else {
            RendererCall::Resume
        }),
{
    match mpris_status(status) {
        MprisStatus::Playing => RendererCall::Pause,
        _ => RendererCall::Resume,
    }
}

/// What a step within the track comes to: past its end, to the next one.
pub open spec fn sought(position_us: u64, duration_us: u64, offset_us: i64) -> CallView {
    let target = position_us + offset_us;
    if duration_us > 0 && target > duration_us {
        CallView::Next
    } else if target < 0 {
        CallView::Seek(0)
    } else if target > u64::MAX {
        CallView::Seek(u64::MAX as int)
    } else {
        CallView::Seek(target)
    }
}

/// What a step within the track asks for.
pub fn seek(state: &PlaybackState, offset_us: i64) -> (r: RendererCall)
    ensures
        r@ == sought(state.position_us, state.duration_us, offset_us),
{
    let target: i128 = state.position_us as i128 + offset_us as i128;
    if state.duration_us > 0 && target > state.duration_us as i128 {
        RendererCall::Next
    } else if target < 0 {
        RendererCall::Seek(0)
    } else if target > u64::MAX as i128 {
        RendererCall::Seek(u64::MAX)
    } else {
        RendererCall::Seek(target as u64)
    }
}

/// What going to a position in a track comes to. A wish for a track that no
/// longer plays came too late, and one outside of the track means nothing.
pub open spec fn placed(
    now_playing: Option<QueueItem>,
    duration_us: u64,
    track: Seq<char>,
    position_us: i64,
) -> Option<CallView> {
    match now_playing {
        Some(item) => if track != track_path(item.id@) || position_us < 0 || (duration_us > 0
            && position_us > duration_us) {
            None
        } else {
            Some(CallView::Seek(position_us as int))
        },
        None => None,
    }
}

/// What going to a position in a track asks for.
pub fn set_position(state: &PlaybackState, track: &str, position_us: i64) -> (r: Option<
    RendererCall,
>)
    ensures
        crate::renderer::call_view(r) == placed(
            state.now_playing,
            state.duration_us,
            track@,
            position_us,
        ),
{
    match &state.now_playing {
        Some(item) => {
            let own: String = track_id(item);
            if !str_eq(track, own.as_str()) || position_us < 0 {
                return None;
            }
            if state.duration_us > 0 && position_us as u64 > state.duration_us {
                return None;
            }
            Some(RendererCall::Seek(position_us as u64))
        },
        None => None,
    }
}

/// What setting the volume asks for, in thousandths.
pub fn set_volume(milli: i64) -> (r: RendererCall)
    ensures
        r == RendererCall::SetVolume(crate::config::clamped(milli as int, 0, 1000) as u32),
{
    RendererCall::SetVolume(
        if milli < 0 {
            0
        } else if milli > 1000 {
            1000
        } else {
            milli as u32
        },
    )
}

/// Where the track is, in microseconds.
pub fn position(state: &PlaybackState) -> (r: i64)
    ensures
        r == bus_time(state.position_us as int),
{
    to_bus(state.position_us as u128)
}

// ---------------------------------------------------------------------------
// Changes
// ---------------------------------------------------------------------------

/// The track of a snapshot: its id, its title, its length in seconds and its
/// picture.
#[derive(Debug)]
pub struct SnapshotTrack {
    pub id: String,
    pub title: String,
    pub duration_secs: u64,
    pub image_url: Option<String>,
}

/// A snapshot's track as a value.
pub ghost struct TrackView {
    pub id: Seq<char>,
    pub title: Seq<char>,
    pub duration_secs: u64,
    pub image_url: Option<Seq<char>>,
}

impl View for SnapshotTrack {
    type V = TrackView;

    open spec fn view(&self) -> TrackView {
        TrackView {
            id: self.id@,
            title: self.title@,
            duration_secs: self.duration_secs,
            image_url: crate::text::opt_view(self.image_url),
        }
    }
}

/// What is compared between two looks at the player.
#[derive(Debug)]
pub struct Snapshot {
    pub status: MprisStatus,
    pub track: Option<SnapshotTrack>,
    pub volume_milli: u32,
    pub shuffle: bool,
    pub repeat: RepeatMode,
    pub can_next: bool,
    pub can_play: bool,
    pub can_pause: bool,
}

/// A snapshot as a value.
pub ghost struct SnapshotView {
    pub status: MprisStatus,
    pub track: Option<TrackView>,
    pub volume_milli: u32,
    pub shuffle: bool,
    pub repeat: RepeatMode,
    pub can_next: bool,
    pub can_play: bool,
    pub can_pause: bool,
}

/// An optional track as a value.
pub open spec fn track_view(o: Option<SnapshotTrack>) -> Option<TrackView> {
    match o {
        Some(t) => Some(t@),
        None => None,
    }
}

impl View for Snapshot {
    type V = SnapshotView;

    open spec fn view(&self) -> SnapshotView {
        SnapshotView {
            status: self.status,
            track: track_view(self.track),
            volume_milli: self.volume_milli,
            shuffle: self.shuffle,
            repeat: self.repeat,
            can_next: self.can_next,
            can_play: self.can_play,
            can_pause: self.can_pause,
        }
    }
}

/// What a state looks like to the desktop.
pub open spec fn snapshot_of(s: PlaybackState) -> SnapshotView {
    SnapshotView {
        status: desktop_status(s.status),
        track: match s.now_playing {
            Some(i) => Some(
                TrackView {
                    id: i.id@,
                    title: i.title@,
                    duration_secs: if s.duration_us > 0 {
                        s.duration_us / 1000000
                    } else {
                        match i.duration_secs {
                            Some(d) => d,
                            None => 0,
                        }
                    },
                    image_url: crate::text::opt_view(i.image_url),
                },
            ),
            None => None,
        },
        volume_milli: s.volume_milli,
        shuffle: s.shuffle,
        repeat: s.repeat,
        can_next: s.queue@.len() > 0,
        can_play: s.now_playing is Some || s.queue@.len() > 0,
        can_pause: s.now_playing is Some,
    }
}

impl Snapshot {
    /// What a state looks like to the desktop.
    pub fn of(s: &PlaybackState) -> (r: Self)
        ensures
            r@ == snapshot_of(*s),
    {
        let track: Option<SnapshotTrack> = match &s.now_playing {
            Some(i) => Some(
                SnapshotTrack {
                    id: i.id.clone(),
                    title: i.title.clone(),
                    duration_secs: if s.duration_us > 0 {
                        s.duration_us / 1000000
                    } else {
                        match i.duration_secs {
                            Some(d) => d,
                            None => 0,
                        }
                    },
                    image_url: clone_opt(&i.image_url),
                },
            ),
            None => None,
        };
        let playing: bool = s.now_playing.is_some();
        Snapshot {
            status: mpris_status(s.status),
            track,
            volume_milli: s.volume_milli,
            shuffle: s.shuffle,
            repeat: s.repeat,
            can_next: s.queue.len() > 0,
            can_play: playing || s.queue.len() > 0,
            can_pause: playing,
        }
    }
}

/// Something of which the desktop is told that it has changed.
#[derive(Debug)]
pub enum Property {
    PlaybackStatus(MprisStatus),
    Metadata(Metadata),
    /// In thousandths.
    Volume(u32),
    Shuffle(bool),
    LoopStatus(LoopStatus),
    CanGoNext(bool),
    CanGoPrevious(bool),
    CanPlay(bool),
    CanPause(bool),
    CanSeek(bool),
}

/// A change as a value.
pub ghost enum PropertyView {
    PlaybackStatus(MprisStatus),
    Metadata(MetadataView),
    Volume(u32),
    Shuffle(bool),
    LoopStatus(LoopStatus),
    CanGoNext(bool),
    CanGoPrevious(bool),
    CanPlay(bool),
    CanPause(bool),
    CanSeek(bool),
}

impl View for Property {
    type V = PropertyView;

    open spec fn view(&self) -> PropertyView {
        match *self {
            Property::PlaybackStatus(s) => PropertyView::PlaybackStatus(s),
            Property::Metadata(m) => PropertyView::Metadata(m@),
            Property::Volume(v) => PropertyView::Volume(v),
            Property::Shuffle(b) => PropertyView::Shuffle(b),
            Property::LoopStatus(l) => PropertyView::LoopStatus(l),
            Property::CanGoNext(b) => PropertyView::CanGoNext(b),
            Property::CanGoPrevious(b) => PropertyView::CanGoPrevious(b),
            Property::CanPlay(b) => PropertyView::CanPlay(b),
            Property::CanPause(b) => PropertyView::CanPause(b),
            Property::CanSeek(b) => PropertyView::CanSeek(b),
        }
    }
}

/// What changes hold.
pub open spec fn property_views(v: Seq<Property>) -> Seq<PropertyView> {
    v.map_values(|p: Property| p@)
}

/// One thing, or nothing.
pub open spec fn only_if(b: bool, p: PropertyView) -> Seq<PropertyView> {
    if b {
        seq![p]
    } else {
        Seq::empty()
    }
}

/// What has changed between two snapshots.
pub open spec fn changes(last: SnapshotView, now: SnapshotView, metadata: MetadataView) -> Seq<
    PropertyView,
> {
    only_if(last.status != now.status, PropertyView::PlaybackStatus(now.status)) + only_if(
        last.track != now.track,
        PropertyView::Metadata(metadata),
    ) + only_if(last.volume_milli != now.volume_milli, PropertyView::Volume(now.volume_milli))
        + only_if(last.shuffle != now.shuffle, PropertyView::Shuffle(now.shuffle)) + only_if(
        last.repeat != now.repeat,
        PropertyView::LoopStatus(loop_of(now.repeat)),
    ) + only_if(last.can_next != now.can_next, PropertyView::CanGoNext(now.can_next)) + only_if(
        last.can_next != now.can_next,
        PropertyView::CanGoPrevious(now.can_next),
    ) + only_if(last.can_play != now.can_play, PropertyView::CanPlay(now.can_play)) + only_if(
        last.can_pause != now.can_pause,
        PropertyView::CanPause(now.can_pause),
    ) + only_if(last.can_pause != now.can_pause, PropertyView::CanSeek(now.can_pause))
}

/// Nothing is told where nothing has changed.
pub proof fn lemma_quiet_without_change(s: SnapshotView, m: MetadataView)
    ensures
        changes(s, s, m) == Seq::<PropertyView>::empty(),
{
}

fn told(out: &mut Vec<Property>, change: bool, p: Property)
    ensures
        property_views(final(out)@) == property_views(old(out)@) + only_if(change, p@),
{
    let ghost before = property_views(out@);
    if change {
        out.push(p);
    }
    proof {
        assert(property_views(out@) =~= before + only_if(change, p@));
    }
}

fn same_text(a: &Option<String>, b: &Option<String>) -> (r: bool)
    ensures
        r == (crate::text::opt_view(*a) == crate::text::opt_view(*b)),
{
    match (a, b) {
        (Some(x), Some(y)) => str_eq(x.as_str(), y.as_str()),
        (None, None) => true,
        _ => false,
    }
}

fn same_track(a: &Option<SnapshotTrack>, b: &Option<SnapshotTrack>) -> (r: bool)
    ensures
        r == (track_view(*a) == track_view(*b)),
{
    match (a, b) {
        (Some(x), Some(y)) => {
            let r: bool = str_eq(x.id.as_str(), y.id.as_str()) && str_eq(
                x.title.as_str(),
                y.title.as_str(),
            ) && x.duration_secs == y.duration_secs && same_text(&x.image_url, &y.image_url);
            proof {
                if r {
                    assert(x@ == y@);
                }
            }
            r
        },
        (None, None) => true,
        _ => false,
    }
}

/// The id of an optional track.
pub open spec fn id_of(t: Option<TrackView>) -> Option<Seq<char>> {
    match t {
        Some(t) => Some(t.id),
        None => None,
    }
}

fn same_id(a: &Option<SnapshotTrack>, b: &Option<SnapshotTrack>) -> (r: bool)
    ensures
        r == (id_of(track_view(*a)) == id_of(track_view(*b))),
{
    match (a, b) {
        (Some(x), Some(y)) => str_eq(x.id.as_str(), y.id.as_str()),
        (None, None) => true,
        _ => false,
    }
}

/// The drift of a position, in microseconds, from which on somebody is taken to
/// have sought.
pub const SEEK_JUMP_US: u64 = 2000000;

/// What the desktop was last told.
#[derive(Debug)]
pub struct Notifier {
    pub last: Snapshot,
    pub last_pos_us: u64,
    pub last_tick_us: u64,
}

/// What is to be told to the desktop.
#[derive(Debug)]
pub struct Notice {
    /// A position that the desktop could not foresee.
    pub seeked_us: Option<i64>,
    pub changed: Vec<Property>,
}

/// Whether a position is one that the desktop could not foresee.
pub open spec fn jumped(
    last: SnapshotView,
    now: SnapshotView,
    last_pos_us: u64,
    elapsed_us: int,
    position_us: u64,
) -> bool {
    let expected = last_pos_us + (if last.status == MprisStatus::Playing {
        elapsed_us
    } else {
        0
    });
    &&& id_of(last.track) == id_of(now.track)
    &&& position_us - expected > SEEK_JUMP_US || expected - position_us > SEEK_JUMP_US
}

/// While a track plays on at its pace, or rests, the desktop is not told of a
/// jump; nor when another track begins, wherever it begins.
pub proof fn lemma_no_jump_while_steady(
    last: SnapshotView,
    now: SnapshotView,
    last_pos_us: u64,
    elapsed_us: int,
    position_us: u64,
)
    requires
        ({
            ||| id_of(last.track) != id_of(now.track)
            ||| last.status == MprisStatus::Playing && position_us == last_pos_us + elapsed_us
            ||| last.status != MprisStatus::Playing && position_us == last_pos_us
        }),
    ensures
        !jumped(last, now, last_pos_us, elapsed_us, position_us),
{
}

/// The time between two moments; none where the clock went back.
pub open spec fn elapsed(from_us: u64, to_us: u64) -> int {
    if to_us < from_us {
        0
    } else {
        to_us - from_us
    }
}

impl Notifier {
    /// Begins with a state, at a moment.
    pub fn new(state: &PlaybackState, now_us: u64) -> (r: Self)
        ensures
            r.last@ == snapshot_of(*state),
            r.last_pos_us == state.position_us,
            r.last_tick_us == now_us,
    {
        Notifier {
            last: Snapshot::of(state),
            last_pos_us: state.position_us,
            last_tick_us: now_us,
        }
    }

    /// Takes another look at the player.
    pub fn tick(&mut self, state: &PlaybackState, now_us: u64) -> (r: Notice)
        ensures
            final(self).last@ == snapshot_of(*state),
            final(self).last_pos_us == state.position_us,
            final(self).last_tick_us == now_us,
            property_views(r.changed@) == changes(
                old(self).last@,
                snapshot_of(*state),
                metadata_of(state.now_playing, state.duration_us),
            ),
            r.seeked_us == (if jumped(
                old(self).last@,
                snapshot_of(*state),
                old(self).last_pos_us,
                elapsed(old(self).last_tick_us, now_us),
                state.position_us,
            ) {
                Some(bus_time(state.position_us as int))
            } else {
                None
            }),
    {
        let snap: Snapshot = Snapshot::of(state);
        let mut out: Vec<Property> = Vec::new();
        proof {
            assert(property_views(out@) =~= Seq::<PropertyView>::empty());
        }
        let last: &Snapshot = &self.last;
        told(&mut out, last.status != snap.status, Property::PlaybackStatus(snap.status));
        told(&mut out, !same_track(&last.track, &snap.track), Property::Metadata(metadata(state)));
        told(
            &mut out,
            last.volume_milli != snap.volume_milli,
            Property::Volume(snap.volume_milli),
        );
        told(&mut out, last.shuffle != snap.shuffle, Property::Shuffle(snap.shuffle));
        told(
            &mut out,
            last.repeat != snap.repeat,
            Property::LoopStatus(loop_status(snap.repeat)),
        );
        told(&mut out, last.can_next != snap.can_next, Property::CanGoNext(snap.can_next));
        told(&mut out, last.can_next != snap.can_next, Property::CanGoPrevious(snap.can_next));
        told(&mut out, last.can_play != snap.can_play, Property::CanPlay(snap.can_play));
        told(&mut out, last.can_pause != snap.can_pause, Property::CanPause(snap.can_pause));
        told(&mut out, last.can_pause != snap.can_pause, Property::CanSeek(snap.can_pause));
        let gone: u128 = if last.status == MprisStatus::Playing && now_us > self.last_tick_us {
            (now_us - self.last_tick_us) as u128
        } else {
            0
        };
        let expected: u128 = self.last_pos_us as u128 + gone;
        let position: u128 = state.position_us as u128;
        let drift: u128 = if position > expected {
            position - expected
        } else {
            expected - position
        };
        let seeked_us: Option<i64> = if same_id(&last.track, &snap.track) && drift
            > SEEK_JUMP_US as u128 {
            Some(to_bus(position))
        } else {
            None
        };
        proof {
            assert(property_views(out@) =~= changes(
                old(self).last@,
                snapshot_of(*state),
                metadata_of(state.now_playing, state.duration_us),
            ));
        }
        self.last = snap;
        self.last_pos_us = state.position_us;
        self.last_tick_us = now_us;
        Notice { seeked_us, changed: out }
    }
}

/// The desktop sees a player as playing where it plays or is about to, as paused
/// where it is paused, and as stopped otherwise.
pub proof fn lemma_status_seen(status: PlaybackStatus)
    ensures
        desktop_status(status) == MprisStatus::Playing <==> status == PlaybackStatus::Playing
            || status == PlaybackStatus::Buffering,
        desktop_status(status) == MprisStatus::Paused <==> status == PlaybackStatus::Paused,
{
}

/// One track that repeats is seen as such, and so is the whole list; no
/// repetition is seen as none.
pub proof fn lemma_loops_seen()
    ensures
        loop_of(RepeatMode::Off) == LoopStatus::Nothing,
        loop_of(RepeatMode::One) == LoopStatus::Track,
        loop_of(RepeatMode::All) == LoopStatus::Playlist,
{
}

/// What is told of a track is its own: its title, its artist where it has one,
/// its picture, and its length as the renderer knows it, else as its server
/// said. Without a track nothing is told of one.
pub proof fn lemma_metadata_told(item: QueueItem, duration_us: u64)
    ensures
        ({
            let m = metadata_of(Some(item), duration_us);
            &&& m.title == Some(item.title@)
            &&& item.subtitle@.len() > 0 ==> m.artist == Some(item.subtitle@)
            &&& item.subtitle@.len() == 0 ==> m.artist is None
            &&& m.art_url == crate::text::opt_view(item.image_url)
            &&& 0 < duration_us <= i64::MAX ==> m.length_us is Some && m.length_us->0
                == duration_us
            &&& duration_us == 0 && item.duration_secs is None ==> m.length_us is None
            &&& duration_us == 0 && item.duration_secs is Some && 0 < item.duration_secs->0
                * 1_000_000 <= i64::MAX ==> m.length_us is Some && m.length_us->0
                == item.duration_secs->0 * 1_000_000
        }),
        metadata_of(None, duration_us).title is None,
        metadata_of(None, duration_us).artist is None,
        metadata_of(None, duration_us).length_us is None,
        metadata_of(None, duration_us).track_id == NO_TRACK@,
{
}

/// An id of letters, digits and underscores is kept in the path of its track, so
/// that two such tracks are told apart; a path is never that of no track.
pub proof fn lemma_track_ids_differ(a: Seq<char>, b: Seq<char>)
    requires
        a.len() > 0,
        b.len() > 0,
        forall|i: int| 0 <= i < a.len() ==> path_char(#[trigger] a[i]),
        forall|i: int| 0 <= i < b.len() ==> path_char(#[trigger] b[i]),
    ensures
        track_path(a) == "/rs/tsirysndr/fin/track/"@ + a,
        track_path(a) == track_path(b) ==> a == b,
        track_path(a) != NO_TRACK@,
{
    let p = "/rs/tsirysndr/fin/track/"@;
    assert(safe_id(a) =~= a);
    assert(safe_id(b) =~= b);
    assert((p + a).skip(p.len() as int) =~= a);
    assert((p + b).skip(p.len() as int) =~= b);
    reveal_strlit("/rs/tsirysndr/fin/track/");
    reveal_strlit("/org/mpris/MediaPlayer2/TrackList/NoTrack");
    assert((p + a)[1] == 'r' && NO_TRACK@[1] == 'o');
}

/// A step within the track goes by just that much, forward or back; before the
/// start it goes to the start, and past the end to the next track.
pub proof fn lemma_step_within(position_us: u64, duration_us: u64, offset_us: i64)
    ensures
        0 <= position_us + offset_us <= duration_us ==> sought(position_us, duration_us, offset_us)
            == CallView::Seek(position_us + offset_us),
        position_us + offset_us < 0 ==> sought(position_us, duration_us, offset_us)
            == CallView::Seek(0),
        duration_us > 0 && position_us + offset_us > duration_us ==> sought(
            position_us,
            duration_us,
            offset_us,
        ) == CallView::Next,
        duration_us == 0 && 0 <= position_us + offset_us <= u64::MAX ==> sought(
            position_us,
            duration_us,
            offset_us,
        ) == CallView::Seek(position_us + offset_us),
{
}

/// A step forward and the same step back, both within the track, lead to where
/// they began.
pub proof fn lemma_steps_undo(position_us: u64, duration_us: u64, offset_us: i64)
    requires
        offset_us > i64::MIN,
        0 <= position_us + offset_us <= duration_us,
        position_us <= duration_us,
    ensures
        sought((position_us + offset_us) as u64, duration_us, (-offset_us) as i64) == CallView::Seek(
            position_us as int,
        ),
{
}

/// A position is gone to where it belongs to the track that plays and lies
/// within it; otherwise nothing happens.
pub proof fn lemma_position_taken(
    item: QueueItem,
    duration_us: u64,
    track: Seq<char>,
    position_us: i64,
)
    ensures
        track == track_path(item.id@) && 0 <= position_us && (duration_us == 0 || position_us
            <= duration_us) ==> placed(Some(item), duration_us, track, position_us) == Some(
            CallView::Seek(position_us as int),
        ),
        track != track_path(item.id@) ==> placed(Some(item), duration_us, track, position_us)
            is None,
        position_us < 0 ==> placed(Some(item), duration_us, track, position_us) is None,
        0 < duration_us < position_us ==> placed(Some(item), duration_us, track, position_us)
            is None,
        placed(None, duration_us, track, position_us) is None,
{
}

/// What a state looks like: its status, volume, shuffle and repeat as they are;
/// there is a next one where there is a queue, and a pause where something
/// plays.
pub proof fn lemma_snapshot_taken(s: PlaybackState)
    ensures
        ({
            let v = snapshot_of(s);
            &&& v.status == desktop_status(s.status)
            &&& v.volume_milli == s.volume_milli
            &&& v.shuffle == s.shuffle
            &&& v.repeat == s.repeat
            &&& v.can_next <==> s.queue@.len() > 0
            &&& v.can_pause <==> s.now_playing is Some
            &&& v.can_play <==> s.now_playing is Some || s.queue@.len() > 0
            &&& v.track is Some <==> s.now_playing is Some
            &&& s.now_playing is Some ==> v.track->0.id == s.now_playing->0.id@ && v.track->0.title
                == s.now_playing->0.title@
        }),
{
}

/// The desktop is told of a thing where it has changed, as it is now, and of
/// nothing else.
pub proof fn lemma_told_what_changed(last: SnapshotView, now: SnapshotView, m: MetadataView)
    ensures
        ({
            let c = changes(last, now, m);
            &&& last.status != now.status <==> c.contains(PropertyView::PlaybackStatus(now.status))
            &&& last.track != now.track <==> c.contains(PropertyView::Metadata(m))
            &&& last.volume_milli != now.volume_milli <==> c.contains(
                PropertyView::Volume(now.volume_milli),
            )
            &&& last.shuffle != now.shuffle <==> c.contains(PropertyView::Shuffle(now.shuffle))
            &&& last.repeat != now.repeat <==> c.contains(
                PropertyView::LoopStatus(loop_of(now.repeat)),
            )
            &&& last.can_next != now.can_next <==> c.contains(PropertyView::CanGoNext(now.can_next))
            &&& last.can_next != now.can_next <==> c.contains(
                PropertyView::CanGoPrevious(now.can_next),
            )
            &&& last.can_play != now.can_play <==> c.contains(PropertyView::CanPlay(now.can_play))
            &&& last.can_pause != now.can_pause <==> c.contains(
                PropertyView::CanPause(now.can_pause),
            )
            &&& last.can_pause != now.can_pause <==> c.contains(
                PropertyView::CanSeek(now.can_pause),
            )
        }),
{
    lemma_told(last, now, m, PropertyView::PlaybackStatus(now.status));
    lemma_told(last, now, m, PropertyView::Metadata(m));
    lemma_told(last, now, m, PropertyView::Volume(now.volume_milli));
    lemma_told(last, now, m, PropertyView::Shuffle(now.shuffle));
    lemma_told(last, now, m, PropertyView::LoopStatus(loop_of(now.repeat)));
    lemma_told(last, now, m, PropertyView::CanGoNext(now.can_next));
    lemma_told(last, now, m, PropertyView::CanGoPrevious(now.can_next));
    lemma_told(last, now, m, PropertyView::CanPlay(now.can_play));
    lemma_told(last, now, m, PropertyView::CanPause(now.can_pause));
    lemma_told(last, now, m, PropertyView::CanSeek(now.can_pause));
}

proof fn lemma_only_if(x: bool, y: PropertyView, p: PropertyView)
    ensures
        only_if(x, y).contains(p) == (x && p == y),
{
    if x {
        assert(only_if(x, y)[0] == y);
    }
}

/// A change is told where one of its reasons holds.
proof fn lemma_told(last: SnapshotView, now: SnapshotView, m: MetadataView, p: PropertyView)
    ensures
        changes(last, now, m).contains(p) == {
            ||| last.status != now.status && p == PropertyView::PlaybackStatus(now.status)
            ||| last.track != now.track && p == PropertyView::Metadata(m)
            ||| last.volume_milli != now.volume_milli && p == PropertyView::Volume(
                now.volume_milli,
            )
            ||| last.shuffle != now.shuffle && p == PropertyView::Shuffle(now.shuffle)
            ||| last.repeat != now.repeat && p == PropertyView::LoopStatus(loop_of(now.repeat))
            ||| last.can_next != now.can_next && p == PropertyView::CanGoNext(now.can_next)
            ||| last.can_next != now.can_next && p == PropertyView::CanGoPrevious(now.can_next)
            ||| last.can_play != now.can_play && p == PropertyView::CanPlay(now.can_play)
            ||| last.can_pause != now.can_pause && p == PropertyView::CanPause(now.can_pause)
            ||| last.can_pause != now.can_pause && p == PropertyView::CanSeek(now.can_pause)
        },
{
    let a = only_if(last.status != now.status, PropertyView::PlaybackStatus(now.status));
    let b = only_if(last.track != now.track, PropertyView::Metadata(m));
    let d = only_if(last.volume_milli != now.volume_milli, PropertyView::Volume(now.volume_milli));
    let e = only_if(last.shuffle != now.shuffle, PropertyView::Shuffle(now.shuffle));
    let f = only_if(last.repeat != now.repeat, PropertyView::LoopStatus(loop_of(now.repeat)));
    let g = only_if(last.can_next != now.can_next, PropertyView::CanGoNext(now.can_next));
    let h = only_if(last.can_next != now.can_next, PropertyView::CanGoPrevious(now.can_next));
    let i = only_if(last.can_play != now.can_play, PropertyView::CanPlay(now.can_play));
    let j = only_if(last.can_pause != now.can_pause, PropertyView::CanPause(now.can_pause));
    let k = only_if(last.can_pause != now.can_pause, PropertyView::CanSeek(now.can_pause));
    lemma_only_if(last.status != now.status, PropertyView::PlaybackStatus(now.status), p);
    lemma_only_if(last.track != now.track, PropertyView::Metadata(m), p);
    lemma_only_if(
        last.volume_milli != now.volume_milli,
        PropertyView::Volume(now.volume_milli),
        p,
    );
    lemma_only_if(last.shuffle != now.shuffle, PropertyView::Shuffle(now.shuffle), p);
    lemma_only_if(last.repeat != now.repeat, PropertyView::LoopStatus(loop_of(now.repeat)), p);
    lemma_only_if(last.can_next != now.can_next, PropertyView::CanGoNext(now.can_next), p);
    lemma_only_if(last.can_next != now.can_next, PropertyView::CanGoPrevious(now.can_next), p);
    lemma_only_if(last.can_play != now.can_play, PropertyView::CanPlay(now.can_play), p);
    lemma_only_if(last.can_pause != now.can_pause, PropertyView::CanPause(now.can_pause), p);
    lemma_only_if(last.can_pause != now.can_pause, PropertyView::CanSeek(now.can_pause), p);
    lemma_in_either(a, b, p);
    lemma_in_either(a + b, d, p);
    lemma_in_either(a + b + d, e, p);
    lemma_in_either(a + b + d + e, f, p);
    lemma_in_either(a + b + d + e + f, g, p);
    lemma_in_either(a + b + d + e + f + g, h, p);
    lemma_in_either(a + b + d + e + f + g + h, i, p);
    lemma_in_either(a + b + d + e + f + g + h + i, j, p);
    lemma_in_either(a + b + d + e + f + g + h + i + j, k, p);
}

proof fn lemma_in_either(a: Seq<PropertyView>, b: Seq<PropertyView>, p: PropertyView)
    ensures
        (a + b).contains(p) == (a.contains(p) || b.contains(p)),
{
    if a.contains(p) {
        let i = choose|i: int| 0 <= i < a.len() && a[i] == p;
        assert((a + b)[i] == p);
    }
    if b.contains(p) {
        let i = choose|i: int| 0 <= i < b.len() && b[i] == p;
        assert((a + b)[a.len() + i] == p);
    }
    if (a + b).contains(p) {
        let i = choose|i: int| 0 <= i < (a + b).len() && (a + b)[i] == p;
        if i < a.len() {
            assert(a[i] == p);
        } else {
            assert(b[i - a.len()] == p);
        }
    }
}

/// A jump of more than two seconds within a track is one that the desktop is
/// told of, forward or back, and a smaller one is not.
pub proof fn lemma_jumps_told(
    last: SnapshotView,
    now: SnapshotView,
    last_pos_us: u64,
    elapsed_us: int,
    position_us: u64,
)
    requires
        id_of(last.track) == id_of(now.track),
        elapsed_us >= 0,
    ensures
        ({
            let foreseen = if last.status == MprisStatus::Playing {
                last_pos_us + elapsed_us
            } else {
                last_pos_us as int
            };
            jumped(last, now, last_pos_us, elapsed_us, position_us) <==> position_us > foreseen
                + 2_000_000 || position_us < foreseen - 2_000_000
        }),
{
}

/// Time goes forward, and is as long as the clock says.
pub proof fn lemma_elapsed(from_us: u64, to_us: u64)
    ensures
        from_us <= to_us ==> elapsed(from_us, to_us) == to_us - from_us,
        from_us > to_us ==> elapsed(from_us, to_us) == 0,
        bus_time(to_us as int) >= 0,
        to_us <= i64::MAX ==> bus_time(to_us as int) == to_us,
{
}

} // verus!
