//! What every renderer reports of itself, and what it can be asked to do.

use vstd::prelude::*;

use crate::config::{CrossfadeSettings, ReplayGainSettings};
use crate::queue::{QueueItem, RepeatMode};

verus! {

/// What a renderer is doing.
#[derive(Debug, Clone, Copy, PartialEq, Eq, Structural)]
pub enum PlaybackStatus {
    Idle,
    Buffering,
    Playing,
    Paused,
    Stopped,
}

/// One million: the microseconds of a second.
pub const SECOND_US: u64 = 1_000_000;

/// A renderer's state at one moment. Times are in microseconds, the volume is
/// in thousandths.
#[derive(Debug)]
pub struct PlaybackState {
    pub status: PlaybackStatus,
    pub position_us: u64,
    pub duration_us: u64,
    pub volume_milli: u32,
    pub now_playing: Option<QueueItem>,
    pub queue: Vec<QueueItem>,
    pub current_index: Option<usize>,
    pub shuffle: bool,
    pub repeat: RepeatMode,
    pub replaygain: ReplayGainSettings,
    pub crossfade: CrossfadeSettings,
    pub eq_enabled: bool,
    pub eq_band_count: usize,
    pub bass_db: i32,
    pub treble_db: i32,
}

impl Default for PlaybackState {
    fn default() -> (r: Self)
        ensures
            r.status == PlaybackStatus::Idle,
            r.position_us == 0,
            r.duration_us == 0,
            r.volume_milli == 1000,
            r.now_playing is None,
            r.queue@.len() == 0,
            r.current_index is None,
            !r.shuffle,
            r.repeat == RepeatMode::Off,
            r.replaygain.mode == crate::config::ReplayGainMode::Off,
            r.replaygain.preamp_mdb == 0,
            r.replaygain.prevent_clip,
            r.crossfade.mode == crate::config::CrossfadeMode::Off,
            r.crossfade.duration_ms == 5000,
            !r.eq_enabled,
            r.eq_band_count == 0,
            r.bass_db == 0,
            r.treble_db == 0,
    {
        PlaybackState {
            status: PlaybackStatus::Idle,
            position_us: 0,
            duration_us: 0,
            volume_milli: 1000,
            now_playing: None,
            queue: Vec::new(),
            current_index: None,
            shuffle: false,
            repeat: RepeatMode::Off,
            replaygain: ReplayGainSettings::default(),
            crossfade: CrossfadeSettings::default(),
            eq_enabled: false,
            eq_band_count: 0,
            bass_db: 0,
            treble_db: 0,
        }
    }
}

/// Where a renderer plays.
#[derive(Debug, Clone, Copy, PartialEq, Eq, Structural)]
pub enum RendererKind {
    Mpv,
    Chromecast,
    Upnp,
}

impl RendererKind {
    /// The name of a kind of renderer.
    pub open spec fn name(self) -> Seq<char> {
        match self {
            RendererKind::Mpv => "mpv"@,
            RendererKind::Chromecast => "chromecast"@,
            RendererKind::Upnp => "upnp"@,
        }
    }

    pub fn label(&self) -> (r: &'static str)
        ensures
            r@ == self.name(),
    {
        match self {
            RendererKind::Mpv => "mpv",
            RendererKind::Chromecast => "chromecast",
            RendererKind::Upnp => "upnp",
        }
    }
}

/// Something that a renderer is asked to do.
#[derive(Debug)]
pub enum RendererCall {
    /// Take these items as the queue and play from the given one on.
    Play(Vec<QueueItem>, usize),
    /// Add items at the end of the queue.
    Enqueue(Vec<QueueItem>),
    /// Put items right behind the current one.
    PlayNext(Vec<QueueItem>),
    Pause,
    Resume,
    Stop,
    Next,
    Previous,
    /// Go to a position, in microseconds.
    Seek(u64),
    /// Set the volume, in thousandths.
    SetVolume(u32),
    SetShuffle(bool),
    SetRepeat(RepeatMode),
    RemoveFromQueue(usize),
}

/// A call as a value, its items by what they hold.
pub ghost enum CallView {
    Play(Seq<crate::queue::ItemView>, int),
    Enqueue(Seq<crate::queue::ItemView>),
    PlayNext(Seq<crate::queue::ItemView>),
    Pause,
    Resume,
    Stop,
    Next,
    Previous,
    Seek(int),
    SetVolume(int),
    SetShuffle(bool),
    SetRepeat(RepeatMode),
    RemoveFromQueue(int),
}

/// What a list of items holds.
pub open spec fn item_views(items: Seq<QueueItem>) -> Seq<crate::queue::ItemView> {
    items.map_values(|i: QueueItem| i@)
}

impl View for RendererCall {
    type V = CallView;

    open spec fn view(&self) -> CallView {
        match *self {
            RendererCall::Play(items, i) => CallView::Play(item_views(items@), i as int),
            RendererCall::Enqueue(items) => CallView::Enqueue(item_views(items@)),
            RendererCall::PlayNext(items) => CallView::PlayNext(item_views(items@)),
            RendererCall::Pause => CallView::Pause,
            RendererCall::Resume => CallView::Resume,
            RendererCall::Stop => CallView::Stop,
            RendererCall::Next => CallView::Next,
            RendererCall::Previous => CallView::Previous,
            RendererCall::Seek(us) => CallView::Seek(us as int),
            RendererCall::SetVolume(v) => CallView::SetVolume(v as int),
            RendererCall::SetShuffle(b) => CallView::SetShuffle(b),
            RendererCall::SetRepeat(m) => CallView::SetRepeat(m),
            RendererCall::RemoveFromQueue(i) => CallView::RemoveFromQueue(i as int),
        }
    }
}

/// An optional call as a value.
pub open spec fn call_view(c: Option<RendererCall>) -> Option<CallView> {
    match c {
        Some(c) => Some(c@),
        None => None,
    }
}

/// A list of one item.
pub fn one_item(item: QueueItem) -> (r: Vec<QueueItem>)
    ensures
        r@ == seq![item],
        item_views(r@) == seq![item@],
{
    let mut v: Vec<QueueItem> = Vec::new();
    v.push(item);
    proof {
        assert(v@ =~= seq![item]);
        assert(item_views(v@) =~= seq![item@]);
    }
    v
}

/// A renderer's state as a value.
pub ghost struct StateView {
    pub status: PlaybackStatus,
    pub position_us: u64,
    pub duration_us: u64,
    pub volume_milli: u32,
    pub now_playing: Option<QueueItem>,
    pub queue: Seq<QueueItem>,
    pub current_index: Option<int>,
    pub shuffle: bool,
    pub repeat: RepeatMode,
    pub replaygain: ReplayGainSettings,
    pub crossfade: CrossfadeSettings,
    pub eq_enabled: bool,
    pub eq_band_count: usize,
    pub bass_db: i32,
    pub treble_db: i32,
}

impl View for PlaybackState {
    type V = StateView;

    open spec fn view(&self) -> StateView {
        StateView {
            status: self.status,
            position_us: self.position_us,
            duration_us: self.duration_us,
            volume_milli: self.volume_milli,
            now_playing: self.now_playing,
            queue: self.queue@,
            current_index: match self.current_index {
                Some(i) => Some(i as int),
                None => None,
            },
            shuffle: self.shuffle,
            repeat: self.repeat,
            replaygain: self.replaygain,
            crossfade: self.crossfade,
            eq_enabled: self.eq_enabled,
            eq_band_count: self.eq_band_count,
            bass_db: self.bass_db,
            treble_db: self.treble_db,
        }
    }
}

impl Clone for PlaybackState {
    fn clone(&self) -> (r: Self)
        ensures
            r@ == self@,
    {
        PlaybackState {
            status: self.status,
            position_us: self.position_us,
            duration_us: self.duration_us,
            volume_milli: self.volume_milli,
            now_playing: match &self.now_playing {
                Some(i) => Some(i.clone()),
                None => None,
            },
            queue: crate::queue::clone_items(&self.queue),
            current_index: self.current_index,
            shuffle: self.shuffle,
            repeat: self.repeat,
            replaygain: self.replaygain,
            crossfade: self.crossfade,
            eq_enabled: self.eq_enabled,
            eq_band_count: self.eq_band_count,
            bass_db: self.bass_db,
            treble_db: self.treble_db,
        }
    }
}

/// A time of whole seconds in microseconds, held at the largest `u64`.
pub fn secs_to_us(secs: u64) -> (r: u64)
    ensures
        r == crate::num::sat64(secs as nat * 1_000_000),
{
    if secs > u64::MAX / 1_000_000 {
        u64::MAX
    } else {
        secs * 1_000_000
    }
}

} // verus!
