//! A player on top of a playback engine that knows tracks only by their
//! addresses. What the user sees of a track is kept here, in the engine's
//! order.

use vstd::prelude::*;

use crate::config::{CrossfadeMode, CrossfadeSettings, EqBand, ReplayGainSettings, EQ_BANDS};
use crate::local::of_kind;
use crate::persist::{audio_index, audio_items, audio_only, PersistedQueue};
use crate::queue::{clone_items, QueueItem, RepeatMode};
use crate::remote::{full_at_most, limit_volume};
use crate::renderer::{secs_to_us, PlaybackState, PlaybackStatus, RendererCall, StateView};

verus! {

/// What the engine is doing.
#[derive(Debug, Clone, Copy, PartialEq, Eq, Structural)]
pub enum EngineState {
    Stopped,
    Playing,
    Paused,
}

/// The engine's own report.
#[derive(Debug, Clone, Copy)]
pub struct EngineStatus {
    pub state: EngineState,
    pub index: Option<usize>,
    pub position_us: u64,
    pub duration_us: u64,
    pub volume_milli: u32,
    pub shuffle: bool,
    pub repeat: RepeatMode,
}

/// What the engine is to do.
#[derive(Debug)]
pub enum EngineOp {
    SetQueue(Vec<String>),
    InsertLast(Vec<String>),
    InsertNext(Vec<String>),
    SkipTo(usize),
    Play,
    Pause,
    Stop,
    Next,
    Previous,
    Seek(u64),
    SetVolume(u32),
    SetShuffle(bool),
    SetRepeat(RepeatMode),
    Remove(usize),
}

/// An operation as a value.
pub ghost enum OpView {
    SetQueue(Seq<Seq<char>>),
    InsertLast(Seq<Seq<char>>),
    InsertNext(Seq<Seq<char>>),
    SkipTo(int),
    Play,
    Pause,
    Stop,
    Next,
    Previous,
    Seek(u64),
    SetVolume(u32),
    SetShuffle(bool),
    SetRepeat(RepeatMode),
    Remove(int),
}

impl View for EngineOp {
    type V = OpView;

    open spec fn view(&self) -> OpView {
        match *self {
            EngineOp::SetQueue(v) => OpView::SetQueue(crate::text::string_views(v@)),
            EngineOp::InsertLast(v) => OpView::InsertLast(crate::text::string_views(v@)),
            EngineOp::InsertNext(v) => OpView::InsertNext(crate::text::string_views(v@)),
            EngineOp::SkipTo(i) => OpView::SkipTo(i as int),
            EngineOp::Play => OpView::Play,
            EngineOp::Pause => OpView::Pause,
            EngineOp::Stop => OpView::Stop,
            EngineOp::Next => OpView::Next,
            EngineOp::Previous => OpView::Previous,
            EngineOp::Seek(us) => OpView::Seek(us),
            EngineOp::SetVolume(v) => OpView::SetVolume(v),
            EngineOp::SetShuffle(b) => OpView::SetShuffle(b),
            EngineOp::SetRepeat(m) => OpView::SetRepeat(m),
            EngineOp::Remove(i) => OpView::Remove(i as int),
        }
    }
}

/// What a list of operations says.
pub open spec fn op_views(v: Seq<EngineOp>) -> Seq<OpView> {
    v.map_values(|o: EngineOp| o@)
}

/// The addresses of items.
pub open spec fn addresses(items: Seq<QueueItem>) -> Seq<Seq<char>> {
    items.map_values(|i: QueueItem| i.stream_url@)
}

/// The addresses of items, in their order.
pub fn urls(items: &[QueueItem]) -> (r: Vec<String>)
    ensures
        crate::text::string_views(r@) == addresses(items@),
{
    let mut r: Vec<String> = Vec::new();
    let mut i: usize = 0;
    while i < items.len()
        invariant
            i <= items@.len(),
            r@.len() == i,
            forall|j: int| 0 <= j < i ==> (#[trigger] r@[j])@ == items@[j].stream_url@,
        decreases items@.len() - i,
    {
        r.push(items[i].stream_url.clone());
        i += 1;
    }
    proof {
        assert(crate::text::string_views(r@) =~= addresses(items@));
    }
    r
}

/// What is shown of the queue and of the settings beside the engine.
#[derive(Debug)]
pub struct RockboxPlayer {
    pub items: Vec<QueueItem>,
    pub replaygain: ReplayGainSettings,
    pub crossfade: CrossfadeSettings,
    pub eq_enabled: bool,
    pub eq_band_count: usize,
    pub bass_db: i32,
    pub treble_db: i32,
}

/// Where items go that are to be played next.
pub open spec fn next_slot(index: Option<usize>, len: int) -> int {
    match index {
        Some(i) => if i + 1 < len {
            i + 1
        } else {
            len
        },
        None => 0,
    }
}

/// The items after a call.
pub open spec fn items_after(items: Seq<QueueItem>, call: RendererCall, index: Option<usize>) -> Seq<
    QueueItem,
> {
    match call {
        RendererCall::Play(new, _) => new@,
        RendererCall::Enqueue(new) => items + new@,
        RendererCall::PlayNext(new) => {
            let at = next_slot(index, items.len() as int);
            items.take(at) + new@ + items.skip(at)
        },
        RendererCall::RemoveFromQueue(i) => if i < items.len() {
            items.remove(i as int)
        } else {
            items
        },
        _ => items,
    }
}

/// What the engine does on a call.
pub open spec fn ops_for(call: RendererCall) -> Seq<OpView> {
    match call {
        RendererCall::Play(items, start) => if 0 < start < items@.len() {
            seq![
                OpView::SetQueue(addresses(items@)),
                OpView::SkipTo(start as int),
                OpView::Play,
            ]
        } else {
            seq![OpView::SetQueue(addresses(items@)), OpView::Play]
        },
        RendererCall::Enqueue(items) => seq![OpView::InsertLast(addresses(items@))],
        RendererCall::PlayNext(items) => seq![OpView::InsertNext(addresses(items@))],
        RendererCall::Pause => seq![OpView::Pause],
        RendererCall::Resume => seq![OpView::Play],
        RendererCall::Stop => seq![OpView::Stop],
        RendererCall::Next => seq![OpView::Next],
        RendererCall::Previous => seq![OpView::Previous],
        RendererCall::Seek(us) => seq![OpView::Seek(us)],
        RendererCall::SetVolume(v) => seq![OpView::SetVolume(full_at_most(v))],
        RendererCall::SetShuffle(b) => seq![OpView::SetShuffle(b)],
        RendererCall::SetRepeat(m) => seq![OpView::SetRepeat(m)],
        RendererCall::RemoveFromQueue(i) => seq![OpView::Remove(i as int)],
    }
}

/// Whether a call changes something that is kept between two runs.
pub open spec fn is_kept(call: RendererCall) -> bool {
    match call {
        RendererCall::Play(_, _) => true,
        RendererCall::Enqueue(_) => true,
        RendererCall::PlayNext(_) => true,
        RendererCall::SetShuffle(_) => true,
        RendererCall::SetRepeat(_) => true,
        RendererCall::RemoveFromQueue(_) => true,
        _ => false,
    }
}

/// What a call comes to.
#[derive(Debug)]
pub struct EnginePlan {
    pub ops: Vec<EngineOp>,
    /// Whether a snapshot is to be written.
    pub persist: bool,
}

fn one_op(op: EngineOp) -> (r: Vec<EngineOp>)
    ensures
        op_views(r@) == seq![op@],
{
    let mut v: Vec<EngineOp> = Vec::new();
    v.push(op);
    proof {
        assert(op_views(v@) =~= seq![op@]);
    }
    v
}

/// The state that is shown: the engine's where it answers, with the settings
/// and the items kept here. The engine's length of a track counts once it is
/// known; before that, the one that the server told.
pub open spec fn state_spec(p: RockboxPlayer, engine: Option<EngineStatus>) -> StateView {
    let base = StateView {
        status: PlaybackStatus::Idle,
        position_us: 0,
        duration_us: 0,
        volume_milli: 1000,
        now_playing: None,
        queue: p.items@,
        current_index: None,
        shuffle: false,
        repeat: RepeatMode::Off,
        replaygain: p.replaygain,
        crossfade: p.crossfade,
        eq_enabled: p.eq_enabled,
        eq_band_count: p.eq_band_count,
        bass_db: p.bass_db,
        treble_db: p.treble_db,
    };
    match engine {
        None => base,
        Some(st) => {
            let here = st.index is Some && st.index->0 < p.items@.len();
            let now = if here {
                Some(p.items@[st.index->0 as int])
            } else {
                None
            };
            StateView {
                status: match st.state {
                    EngineState::Playing => PlaybackStatus::Playing,
                    EngineState::Paused => PlaybackStatus::Paused,
                    EngineState::Stopped => if p.items@.len() == 0 {
                        PlaybackStatus::Idle
                    } else {
                        PlaybackStatus::Stopped
                    },
                },
                position_us: st.position_us,
                duration_us: if st.duration_us > 0 {
                    st.duration_us
                } else {
                    match now {
                        Some(item) => crate::symphonia::told_duration(item),
                        None => 0,
                    }
                },
                volume_milli: st.volume_milli,
                now_playing: now,
                current_index: if here {
                    Some(st.index->0 as int)
                } else {
                    None
                },
                shuffle: st.shuffle,
                repeat: st.repeat,
                ..base
            }
        },
    }
}

/// How two tracks are mixed.
#[derive(Debug, Clone, Copy, PartialEq, Eq, Structural)]
pub enum MixMode {
    Crossfade,
    Mix,
}

/// An overlap as the engine takes it: none, or always, with equal ramps.
#[derive(Debug, Clone, Copy, PartialEq, Eq, Structural)]
pub struct EngineCrossfade {
    pub fade_ms: u32,
    pub mix: MixMode,
}

/// The engine's form of an overlap.
pub fn to_rb_crossfade(settings: CrossfadeSettings) -> (r: Option<EngineCrossfade>)
    ensures
        r == (match settings.mode {
            CrossfadeMode::Off => None,
            CrossfadeMode::Crossfade => Some(
                EngineCrossfade { fade_ms: settings.duration_ms, mix: MixMode::Crossfade },
            ),
            CrossfadeMode::Mixed => Some(
                EngineCrossfade { fade_ms: settings.duration_ms, mix: MixMode::Mix },
            ),
        }),
{
    match settings.mode {
        CrossfadeMode::Off => None,
        CrossfadeMode::Crossfade => Some(
            EngineCrossfade { fade_ms: settings.duration_ms, mix: MixMode::Crossfade },
        ),
        CrossfadeMode::Mixed => Some(
            EngineCrossfade { fade_ms: settings.duration_ms, mix: MixMode::Mix },
        ),
    }
}

/// What a restored queue comes to.
#[derive(Debug)]
pub struct RestorePlan {
    pub shuffle: bool,
    pub repeat: RepeatMode,
    /// What is done where the engine has nothing of its own to resume.
    pub seed: Vec<EngineOp>,
}

/// The settings are those of a new player.
pub open spec fn fresh(p: RockboxPlayer) -> bool {
    &&& p.items@.len() == 0
    &&& p.replaygain.mode == crate::config::ReplayGainMode::Off
    &&& p.replaygain.preamp_mdb == 0
    &&& p.replaygain.prevent_clip
    &&& p.crossfade.mode == CrossfadeMode::Off
    &&& p.crossfade.duration_ms == 5000
    &&& !p.eq_enabled
    &&& p.eq_band_count == 0
    &&& p.bass_db == 0
    &&& p.treble_db == 0
}

/// Whether this is what is kept for the next run.
pub open spec fn kept(
    items: Seq<QueueItem>,
    engine: Option<EngineStatus>,
    saved: PersistedQueue,
) -> bool {
    &&& saved.items@ == items
    &&& match engine {
        Some(st) => saved.current_index == st.index && saved.shuffle == st.shuffle && saved.repeat
            == st.repeat && saved.position_us == st.position_us,
        None => saved.current_index is None && !saved.shuffle && saved.repeat == RepeatMode::Off
            && saved.position_us == 0,
    }
}

/// How an engine without a queue of its own is given one.
pub open spec fn seed_of(items: Seq<QueueItem>, index: Option<int>) -> Seq<OpView> {
    if items.len() == 0 {
        Seq::empty()
    } else if index is Some && index->0 > 0 {
        seq![OpView::SetQueue(addresses(items)), OpView::SkipTo(index->0)]
    } else {
        seq![OpView::SetQueue(addresses(items))]
    }
}

impl RockboxPlayer {
    /// A player with an empty queue.
    pub fn new() -> (r: Self)
        ensures
            fresh(r),
    {
        RockboxPlayer {
            items: Vec::new(),
            replaygain: ReplayGainSettings::default(),
            crossfade: CrossfadeSettings::default(),
            eq_enabled: false,
            eq_band_count: 0,
            bass_db: 0,
            treble_db: 0,
        }
    }

    /// Takes a call, where the engine stands at `index`.
    pub fn command(&mut self, call: RendererCall, index: Option<usize>) -> (r: EnginePlan)
        ensures
            final(self).items@ == items_after(old(self).items@, call, index),
            *final(self) == (RockboxPlayer { items: final(self).items, ..*old(self) }),
            op_views(r.ops@) == ops_for(call),
            r.persist == is_kept(call),
    {
        match call {
            RendererCall::Play(items, start) => {
                let mut ops: Vec<EngineOp> = Vec::new();
                ops.push(EngineOp::SetQueue(urls(&items)));
                if start > 0 && start < items.len() {
                    ops.push(EngineOp::SkipTo(start));
                }
                ops.push(EngineOp::Play);
                self.items = items;
                proof {
                    assert(op_views(ops@) =~= ops_for(call));
                }
                EnginePlan { ops, persist: true }
            },
            RendererCall::Enqueue(items) => {
                let ops: Vec<EngineOp> = one_op(EngineOp::InsertLast(urls(&items)));
                let mut more: Vec<QueueItem> = items;
                self.items.append(&mut more);
                EnginePlan { ops, persist: true }
            },
            RendererCall::PlayNext(items) => {
                let ops: Vec<EngineOp> = one_op(EngineOp::InsertNext(urls(&items)));
                let n: usize = self.items.len();
                let at: usize = match index {
                    Some(i) => if i < n {
                        i + 1
                    } else {
                        n
                    },
                    None => 0,
                };
                let mut tail: Vec<QueueItem> = self.items.split_off(at);
                let mut more: Vec<QueueItem> = items;
                self.items.append(&mut more);
                self.items.append(&mut tail);
                proof {
                    assert(self.items@ =~= items_after(old(self).items@, call, index));
                }
                EnginePlan { ops, persist: true }
            },
            RendererCall::Pause => EnginePlan { ops: one_op(EngineOp::Pause), persist: false },
            RendererCall::Resume => EnginePlan { ops: one_op(EngineOp::Play), persist: false },
            RendererCall::Stop => EnginePlan { ops: one_op(EngineOp::Stop), persist: false },
            RendererCall::Next => EnginePlan { ops: one_op(EngineOp::Next), persist: false },
            RendererCall::Previous => EnginePlan {
                ops: one_op(EngineOp::Previous),
                persist: false,
            },
            RendererCall::Seek(us) => EnginePlan {
                ops: one_op(EngineOp::Seek(us)),
                persist: false,
            },
            RendererCall::SetVolume(v) => EnginePlan {
                ops: one_op(EngineOp::SetVolume(limit_volume(v))),
                persist: false,
            },
            RendererCall::SetShuffle(b) => EnginePlan {
                ops: one_op(EngineOp::SetShuffle(b)),
                persist: true,
            },
            RendererCall::SetRepeat(m) => EnginePlan {
                ops: one_op(EngineOp::SetRepeat(m)),
                persist: true,
            },
            RendererCall::RemoveFromQueue(i) => {
                if i < self.items.len() {
                    let _gone: QueueItem = self.items.remove(i);
                }
                EnginePlan { ops: one_op(EngineOp::Remove(i)), persist: true }
            },
        }
    }

    /// Takes over a queue from an earlier run, without its videos.
    pub fn restore(&mut self, snapshot: PersistedQueue) -> (r: RestorePlan)
        ensures
            final(self).items@ == snapshot.items@.filter(of_kind(false)),
            *final(self) == (RockboxPlayer { items: final(self).items, ..*old(self) }),
            r.shuffle == snapshot.shuffle,
            r.repeat == snapshot.repeat,
            op_views(r.seed@) == seed_of(audio_items(snapshot), audio_index(snapshot)),
    {
        let ghost all = snapshot;
        let kept: PersistedQueue = audio_only(snapshot);
        let mut seed: Vec<EngineOp> = Vec::new();
        if kept.items.len() > 0 {
            seed.push(EngineOp::SetQueue(urls(&kept.items)));
            if let Some(i) = kept.current_index {
                if i > 0 {
                    seed.push(EngineOp::SkipTo(i));
                }
            }
        }
        self.items = kept.items;
        proof {
            assert(op_views(seed@) =~= seed_of(audio_items(all), audio_index(all)));
        }
        RestorePlan { shuffle: kept.shuffle, repeat: kept.repeat, seed }
    }

    /// What is kept for the next run.
    pub fn snapshot(&self, engine: Option<EngineStatus>) -> (r: PersistedQueue)
        ensures
            kept(self.items@, engine, r),
            r.items@ == self.items@,
            match engine {
                Some(st) => r.current_index == st.index && r.shuffle == st.shuffle && r.repeat
                    == st.repeat && r.position_us == st.position_us,
                None => r.current_index is None && !r.shuffle && r.repeat == RepeatMode::Off
                    && r.position_us == 0,
            },
    {
        match engine {
            Some(st) => PersistedQueue {
                items: clone_items(&self.items),
                current_index: st.index,
                shuffle: st.shuffle,
                repeat: st.repeat,
                position_us: st.position_us,
            },
            None => PersistedQueue {
                items: clone_items(&self.items),
                current_index: None,
                shuffle: false,
                repeat: RepeatMode::Off,
                position_us: 0,
            },
        }
    }

    pub fn set_replaygain(&mut self, settings: ReplayGainSettings)
        ensures
            *final(self) == (RockboxPlayer { replaygain: settings, ..*old(self) }),
    {
        self.replaygain = settings;
    }

    /// Takes an overlap, and gives it in the engine's form.
    pub fn set_crossfade(&mut self, settings: CrossfadeSettings) -> (r: Option<EngineCrossfade>)
        ensures
            *final(self) == (RockboxPlayer { crossfade: settings, ..*old(self) }),
            (r is Some) == (settings.mode != CrossfadeMode::Off),
            r is Some ==> r->0.fade_ms == settings.duration_ms,
            r is Some ==> r->0.mix == (if settings.mode == CrossfadeMode::Mixed {
                MixMode::Mix
            } else {
                MixMode::Crossfade
            }),
    {
        self.crossfade = settings;
        to_rb_crossfade(settings)
    }

    /// Takes an equalizer, and gives the bands that the engine has room for.
    pub fn set_eq(&mut self, enabled: bool, bands: &Vec<EqBand>) -> (r: Vec<EqBand>)
        ensures
            r@ == bands@.take(if bands@.len() < EQ_BANDS {
                bands@.len() as int
            } else {
                EQ_BANDS as int
            }),
            *final(self) == (RockboxPlayer {
                eq_enabled: enabled,
                eq_band_count: final(self).eq_band_count,
                ..*old(self)
            }),
            final(self).eq_band_count == r@.len(),
    {
        let n: usize = if bands.len() < EQ_BANDS {
            bands.len()
        } else {
            EQ_BANDS
        };
        let mut r: Vec<EqBand> = Vec::new();
        let mut i: usize = 0;
        while i < n
            invariant
                i <= n <= bands@.len(),
                r@ == bands@.take(i as int),
            decreases n - i,
        {
            r.push(bands[i]);
            i += 1;
            proof {
                assert(r@ =~= bands@.take(i as int));
            }
        }
        self.eq_enabled = enabled;
        self.eq_band_count = n;
        r
    }

    pub fn set_tone(&mut self, bass_db: i32, treble_db: i32)
        ensures
            *final(self) == (RockboxPlayer { bass_db, treble_db, ..*old(self) }),
    {
        self.bass_db = bass_db;
        self.treble_db = treble_db;
    }

    /// The state that is shown.
    pub fn state(&self, engine: Option<EngineStatus>) -> (r: PlaybackState)
        ensures
            r@ == state_spec(*self, engine),
    {
        let mut s: PlaybackState = PlaybackState::default();
        s.replaygain = self.replaygain;
        s.crossfade = self.crossfade;
        s.eq_enabled = self.eq_enabled;
        s.eq_band_count = self.eq_band_count;
        s.bass_db = self.bass_db;
        s.treble_db = self.treble_db;
        s.queue = clone_items(&self.items);
        if let Some(st) = engine {
            if let Some(i) = st.index {
                if i < self.items.len() {
                    s.current_index = Some(i);
                    s.now_playing = Some(self.items[i].clone());
                }
            }
            s.duration_us = if st.duration_us > 0 {
                st.duration_us
            } else {
                match &s.now_playing {
                    Some(item) => match item.duration_secs {
                        Some(d) => secs_to_us(d),
                        None => 0,
                    },
                    None => 0,
                }
            };
            s.status = match st.state {
                EngineState::Playing => PlaybackStatus::Playing,
                EngineState::Paused => PlaybackStatus::Paused,
                EngineState::Stopped => if self.items.len() == 0 {
                    PlaybackStatus::Idle
                } else {
                    PlaybackStatus::Stopped
                },
            };
            s.position_us = st.position_us;
            s.volume_milli = st.volume_milli;
            s.shuffle = st.shuffle;
            s.repeat = st.repeat;
        }
        s
    }
}

/// The items shown stay in the engine's order: what the engine inserts or
/// removes, it does at the same place with the same addresses.
pub proof fn lemma_items_follow_engine(
    items: Seq<QueueItem>,
    call: RendererCall,
    index: Option<usize>,
)
    requires
        index is Some ==> index->0 < items.len(),
    ensures
        addresses(items_after(items, call, index)) == (match call {
            RendererCall::Play(new, _) => addresses(new@),
            RendererCall::Enqueue(new) => addresses(items) + addresses(new@),
            RendererCall::PlayNext(new) => {
                let at = next_slot(index, items.len() as int);
                addresses(items).take(at) + addresses(new@) + addresses(items).skip(at)
            },
            RendererCall::RemoveFromQueue(i) => if i < items.len() {
                addresses(items).remove(i as int)
            } else {
                addresses(items)
            },
            _ => addresses(items),
        }),
{
    let left = addresses(items_after(items, call, index));
    match call {
        RendererCall::Enqueue(new) => {
            assert(left =~= addresses(items) + addresses(new@));
        },
        RendererCall::PlayNext(new) => {
            let at = next_slot(index, items.len() as int);
            assert(left =~= addresses(items).take(at) + addresses(new@) + addresses(items).skip(
                at,
            ));
        },
        RendererCall::RemoveFromQueue(i) => {
            if i < items.len() {
                assert(left =~= addresses(items).remove(i as int));
            }
        },
        _ => {},
    }
}

/// The engine is asked for what the call says, and for nothing else: a pause
/// pauses, going on plays, a step goes its way, and a seek goes to the very
/// position. The items stay as they are.
pub proof fn lemma_transport_asked(items: Seq<QueueItem>, index: Option<usize>, us: u64)
    ensures
        ops_for(RendererCall::Pause) == seq![OpView::Pause],
        ops_for(RendererCall::Resume) == seq![OpView::Play],
        ops_for(RendererCall::Stop) == seq![OpView::Stop],
        ops_for(RendererCall::Next) == seq![OpView::Next],
        ops_for(RendererCall::Previous) == seq![OpView::Previous],
        ops_for(RendererCall::Seek(us)) == seq![OpView::Seek(us)],
        items_after(items, RendererCall::Pause, index) == items,
        items_after(items, RendererCall::Resume, index) == items,
        items_after(items, RendererCall::Stop, index) == items,
        items_after(items, RendererCall::Next, index) == items,
        items_after(items, RendererCall::Previous, index) == items,
        items_after(items, RendererCall::Seek(us), index) == items,
{
}

/// A volume up to the full one is asked for as it is, more than that as the full
/// one; shuffle and repeat are asked for as they are. The items stay.
pub proof fn lemma_settings_asked(
    items: Seq<QueueItem>,
    index: Option<usize>,
    v: u32,
    on: bool,
    mode: RepeatMode,
)
    ensures
        v <= 1000 ==> ops_for(RendererCall::SetVolume(v)) == seq![OpView::SetVolume(v)],
        v > 1000 ==> ops_for(RendererCall::SetVolume(v)) == seq![OpView::SetVolume(1000)],
        ops_for(RendererCall::SetShuffle(on)) == seq![OpView::SetShuffle(on)],
        ops_for(RendererCall::SetRepeat(mode)) == seq![OpView::SetRepeat(mode)],
        items_after(items, RendererCall::SetVolume(v), index) == items,
        items_after(items, RendererCall::SetShuffle(on), index) == items,
        items_after(items, RendererCall::SetRepeat(mode), index) == items,
{
}

/// The engine gets the addresses of all items in their order, goes to the one to
/// start with, and plays; the items that are shown are those.
pub proof fn lemma_play_asked(
    old_items: Seq<QueueItem>,
    items: Vec<QueueItem>,
    start: usize,
    index: Option<usize>,
    i: int,
)
    requires
        start < items@.len(),
    ensures
        ({
            let ops = ops_for(RendererCall::Play(items, start));
            &&& ops[0] is SetQueue
            &&& ops[0]->SetQueue_0.len() == items@.len()
            &&& 0 <= i < items@.len() ==> ops[0]->SetQueue_0[i] == items@[i].stream_url@
            &&& start > 0 ==> ops.len() == 3 && ops[1] == OpView::SkipTo(start as int)
            &&& start == 0 ==> ops.len() == 2
            &&& ops.last() == OpView::Play
        }),
        items_after(old_items, RendererCall::Play(items, start), index) == items@,
{
}

/// Items that are added go to the same place here and in the engine: behind all
/// others, or right behind the current one. One that is taken out is taken out
/// of both.
pub proof fn lemma_queue_asked(
    old_items: Seq<QueueItem>,
    items: Vec<QueueItem>,
    index: Option<usize>,
    gone: usize,
)
    requires
        index is Some ==> index->0 < old_items.len(),
    ensures
        ops_for(RendererCall::Enqueue(items)) == seq![OpView::InsertLast(addresses(items@))],
        ops_for(RendererCall::PlayNext(items)) == seq![OpView::InsertNext(addresses(items@))],
        ops_for(RendererCall::RemoveFromQueue(gone)) == seq![OpView::Remove(gone as int)],
        items_after(old_items, RendererCall::Enqueue(items), index) == old_items + items@,
        index is Some ==> items_after(old_items, RendererCall::PlayNext(items), index)
            == old_items.subrange(0, index->0 + 1) + items@ + old_items.subrange(
            index->0 + 1,
            old_items.len() as int,
        ),
        index is None ==> items_after(old_items, RendererCall::PlayNext(items), index) == items@
            + old_items,
        gone < old_items.len() ==> items_after(
            old_items,
            RendererCall::RemoveFromQueue(gone),
            index,
        ) == old_items.subrange(0, gone as int) + old_items.subrange(
            gone + 1,
            old_items.len() as int,
        ),
        gone >= old_items.len() ==> items_after(
            old_items,
            RendererCall::RemoveFromQueue(gone),
            index,
        ) == old_items,
{
    let n = old_items.len() as int;
    if index is Some {
        assert(items_after(old_items, RendererCall::PlayNext(items), index)
            =~= old_items.subrange(0, index->0 + 1) + items@ + old_items.subrange(
            index->0 + 1,
            n,
        ));
    } else {
        assert(items_after(old_items, RendererCall::PlayNext(items), index) =~= items@ + old_items);
    }
    if gone < old_items.len() {
        assert(items_after(old_items, RendererCall::RemoveFromQueue(gone), index)
            =~= old_items.subrange(0, gone as int) + old_items.subrange(gone + 1, n));
    }
}

/// What is kept between two runs is written down where it changes: the queue,
/// shuffle and repeat; the transport and the volume do not count.
pub proof fn lemma_kept_calls(call: RendererCall)
    ensures
        is_kept(call) <==> call is Play || call is Enqueue || call is PlayNext || call
            is RemoveFromQueue || call is SetShuffle || call is SetRepeat,
{
}

/// What is shown is what the engine reports: playing as playing, paused as
/// paused, its position, volume, shuffle and repeat; and the item at its place.
/// Its length counts where it knows one, else the one that the server told.
pub proof fn lemma_state_shown(p: RockboxPlayer, st: EngineStatus)
    ensures
        ({
            let s = state_spec(p, Some(st));
            &&& st.state == EngineState::Playing ==> s.status == PlaybackStatus::Playing
            &&& st.state == EngineState::Paused ==> s.status == PlaybackStatus::Paused
            &&& st.state == EngineState::Stopped && p.items@.len() > 0 ==> s.status
                == PlaybackStatus::Stopped
            &&& st.state == EngineState::Stopped && p.items@.len() == 0 ==> s.status
                == PlaybackStatus::Idle
            &&& s.position_us == st.position_us
            &&& s.volume_milli == st.volume_milli
            &&& s.shuffle == st.shuffle
            &&& s.repeat == st.repeat
            &&& s.queue == p.items@
            &&& st.index is Some && st.index->0 < p.items@.len() ==> s.now_playing == Some(
                p.items@[st.index->0 as int],
            ) && s.current_index == Some(st.index->0 as int)
            &&& st.index is None || st.index->0 >= p.items@.len() ==> s.now_playing is None
                && s.current_index is None
            &&& st.duration_us > 0 ==> s.duration_us == st.duration_us
            &&& st.duration_us == 0 && st.index is Some && st.index->0 < p.items@.len()
                && p.items@[st.index->0 as int].duration_secs is Some
                && p.items@[st.index->0 as int].duration_secs->0 * 1_000_000 <= u64::MAX
                ==> s.duration_us == p.items@[st.index->0 as int].duration_secs->0 * 1_000_000
            &&& s.replaygain == p.replaygain
            &&& s.crossfade == p.crossfade
            &&& s.eq_enabled == p.eq_enabled
            &&& s.eq_band_count == p.eq_band_count
            &&& s.bass_db == p.bass_db
            &&& s.treble_db == p.treble_db
        }),
        state_spec(p, None).status == PlaybackStatus::Idle,
        state_spec(p, None).queue == p.items@,
        state_spec(p, None).now_playing is None,
{
}

/// An engine without a queue gets the saved one at the saved place, and does not
/// start to play.
pub proof fn lemma_seeded(items: Seq<QueueItem>, index: Option<int>)
    ensures
        ({
            let ops = seed_of(items, index);
            &&& items.len() == 0 ==> ops.len() == 0
            &&& items.len() > 0 ==> ops[0] == OpView::SetQueue(addresses(items))
            &&& items.len() > 0 && index is Some && index->0 > 0 ==> ops.len() == 2 && ops[1]
                == OpView::SkipTo(index->0)
            &&& items.len() > 0 && (index is None || index->0 <= 0) ==> ops.len() == 1
            &&& !ops.contains(OpView::Play)
        }),
{
}

/// What is kept is the queue, the place in it, the position and the order of
/// play as the engine has them; taken over again, a queue of tracks is given to
/// the engine at that place.
pub proof fn lemma_kept_and_restored(items: Seq<QueueItem>, st: EngineStatus, saved: PersistedQueue)
    requires
        kept(items, Some(st), saved),
        st.index is Some,
        st.index->0 < items.len(),
        forall|i: int| 0 <= i < items.len() ==> !(#[trigger] items[i]).is_video,
    ensures
        saved.position_us == st.position_us,
        saved.shuffle == st.shuffle,
        saved.repeat == st.repeat,
        audio_items(saved) == items,
        audio_index(saved) == Some(st.index->0 as int),
        ({
            let ops = seed_of(audio_items(saved), audio_index(saved));
            &&& ops[0] == OpView::SetQueue(addresses(items))
            &&& st.index->0 > 0 ==> ops.len() == 2 && ops[1] == OpView::SkipTo(st.index->0 as int)
        }),
{
    let i = st.index->0 as int;
    crate::local::lemma_all_of_kind(items, false);
    assert forall|k: int| 0 <= k < items.take(i).len() implies (#[trigger] items.take(i)[k]).is_video
        == false by {
        assert(items.take(i)[k] == items[k]);
    }
    crate::local::lemma_all_of_kind(items.take(i), false);
}

} // verus!
