//! Renderers on other devices: the queue that is kept here for them, the state
//! that they are believed to be in, and what follows from each command.
//!
//! A command is planned first: the queue changes, and the plan says what the
//! device is to be asked. Once the device has answered, the plan is finished.

use vstd::prelude::*;

use crate::queue::{PlaybackQueue, QueueItem, QueueView};
use crate::renderer::{PlaybackState, PlaybackStatus, StateView};

verus! {

/// A remote renderer as it is known here.
#[derive(Debug)]
pub struct Remote {
    pub queue: PlaybackQueue,
    pub state: PlaybackState,
}

/// A remote renderer as a value.
pub ghost struct RemoteView {
    pub queue: QueueView,
    pub state: StateView,
}

impl View for Remote {
    type V = RemoteView;

    open spec fn view(&self) -> RemoteView {
        RemoteView { queue: self.queue@, state: self.state@ }
    }
}

/// What the device is to be asked.
#[derive(Debug)]
pub enum RemoteAction {
    Nothing,
    /// Load an item and play it.
    Load(QueueItem),
    Pause,
    Resume,
    Stop,
    /// Go to a position, in microseconds.
    Seek(u64),
    /// Set the volume, in thousandths.
    SetVolume(u32),
}

/// What is left to do once the device has answered.
#[derive(Debug, Clone, Copy, PartialEq, Eq, Structural)]
pub enum After {
    Nothing,
    /// The state takes over the queue.
    Sync,
    /// The state takes over the volume, if the device did.
    Volume(u32),
}

/// What follows from a command.
#[derive(Debug)]
pub struct Plan {
    pub action: RemoteAction,
    pub after: After,
}

impl RemoteView {
    /// The state after it has taken over the queue.
    pub open spec fn synced(self) -> RemoteView {
        RemoteView {
            state: StateView {
                queue: self.queue.items,
                current_index: self.queue.index,
                now_playing: self.queue.current(),
                ..self.state
            },
            ..self
        }
    }

    /// Other items are to be played.
    pub open spec fn played(self, items: Seq<QueueItem>, start: int) -> RemoteView {
        let q = self.queue.replaced(items, start);
        let r = RemoteView { queue: q, ..self }.synced();
        RemoteView { state: StateView { status: PlaybackStatus::Buffering, ..r.state }, ..r }
    }

    /// Everything is over.
    pub open spec fn stopped(self) -> RemoteView {
        RemoteView {
            queue: QueueView { items: Seq::empty(), index: None },
            state: StateView {
                queue: Seq::empty(),
                now_playing: None,
                current_index: None,
                status: PlaybackStatus::Stopped,
                ..self.state
            },
        }
    }

    /// The current item where there is one, as something to load.
    pub open spec fn load_current(self) -> RemoteAction {
        match self.queue.current() {
            Some(item) => RemoteAction::Load(item),
            None => RemoteAction::Nothing,
        }
    }

    /// What is left to do is done.
    pub open spec fn finished(self, after: After, ok: bool) -> RemoteView {
        match after {
            After::Nothing => self,
            After::Sync => self.synced(),
            After::Volume(v) => if ok {
                RemoteView { state: StateView { volume_milli: v, ..self.state }, ..self }
            } else {
                self
            },
        }
    }
}

/// A volume of at most full.
pub open spec fn full_at_most(v: u32) -> u32 {
    if v > 1000 {
        1000
    } else {
        v
    }
}

/// A volume, at most the full one.
pub fn limit_volume(v: u32) -> (r: u32)
    ensures
        r == full_at_most(v),
{
    if v > 1000 {
        1000
    } else {
        v
    }
}

impl Remote {
    /// An idle renderer with an empty queue.
    pub fn new() -> (r: Self)
        ensures
            r@.queue.items.len() == 0,
            r@.queue.index is None,
            r@.queue.wf(),
            r@.state.status == PlaybackStatus::Idle,
            r@.state.now_playing is None,
            r@.state.queue.len() == 0,
            r@.state.current_index is None,
            r@.state.volume_milli == 1000,
    {
        Remote { queue: PlaybackQueue::new(), state: PlaybackState::default() }
    }

    /// The state takes over the queue.
    pub fn sync(&mut self)
        requires
            old(self)@.queue.wf(),
        ensures
            final(self)@ == old(self)@.synced(),
    {
        self.state.queue = self.queue.items();
        self.state.current_index = self.queue.current_index();
        self.state.now_playing = self.queue.current();
    }

    /// The current item where there is one, as something to load.
    pub fn load_current(&self) -> (r: RemoteAction)
        requires
            self@.queue.wf(),
        ensures
            r == self@.load_current(),
    {
        match self.queue.current() {
            Some(item) => RemoteAction::Load(item),
            None => RemoteAction::Nothing,
        }
    }

    /// Takes other items and starts to play.
    pub fn play(&mut self, items: Vec<QueueItem>, start: usize) -> (r: Plan)
        ensures
            final(self)@ == old(self)@.played(items@, start as int),
            final(self)@.queue.wf(),
            r.action == final(self)@.load_current(),
            r.after == After::Nothing,
    {
        self.queue.replace(items, start);
        self.sync();
        self.state.status = PlaybackStatus::Buffering;
        Plan { action: self.load_current(), after: After::Nothing }
    }

    /// Adds items at the end; the first one plays where the queue was empty.
    pub fn enqueue(&mut self, items: Vec<QueueItem>) -> (r: Plan)
        requires
            old(self)@.queue.wf(),
        ensures
            final(self)@ == (RemoteView {
                queue: old(self)@.queue.appended(items@),
                ..old(self)@
            }),
            final(self)@.queue.wf(),
            r.action == (if old(self)@.queue.items.len() == 0 {
                final(self)@.load_current()
            } else {
                RemoteAction::Nothing
            }),
            r.after == After::Sync,
    {
        let was_empty: bool = self.queue.is_empty();
        self.queue.append(items);
        let action: RemoteAction = if was_empty {
            self.load_current()
        } else {
            RemoteAction::Nothing
        };
        Plan { action, after: After::Sync }
    }

    /// Puts items behind the current one; the first one plays where the queue
    /// was empty.
    pub fn play_next(&mut self, items: Vec<QueueItem>) -> (r: Plan)
        requires
            old(self)@.queue.wf(),
        ensures
            final(self)@ == (RemoteView {
                queue: old(self)@.queue.inserted_next(items@),
                ..old(self)@
            }),
            final(self)@.queue.wf(),
            r.action == (if old(self)@.queue.items.len() == 0 {
                final(self)@.load_current()
            } else {
                RemoteAction::Nothing
            }),
            r.after == After::Sync,
    {
        let was_empty: bool = self.queue.is_empty();
        self.queue.insert_next(items);
        let action: RemoteAction = if was_empty {
            self.load_current()
        } else {
            RemoteAction::Nothing
        };
        Plan { action, after: After::Sync }
    }

    /// Empties the queue.
    pub fn stop(&mut self)
        ensures
            final(self)@ == old(self)@.stopped(),
            final(self)@.queue.wf(),
    {
        self.queue.clear();
        self.state.queue = Vec::new();
        self.state.now_playing = None;
        self.state.current_index = None;
        self.state.status = PlaybackStatus::Stopped;
        proof {
            assert(self@.queue.items =~= Seq::empty());
            assert(self@.state.queue =~= Seq::empty());
        }
    }

    /// Does what was left to do, once the device has answered.
    pub fn finish(&mut self, after: After, ok: bool)
        requires
            old(self)@.queue.wf(),
        ensures
            final(self)@ == old(self)@.finished(after, ok),
            final(self)@.queue.wf(),
    {
        match after {
            After::Nothing => {},
            After::Sync => {
                self.sync();
            },
            After::Volume(v) => {
                if ok {
                    self.state.volume_milli = v;
                }
            },
        }
    }
}

/// The state takes over the items, the place and the item there, and nothing
/// else of it changes.
pub proof fn lemma_synced(r: RemoteView)
    ensures
        r.synced().queue == r.queue,
        r.synced().state.queue == r.queue.items,
        r.synced().state.current_index == r.queue.index,
        r.synced().state.now_playing == (match r.queue.index {
            Some(i) => Some(r.queue.items[i]),
            None => None,
        }),
        r.synced().state.status == r.state.status,
        r.synced().state.position_us == r.state.position_us,
        r.synced().state.duration_us == r.state.duration_us,
        r.synced().state.volume_milli == r.state.volume_milli,
        r.synced().state.repeat == r.state.repeat,
        r.synced().state.shuffle == r.state.shuffle,
{
}

/// A stop empties the queue and what is told of it; the volume stays.
pub proof fn lemma_stopped(r: RemoteView)
    ensures
        r.stopped().queue.items.len() == 0,
        r.stopped().queue.index is None,
        r.stopped().state.queue.len() == 0,
        r.stopped().state.current_index is None,
        r.stopped().state.now_playing is None,
        r.stopped().state.status == PlaybackStatus::Stopped,
        r.stopped().state.volume_milli == r.state.volume_milli,
        r.stopped().state.repeat == r.state.repeat,
        r.stopped().state.shuffle == r.state.shuffle,
{
}

/// What is to be loaded is the item at the current place.
pub proof fn lemma_load_current(r: RemoteView)
    ensures
        r.queue.index is Some ==> r.load_current() == RemoteAction::Load(
            r.queue.items[r.queue.index->0],
        ),
        r.queue.index is None ==> r.load_current() == RemoteAction::Nothing,
{
}

/// A volume is never more than the full one, and up to there it is kept.
pub proof fn lemma_full_at_most(v: u32)
    ensures
        full_at_most(v) <= 1000,
        v <= 1000 ==> full_at_most(v) == v,
        v > 1000 ==> full_at_most(v) == 1000,
{
}

/// Of what is left to do, a sync changes what is told of the queue, a volume is
/// told where the device took it, and nothing else changes anything.
pub proof fn lemma_finished(r: RemoteView, v: u32, ok: bool)
    ensures
        r.finished(After::Nothing, ok) == r,
        r.finished(After::Sync, ok).state.queue == r.queue.items,
        r.finished(After::Sync, ok).state.current_index == r.queue.index,
        r.finished(After::Sync, ok).state.volume_milli == r.state.volume_milli,
        r.finished(After::Sync, ok).queue == r.queue,
        r.finished(After::Volume(v), true).state.volume_milli == v,
        r.finished(After::Volume(v), true).queue == r.queue,
        r.finished(After::Volume(v), true).state.status == r.state.status,
        r.finished(After::Volume(v), false) == r,
{
}

} // verus!
