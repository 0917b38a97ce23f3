//! The queue as it is kept between two runs.

use vstd::prelude::*;

use crate::local::{count_before, filter_kind, kept_before, of_kind};
use crate::queue::{QueueItem, RepeatMode};

verus! {

/// What is kept of the queue.
#[derive(Debug)]
pub struct PersistedQueue {
    pub items: Vec<QueueItem>,
    pub current_index: Option<usize>,
    pub shuffle: bool,
    pub repeat: RepeatMode,
    /// The position in the current track, in microseconds.
    pub position_us: u64,
}

impl Default for PersistedQueue {
    fn default() -> (r: Self)
        ensures
            r.items@.len() == 0,
            r.current_index is None,
            !r.shuffle,
            r.repeat == RepeatMode::Off,
            r.position_us == 0,
    {
        PersistedQueue {
            items: Vec::new(),
            current_index: None,
            shuffle: false,
            repeat: RepeatMode::Off,
            position_us: 0,
        }
    }
}

/// The items of a saved queue that are restored: all but the videos, in their
/// order.
pub open spec fn audio_items(saved: PersistedQueue) -> Seq<QueueItem> {
    saved.items@.filter(of_kind(false))
}

/// The place of the current item once the videos are left out. Where the
/// current item was a video, the item behind it takes its place, or the last
/// one. A place behind the end says nothing and stays as it is.
pub open spec fn audio_index(saved: PersistedQueue) -> Option<int> {
    match saved.current_index {
        None => None,
        Some(i) => if i >= saved.items@.len() {
            Some(i as int)
        } else {
            let n = audio_items(saved).len();
            let at = kept_before(saved.items@, i as int, false);
            Some(
                if at < n || n == 0 {
                    at
                } else {
                    n - 1
                },
            )
        },
    }
}

/// Leaves the videos out of a saved queue: they are not restored.
pub fn audio_only(saved: PersistedQueue) -> (r: PersistedQueue)
    ensures
        r.items@ == audio_items(saved),
        (match r.current_index {
            Some(i) => Some(i as int),
            None => None,
        }) == audio_index(saved),
        r.shuffle == saved.shuffle,
        r.repeat == saved.repeat,
        r.position_us == saved.position_us,
{
    let current_index: Option<usize> = match saved.current_index {
        None => None,
        Some(i) => if i >= saved.items.len() {
            Some(i)
        } else {
            let at: usize = count_before(saved.items.as_slice(), i, false);
            let n: usize = count_before(saved.items.as_slice(), saved.items.len(), false);
            proof {
                assert(saved.items@.take(saved.items@.len() as int) =~= saved.items@);
            }
            Some(
                if at < n || n == 0 {
                    at
                } else {
                    n - 1
                },
            )
        },
    };
    PersistedQueue {
        items: filter_kind(saved.items, false),
        current_index,
        shuffle: saved.shuffle,
        repeat: saved.repeat,
        position_us: saved.position_us,
    }
}

/// Of the snapshots that wait to be written, only the last one counts.
pub fn latest(mut waiting: Vec<PersistedQueue>) -> (r: Option<PersistedQueue>)
    ensures
        r == (if waiting@.len() == 0 {
            None
        } else {
            Some(waiting@.last())
        }),
{
    waiting.pop()
}

/// A saved queue comes back without its videos, in its order, and at the item
/// that was current where that is a track.
pub proof fn lemma_restored_place(saved: PersistedQueue, i: usize)
    requires
        saved.current_index == Some(i),
        i < saved.items@.len(),
        !saved.items@[i as int].is_video,
    ensures
        audio_index(saved) is Some,
        0 <= audio_index(saved)->0 < audio_items(saved).len(),
        audio_items(saved)[audio_index(saved)->0] == saved.items@[i as int],
{
    crate::local::lemma_kept_at(saved.items@, i as int);
}

/// Every track of a saved queue comes back, and no video does.
pub proof fn lemma_restored_items(saved: PersistedQueue, i: int)
    requires
        0 <= i < saved.items@.len(),
    ensures
        !saved.items@[i].is_video ==> audio_items(saved).contains(saved.items@[i]),
        forall|k: int| 0 <= k < audio_items(saved).len() ==> !(#[trigger] audio_items(saved)[k]).is_video,
        saved.current_index is None ==> audio_index(saved) is None,
{
    crate::local::lemma_kinds_part(saved.items@);
    if !saved.items@[i].is_video {
        crate::local::lemma_kept_at(saved.items@, i);
        let k = kept_before(saved.items@, i, false);
        assert(audio_items(saved)[k] == saved.items@[i]);
    }
}

} // verus!
