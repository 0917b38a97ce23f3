//! The local renderer: audio goes to one player, video to another. To the
//! caller both look like one renderer.

use vstd::prelude::*;

use crate::queue::QueueItem;
use crate::renderer::{CallView, RendererCall};

verus! {

/// Which player is at work.
#[derive(Debug, Clone, Copy, PartialEq, Eq, Structural)]
pub enum Active {
    /// None of them.
    Idle,
    Audio,
    Video,
}

/// Whether an item is of a kind.
pub open spec fn of_kind(want_video: bool) -> spec_fn(QueueItem) -> bool {
    |i: QueueItem| i.is_video == want_video
}

/// Keeps the items of one kind, in their order.
pub fn filter_kind(items: Vec<QueueItem>, want_video: bool) -> (r: Vec<QueueItem>)
    ensures
        r@ == items@.filter(of_kind(want_video)),
{
    let mut out: Vec<QueueItem> = Vec::new();
    let mut i: usize = 0;
    proof {
        reveal(Seq::filter);
        assert(items@.take(0).filter(of_kind(want_video)) =~= Seq::empty());
    }
    while i < items.len()
        invariant
            i <= items@.len(),
            out@ == items@.take(i as int).filter(of_kind(want_video)),
        decreases items@.len() - i,
    {
        proof {
            reveal(Seq::filter);
            assert(items@.take(i as int + 1).drop_last() =~= items@.take(i as int));
            assert(items@.take(i as int + 1).last() == items@[i as int]);
        }
        if items[i].is_video == want_video {
            out.push(items[i].clone());
        }
        i += 1;
    }
    proof {
        assert(items@.take(i as int) =~= items@);
    }
    out
}

/// How many of the items before a place are of a kind: the place of that item
/// once the items of the other kind are left out.
pub open spec fn kept_before(items: Seq<QueueItem>, place: int, video: bool) -> int {
    items.take(place).filter(of_kind(video)).len() as int
}

/// Counts the items of one kind before a place.
pub fn count_before(items: &[QueueItem], place: usize, want_video: bool) -> (r: usize)
    requires
        place <= items@.len(),
    ensures
        r == kept_before(items@, place as int, want_video),
        r <= place,
{
    let mut n: usize = 0;
    let mut i: usize = 0;
    proof {
        reveal(Seq::filter);
        assert(items@.take(0).filter(of_kind(want_video)) =~= Seq::empty());
    }
    while i < place
        invariant
            i <= place <= items@.len(),
            n <= i,
            n == kept_before(items@, i as int, want_video),
        decreases place - i,
    {
        proof {
            reveal(Seq::filter);
            assert(items@.take(i as int + 1).drop_last() =~= items@.take(i as int));
            assert(items@.take(i as int + 1).last() == items@[i as int]);
        }
        if items[i].is_video == want_video {
            n += 1;
        }
        i += 1;
    }
    n
}

/// The item at a place stands, among those of its kind, behind the ones of its
/// kind that were before it.
pub proof fn lemma_kept_at(items: Seq<QueueItem>, place: int)
    requires
        0 <= place < items.len(),
    ensures
        kept_before(items, place, items[place].is_video) < items.filter(
            of_kind(items[place].is_video),
        ).len(),
        items.filter(of_kind(items[place].is_video))[kept_before(
            items,
            place,
            items[place].is_video,
        )] == items[place],
    decreases items.len(),
{
    reveal(Seq::filter);
    let rest = items.drop_last();
    if place < rest.len() {
        lemma_kept_at(rest, place);
        assert(rest.take(place) =~= items.take(place));
    } else {
        assert(items.take(place) =~= rest);
    }
}

/// What a command comes to for the two players.
#[derive(Debug)]
pub struct LocalStep {
    /// The player that is to be stopped first.
    pub stop_first: Active,
    pub audio: Option<RendererCall>,
    pub video: Option<RendererCall>,
}

/// What a command comes to, as a value.
pub ghost struct StepView {
    pub stop_first: Active,
    pub audio: Option<CallView>,
    pub video: Option<CallView>,
}

impl View for LocalStep {
    type V = StepView;

    open spec fn view(&self) -> StepView {
        StepView {
            stop_first: self.stop_first,
            audio: crate::renderer::call_view(self.audio),
            video: crate::renderer::call_view(self.video),
        }
    }
}

/// Nothing for either player.
pub open spec fn idle_step() -> StepView {
    StepView { stop_first: Active::Idle, audio: None, video: None }
}

/// A call for one player.
pub open spec fn step_for(a: Active, call: CallView) -> StepView {
    match a {
        Active::Audio => StepView { audio: Some(call), ..idle_step() },
        Active::Video => StepView { video: Some(call), ..idle_step() },
        Active::Idle => idle_step(),
    }
}

/// The kind of the item that is to be played first.
pub open spec fn target_of(items: Seq<QueueItem>, start: int) -> Active {
    if 0 <= start < items.len() {
        if items[start].is_video {
            Active::Video
        } else {
            Active::Audio
        }
    } else {
        Active::Idle
    }
}

/// The player that has to give way to another.
pub open spec fn other(active: Active, keep: Active) -> Active {
    match (active, keep) {
        (Active::Audio, Active::Video) => Active::Audio,
        (Active::Video, Active::Audio) => Active::Video,
        _ => Active::Idle,
    }
}

/// What the items of one kind are, as values.
pub open spec fn kind_views(items: Seq<QueueItem>, video: bool) -> Seq<crate::queue::ItemView> {
    crate::renderer::item_views(items.filter(of_kind(video)))
}

/// `play`: the kind of the item to start with decides. The other player gives
/// way, the items of the other kind are left out, and what is started is the
/// item that was asked for.
pub open spec fn play_step(active: Active, items: Seq<QueueItem>, start: int) -> (
    Active,
    StepView,
) {
    let target = target_of(items, start);
    if target == Active::Idle {
        (active, idle_step())
    } else {
        let kept = kind_views(items, target == Active::Video);
        (
            target,
            StepView {
                stop_first: other(active, target),
                ..step_for(
                    target,
                    CallView::Play(kept, kept_before(items, start, target == Active::Video)),
                )
            },
        )
    }
}

/// Items for a player that may be at rest. The player at work gets the items
/// of its kind, if there are any; what is of the other kind is left out. Where
/// none is at work, audio is started, else video.
pub open spec fn add_step(active: Active, items: Seq<QueueItem>, next: bool) -> (
    Active,
    StepView,
) {
    let audio = kind_views(items, false);
    let video = kind_views(items, true);
    match active {
        Active::Audio => (
            active,
            if audio.len() == 0 {
                idle_step()
            } else {
                step_for(
                    active,
                    if next {
                        CallView::PlayNext(audio)
                    } else {
                        CallView::Enqueue(audio)
                    },
                )
            },
        ),
        Active::Video => (
            active,
            if video.len() == 0 {
                idle_step()
            } else {
                step_for(
                    active,
                    if next {
                        CallView::PlayNext(video)
                    } else {
                        CallView::Enqueue(video)
                    },
                )
            },
        ),
        Active::Idle => if audio.len() > 0 {
            (Active::Audio, step_for(Active::Audio, CallView::Play(audio, 0)))
        } else if video.len() > 0 {
            (Active::Video, step_for(Active::Video, CallView::Play(video, 0)))
        } else {
            (Active::Idle, idle_step())
        },
    }
}

/// What each command comes to. The volume is one for both players; shuffle
/// and repeat concern the audio queue.
pub open spec fn route_spec(active: Active, call: RendererCall) -> (Active, StepView) {
    match call {
        RendererCall::Play(items, start) => play_step(active, items@, start as int),
        RendererCall::Enqueue(items) => add_step(active, items@, false),
        RendererCall::PlayNext(items) => add_step(active, items@, true),
        RendererCall::Stop => (Active::Idle, step_for(active, CallView::Stop)),
        RendererCall::SetVolume(v) => (
            active,
            StepView {
                audio: Some(CallView::SetVolume(v as int)),
                video: Some(CallView::SetVolume(v as int)),
                ..idle_step()
            },
        ),
        RendererCall::SetShuffle(b) => (active, step_for(Active::Audio, CallView::SetShuffle(b))),
        RendererCall::SetRepeat(m) => (active, step_for(Active::Audio, CallView::SetRepeat(m))),
        other => (active, step_for(active, other@)),
    }
}

/// The local renderer: which of its players is at work.
#[derive(Debug, Clone, Copy, PartialEq, Eq, Structural)]
pub struct LocalRenderer {
    pub active: Active,
}

impl Default for LocalRenderer {
    fn default() -> (r: Self)
        ensures
            r.active == Active::Idle,
    {
        LocalRenderer::new()
    }
}

fn for_player(a: Active, call: RendererCall) -> (r: LocalStep)
    ensures
        r@ == step_for(a, call@),
{
    match a {
        Active::Audio => LocalStep { stop_first: Active::Idle, audio: Some(call), video: None },
        Active::Video => LocalStep { stop_first: Active::Idle, audio: None, video: Some(call) },
        Active::Idle => LocalStep { stop_first: Active::Idle, audio: None, video: None },
    }
}

fn at_rest() -> (r: LocalStep)
    ensures
        r@ == idle_step(),
{
    LocalStep { stop_first: Active::Idle, audio: None, video: None }
}

impl LocalRenderer {
    /// No player is at work.
    pub fn new() -> (r: Self)
        ensures
            r.active == Active::Idle,
    {
        LocalRenderer { active: Active::Idle }
    }

    /// The player for the item that is to be played first. A queue with both
    /// kinds is played by the kind of its first item.
    pub fn dispatch_target(items: &[QueueItem], start_index: usize) -> (r: Active)
        ensures
            r == target_of(items@, start_index as int),
    {
        if start_index < items.len() {
            if items[start_index].is_video {
                Active::Video
            } else {
                Active::Audio
            }
        } else {
            Active::Idle
        }
    }

    /// The player that has to stop, so that `keep` can play.
    pub fn stop_other(&self, keep: Active) -> (r: Active)
        ensures
            r == other(self.active, keep),
    {
        match (self.active, keep) {
            (Active::Audio, Active::Video) => Active::Audio,
            (Active::Video, Active::Audio) => Active::Video,
            _ => Active::Idle,
        }
    }

    fn play(&mut self, items: Vec<QueueItem>, start: usize) -> (r: LocalStep)
        ensures
            (final(self).active, r@) == play_step(old(self).active, items@, start as int),
    {
        let target: Active = LocalRenderer::dispatch_target(items.as_slice(), start);
        if target == Active::Idle {
            return at_rest();
        }
        let stop_first: Active = self.stop_other(target);
        let idx: usize = count_before(items.as_slice(), start, target == Active::Video);
        let kept: Vec<QueueItem> = filter_kind(items, target == Active::Video);
        self.active = target;
        let mut step: LocalStep = for_player(target, RendererCall::Play(kept, idx));
        step.stop_first = stop_first;
        step
    }

    fn add_items(&mut self, items: Vec<QueueItem>, next: bool) -> (r: LocalStep)
        ensures
            (final(self).active, r@) == add_step(old(self).active, items@, next),
    {
        let audio: Vec<QueueItem> = filter_kind(crate::queue::clone_items(&items), false);
        let video: Vec<QueueItem> = filter_kind(items, true);
        match self.active {
            Active::Audio => if audio.len() == 0 {
                at_rest()
            } else if next {
                for_player(Active::Audio, RendererCall::PlayNext(audio))
            } else {
                for_player(Active::Audio, RendererCall::Enqueue(audio))
            },
            Active::Video => if video.len() == 0 {
                at_rest()
            } else if next {
                for_player(Active::Video, RendererCall::PlayNext(video))
            } else {
                for_player(Active::Video, RendererCall::Enqueue(video))
            },
            Active::Idle => if audio.len() > 0 {
                self.active = Active::Audio;
                for_player(Active::Audio, RendererCall::Play(audio, 0))
            } else if video.len() > 0 {
                self.active = Active::Video;
                for_player(Active::Video, RendererCall::Play(video, 0))
            } else {
                at_rest()
            },
        }
    }

    /// Adds items at the end of the queue of the player at work.
    pub fn enqueue(&mut self, items: Vec<QueueItem>) -> (r: LocalStep)
        ensures
            (final(self).active, r@) == add_step(old(self).active, items@, false),
    {
        self.add_items(items, false)
    }

    /// Puts items behind the current one of the player at work.
    pub fn play_next(&mut self, items: Vec<QueueItem>) -> (r: LocalStep)
        ensures
            (final(self).active, r@) == add_step(old(self).active, items@, true),
    {
        self.add_items(items, true)
    }

    /// Sends a command to the player that it concerns.
    pub fn route(&mut self, call: RendererCall) -> (r: LocalStep)
        ensures
            (final(self).active, r@) == route_spec(old(self).active, call),
    {
        match call {
            RendererCall::Play(items, start) => self.play(items, start),
            RendererCall::Enqueue(items) => self.enqueue(items),
            RendererCall::PlayNext(items) => self.play_next(items),
            RendererCall::Stop => {
                let a: Active = self.active;
                self.active = Active::Idle;
                for_player(a, RendererCall::Stop)
            },
            RendererCall::SetVolume(v) => LocalStep {
                stop_first: Active::Idle,
                audio: Some(RendererCall::SetVolume(v)),
                video: Some(RendererCall::SetVolume(v)),
            },
            RendererCall::SetShuffle(b) => for_player(Active::Audio, RendererCall::SetShuffle(b)),
            RendererCall::SetRepeat(m) => for_player(Active::Audio, RendererCall::SetRepeat(m)),
            other => for_player(self.active, other),
        }
    }

    /// A saved queue is restored: that is always the audio player's.
    pub fn restore(&mut self)
        ensures
            final(self).active == Active::Audio,
    {
        self.active = Active::Audio;
    }
}

/// Every item is of one kind: the two parts of a list have as many items as
/// the list, and each part holds its kind only.
pub proof fn lemma_kinds_part(items: Seq<QueueItem>)
    ensures
        items.filter(of_kind(false)).len() + items.filter(of_kind(true)).len() == items.len(),
        forall|i: int|
            0 <= i < items.filter(of_kind(false)).len() ==> !(#[trigger] items.filter(
                of_kind(false),
            )[i]).is_video,
        forall|i: int|
            0 <= i < items.filter(of_kind(true)).len() ==> (#[trigger] items.filter(
                of_kind(true),
            )[i]).is_video,
    decreases items.len(),
{
    reveal(Seq::filter);
    if items.len() > 0 {
        lemma_kinds_part(items.drop_last());
    }
}

/// Whatever is played, it starts with the item that was asked for, on the
/// player for its kind. A start behind the end plays nothing.
pub proof fn lemma_play_routes(active: Active, items: Seq<QueueItem>, start: int)
    requires
        0 <= start,
    ensures
        ({
            let (now, step) = play_step(active, items, start);
            &&& start < items.len() && items[start].is_video ==> now == Active::Video && step.video
                is Some && step.audio is None
            &&& start < items.len() && !items[start].is_video ==> now == Active::Audio
                && step.audio is Some && step.video is None
            &&& start >= items.len() ==> now == active && step == idle_step()
            &&& step.stop_first != now || now == Active::Idle || step == idle_step()
            &&& start < items.len() ==> {
                let video = items[start].is_video;
                let call = if video {
                    step.video->0
                } else {
                    step.audio->0
                };
                &&& call is Play
                &&& call->Play_0 == kind_views(items, video)
                &&& 0 <= call->Play_1 < call->Play_0.len()
                &&& call->Play_0[call->Play_1] == items[start]@
            }
        }),
{
    if start < items.len() {
        lemma_kept_at(items, start);
    }
}

/// Of a list of one kind nothing is left out.
pub proof fn lemma_all_of_kind(items: Seq<QueueItem>, video: bool)
    requires
        forall|i: int| 0 <= i < items.len() ==> (#[trigger] items[i]).is_video == video,
    ensures
        items.filter(of_kind(video)) == items,
        items.filter(of_kind(!video)).len() == 0,
    decreases items.len(),
{
    reveal(Seq::filter);
    if items.len() > 0 {
        let rest = items.drop_last();
        assert forall|i: int| 0 <= i < rest.len() implies (#[trigger] rest[i]).is_video == video by {
            assert(rest[i] == items[i]);
        }
        lemma_all_of_kind(rest, video);
        assert(items.last() == items[items.len() - 1]);
        assert(items.filter(of_kind(video)) =~= items);
    } else {
        assert(items.filter(of_kind(video)) =~= items);
    }
}

/// A command for the transport reaches the player at work as it is, and no
/// other; where none is at work it reaches none. It does not change which
/// player is at work, unless it is a stop, after which none is.
pub proof fn lemma_transport_routes(active: Active, call: RendererCall)
    requires
        call is Pause || call is Resume || call is Stop || call is Next || call is Previous || call
            is Seek || call is RemoveFromQueue,
    ensures
        ({
            let (now, step) = route_spec(active, call);
            &&& now == (if call is Stop {
                Active::Idle
            } else {
                active
            })
            &&& step.stop_first == Active::Idle
            &&& step.audio == (if active == Active::Audio {
                Some(call@)
            } else {
                None
            })
            &&& step.video == (if active == Active::Video {
                Some(call@)
            } else {
                None
            })
        }),
{
}

/// The volume reaches both players, whichever is at work; shuffle and repeat
/// reach the audio player alone. What is at work stays so.
pub proof fn lemma_settings_route(active: Active, call: RendererCall)
    requires
        call is SetVolume || call is SetShuffle || call is SetRepeat,
    ensures
        ({
            let (now, step) = route_spec(active, call);
            &&& now == active
            &&& step.stop_first == Active::Idle
            &&& step.audio == Some(call@)
            &&& step.video == (if call is SetVolume {
                Some(call@)
            } else {
                None
            })
        }),
{
}

/// Items that are added go to the player at work, which gets those of its kind
/// and no others, in their order; the other player is left alone. Where none is
/// at work, they are played from the first on, tracks before videos.
pub proof fn lemma_added_items_route(active: Active, items: Vec<QueueItem>, next: bool)
    ensures
        ({
            let call = if next {
                RendererCall::PlayNext(items)
            } else {
                RendererCall::Enqueue(items)
            };
            let (now, step) = route_spec(active, call);
            let audio = crate::renderer::item_views(items@.filter(|i: QueueItem| !i.is_video));
            let video = crate::renderer::item_views(items@.filter(|i: QueueItem| i.is_video));
            &&& step.stop_first == Active::Idle
            &&& active == Active::Audio ==> now == active && step.video is None && step.audio == (
            if audio.len() == 0 {
                None
            } else if next {
                Some(CallView::PlayNext(audio))
            } else {
                Some(CallView::Enqueue(audio))
            })
            &&& active == Active::Video ==> now == active && step.audio is None && step.video == (
            if video.len() == 0 {
                None
            } else if next {
                Some(CallView::PlayNext(video))
            } else {
                Some(CallView::Enqueue(video))
            })
            &&& active == Active::Idle ==> {
                &&& audio.len() > 0 ==> now == Active::Audio && step.video is None && step.audio
                    == Some(CallView::Play(audio, 0))
                &&& audio.len() == 0 && video.len() > 0 ==> now == Active::Video && step.audio
                    is None && step.video == Some(CallView::Play(video, 0))
                &&& items@.len() == 0 ==> now == Active::Idle && step.audio is None && step.video
                    is None
            }
        }),
{
    lemma_kinds_part(items@);
    let tracks = |i: QueueItem| !i.is_video;
    let videos = |i: QueueItem| i.is_video;
    lemma_same_filter(items@, of_kind(false), tracks);
    lemma_same_filter(items@, of_kind(true), videos);
}

proof fn lemma_same_filter(
    items: Seq<QueueItem>,
    f: spec_fn(QueueItem) -> bool,
    g: spec_fn(QueueItem) -> bool,
)
    requires
        forall|i: QueueItem| #[trigger] f(i) == g(i),
    ensures
        items.filter(f) == items.filter(g),
    decreases items.len(),
{
    reveal(Seq::filter);
    if items.len() > 0 {
        lemma_same_filter(items.drop_last(), f, g);
    }
}

/// Where the other player is at work, it is stopped before a new queue plays;
/// the player that is to play is not.
pub proof fn lemma_other_gives_way(active: Active, items: Vec<QueueItem>, start: usize)
    requires
        start < items@.len(),
    ensures
        ({
            let (now, step) = route_spec(active, RendererCall::Play(items, start));
            &&& now == (if items@[start as int].is_video {
                Active::Video
            } else {
                Active::Audio
            })
            &&& step.stop_first == (if active == now {
                Active::Idle
            } else {
                active
            })
            &&& now == Active::Audio ==> step.video is None && step.audio is Some
                && step.audio->0 is Play && step.audio->0->Play_0[step.audio->0->Play_1]
                == items@[start as int]@
            &&& now == Active::Video ==> step.audio is None && step.video is Some
                && step.video->0 is Play && step.video->0->Play_0[step.video->0->Play_1]
                == items@[start as int]@
        }),
{
    lemma_play_routes(active, items@, start as int);
}

} // verus!
