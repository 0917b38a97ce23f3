//! The playback queue: a list of items and the one that is playing.

use vstd::prelude::*;

use crate::text::begins;

verus! {

/// What the ids of items begin with that another device pushed at this one.
pub const UPNP_CAST_ID_PREFIX: &'static str = "upnp-cast:";

/// Everything a renderer needs to play a single item.
#[derive(Debug)]
pub struct QueueItem {
    pub id: String,
    pub title: String,
    pub subtitle: String,
    pub stream_url: String,
    pub image_url: Option<String>,
    pub duration_secs: Option<u64>,
    pub is_video: bool,
    pub content_type: String,
}

/// Clones an optional string.
pub fn clone_opt(o: &Option<String>) -> (r: Option<String>)
    ensures
        r == *o,
{
    match o {
        Some(s) => Some(s.clone()),
        None => None,
    }
}

impl Clone for QueueItem {
    fn clone(&self) -> (r: Self)
        ensures
            r == *self,
    {
        QueueItem {
            id: self.id.clone(),
            title: self.title.clone(),
            subtitle: self.subtitle.clone(),
            stream_url: self.stream_url.clone(),
            image_url: clone_opt(&self.image_url),
            duration_secs: self.duration_secs,
            is_video: self.is_video,
            content_type: self.content_type.clone(),
        }
    }
}

/// The texts and numbers of a queue item.
pub ghost struct ItemView {
    pub id: Seq<char>,
    pub title: Seq<char>,
    pub subtitle: Seq<char>,
    pub stream_url: Seq<char>,
    pub image_url: Option<Seq<char>>,
    pub duration_secs: Option<u64>,
    pub is_video: bool,
    pub content_type: Seq<char>,
}

impl View for QueueItem {
    type V = ItemView;

    open spec fn view(&self) -> ItemView {
        ItemView {
            id: self.id@,
            title: self.title@,
            subtitle: self.subtitle@,
            stream_url: self.stream_url@,
            image_url: crate::text::opt_view(self.image_url),
            duration_secs: self.duration_secs,
            is_video: self.is_video,
            content_type: self.content_type@,
        }
    }
}

impl QueueItem {
    /// Whether another device pushed this item at this one.
    pub fn is_upnp_cast(&self) -> (r: bool)
        ensures
            r == crate::text::starts_with(self.id@, UPNP_CAST_ID_PREFIX@),
    {
        begins(self.id.as_str(), UPNP_CAST_ID_PREFIX)
    }
}

/// Copies a list of items.
pub fn clone_items(items: &Vec<QueueItem>) -> (r: Vec<QueueItem>)
    ensures
        r@ == items@,
{
    let mut r: Vec<QueueItem> = Vec::new();
    let mut i: usize = 0;
    while i < items.len()
        invariant
            i <= items@.len(),
            r@ == items@.take(i as int),
        decreases items@.len() - i,
    {
        r.push(items[i].clone());
        i += 1;
        proof {
            assert(r@ =~= items@.take(i as int));
        }
    }
    proof {
        assert(items@.take(i as int) =~= items@);
    }
    r
}

/// What to do at the end of the queue.
#[derive(Debug, Clone, Copy, PartialEq, Eq, Structural)]
pub enum RepeatMode {
    Off,
    One,
    All,
}

impl Default for RepeatMode {
    fn default() -> (r: Self)
        ensures
            r == RepeatMode::Off,
    {
        RepeatMode::Off
    }
}

impl RepeatMode {
    /// The name of a mode.
    pub open spec fn name(self) -> Seq<char> {
        match self {
            RepeatMode::Off => "off"@,
            RepeatMode::One => "one"@,
            RepeatMode::All => "all"@,
        }
    }

    /// The mode that follows in the cycle off, all, one.
    pub open spec fn successor(self) -> RepeatMode {
        match self {
            RepeatMode::Off => RepeatMode::All,
            RepeatMode::All => RepeatMode::One,
            RepeatMode::One => RepeatMode::Off,
        }
    }

    pub fn label(&self) -> (r: &'static str)
        ensures
            r@ == self.name(),
    {
        match self {
            RepeatMode::Off => "off",
            RepeatMode::One => "one",
            RepeatMode::All => "all",
        }
    }

    pub fn next(self) -> (r: Self)
        ensures
            r == self.successor(),
    {
        match self {
            RepeatMode::Off => RepeatMode::All,
            RepeatMode::All => RepeatMode::One,
            RepeatMode::One => RepeatMode::Off,
        }
    }
}

/// Turning the repeat mode three times leads back to where it began.
pub proof fn lemma_repeat_cycle(m: RepeatMode)
    ensures
        m.successor().successor().successor() == m,
        m.successor() != m,
        m.successor().successor() != m,
{
}

/// A queue as a value: its items and the position of the current one.
pub ghost struct QueueView {
    pub items: Seq<QueueItem>,
    pub index: Option<int>,
}

impl QueueView {
    /// The current position is one of the list.
    pub open spec fn wf(self) -> bool {
        self.index is Some ==> 0 <= self.index->0 < self.items.len()
    }

    /// The current item.
    pub open spec fn current(self) -> Option<QueueItem> {
        match self.index {
            Some(i) => Some(self.items[i]),
            None => None,
        }
    }

    /// Other items, from the given one on; a start behind the end means the
    /// last item.
    pub open spec fn replaced(self, items: Seq<QueueItem>, index: int) -> QueueView {
        QueueView {
            items,
            index: if items.len() == 0 {
                None
            } else if index < items.len() {
                Some(index)
            } else {
                Some(items.len() - 1)
            },
        }
    }

    /// More items at the end. The first one becomes current where the queue
    /// was empty.
    pub open spec fn appended(self, items: Seq<QueueItem>) -> QueueView {
        QueueView {
            items: self.items + items,
            index: if self.items.len() == 0 && items.len() > 0 {
                Some(0)
            } else {
                self.index
            },
        }
    }

    /// Where items go that are to be played next.
    pub open spec fn next_slot(self) -> int {
        match self.index {
            Some(i) => i + 1,
            None => 0,
        }
    }

    /// More items right behind the current one.
    pub open spec fn inserted_next(self, items: Seq<QueueItem>) -> QueueView {
        let at = self.next_slot();
        let all = self.items.take(at) + items + self.items.skip(at);
        QueueView {
            items: all,
            index: if self.index is None && all.len() > 0 {
                Some(0)
            } else {
                self.index
            },
        }
    }

    /// One step forward: to the next item, or to none behind the last.
    pub open spec fn advanced(self) -> QueueView {
        QueueView {
            items: self.items,
            index: match self.index {
                Some(i) => if i + 1 < self.items.len() {
                    Some(i + 1)
                } else {
                    None
                },
                None => if self.items.len() > 0 {
                    Some(0)
                } else {
                    None
                },
            },
        }
    }

    /// One step back, but not before the first item.
    pub open spec fn stepped_back(self) -> QueueView {
        QueueView {
            items: self.items,
            index: match self.index {
                Some(i) => if i > 0 {
                    Some(i - 1)
                } else {
                    Some(i)
                },
                None => None,
            },
        }
    }

    /// The current position moved, where the new one is in the list.
    pub open spec fn moved_to(self, i: int) -> QueueView {
        QueueView {
            items: self.items,
            index: if i < self.items.len() {
                Some(i)
            } else {
                self.index
            },
        }
    }

    /// One item taken out. The current item stays current; where it is the one
    /// that goes, its successor follows, or the last item.
    pub open spec fn removed(self, i: int) -> QueueView {
        if i >= self.items.len() {
            self
        } else {
            let items = self.items.remove(i);
            QueueView {
                items,
                index: match self.index {
                    None => None,
                    Some(cur) => if items.len() == 0 {
                        None
                    } else if i < cur {
                        Some(cur - 1)
                    } else if i == cur && cur >= items.len() {
                        Some(items.len() - 1)
                    } else {
                        Some(cur)
                    },
                },
            }
        }
    }
}

/// The playback queue.
#[derive(Debug)]
pub struct PlaybackQueue {
    items: Vec<QueueItem>,
    index: Option<usize>,
}

impl View for PlaybackQueue {
    type V = QueueView;

    closed spec fn view(&self) -> QueueView {
        QueueView {
            items: self.items@,
            index: match self.index {
                Some(i) => Some(i as int),
                None => None,
            },
        }
    }
}

impl Default for PlaybackQueue {
    fn default() -> (r: Self)
        ensures
            r@.items.len() == 0,
            r@.index is None,
    {
        PlaybackQueue { items: Vec::new(), index: None }
    }
}

impl PlaybackQueue {
    /// An empty queue.
    pub fn new() -> (r: Self)
        ensures
            r@.items.len() == 0,
            r@.index is None,
            r@.wf(),
    {
        PlaybackQueue::default()
    }

    /// A copy of all items.
    pub fn items(&self) -> (r: Vec<QueueItem>)
        ensures
            r@ == self@.items,
    {
        clone_items(&self.items)
    }

    pub fn current_index(&self) -> (r: Option<usize>)
        ensures
            match r {
                Some(i) => self@.index == Some(i as int),
                None => self@.index is None,
            },
    {
        self.index
    }

    /// A copy of the current item.
    pub fn current(&self) -> (r: Option<QueueItem>)
        requires
            self@.wf(),
        ensures
            r == self@.current(),
    {
        match self.index {
            Some(i) => Some(self.items[i].clone()),
            None => None,
        }
    }

    pub fn len(&self) -> (r: usize)
        ensures
            r == self@.items.len(),
    {
        self.items.len()
    }

    pub fn is_empty(&self) -> (r: bool)
        ensures
            r == (self@.items.len() == 0),
    {
        self.items.len() == 0
    }

    /// Takes other items and starts at `index`, or at the last item where
    /// that lies behind the end.
    pub fn replace(&mut self, items: Vec<QueueItem>, index: usize)
        ensures
            final(self)@ == old(self)@.replaced(items@, index as int),
            final(self)@.wf(),
    {
        let n: usize = items.len();
        self.index = if n == 0 {
            None
        } else if index < n {
            Some(index)
        } else {
            Some(n - 1)
        };
        self.items = items;
    }

    /// Adds items at the end.
    pub fn append(&mut self, items: Vec<QueueItem>)
        requires
            old(self)@.wf(),
        ensures
            final(self)@ == old(self)@.appended(items@),
            final(self)@.wf(),
    {
        let was_empty: bool = self.items.len() == 0;
        let mut more: Vec<QueueItem> = items;
        self.items.append(&mut more);
        if was_empty && self.items.len() > 0 {
            self.index = Some(0);
        }
    }

    /// Puts items right behind the current one.
    pub fn insert_next(&mut self, items: Vec<QueueItem>)
        requires
            old(self)@.wf(),
        ensures
            final(self)@ == old(self)@.inserted_next(items@),
            final(self)@.wf(),
    {
        let ghost before = self@;
        let n: usize = self.items.len();
        let at: usize = match self.index {
            Some(i) => if i < n {
                i + 1
            } else {
                n
            },
            None => 0,
        };
        let mut tail: Vec<QueueItem> = self.items.split_off(at);
        let mut more: Vec<QueueItem> = items;
        self.items.append(&mut more);
        self.items.append(&mut tail);
        if self.index.is_none() && self.items.len() > 0 {
            self.index = Some(0);
        }
        proof {
            assert(self@.items =~= before.inserted_next(items@).items);
        }
    }

    /// Steps to the next item; behind the last there is none.
    pub fn advance(&mut self) -> (r: Option<usize>)
        requires
            old(self)@.wf(),
        ensures
            final(self)@ == old(self)@.advanced(),
            match r {
                Some(i) => final(self)@.index == Some(i as int),
                None => final(self)@.index is None,
            },
            final(self)@.wf(),
    {
        let n: usize = self.items.len();
        let next: Option<usize> = match self.index {
            Some(i) => if i + 1 < n {
                Some(i + 1)
            } else {
                None
            },
            None => if n > 0 {
                Some(0)
            } else {
                None
            },
        };
        self.index = next;
        next
    }

    /// Steps to the item before; the first one stays.
    pub fn back(&mut self) -> (r: Option<usize>)
        requires
            old(self)@.wf(),
        ensures
            final(self)@ == old(self)@.stepped_back(),
            match r {
                Some(i) => final(self)@.index == Some(i as int),
                None => final(self)@.index is None,
            },
            final(self)@.wf(),
    {
        let prev: Option<usize> = match self.index {
            Some(i) => if i > 0 {
                Some(i - 1)
            } else {
                Some(i)
            },
            None => None,
        };
        self.index = prev;
        prev
    }

    /// Makes an item the current one; a position behind the end is ignored.
    pub fn set_index(&mut self, i: usize)
        requires
            old(self)@.wf(),
        ensures
            final(self)@ == old(self)@.moved_to(i as int),
            final(self)@.wf(),
    {
        if i < self.items.len() {
            self.index = Some(i);
        }
    }

    pub fn clear(&mut self)
        ensures
            final(self)@.items.len() == 0,
            final(self)@.index is None,
            final(self)@.wf(),
    {
        self.items.clear();
        self.index = None;
    }

    /// Takes one item out; a position behind the end is ignored.
    pub fn remove(&mut self, i: usize)
        requires
            old(self)@.wf(),
        ensures
            final(self)@ == old(self)@.removed(i as int),
            final(self)@.wf(),
    {
        if i >= self.items.len() {
            return ;
        }
        let _gone: QueueItem = self.items.remove(i);
        let n: usize = self.items.len();
        if n == 0 {
            self.index = None;
        } else if let Some(cur) = self.index {
            if i < cur {
                self.index = Some(cur - 1);
            } else if i == cur && cur >= n {
                self.index = Some(n - 1);
            }
        }
    }
}

/// Adding items, at the end or right behind the current one, does not touch
/// the current item; nor does taking out another one.
pub proof fn lemma_current_stays(q: QueueView, items: Seq<QueueItem>, i: int)
    requires
        q.wf(),
        q.index is Some,
        0 <= i,
        Some(i) != q.index,
    ensures
        q.appended(items).current() == q.current(),
        q.inserted_next(items).current() == q.current(),
        q.removed(i).current() == q.current(),
{
}

/// What is put behind the current item is what comes next, and the old rest
/// follows it.
pub proof fn lemma_insert_next_order(q: QueueView, items: Seq<QueueItem>)
    requires
        q.wf(),
        q.index is Some,
        items.len() > 0,
    ensures
        q.inserted_next(items).advanced().current() == Some(items[0]),
        q.inserted_next(items).items.skip(q.next_slot()) == items + q.items.skip(q.next_slot()),
{
    assert(q.inserted_next(items).items.skip(q.next_slot()) =~= items + q.items.skip(
        q.next_slot(),
    ));
}

/// Where there is a next item, a step forward and a step back lead to the item
/// where they began.
pub proof fn lemma_back_undoes_advance(q: QueueView)
    requires
        q.wf(),
        q.index is Some,
        q.index->0 + 1 < q.items.len(),
    ensures
        q.advanced().stepped_back() == q,
{
}

/// Steps forward.
pub open spec fn advanced_by(q: QueueView, steps: nat) -> QueueView
    decreases steps,
{
    if steps == 0 {
        q
    } else {
        advanced_by(q, (steps - 1) as nat).advanced()
    }
}

/// From the first item, steps forward run through every item in order and end
/// behind the last.
pub proof fn lemma_advance_walks(q: QueueView, steps: nat)
    requires
        q.index == Some(0int),
        steps <= q.items.len(),
        q.items.len() > 0,
    ensures
        advanced_by(q, steps).items == q.items,
        advanced_by(q, steps).index == (if steps < q.items.len() {
            Some(steps as int)
        } else {
            None
        }),
    decreases steps,
{
    if steps > 0 {
        lemma_advance_walks(q, (steps - 1) as nat);
    }
}

impl QueueView {
    /// One step forward under a repeat mode: all items go round, a single one
    /// stays.
    pub open spec fn advanced_in(self, mode: RepeatMode) -> QueueView {
        match mode {
            RepeatMode::Off => self.advanced(),
            RepeatMode::One => if self.index is Some {
                self
            } else {
                self.advanced()
            },
            RepeatMode::All => if self.items.len() > 0 && self.index == Some(
                self.items.len() - 1,
            ) {
                QueueView { items: self.items, index: Some(0int) }
            } else {
                self.advanced()
            },
        }
    }

    /// One step back under a repeat mode: all items go round, a single one
    /// stays.
    pub open spec fn stepped_back_in(self, mode: RepeatMode) -> QueueView {
        match mode {
            RepeatMode::Off => self.stepped_back(),
            RepeatMode::One => self,
            RepeatMode::All => if self.index == Some(0int) {
                QueueView { items: self.items, index: Some(self.items.len() - 1) }
            } else {
                self.stepped_back()
            },
        }
    }
}

/// Two items change places.
pub open spec fn swapped(items: Seq<QueueItem>, i: int, j: int) -> Seq<QueueItem> {
    items.update(i, items[j]).update(j, items[i])
}

/// The items from `first` on in another order: from the last one down, each
/// changes places with one at or before it, which the picks choose.
pub open spec fn reordered(items: Seq<QueueItem>, first: int, picks: Seq<usize>) -> Seq<QueueItem>
    decreases picks.len(),
{
    if picks.len() == 0 {
        items
    } else {
        let at = first + picks.len();
        let with = first + picks.last() as int % (picks.len() + 1) as int;
        if at < items.len() {
            reordered(swapped(items, at, with), first, picks.drop_last())
        } else {
            items
        }
    }
}

/// How many picks it takes to reorder what follows the current item.
pub open spec fn picks_needed(q: QueueView) -> int {
    let rest = q.items.len() - q.next_slot();
    if rest > 1 {
        rest - 1
    } else {
        0
    }
}

impl QueueView {
    /// What follows the current item, in another order.
    pub open spec fn shuffled(self, picks: Seq<usize>) -> QueueView {
        QueueView { items: reordered(self.items, self.next_slot(), picks), index: self.index }
    }
}

/// Swaps keep every item, and leave those before `first` where they are.
proof fn lemma_reordered(items: Seq<QueueItem>, first: int, picks: Seq<usize>)
    requires
        0 <= first,
        picks.len() == 0 || first + picks.len() < items.len(),
    ensures
        reordered(items, first, picks).len() == items.len(),
        reordered(items, first, picks).to_multiset() == items.to_multiset(),
        forall|i: int|
            0 <= i < first && i < items.len() ==> #[trigger] reordered(items, first, picks)[i]
                == items[i],
    decreases picks.len(),
{
    if picks.len() > 0 {
        let at = first + picks.len();
        let with = first + picks.last() as int % (picks.len() + 1) as int;
        let s = swapped(items, at, with);
        lemma_reordered(s, first, picks.drop_last());
        let half = items.update(at, items[with]);
        vstd::seq_lib::to_multiset_update(items, at, items[with]);
        vstd::seq_lib::to_multiset_update(half, with, items[at]);
        if at == with {
            assert(s =~= items);
        } else {
            assert(half[with] == items[with]);
            broadcast use vstd::seq_lib::group_to_multiset_ensures;

            assert(items.to_multiset().count(items[at]) > 0);
            assert(half.to_multiset().count(items[with]) > 0);
            assert(s.to_multiset() =~= items.to_multiset());
        }
    }
}

/// Shuffling keeps every item, the current one, and everything before it.
pub proof fn lemma_shuffle_keeps(q: QueueView, picks: Seq<usize>)
    requires
        q.wf(),
        picks.len() == picks_needed(q),
    ensures
        q.shuffled(picks).items.to_multiset() == q.items.to_multiset(),
        q.shuffled(picks).items.len() == q.items.len(),
        q.shuffled(picks).current() == q.current(),
        q.shuffled(picks).items.take(q.next_slot()) == q.items.take(q.next_slot()),
{
    lemma_reordered(q.items, q.next_slot(), picks);
    assert(q.shuffled(picks).items.take(q.next_slot()) =~= q.items.take(q.next_slot()));
}

/// When all items repeat, a step forward and a step back lead to where they
/// began, at either end too.
pub proof fn lemma_repeat_all_round(q: QueueView)
    requires
        q.wf(),
        q.index is Some,
    ensures
        q.advanced_in(RepeatMode::All).stepped_back_in(RepeatMode::All) == q,
        q.stepped_back_in(RepeatMode::All).advanced_in(RepeatMode::All) == q,
        q.advanced_in(RepeatMode::All).index is Some,
{
}

/// Calls `Rng::random_range` of the crate `rand` on the generator of the
/// thread, over the numbers below `n`. The claim: the number is one of them.
#[verifier::external_body]
fn random_below(n: usize) -> (r: usize)
    requires
        n > 0,
    ensures
        r < n,
{
    rand::Rng::random_range(&mut rand::rng(), 0..n)
}

impl PlaybackQueue {
    /// Steps to the next item under a repeat mode.
    pub fn advance_in(&mut self, mode: RepeatMode) -> (r: Option<usize>)
        requires
            old(self)@.wf(),
        ensures
            final(self)@ == old(self)@.advanced_in(mode),
            match r {
                Some(i) => final(self)@.index == Some(i as int),
                None => final(self)@.index is None,
            },
            final(self)@.wf(),
    {
        if mode == RepeatMode::One && self.index.is_some() {
            return self.index;
        }
        let n: usize = self.items.len();
        if mode == RepeatMode::All {
            if let Some(i) = self.index {
                if i + 1 == n {
                    self.index = Some(0);
                    return self.index;
                }
            }
        }
        self.advance()
    }

    /// Steps to the item before under a repeat mode.
    pub fn back_in(&mut self, mode: RepeatMode) -> (r: Option<usize>)
        requires
            old(self)@.wf(),
        ensures
            final(self)@ == old(self)@.stepped_back_in(mode),
            match r {
                Some(i) => final(self)@.index == Some(i as int),
                None => final(self)@.index is None,
            },
            final(self)@.wf(),
    {
        if mode == RepeatMode::One {
            return self.index;
        }
        let n: usize = self.items.len();
        if mode == RepeatMode::All {
            if let Some(i) = self.index {
                if i == 0 {
                    self.index = Some(n - 1);
                    return self.index;
                }
            }
        }
        self.back()
    }

    /// Where items go that are to be played next.
    fn next_slot(&self) -> (r: usize)
        requires
            self@.wf(),
        ensures
            r == self@.next_slot(),
            r <= self@.items.len(),
    {
        let n: usize = self.items.len();
        match self.index {
            Some(i) => if i < n {
                i + 1
            } else {
                n
            },
            None => 0,
        }
    }

    /// Reorders what follows the current item, as the picks say.
    pub fn shuffle_with(&mut self, picks: &Vec<usize>)
        requires
            old(self)@.wf(),
            picks@.len() == picks_needed(old(self)@),
        ensures
            final(self)@ == old(self)@.shuffled(picks@),
            final(self)@.items.to_multiset() == old(self)@.items.to_multiset(),
            final(self)@.current() == old(self)@.current(),
            final(self)@.wf(),
    {
        let ghost before = self@;
        let first: usize = self.next_slot();
        let n: usize = self.items.len();
        let mut k: usize = picks.len();
        proof {
            assert(picks@.take(k as int) =~= picks@);
        }
        while k > 0
            invariant
                k <= picks@.len(),
                n == before.items.len(),
                before.wf(),
                picks@.len() == picks_needed(before),
                first == before.next_slot(),
                self@.index == before.index,
                self@.items.len() == before.items.len(),
                reordered(self@.items, first as int, picks@.take(k as int)) == reordered(
                    before.items,
                    first as int,
                    picks@,
                ),
            decreases k,
        {
            let at: usize = first + k;
            let p: usize = picks[k - 1] % (k + 1);
            let with: usize = first + p;
            proof {
                assert(picks@.take(k as int).last() == picks@[k - 1]);
                assert(picks@.take(k as int).drop_last() =~= picks@.take(k - 1));
            }
            let ghost s = self@.items;
            let one: QueueItem = self.items[at].clone();
            let other: QueueItem = self.items[with].clone();
            self.items.set(at, other);
            self.items.set(with, one);
            proof {
                assert(self@.items =~= swapped(s, at as int, with as int));
            }
            k -= 1;
        }
        proof {
            assert(picks@.take(0).len() == 0);
            lemma_shuffle_keeps(before, picks@);
        }
    }

    /// Reorders what follows the current item at random.
    pub fn shuffle_rest(&mut self)
        requires
            old(self)@.wf(),
        ensures
            exists|picks: Seq<usize>|
                picks.len() == picks_needed(old(self)@) && final(self)@
                    == #[trigger] old(self)@.shuffled(picks),
            final(self)@.items.to_multiset() == old(self)@.items.to_multiset(),
            final(self)@.current() == old(self)@.current(),
            final(self)@.wf(),
    {
        let first: usize = self.next_slot();
        let rest: usize = self.items.len() - first;
        let need: usize = if rest > 1 {
            rest - 1
        } else {
            0
        };
        let mut picks: Vec<usize> = Vec::new();
        while picks.len() < need
            invariant
                picks@.len() <= need,
                need < usize::MAX,
            decreases need - picks@.len(),
        {
            let p: usize = random_below(picks.len() + 2);
            picks.push(p);
        }
        self.shuffle_with(&picks);
    }
}

/// A queue that is replaced holds the new items and no others, and stands at the
/// place that was asked for, or at the last one.
pub proof fn lemma_replaced(q: QueueView, items: Seq<QueueItem>, start: int)
    requires
        0 <= start,
    ensures
        q.replaced(items, start).items == items,
        q.replaced(items, start).wf(),
        items.len() == 0 <==> q.replaced(items, start).index is None,
        start < items.len() ==> q.replaced(items, start).current() == Some(items[start]),
        0 < items.len() <= start ==> q.replaced(items, start).current() == Some(items.last()),
{
}

/// Items that are added stand behind all others, in their order.
pub proof fn lemma_appended(q: QueueView, items: Seq<QueueItem>)
    requires
        q.wf(),
    ensures
        q.appended(items).items == q.items + items,
        q.items.len() > 0 ==> q.appended(items).index == q.index,
        q.items.len() == 0 && items.len() > 0 ==> q.appended(items).index == Some(0int),
        q.items.len() == 0 && items.len() == 0 ==> q.appended(items).index is None,
{
}

/// A step forward goes on by one and leaves the items alone; behind the last
/// item none is current, and from there it starts with the first.
pub proof fn lemma_advanced(q: QueueView)
    requires
        q.wf(),
    ensures
        q.advanced().items == q.items,
        q.advanced().wf(),
        q.index is Some && q.index->0 + 1 < q.items.len() ==> q.advanced().index == Some(
            q.index->0 + 1,
        ),
        q.index is Some && q.index->0 + 1 == q.items.len() ==> q.advanced().index is None,
        q.index is None && q.items.len() > 0 ==> q.advanced().index == Some(0int),
        q.items.len() == 0 ==> q.advanced().index is None,
{
}

/// A step back goes back by one and leaves the items alone; the first item
/// stays, and where none is current none becomes so.
pub proof fn lemma_stepped_back(q: QueueView)
    requires
        q.wf(),
    ensures
        q.stepped_back().items == q.items,
        q.stepped_back().wf(),
        q.index is Some && q.index->0 > 0 ==> q.stepped_back().index == Some(q.index->0 - 1),
        q.index == Some(0int) ==> q.stepped_back().index == Some(0int),
        q.index is None ==> q.stepped_back().index is None,
{
}

/// A place in the list becomes the current one; one behind the end does not.
pub proof fn lemma_moved_to(q: QueueView, i: int)
    requires
        0 <= i,
    ensures
        q.moved_to(i).items == q.items,
        i < q.items.len() ==> q.moved_to(i).current() == Some(q.items[i]),
        i >= q.items.len() ==> q.moved_to(i) == q,
{
}

/// What is taken out is one item; those before and behind it stay in their
/// order, and where it was the current one its successor is. A place behind the
/// end is none.
pub proof fn lemma_removed(q: QueueView, i: int)
    requires
        q.wf(),
        0 <= i,
    ensures
        i >= q.items.len() ==> q.removed(i) == q,
        i < q.items.len() ==> {
            let r = q.removed(i);
            &&& r.wf()
            &&& r.items == q.items.subrange(0, i) + q.items.subrange(i + 1, q.items.len() as int)
            &&& q.index == Some(i) && i + 1 < q.items.len() ==> r.current() == Some(q.items[i + 1])
            &&& q.index == Some(i) && i + 1 == q.items.len() && i > 0 ==> r.current() == Some(
                q.items[i - 1],
            )
            &&& q.index is Some && q.index->0 > i ==> r.index == Some(q.index->0 - 1)
            &&& q.index is Some && q.index->0 < i ==> r.index == q.index
            &&& q.index is None || q.items.len() == 1 ==> r.index is None
        },
{
    if i < q.items.len() {
        assert(q.removed(i).items =~= q.items.subrange(0, i) + q.items.subrange(
            i + 1,
            q.items.len() as int,
        ));
    }
}

/// Repetition: a single item stays where it is, forward and back; all items go
/// round at either end; without it the ends are ends.
pub proof fn lemma_repeat_modes(q: QueueView)
    requires
        q.wf(),
        q.index is Some,
    ensures
        q.advanced_in(RepeatMode::One) == q,
        q.stepped_back_in(RepeatMode::One) == q,
        q.index->0 + 1 == q.items.len() ==> q.advanced_in(RepeatMode::All).index == Some(0int),
        q.index->0 + 1 == q.items.len() ==> q.advanced_in(RepeatMode::Off).index is None,
        q.index->0 == 0 ==> q.stepped_back_in(RepeatMode::All).index == Some(q.items.len() - 1),
        q.index->0 == 0 ==> q.stepped_back_in(RepeatMode::Off) == q,
        forall|m: RepeatMode|
            m != RepeatMode::One && q.index->0 + 1 < q.items.len()
                ==> #[trigger] q.advanced_in(m).index == Some(q.index->0 + 1),
        forall|m: RepeatMode|
            m != RepeatMode::One && q.index->0 > 0 ==> #[trigger] q.stepped_back_in(m).index == Some(
                q.index->0 - 1,
            ),
        forall|m: RepeatMode| #[trigger] q.advanced_in(m).items == q.items,
        forall|m: RepeatMode| #[trigger] q.stepped_back_in(m).items == q.items,
{
}

/// The cycle begins with all items, then one, then none; and each mode has a
/// name of its own.
pub proof fn lemma_repeat_names(a: RepeatMode, b: RepeatMode)
    ensures
        RepeatMode::Off.successor() == RepeatMode::All,
        RepeatMode::All.successor() == RepeatMode::One,
        a.name() == b.name() ==> a == b,
        RepeatMode::Off.name() == "off"@,
        RepeatMode::One.name() == "one"@,
        RepeatMode::All.name() == "all"@,
{
    reveal_strlit("off");
    reveal_strlit("one");
    reveal_strlit("all");
    assert("off"@[1] == 'f' && "one"@[1] == 'n' && "all"@[1] == 'l');
}

} // verus!
