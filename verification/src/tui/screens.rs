//! The screens, and the rows of the lists on them.

use vstd::prelude::*;

use crate::columns::{
    align_right, blanks, columns, cut, filled, pad_to, right_aligned, spaces, text_columns,
    truncate, truncate_to_width,
};
use crate::models::BaseItem;
use crate::num::{fmt_dur, push_int};
use crate::sort::{stable_sort, str_before, Rank, Ranked};

verus! {

/// A screen.
#[derive(Debug, Clone, Copy, PartialEq, Eq, Structural)]
pub enum Screen {
    Music,
    Videos,
    Playlists,
    Queue,
    Search,
    Devices,
    Settings,
}

impl Screen {
    /// The screens in the order of their tabs.
    pub open spec fn tabs() -> Seq<Screen> {
        seq![
            Screen::Music,
            Screen::Videos,
            Screen::Playlists,
            Screen::Queue,
            Screen::Search,
            Screen::Devices,
            Screen::Settings,
        ]
    }

    /// The place of a screen among the tabs.
    pub open spec fn place(self) -> int {
        match self {
            Screen::Music => 0,
            Screen::Videos => 1,
            Screen::Playlists => 2,
            Screen::Queue => 3,
            Screen::Search => 4,
            Screen::Devices => 5,
            Screen::Settings => 6,
        }
    }

    /// The sign on a screen's tab.
    pub open spec fn sign(self) -> Seq<char> {
        match self {
            Screen::Music => "♪"@,
            Screen::Videos => "▶"@,
            Screen::Playlists => "▤"@,
            Screen::Queue => "≡"@,
            Screen::Search => "⌕"@,
            Screen::Devices => "◈"@,
            Screen::Settings => "⚙"@,
        }
    }

    /// The name on a screen's tab.
    pub open spec fn name(self) -> Seq<char> {
        match self {
            Screen::Music => "Music"@,
            Screen::Videos => "Videos"@,
            Screen::Playlists => "Playlists"@,
            Screen::Queue => "Queue"@,
            Screen::Search => "Search"@,
            Screen::Devices => "Devices"@,
            Screen::Settings => "Settings"@,
        }
    }

    /// All screens, in the order of their tabs.
    pub fn all() -> (r: Vec<Screen>)
        ensures
            r@ == Screen::tabs(),
    {
        let r: Vec<Screen> = vec![
            Screen::Music,
            Screen::Videos,
            Screen::Playlists,
            Screen::Queue,
            Screen::Search,
            Screen::Devices,
            Screen::Settings,
        ];
        proof {
            assert(r@ =~= Screen::tabs());
        }
        r
    }

    pub fn index(&self) -> (r: usize)
        ensures
            r == self.place(),
    {
        match self {
            Screen::Music => 0,
            Screen::Videos => 1,
            Screen::Playlists => 2,
            Screen::Queue => 3,
            Screen::Search => 4,
            Screen::Devices => 5,
            Screen::Settings => 6,
        }
    }

    pub fn icon(&self) -> (r: &'static str)
        ensures
            r@ == self.sign(),
    {
        match self {
            Screen::Music => "♪",
            Screen::Videos => "▶",
            Screen::Playlists => "▤",
            Screen::Queue => "≡",
            Screen::Search => "⌕",
            Screen::Devices => "◈",
            Screen::Settings => "⚙",
        }
    }

    pub fn label(&self) -> (r: &'static str)
        ensures
            r@ == self.name(),
    {
        match self {
            Screen::Music => "Music",
            Screen::Videos => "Videos",
            Screen::Playlists => "Playlists",
            Screen::Queue => "Queue",
            Screen::Search => "Search",
            Screen::Devices => "Devices",
            Screen::Settings => "Settings",
        }
    }

    /// The next screen, round in a circle.
    pub fn next(&self) -> (r: Self)
        ensures
            r == Screen::tabs()[(self.place() + 1) % 7],
    {
        match self {
            Screen::Music => Screen::Videos,
            Screen::Videos => Screen::Playlists,
            Screen::Playlists => Screen::Queue,
            Screen::Queue => Screen::Search,
            Screen::Search => Screen::Devices,
            Screen::Devices => Screen::Settings,
            Screen::Settings => Screen::Music,
        }
    }

    /// The screen before, round in a circle.
    pub fn prev(&self) -> (r: Self)
        ensures
            r == Screen::tabs()[(self.place() + 6) % 7],
    {
        match self {
            Screen::Music => Screen::Settings,
            Screen::Videos => Screen::Music,
            Screen::Playlists => Screen::Videos,
            Screen::Queue => Screen::Playlists,
            Screen::Search => Screen::Queue,
            Screen::Devices => Screen::Search,
            Screen::Settings => Screen::Devices,
        }
    }
}

/// The places are those of the tabs, and a step back undoes a step forward.
pub proof fn lemma_tabs_circle(s: Screen)
    ensures
        Screen::tabs()[s.place()] == s,
        ({
            let next = Screen::tabs()[(s.place() + 1) % 7];
            Screen::tabs()[(next.place() + 6) % 7] == s
        }),
{
}

/// The columns of a list's rows. All rows of a list share them, so that titles,
/// subtitles and times stand below each other.
#[derive(Debug, Clone, Copy, PartialEq, Eq, Structural)]
pub struct RowLayout {
    pub icon_col: usize,
    pub title_col: usize,
    pub gap1: usize,
    pub sub_col: usize,
    pub gap2: usize,
    pub time_col: usize,
}

/// What is left of a row for title and subtitle.
pub open spec fn middle(total: int) -> int {
    if total > 15 {
        total - 15
    } else {
        0
    }
}

impl RowLayout {
    /// The columns of a row that is so wide: the title takes 55 of 100 of the
    /// middle, the subtitle the rest. A narrow row has no subtitle.
    pub open spec fn for_width(total: int) -> RowLayout {
        let mid = middle(total);
        let title = if mid < 30 {
            mid
        } else {
            (mid * 55) / 100
        };
        RowLayout {
            icon_col: 3,
            title_col: title as usize,
            gap1: 2,
            sub_col: (mid - title) as usize,
            gap2: 2,
            time_col: 8,
        }
    }

    /// The columns of a row that is so wide.
    pub fn compute(total: u16) -> (r: Self)
        ensures
            r == RowLayout::for_width(total as int),
    {
        let total: usize = total as usize;
        let mid: usize = if total > 15 {
            total - 15
        } else {
            0
        };
        let title: usize = if mid < 30 {
            mid
        } else {
            (mid * 55) / 100
        };
        RowLayout {
            icon_col: 3,
            title_col: title,
            gap1: 2,
            sub_col: mid - title,
            gap2: 2,
            time_col: 8,
        }
    }
}

/// The columns fill a row that is wide enough exactly, and no row more than
/// its icon, gaps and time need.
pub proof fn lemma_layout_fills(total: u16)
    ensures
        ({
            let l = RowLayout::for_width(total as int);
            let sum = l.icon_col + l.title_col + l.gap1 + l.sub_col + l.gap2 + l.time_col;
            sum == (if total >= 15 {
                total as int
            } else {
                15
            })
        }),
{
}

/// How a row is painted.
#[derive(Debug, Clone, Copy, PartialEq, Eq, Structural)]
pub enum RowLook {
    Playing,
    Selected,
    Plain,
}

/// The cells of a row.
#[derive(Debug)]
pub struct Row {
    pub look: RowLook,
    pub icon: String,
    /// The number of a track, on the rows of an album.
    pub number: String,
    pub title: String,
    pub gap1: String,
    pub sub: String,
    pub gap2: String,
    pub time: String,
}

/// The cells of a row, by what they hold.
pub ghost struct RowView {
    pub look: RowLook,
    pub icon: Seq<char>,
    pub number: Seq<char>,
    pub title: Seq<char>,
    pub gap1: Seq<char>,
    pub sub: Seq<char>,
    pub gap2: Seq<char>,
    pub time: Seq<char>,
}

impl View for Row {
    type V = RowView;

    open spec fn view(&self) -> RowView {
        RowView {
            look: self.look,
            icon: self.icon@,
            number: self.number@,
            title: self.title@,
            gap1: self.gap1@,
            sub: self.sub@,
            gap2: self.gap2@,
            time: self.time@,
        }
    }
}

/// An item's length on a row.
pub open spec fn time_text(item: BaseItem) -> Seq<char> {
    match item.run_time_ticks {
        Some(t) => crate::num::short_time(crate::models::ticks_to_secs(t as int) as nat),
        None => Seq::empty(),
    }
}

fn time_of(item: &BaseItem) -> (r: String)
    ensures
        r@ == time_text(*item),
{
    match item.duration_secs() {
        Some(s) => fmt_dur(s),
        None => {
            let r: String = String::new();
            proof {
                assert(r@ =~= Seq::empty());
            }
            r
        },
    }
}

/// A text cut and filled up to so many columns, by the widths of characters as
/// texts.
pub open spec fn cell(s: Seq<char>, cols: int) -> Seq<char> {
    let c = cut(s, text_columns(s) as int, crate::columns::single_widths(s), cols);
    filled(c, text_columns(c) as int, cols)
}

/// The same by the widths of characters.
pub open spec fn char_cell(s: Seq<char>, cols: int) -> Seq<char> {
    let c = cut(s, text_columns(s) as int, crate::columns::char_widths(s), cols);
    filled(c, text_columns(c) as int, cols)
}

/// The row of an item in a list.
pub open spec fn item_row(
    item: BaseItem,
    selected: bool,
    now_playing: bool,
    layout: RowLayout,
) -> RowView {
    let icon = " "@ + (if now_playing {
        "▶"@
    } else {
        item@.kind().sign()
    }) + " "@;
    RowView {
        look: if now_playing {
            RowLook::Playing
        } else if selected {
            RowLook::Selected
        } else {
            RowLook::Plain
        },
        icon: filled(icon, text_columns(icon) as int, layout.icon_col as int),
        number: Seq::empty(),
        title: cell(item@.name, layout.title_col as int),
        gap1: blanks(layout.gap1 as nat),
        sub: if layout.sub_col > 0 {
            cell(item@.line(), layout.sub_col as int)
        } else {
            Seq::empty()
        },
        gap2: blanks(layout.gap2 as nat),
        time: right_aligned(
            time_text(item),
            text_columns(time_text(item)) as int,
            layout.time_col as int,
        ),
    }
}

fn nothing() -> (r: String)
    ensures
        r@ == Seq::<char>::empty(),
{
    let r: String = String::new();
    proof {
        assert(r@ =~= Seq::empty());
    }
    r
}

/// The row of an item in a list. The one that plays has a sign of its own.
pub fn item_row_line(item: &BaseItem, selected: bool, now_playing: bool, layout: RowLayout) -> (r:
    Row)
    ensures
        r@ == item_row(*item, selected, now_playing, layout),
{
    let mut icon: String = " ".to_owned();
    if now_playing {
        icon.push_str("▶");
    } else {
        icon.push_str(item.kind().icon());
    }
    icon.push_str(" ");
    let title: String = truncate(item.name.as_str(), layout.title_col);
    let sub: String = if layout.sub_col > 0 {
        let line: String = item.subtitle();
        let line: String = truncate(line.as_str(), layout.sub_col);
        pad_to(line.as_str(), layout.sub_col)
    } else {
        nothing()
    };
    let time: String = time_of(item);
    Row {
        look: if now_playing {
            RowLook::Playing
        } else if selected {
            RowLook::Selected
        } else {
            RowLook::Plain
        },
        icon: pad_to(icon.as_str(), layout.icon_col),
        number: nothing(),
        title: pad_to(title.as_str(), layout.title_col),
        gap1: spaces(layout.gap1),
        sub,
        gap2: spaces(layout.gap2),
        time: align_right(time.as_str(), layout.time_col),
    }
}

// ---------------------------------------------------------------------------
// Albums
// ---------------------------------------------------------------------------

/// A number that may be missing; then it is larger than all others.
pub open spec fn or_last(n: Option<i32>) -> int {
    match n {
        Some(i) => i as int,
        None => i32::MAX as int,
    }
}

fn last_if_missing(n: Option<i32>) -> (r: i32)
    ensures
        r == or_last(n),
{
    match n {
        Some(i) => i,
        None => i32::MAX,
    }
}

impl Ranked for BaseItem {
    /// Tracks go by disc, then by number, then by name; what lacks a number
    /// comes after what has one.
    open spec fn rank(&self) -> Rank {
        Rank {
            first: or_last(self.parent_index_number),
            second: or_last(self.index_number),
            name: self.name@,
        }
    }

    fn before(&self, other: &Self) -> (r: bool) {
        let d1: i32 = last_if_missing(self.parent_index_number);
        let d2: i32 = last_if_missing(other.parent_index_number);
        if d1 != d2 {
            return d1 < d2;
        }
        let t1: i32 = last_if_missing(self.index_number);
        let t2: i32 = last_if_missing(other.index_number);
        if t1 != t2 {
            return t1 < t2;
        }
        str_before(self.name.as_str(), other.name.as_str())
    }
}

/// Sorts the tracks of an album by disc, number and name. Equal tracks keep
/// their order.
pub fn sort_album_tracks(items: &mut Vec<BaseItem>)
    ensures
        crate::sort::sorts(old(items)@, final(items)@),
{
    stable_sort(items);
}

/// A row of an album: the heading of a disc, or a track.
#[derive(Debug, Clone, Copy, PartialEq, Eq, Structural)]
pub enum AlbumRow {
    Disc(i32),
    Track(usize),
}

/// The disc of a track; one that is not told is the first.
pub open spec fn disc_of(t: BaseItem) -> i32 {
    match t.parent_index_number {
        Some(d) => d,
        None => 1,
    }
}

/// There is more than one disc.
pub open spec fn many_discs(tracks: Seq<BaseItem>) -> bool {
    exists|i: int, j: int|
        0 <= i < tracks.len() && 0 <= j < tracks.len() && disc_of(#[trigger] tracks[i])
            != disc_of(#[trigger] tracks[j])
}

/// The rows of an album: a heading wherever a disc begins, where there are
/// headings, and the tracks.
pub open spec fn album_rows_of(tracks: Seq<BaseItem>, headings: bool) -> Seq<AlbumRow>
    decreases tracks.len(),
{
    if tracks.len() == 0 {
        Seq::empty()
    } else {
        let n = tracks.len() - 1;
        let above = album_rows_of(tracks.drop_last(), headings);
        let disc = disc_of(tracks.last());
        if headings && (n == 0 || disc_of(tracks[n - 1]) != disc) {
            above.push(AlbumRow::Disc(disc)).push(AlbumRow::Track(n as usize))
        } else {
            above.push(AlbumRow::Track(n as usize))
        }
    }
}

/// The rows of an album, and where each track stands among them.
#[derive(Debug)]
pub struct AlbumRows {
    pub rows: Vec<AlbumRow>,
    pub row_of_track: Vec<usize>,
}

fn disc_number(t: &BaseItem) -> (r: i32)
    ensures
        r == disc_of(*t),
{
    match t.parent_index_number {
        Some(d) => d,
        None => 1,
    }
}

fn has_many_discs(tracks: &Vec<BaseItem>) -> (r: bool)
    ensures
        r == many_discs(tracks@),
{
    if tracks.len() == 0 {
        return false;
    }
    let first: i32 = disc_number(&tracks[0]);
    let mut i: usize = 1;
    while i < tracks.len()
        invariant
            1 <= i <= tracks@.len(),
            first == disc_of(tracks@[0]),
            forall|j: int| 0 <= j < i ==> disc_of(#[trigger] tracks@[j]) == first,
        decreases tracks@.len() - i,
    {
        if disc_number(&tracks[i]) != first {
            proof {
                assert(disc_of(tracks@[0]) != disc_of(tracks@[i as int]));
            }
            return true;
        }
        i += 1;
    }
    false
}

/// Lays out the rows of an album. Headings are shown only where there is more
/// than one disc.
pub fn album_rows(tracks: &Vec<BaseItem>) -> (r: AlbumRows)
    ensures
        r.rows@ == album_rows_of(tracks@, many_discs(tracks@)),
        r.row_of_track@.len() == tracks@.len(),
        forall|i: int|
            0 <= i < tracks@.len() ==> (#[trigger] r.row_of_track@[i]) < r.rows@.len()
                && r.rows@[r.row_of_track@[i] as int] == AlbumRow::Track(i as usize),
{
    let headings: bool = has_many_discs(tracks);
    let mut rows: Vec<AlbumRow> = Vec::new();
    let mut row_of_track: Vec<usize> = Vec::new();
    let mut i: usize = 0;
    proof {
        assert(album_rows_of(tracks@.take(0), headings) =~= rows@);
    }
    while i < tracks.len()
        invariant
            i <= tracks@.len(),
            rows@ == album_rows_of(tracks@.take(i as int), headings),
            row_of_track@.len() == i,
            forall|j: int|
                0 <= j < i ==> (#[trigger] row_of_track@[j]) < rows@.len()
                    && rows@[row_of_track@[j] as int] == AlbumRow::Track(j as usize),
        decreases tracks@.len() - i,
    {
        let disc: i32 = disc_number(&tracks[i]);
        proof {
            let t = tracks@.take(i as int + 1);
            assert(t.drop_last() =~= tracks@.take(i as int));
            assert(t.last() == tracks@[i as int]);
            assert(i > 0 ==> t[i - 1] == tracks@[i - 1]);
        }
        if headings && (i == 0 || disc_number(&tracks[i - 1]) != disc) {
            rows.push(AlbumRow::Disc(disc));
        }
        row_of_track.push(rows.len());
        rows.push(AlbumRow::Track(i));
        i += 1;
    }
    proof {
        assert(tracks@.take(i as int) =~= tracks@);
    }
    AlbumRows { rows, row_of_track }
}

/// The row that is marked where a track is selected; a selection behind the
/// end means the last track.
pub fn marked_row(rows: &AlbumRows, selected: Option<usize>) -> (r: Option<usize>)
    ensures
        r == ({
            let n = rows.row_of_track@.len() as int;
            let s = match selected {
                Some(i) => i as int,
                None => 0,
            };
            if n == 0 {
                None
            } else if s < n {
                Some(rows.row_of_track@[s])
            } else {
                Some(rows.row_of_track@[n - 1])
            }
        }),
{
    let n: usize = rows.row_of_track.len();
    if n == 0 {
        return None;
    }
    let s: usize = match selected {
        Some(i) => i,
        None => 0,
    };
    if s < n {
        Some(rows.row_of_track[s])
    } else {
        Some(rows.row_of_track[n - 1])
    }
}

/// The rows of an album hold every track once, in order, whatever the headings.
pub proof fn lemma_rows_hold_tracks(tracks: Seq<BaseItem>, headings: bool)
    requires
        tracks.len() <= usize::MAX,
    ensures
        album_rows_of(tracks, headings).filter(|r: AlbumRow| r is Track) == Seq::new(
            tracks.len(),
            |i: int| AlbumRow::Track(i as usize),
        ),
        !headings ==> album_rows_of(tracks, headings).len() == tracks.len(),
    decreases tracks.len(),
{
    reveal(Seq::filter);
    let p = |r: AlbumRow| r is Track;
    if tracks.len() > 0 {
        lemma_rows_hold_tracks(tracks.drop_last(), headings);
        let n = tracks.len() - 1;
        let above = album_rows_of(tracks.drop_last(), headings);
        let disc = disc_of(tracks.last());
        let mid = above.push(AlbumRow::Disc(disc));
        assert(mid.drop_last() =~= above);
        assert(mid.filter(p) =~= above.filter(p));
        assert(mid.push(AlbumRow::Track(n as usize)).drop_last() =~= mid);
        assert(above.push(AlbumRow::Track(n as usize)).drop_last() =~= above);
        assert(album_rows_of(tracks, headings).filter(p) =~= Seq::new(
            tracks.len(),
            |i: int| AlbumRow::Track(i as usize),
        ));
    } else {
        assert(album_rows_of(tracks, headings).filter(p) =~= Seq::new(
            tracks.len(),
            |i: int| AlbumRow::Track(i as usize),
        ));
    }
}

/// The largest number of a track, but at least one.
pub open spec fn largest_number(tracks: Seq<BaseItem>) -> int
    decreases tracks.len(),
{
    if tracks.len() == 0 {
        1
    } else {
        let rest = largest_number(tracks.drop_last());
        match tracks.last().index_number {
            Some(n) => if n > rest {
                n as int
            } else {
                rest
            },
            None => rest,
        }
    }
}

/// The digits of a number in decimal.
pub open spec fn digits(n: nat) -> nat {
    crate::num::dec(n).len()
}

/// The columns that the numbers of an album's tracks take: as many as the
/// largest needs, but at least two.
pub fn number_width(tracks: &Vec<BaseItem>) -> (r: usize)
    ensures
        r == (if digits(largest_number(tracks@) as nat) < 2 {
            2
        } else {
            digits(largest_number(tracks@) as nat)
        }),
{
    let mut largest: i32 = 1;
    let mut i: usize = 0;
    while i < tracks.len()
        invariant
            i <= tracks@.len(),
            largest == largest_number(tracks@.take(i as int)),
            largest >= 1,
        decreases tracks@.len() - i,
    {
        proof {
            let t = tracks@.take(i as int + 1);
            assert(t.drop_last() =~= tracks@.take(i as int));
            assert(t.last() == tracks@[i as int]);
        }
        if let Some(n) = tracks[i].index_number {
            if n > largest {
                largest = n;
            }
        }
        i += 1;
    }
    proof {
        assert(tracks@.take(i as int) =~= tracks@);
    }
    let mut width: usize = 1;
    let mut rest: u32 = largest as u32;
    while rest >= 10
        invariant
            1 <= width,
            width + rest <= 0xffff_ffff,
            width + digits(rest as nat) == 1 + digits(largest as nat),
        decreases rest,
    {
        rest = rest / 10;
        width += 1;
    }
    if width < 2 {
        2
    } else {
        width
    }
}

/// A track's number on its row.
pub open spec fn number_text(n: Option<i32>, width: int) -> Seq<char> {
    match n {
        Some(i) => {
            let d = crate::num::dec_int(i as int);
            blanks(
                if d.len() < width {
                    (width - d.len()) as nat
                } else {
                    0
                },
            ) + d + ". "@
        },
        None => blanks(width as nat) + "  "@,
    }
}

fn number_cell(n: Option<i32>, width: usize) -> (r: String)
    ensures
        r@ == number_text(n, width as int),
{
    match n {
        Some(i) => {
            let mut d: String = String::new();
            push_int(&mut d, i as i64);
            proof {
                assert(d@ =~= crate::num::dec_int(i as int));
            }
            let ds: Vec<char> = crate::text::chars(d.as_str());
            let len: usize = ds.len();
            let mut r: String = spaces(
                if len < width {
                    width - len
                } else {
                    0
                },
            );
            r.push_str(d.as_str());
            r.push_str(". ");
            r
        },
        None => {
            let mut r: String = spaces(width);
            r.push_str("  ");
            r
        },
    }
}

/// The row of a track on its album: as in a list, with its number before the
/// title, at the cost of the title's columns.
pub open spec fn track_row(
    track: BaseItem,
    selected: bool,
    layout: RowLayout,
    width: int,
) -> RowView {
    let number = number_text(track.index_number, width);
    let taken = text_columns(number) as int;
    let room = if layout.title_col > taken {
        layout.title_col - taken
    } else {
        0
    };
    RowView {
        look: if selected {
            RowLook::Selected
        } else {
            RowLook::Plain
        },
        icon: " ♪ "@,
        number,
        title: char_cell(track@.name, room),
        gap1: blanks(layout.gap1 as nat),
        sub: if layout.sub_col > 0 {
            char_cell(track@.line(), layout.sub_col as int)
        } else {
            Seq::empty()
        },
        gap2: blanks(layout.gap2 as nat),
        time: right_aligned(
            time_text(track),
            text_columns(time_text(track)) as int,
            layout.time_col as int,
        ),
    }
}

/// The row of a track on its album.
pub fn album_track_row(track: &BaseItem, selected: bool, layout: RowLayout, tn_width: usize) -> (r:
    Row)
    ensures
        r@ == track_row(*track, selected, layout, tn_width as int),
{
    let number: String = number_cell(track.index_number, tn_width);
    let taken: usize = columns(number.as_str());
    let room: usize = if layout.title_col > taken {
        layout.title_col - taken
    } else {
        0
    };
    let title: String = truncate_to_width(track.name.as_str(), room);
    let sub: String = if layout.sub_col > 0 {
        let line: String = track.subtitle();
        let line: String = truncate_to_width(line.as_str(), layout.sub_col);
        pad_to(line.as_str(), layout.sub_col)
    } else {
        nothing()
    };
    let time: String = time_of(track);
    Row {
        look: if selected {
            RowLook::Selected
        } else {
            RowLook::Plain
        },
        icon: " ♪ ".to_owned(),
        number,
        title: pad_to(title.as_str(), room),
        gap1: spaces(layout.gap1),
        sub,
        gap2: spaces(layout.gap2),
        time: align_right(time.as_str(), layout.time_col),
    }
}

/// The tabs stand in one order, and carry the names of their screens; no two
/// have one name.
pub proof fn lemma_tab_names(a: Screen, b: Screen)
    ensures
        Screen::tabs().len() == 7,
        Screen::tabs()[0] == Screen::Music,
        Screen::tabs()[1] == Screen::Videos,
        Screen::tabs()[2] == Screen::Playlists,
        Screen::tabs()[3] == Screen::Queue,
        Screen::tabs()[4] == Screen::Search,
        Screen::tabs()[5] == Screen::Devices,
        Screen::tabs()[6] == Screen::Settings,
        0 <= a.place() < 7,
        a.place() == b.place() ==> a == b,
        Screen::Music.name() == "Music"@,
        Screen::Videos.name() == "Videos"@,
        Screen::Playlists.name() == "Playlists"@,
        Screen::Queue.name() == "Queue"@,
        Screen::Search.name() == "Search"@,
        Screen::Devices.name() == "Devices"@,
        Screen::Settings.name() == "Settings"@,
{
}

/// The tracks of an album go by disc, then by number; a track without a number
/// stands behind those of its disc that have one, and one without a disc behind
/// all others.
pub proof fn lemma_tracks_ordered(before: Seq<BaseItem>, after: Seq<BaseItem>, i: int, j: int)
    requires
        crate::sort::sorts(before, after),
        0 <= i < j < after.len(),
    ensures
        after[i].parent_index_number is Some && after[j].parent_index_number is Some
            ==> after[i].parent_index_number->0 <= after[j].parent_index_number->0,
        after[i].parent_index_number == after[j].parent_index_number && after[i].index_number
            is Some && after[j].index_number is Some ==> after[i].index_number->0
            <= after[j].index_number->0,
        after[i].parent_index_number == after[j].parent_index_number && after[i].index_number
            is None && after[j].index_number is Some ==> after[j].index_number->0 == i32::MAX,
        after[i].parent_index_number is None && after[j].parent_index_number is Some
            ==> after[j].parent_index_number->0 == i32::MAX,
        after.to_multiset() == before.to_multiset(),
{
    crate::sort::lemma_sorted(before, after, i, j);
}

/// The row of an item shows its name, its line and its length; the one that
/// plays has a mark of its own, and the one that is selected looks selected.
pub proof fn lemma_row_shows(item: BaseItem, selected: bool, now_playing: bool, layout: RowLayout)
    ensures
        ({
            let r = item_row(item, selected, now_playing, layout);
            &&& now_playing ==> r.look == RowLook::Playing
            &&& !now_playing && selected ==> r.look == RowLook::Selected
            &&& !now_playing && !selected ==> r.look == RowLook::Plain
            &&& r.title == cell(item.name@, layout.title_col as int)
            &&& layout.sub_col > 0 ==> r.sub == cell(item@.line(), layout.sub_col as int)
            &&& r.time == right_aligned(
                time_text(item),
                text_columns(time_text(item)) as int,
                layout.time_col as int,
            )
            &&& r.gap1 == blanks(layout.gap1 as nat)
            &&& r.number.len() == 0
        }),
        ({
            let r = track_row(item, selected, layout, 2);
            &&& r.look == (if selected {
                RowLook::Selected
            } else {
                RowLook::Plain
            })
            &&& r.number == number_text(item.index_number, 2)
        }),
        item.run_time_ticks is None ==> time_text(item).len() == 0,
        item.run_time_ticks is Some && item.run_time_ticks->0 >= 0 ==> time_text(item)
            == crate::num::short_time((item.run_time_ticks->0 as int / 10_000_000) as nat),
{
}

/// A wide row gives the title a little more than half of what is left beside
/// the icon, the gaps and the time; a narrow one gives it all.
pub proof fn lemma_title_share(total: u16)
    ensures
        ({
            let l = RowLayout::for_width(total as int);
            &&& l.icon_col == 3
            &&& l.time_col == 8
            &&& l.gap1 == 2 && l.gap2 == 2
            &&& total < 45 ==> l.sub_col == 0
            &&& total >= 45 ==> l.title_col >= l.sub_col && l.sub_col > 0
            &&& total >= 45 ==> 100 * l.title_col <= 55 * (total - 15) < 100 * (l.title_col + 1)
        }),
{
}

/// The largest number of a track is that of one of them, or one, and none is
/// larger.
pub proof fn lemma_largest_number(tracks: Seq<BaseItem>, i: int)
    requires
        0 <= i < tracks.len(),
    ensures
        largest_number(tracks) >= 1,
        tracks[i].index_number is Some ==> tracks[i].index_number->0 <= largest_number(tracks),
        largest_number(tracks) == 1 || exists|k: int|
            0 <= k < tracks.len() && (#[trigger] tracks[k]).index_number is Some
                && tracks[k].index_number->0 == largest_number(tracks),
    decreases tracks.len(),
{
    let rest = tracks.drop_last();
    if rest.len() == 0 {
        assert(largest_number(rest) == 1);
        assert(tracks.last() == tracks[0]);
    } else {
        let k = if i < rest.len() {
            i
        } else {
            0
        };
        lemma_largest_number(rest, k);
        if i < rest.len() {
            assert(rest[i] == tracks[i]);
        }
        assert(tracks.last() == tracks[tracks.len() - 1]);
        if largest_number(rest) != 1 {
            let w = choose|w: int|
                0 <= w < rest.len() && (#[trigger] rest[w]).index_number is Some
                    && rest[w].index_number->0 == largest_number(rest);
            assert(tracks[w] == rest[w]);
        }
    }
}

/// A track's number ends with a point, and stands at the right of its columns;
/// one that is missing leaves them blank.
pub proof fn lemma_number_cell(n: i32, width: nat)
    ensures
        number_text(Some(n), width as int) == blanks(
            if crate::num::dec_int(n as int).len() < width {
                (width - crate::num::dec_int(n as int).len()) as nat
            } else {
                0
            },
        ) + crate::num::dec_int(n as int) + ". "@,
        number_text(None, width as int) == blanks(width) + "  "@,
{
}

/// Every disc of an album with more than one has a heading right above its first
/// track; with one disc there is none.
pub proof fn lemma_headings(tracks: Seq<BaseItem>, i: int)
    requires
        0 <= i < tracks.len() <= usize::MAX,
        i == 0 || disc_of(tracks[i - 1]) != disc_of(tracks[i]),
    ensures
        exists|k: int|
            0 <= k && k + 1 < album_rows_of(tracks, true).len() && #[trigger] album_rows_of(
                tracks,
                true,
            )[k] == AlbumRow::Disc(disc_of(tracks[i])) && album_rows_of(tracks, true)[k + 1]
                == AlbumRow::Track(i as usize),
    decreases tracks.len(),
{
    let rest = tracks.drop_last();
    let all = album_rows_of(tracks, true);
    let above = album_rows_of(rest, true);
    if i == tracks.len() - 1 {
        assert(tracks.last() == tracks[i]);
        let k = above.len() as int;
        assert(all[k] == AlbumRow::Disc(disc_of(tracks[i])));
        assert(all[k + 1] == AlbumRow::Track(i as usize));
    } else {
        assert(rest[i] == tracks[i]);
        if i > 0 {
            assert(rest[i - 1] == tracks[i - 1]);
        }
        lemma_headings(rest, i);
        let k = choose|k: int|
            0 <= k && k + 1 < above.len() && #[trigger] above[k] == AlbumRow::Disc(
                disc_of(rest[i]),
            ) && above[k + 1] == AlbumRow::Track(i as usize);
        assert(all[k] == above[k]);
        assert(all[k + 1] == above[k + 1]);
    }
}

/// The disc of a track is the one that is told, or the first.
pub proof fn lemma_disc_told(t: BaseItem)
    ensures
        t.parent_index_number is Some ==> disc_of(t) == t.parent_index_number->0,
        t.parent_index_number is None ==> disc_of(t) == 1,
{
}

} // verus!
