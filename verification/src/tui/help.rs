//! The shortcuts that the help shows, and how it lays them out.

use vstd::prelude::*;

use crate::columns::{blanks, columns, spaces};

verus! {

/// A key, or several, and what it does.
#[derive(Debug, Clone, Copy)]
pub struct HelpEntry {
    pub key: &'static str,
    pub description: &'static str,
}

/// The shortcuts that belong together.
#[derive(Debug)]
pub struct HelpSection {
    pub title: &'static str,
    pub entries: Vec<HelpEntry>,
}

/// A section as a value: its title, then its keys with what each does.
pub ghost struct SectionView {
    pub title: Seq<char>,
    pub entries: Seq<(Seq<char>, Seq<char>)>,
}

/// What entries hold.
pub open spec fn entry_views(v: Seq<HelpEntry>) -> Seq<(Seq<char>, Seq<char>)> {
    v.map_values(|e: HelpEntry| (e.key@, e.description@))
}

impl View for HelpSection {
    type V = SectionView;

    open spec fn view(&self) -> SectionView {
        SectionView { title: self.title@, entries: entry_views(self.entries@) }
    }
}

/// What sections hold.
pub open spec fn section_views(v: Seq<HelpSection>) -> Seq<SectionView> {
    v.map_values(|s: HelpSection| s@)
}

fn entry(v: &mut Vec<HelpEntry>, key: &'static str, description: &'static str)
    ensures
        entry_views(final(v)@) == entry_views(old(v)@).push((key@, description@)),
{
    let ghost before = v@;
    v.push(HelpEntry { key, description });
    proof {
        assert(entry_views(v@) =~= entry_views(before).push((key@, description@)));
    }
}

fn no_entries() -> (r: Vec<HelpEntry>)
    ensures
        entry_views(r@) == Seq::<(Seq<char>, Seq<char>)>::empty(),
{
    let r: Vec<HelpEntry> = Vec::new();
    proof {
        assert(entry_views(r@) =~= Seq::<(Seq<char>, Seq<char>)>::empty());
    }
    r
}

/// The section `Navigation`.
#[verifier::opaque]
pub open spec fn navigation() -> SectionView {
    SectionView {
        title: "Navigation"@,
        entries: seq![
            ("Tab / Shift+Tab"@, "next / prev screen"@),
            ("1 … 8"@, "jump to Music / Videos / Playlists / Favorites / Queue / Search / Devices / Settings"@),
            ("↑ ↓ / k j"@, "move selection"@),
            ("PgUp / PgDown"@, "jump 10 rows"@),
            ("Enter"@, "drill in / play leaf / connect (Devices) / switch server (Settings)"@),
            ("Esc"@, "pop drill-in, close search or this help"@),
            ("/"@, "focus Search input"@),
            ("r"@, "refresh current screen"@),
            ("t"@, "cycle to next saved server (Jellyfin or Subsonic)"@),
            ("m"@, "switch to local (symphonia + mpv) renderer"@),
            ("q / Ctrl+C"@, "quit"@),
        ],
    }
}

fn navigation_section() -> (r: HelpSection)
    ensures
        r@ == navigation(),
{
    let mut v: Vec<HelpEntry> = no_entries();
    entry(&mut v, "Tab / Shift+Tab", "next / prev screen");
    entry(&mut v, "1 … 8", "jump to Music / Videos / Playlists / Favorites / Queue / Search / Devices / Settings");
    entry(&mut v, "↑ ↓ / k j", "move selection");
    entry(&mut v, "PgUp / PgDown", "jump 10 rows");
    entry(&mut v, "Enter", "drill in / play leaf / connect (Devices) / switch server (Settings)");
    entry(&mut v, "Esc", "pop drill-in, close search or this help");
    entry(&mut v, "/", "focus Search input");
    entry(&mut v, "r", "refresh current screen");
    entry(&mut v, "t", "cycle to next saved server (Jellyfin or Subsonic)");
    entry(&mut v, "m", "switch to local (symphonia + mpv) renderer");
    entry(&mut v, "q / Ctrl+C", "quit");
    proof {
        reveal(navigation);
        assert(entry_views(v@) =~= navigation().entries);
    }
    HelpSection { title: "Navigation", entries: v }
}

/// The section `Playback`.
#[verifier::opaque]
pub open spec fn playback() -> SectionView {
    SectionView {
        title: "Playback"@,
        entries: seq![
            ("x"@, "play the highlighted container without drilling in"@),
            ("a"@, "enqueue the highlighted item"@),
            ("n"@, "play the highlighted item next"@),
            ("Space / p"@, "pause / resume"@),
            ("s"@, "stop"@),
            ("< / > (or h / l)"@, "previous / next track"@),
            ("+ / −"@, "volume up / down"@),
            ("Shift+L"@, "like — favorite/star the highlighted item (or the playing track)"@),
            ("Shift+D"@, "dislike — remove it from favorites"@),
        ],
    }
}

fn playback_section() -> (r: HelpSection)
    ensures
        r@ == playback(),
{
    let mut v: Vec<HelpEntry> = no_entries();
    entry(&mut v, "x", "play the highlighted container without drilling in");
    entry(&mut v, "a", "enqueue the highlighted item");
    entry(&mut v, "n", "play the highlighted item next");
    entry(&mut v, "Space / p", "pause / resume");
    entry(&mut v, "s", "stop");
    entry(&mut v, "< / > (or h / l)", "previous / next track");
    entry(&mut v, "+ / −", "volume up / down");
    entry(&mut v, "Shift+L", "like — favorite/star the highlighted item (or the playing track)");
    entry(&mut v, "Shift+D", "dislike — remove it from favorites");
    proof {
        reveal(playback);
        assert(entry_views(v@) =~= playback().entries);
    }
    HelpSection { title: "Playback", entries: v }
}

/// The section `Queue screen`.
#[verifier::opaque]
pub open spec fn queue_screen() -> SectionView {
    SectionView {
        title: "Queue screen"@,
        entries: seq![
            ("Enter"@, "jump playhead to the highlighted entry (preserves the queue)"@),
            ("d"@, "remove the highlighted entry"@),
            ("Shift+C"@, "clear the whole queue"@),
        ],
    }
}

fn queue_screen_section() -> (r: HelpSection)
    ensures
        r@ == queue_screen(),
{
    let mut v: Vec<HelpEntry> = no_entries();
    entry(&mut v, "Enter", "jump playhead to the highlighted entry (preserves the queue)");
    entry(&mut v, "d", "remove the highlighted entry");
    entry(&mut v, "Shift+C", "clear the whole queue");
    proof {
        reveal(queue_screen);
        assert(entry_views(v@) =~= queue_screen().entries);
    }
    HelpSection { title: "Queue screen", entries: v }
}

/// The section `Modes & effects`.
#[verifier::opaque]
pub open spec fn effects() -> SectionView {
    SectionView {
        title: "Modes & effects"@,
        entries: seq![
            ("z"@, "toggle shuffle"@),
            ("Shift+R"@, "cycle repeat mode: off → all → one"@),
            ("g"@, "cycle ReplayGain: off → track → album"@),
            ("f"@, "cycle crossfade mode: off → crossfade → mixed"@),
            ("Shift+F"@, "cycle crossfade duration (3, 5, 8, 12 s)"@),
        ],
    }
}

fn effects_section() -> (r: HelpSection)
    ensures
        r@ == effects(),
{
    let mut v: Vec<HelpEntry> = no_entries();
    entry(&mut v, "z", "toggle shuffle");
    entry(&mut v, "Shift+R", "cycle repeat mode: off → all → one");
    entry(&mut v, "g", "cycle ReplayGain: off → track → album");
    entry(&mut v, "f", "cycle crossfade mode: off → crossfade → mixed");
    entry(&mut v, "Shift+F", "cycle crossfade duration (3, 5, 8, 12 s)");
    proof {
        reveal(effects);
        assert(entry_views(v@) =~= effects().entries);
    }
    HelpSection { title: "Modes & effects", entries: v }
}

/// The section `Equalizer & tone (Settings screen)`.
#[verifier::opaque]
pub open spec fn tone() -> SectionView {
    SectionView {
        title: "Equalizer & tone (Settings screen)"@,
        entries: seq![
            ("Shift+E"@, "toggle the 10-band Rockbox EQ"@),
            ("[ / ]"@, "select previous / next EQ band"@),
            ("Shift+↑ / Shift+↓"@, "nudge selected band's gain by ±1 dB"@),
            ("b / Shift+B"@, "bass shelf −1 dB / +1 dB"@),
            ("y / Shift+Y"@, "treble shelf −1 dB / +1 dB"@),
        ],
    }
}

fn tone_section() -> (r: HelpSection)
    ensures
        r@ == tone(),
{
    let mut v: Vec<HelpEntry> = no_entries();
    entry(&mut v, "Shift+E", "toggle the 10-band Rockbox EQ");
    entry(&mut v, "[ / ]", "select previous / next EQ band");
    entry(&mut v, "Shift+↑ / Shift+↓", "nudge selected band's gain by ±1 dB");
    entry(&mut v, "b / Shift+B", "bass shelf −1 dB / +1 dB");
    entry(&mut v, "y / Shift+Y", "treble shelf −1 dB / +1 dB");
    proof {
        reveal(tone);
        assert(entry_views(v@) =~= tone().entries);
    }
    HelpSection { title: "Equalizer & tone (Settings screen)", entries: v }
}

/// The section `Help`.
#[verifier::opaque]
pub open spec fn about_help() -> SectionView {
    SectionView {
        title: "Help"@,
        entries: seq![
            ("?"@, "show / hide this help"@),
        ],
    }
}

fn about_help_section() -> (r: HelpSection)
    ensures
        r@ == about_help(),
{
    let mut v: Vec<HelpEntry> = no_entries();
    entry(&mut v, "?", "show / hide this help");
    proof {
        reveal(about_help);
        assert(entry_views(v@) =~= about_help().entries);
    }
    HelpSection { title: "Help", entries: v }
}

/// All shortcuts, section by section.
pub open spec fn help() -> Seq<SectionView> {
    seq![navigation(), playback(), queue_screen(), effects(), tone(), about_help()]
}

/// All shortcuts, section by section.
pub fn help_sections() -> (r: Vec<HelpSection>)
    ensures
        section_views(r@) == help(),
{
    let r: Vec<HelpSection> = vec![
        navigation_section(),
        playback_section(),
        queue_screen_section(),
        effects_section(),
        tone_section(),
        about_help_section(),
    ];
    proof {
        assert(section_views(r@) =~= help());
    }
    r
}

/// Every section has entries, and the key that opens and closes the help is
/// among them.
pub proof fn lemma_help_complete()
    ensures
        forall|i: int| 0 <= i < help().len() ==> (#[trigger] help()[i]).entries.len() > 0,
        exists|i: int, j: int|
            0 <= i < help().len() && 0 <= j < help()[i].entries.len()
                && (#[trigger] help()[i].entries[j]).0 == "?"@,
{
    reveal(navigation);
    reveal(playback);
    reveal(queue_screen);
    reveal(effects);
    reveal(tone);
    reveal(about_help);
    assert(help()[5].entries[0].0 == "?"@);
}

/// A row of the help.
#[derive(Debug)]
pub enum HelpLine {
    /// An empty row between two sections.
    Blank,
    /// The title of a section.
    Title(&'static str),
    /// A key, the spaces that fill its column, and what it does.
    Entry(&'static str, usize, &'static str),
}

/// A row as a value.
pub ghost enum HelpLineView {
    Blank,
    Title(Seq<char>),
    Entry(Seq<char>, nat, Seq<char>),
}

impl View for HelpLine {
    type V = HelpLineView;

    open spec fn view(&self) -> HelpLineView {
        match *self {
            HelpLine::Blank => HelpLineView::Blank,
            HelpLine::Title(t) => HelpLineView::Title(t@),
            HelpLine::Entry(k, pad, d) => HelpLineView::Entry(k@, pad as nat, d@),
        }
    }
}

/// What rows hold.
pub open spec fn line_views(v: Seq<HelpLine>) -> Seq<HelpLineView> {
    v.map_values(|l: HelpLine| l@)
}

impl HelpLine {
    /// The text of a row.
    pub fn text(&self) -> (r: String)
        ensures
            r@ == (match self@ {
                HelpLineView::Blank => ""@,
                HelpLineView::Title(t) => "  "@ + t,
                HelpLineView::Entry(k, pad, d) => "    "@ + k + blanks(pad) + "  "@ + d,
            }),
    {
        match self {
            HelpLine::Blank => "".to_owned(),
            HelpLine::Title(t) => {
                let mut r: String = "  ".to_owned();
                r.push_str(t);
                r
            },
            HelpLine::Entry(k, pad, d) => {
                let mut r: String = "    ".to_owned();
                r.push_str(k);
                let gap: String = spaces(*pad);
                r.push_str(gap.as_str());
                r.push_str("  ");
                r.push_str(d);
                r
            },
        }
    }
}

/// The rows of some entries whose keys have given widths.
pub open spec fn entry_lines(
    entries: Seq<(Seq<char>, Seq<char>)>,
    widths: Seq<int>,
    key_col: int,
) -> Seq<HelpLineView> {
    Seq::new(
        entries.len(),
        |i: int|
            HelpLineView::Entry(
                entries[i].0,
                if widths[i] < key_col {
                    (key_col - widths[i]) as nat
                } else {
                    0
                },
                entries[i].1,
            ),
    )
}

/// The rows of some sections whose keys have given widths: each section's title
/// and its entries, with an empty row before every section but the first.
pub open spec fn section_lines(
    sections: Seq<SectionView>,
    widths: Seq<Seq<int>>,
    key_col: int,
) -> Seq<HelpLineView>
    decreases sections.len(),
{
    if sections.len() == 0 {
        Seq::empty()
    } else {
        let s = sections.last();
        let before = section_lines(sections.drop_last(), widths, key_col);
        (if sections.len() == 1 {
            before
        } else {
            before.push(HelpLineView::Blank)
        }).push(HelpLineView::Title(s.title)) + entry_lines(
            s.entries,
            widths[sections.len() - 1],
            key_col,
        )
    }
}

/// The widest of some widths.
pub open spec fn widest(widths: Seq<int>) -> int
    decreases widths.len(),
{
    if widths.len() == 0 {
        0
    } else if widest(widths.drop_last()) < widths.last() {
        widths.last()
    } else {
        widest(widths.drop_last())
    }
}

/// The widest of some rows of widths.
pub open spec fn widest_all(widths: Seq<Seq<int>>) -> int
    decreases widths.len(),
{
    if widths.len() == 0 {
        0
    } else if widest_all(widths.drop_last()) < widest(widths.last()) {
        widest(widths.last())
    } else {
        widest_all(widths.drop_last())
    }
}

/// The columns that keys get: what the widest one takes, as far as the help is
/// wide enough.
pub open spec fn key_column(widest: int, width: int) -> int {
    let room = if width < 6 {
        0
    } else {
        width - 6
    };
    let fit = if widest < room {
        widest
    } else {
        room
    };
    if fit < 1 {
        1
    } else {
        fit
    }
}

/// Widths as numbers.
pub open spec fn as_int_rows(v: Seq<Vec<usize>>) -> Seq<Seq<int>> {
    v.map_values(|w: Vec<usize>| crate::columns::as_ints(w@))
}

fn widest_in(v: &Vec<usize>) -> (r: usize)
    ensures
        r == widest(crate::columns::as_ints(v@)),
{
    let mut best: usize = 0;
    let mut i: usize = 0;
    let ghost all = crate::columns::as_ints(v@);
    proof {
        assert(all.take(0).len() == 0);
    }
    while i < v.len()
        invariant
            i <= v@.len(),
            all == crate::columns::as_ints(v@),
            best == widest(all.take(i as int)),
        decreases v@.len() - i,
    {
        proof {
            assert(all.take(i + 1).drop_last() =~= all.take(i as int));
            assert(all.take(i + 1).last() == v@[i as int]);
        }
        if best < v[i] {
            best = v[i];
        }
        i += 1;
    }
    proof {
        assert(all.take(i as int) =~= all);
    }
    best
}

fn key_columns(widths: &Vec<Vec<usize>>, width: usize) -> (r: usize)
    ensures
        r == key_column(widest_all(as_int_rows(widths@)), width as int),
{
    let mut best: usize = 0;
    let mut i: usize = 0;
    let ghost all = as_int_rows(widths@);
    proof {
        assert(all.take(0).len() == 0);
    }
    while i < widths.len()
        invariant
            i <= widths@.len(),
            all == as_int_rows(widths@),
            best == widest_all(all.take(i as int)),
        decreases widths@.len() - i,
    {
        let w: usize = widest_in(&widths[i]);
        proof {
            assert(all.take(i + 1).drop_last() =~= all.take(i as int));
            assert(all.take(i + 1).last() == crate::columns::as_ints(widths@[i as int]@));
        }
        if best < w {
            best = w;
        }
        i += 1;
    }
    proof {
        assert(all.take(i as int) =~= all);
    }
    let room: usize = if width < 6 {
        0
    } else {
        width - 6
    };
    let fit: usize = if best < room {
        best
    } else {
        room
    };
    if fit < 1 {
        1
    } else {
        fit
    }
}

/// The rows of some sections whose keys have given widths, in a help of a given
/// width.
pub fn lines_for(sections: &Vec<HelpSection>, widths: &Vec<Vec<usize>>, width: usize) -> (r: Vec<
    HelpLine,
>)
    requires
        widths@.len() == sections@.len(),
        forall|i: int|
            0 <= i < widths@.len() ==> (#[trigger] widths@[i])@.len()
                == sections@[i].entries@.len(),
    ensures
        line_views(r@) == section_lines(
            section_views(sections@),
            as_int_rows(widths@),
            key_column(widest_all(as_int_rows(widths@)), width as int),
        ),
{
    let key_col: usize = key_columns(widths, width);
    let ghost views = section_views(sections@);
    let ghost all = as_int_rows(widths@);
    let mut out: Vec<HelpLine> = Vec::new();
    let mut i: usize = 0;
    proof {
        assert(views.take(0).len() == 0);
        assert(line_views(out@) =~= Seq::<HelpLineView>::empty());
    }
    while i < sections.len()
        invariant
            i <= sections@.len(),
            widths@.len() == sections@.len(),
            forall|k: int|
                0 <= k < widths@.len() ==> (#[trigger] widths@[k])@.len()
                    == sections@[k].entries@.len(),
            views == section_views(sections@),
            all == as_int_rows(widths@),
            line_views(out@) == section_lines(views.take(i as int), all, key_col as int),
        decreases sections@.len() - i,
    {
        let ghost before = out@;
        let s: &HelpSection = &sections[i];
        let ws: &Vec<usize> = &widths[i];
        let ghost start = (if i == 0 {
            line_views(before)
        } else {
            line_views(before).push(HelpLineView::Blank)
        }).push(HelpLineView::Title(s.title@));
        let ghost rows = entry_lines(s@.entries, all[i as int], key_col as int);
        if i > 0 {
            out.push(HelpLine::Blank);
        }
        out.push(HelpLine::Title(s.title));
        proof {
            assert(line_views(out@) =~= start);
        }
        let mut j: usize = 0;
        while j < s.entries.len()
            invariant
                j <= s.entries@.len(),
                ws@.len() == s.entries@.len(),
                all[i as int] == crate::columns::as_ints(ws@),
                rows == entry_lines(s@.entries, all[i as int], key_col as int),
                line_views(out@) =~= start + rows.take(j as int),
            decreases s.entries@.len() - j,
        {
            let e: HelpEntry = s.entries[j];
            let w: usize = ws[j];
            let pad: usize = if w < key_col {
                key_col - w
            } else {
                0
            };
            let ghost had = out@;
            out.push(HelpLine::Entry(e.key, pad, e.description));
            proof {
                assert(line_views(out@) =~= line_views(had).push(
                    HelpLineView::Entry(e.key@, pad as nat, e.description@),
                ));
                assert(rows[j as int] == HelpLineView::Entry(e.key@, pad as nat, e.description@));
                assert(rows.take(j + 1) =~= rows.take(j as int).push(rows[j as int]));
            }
            j += 1;
        }
        proof {
            assert(rows.take(j as int) =~= rows);
            assert(views.take(i + 1).drop_last() =~= views.take(i as int));
            assert(views.take(i + 1).last() == s@);
        }
        i += 1;
    }
    proof {
        assert(views.take(i as int) =~= views);
    }
    out
}

/// The widths of the keys of a section.
pub open spec fn key_widths(s: SectionView) -> Seq<int> {
    s.entries.map_values(|e: (Seq<char>, Seq<char>)| crate::columns::text_columns(e.0) as int)
}

/// The widths of the keys of some sections.
pub open spec fn all_key_widths(v: Seq<SectionView>) -> Seq<Seq<int>> {
    v.map_values(|s: SectionView| key_widths(s))
}

fn widths_of(s: &HelpSection) -> (r: Vec<usize>)
    ensures
        r@.len() == s.entries@.len(),
        crate::columns::as_ints(r@) == key_widths(s@),
{
    let mut r: Vec<usize> = Vec::new();
    let mut i: usize = 0;
    while i < s.entries.len()
        invariant
            i <= s.entries@.len(),
            r@.len() == i,
            forall|j: int|
                0 <= j < i ==> #[trigger] r@[j] == crate::columns::text_columns(
                    s.entries@[j].key@,
                ),
        decreases s.entries@.len() - i,
    {
        r.push(columns(s.entries[i].key));
        i += 1;
    }
    proof {
        assert(crate::columns::as_ints(r@) =~= key_widths(s@));
    }
    r
}

/// The rows of the help, in a given width: all descriptions stand below each
/// other, whatever the keys before them take.
pub fn build_lines(width: usize) -> (r: Vec<HelpLine>)
    ensures
        line_views(r@) == section_lines(
            help(),
            all_key_widths(help()),
            key_column(widest_all(all_key_widths(help())), width as int),
        ),
{
    let sections: Vec<HelpSection> = help_sections();
    let mut widths: Vec<Vec<usize>> = Vec::new();
    let mut i: usize = 0;
    while i < sections.len()
        invariant
            i <= sections@.len(),
            widths@.len() == i,
            forall|j: int|
                0 <= j < i ==> {
                    &&& (#[trigger] widths@[j])@.len() == sections@[j].entries@.len()
                    &&& crate::columns::as_ints(widths@[j]@) == key_widths(sections@[j]@)
                },
        decreases sections@.len() - i,
    {
        widths.push(widths_of(&sections[i]));
        i += 1;
    }
    proof {
        let views = section_views(sections@);
        assert(as_int_rows(widths@) =~= all_key_widths(views)) by {
            assert forall|j: int| 0 <= j < widths@.len() implies #[trigger] as_int_rows(widths@)[j]
                == all_key_widths(views)[j] by {
                assert(views[j] == sections@[j]@);
                assert(crate::columns::as_ints(widths@[j]@) == key_widths(sections@[j]@));
            }
        }
    }
    lines_for(&sections, &widths, width)
}

/// A part of the screen, in columns and rows.
#[derive(Debug, Clone, Copy, PartialEq, Eq, Structural)]
pub struct Area {
    pub x: u16,
    pub y: u16,
    pub width: u16,
    pub height: u16,
}

impl Area {
    /// Whether it ends within what can be counted.
    pub open spec fn valid(self) -> bool {
        self.x + self.width <= u16::MAX && self.y + self.height <= u16::MAX
    }

    /// Whether it lies within another.
    pub open spec fn within(self, o: Area) -> bool {
        &&& o.x <= self.x
        &&& o.y <= self.y
        &&& self.x + self.width <= o.x + o.width
        &&& self.y + self.height <= o.y + o.height
    }
}

/// The help, which lies over the screen.
#[derive(Debug, Clone, Copy, PartialEq, Eq, Structural)]
pub struct HelpModal;

/// A length less a margin, not below one bound nor above the other.
pub open spec fn bounded(length: int, margin: int, lo: int, hi: int) -> int {
    crate::config::clamped(
        if length < margin {
            0
        } else {
            length - margin
        },
        lo,
        hi,
    )
}

/// Where something of one length begins, to be in the middle of another.
pub open spec fn centered(start: int, length: int, inner: int) -> int {
    start + (if length < inner {
        0
    } else {
        (length - inner) / 2
    })
}

fn bound(length: u16, margin: u16, lo: u16, hi: u16) -> (r: u16)
    requires
        lo <= hi,
    ensures
        r == bounded(length as int, margin as int, lo as int, hi as int),
{
    let rest: u16 = if length < margin {
        0
    } else {
        length - margin
    };
    if rest < lo {
        lo
    } else if rest > hi {
        hi
    } else {
        rest
    }
}

impl HelpModal {
    /// Where the help stands on a screen.
    pub fn area_for(screen: Area) -> (r: Area)
        requires
            screen.valid(),
        ensures
            r.width == bounded(screen.width as int, 8, 60, 120),
            r.height == bounded(screen.height as int, 4, 20, 60),
            r.x == centered(screen.x as int, screen.width as int, r.width as int),
            r.y == centered(screen.y as int, screen.height as int, r.height as int),
    {
        let width: u16 = bound(screen.width, 8, 60, 120);
        let height: u16 = bound(screen.height, 4, 20, 60);
        let dx: u16 = if screen.width < width {
            0
        } else {
            (screen.width - width) / 2
        };
        let dy: u16 = if screen.height < height {
            0
        } else {
            (screen.height - height) / 2
        };
        Area { x: screen.x + dx, y: screen.y + dy, width, height }
    }
}

/// On a screen that is large enough for it the help lies within the screen, with
/// the same room on both sides, up to one.
pub proof fn lemma_help_centered(screen: Area, popup: Area)
    requires
        screen.width >= 60,
        screen.height >= 20,
        popup.width == bounded(screen.width as int, 8, 60, 120),
        popup.height == bounded(screen.height as int, 4, 20, 60),
        popup.x == centered(screen.x as int, screen.width as int, popup.width as int),
        popup.y == centered(screen.y as int, screen.height as int, popup.height as int),
    ensures
        popup.within(screen),
        ({
            let left = popup.x - screen.x;
            let right = screen.x + screen.width - (popup.x + popup.width);
            left <= right <= left + 1
        }),
        ({
            let above = popup.y - screen.y;
            let below = screen.y + screen.height - (popup.y + popup.height);
            above <= below <= above + 1
        }),
{
}

} // verus!
