//! The colours, and what is shown in which.

use vstd::prelude::*;

verus! {

/// The colours, by what they are for.
#[derive(Debug, Clone, Copy, PartialEq, Eq, Structural)]
pub enum Palette {
    /// Electric teal.
    Primary,
    /// Bright cyan.
    Secondary,
    /// Violet, for what is selected.
    Accent,
    /// Mint.
    Highlight,
    /// For text that matters less.
    Muted,
    /// Orange, for links and streams.
    Link,
    /// Sky blue.
    Sky,
    /// Pink, for warnings.
    Warn,
    /// Red, for errors.
    Error,
    /// The background, nearly black.
    Bg,
    /// The background of cards, a little lighter.
    Surface,
    /// For text.
    Fg,
    /// For the lines between tabs.
    Divider,
}

impl Palette {
    /// Red, green and blue.
    pub open spec fn parts(self) -> (u8, u8, u8) {
        match self {
            Palette::Primary => (0, 232, 198),
            Palette::Secondary => (0, 198, 232),
            Palette::Accent => (130, 100, 255),
            Palette::Highlight => (100, 232, 130),
            Palette::Muted => (160, 175, 195),
            Palette::Link => (255, 160, 100),
            Palette::Sky => (0, 210, 255),
            Palette::Warn => (255, 110, 220),
            Palette::Error => (255, 100, 100),
            Palette::Bg => (6, 8, 18),
            Palette::Surface => (12, 16, 30),
            Palette::Fg => (224, 235, 255),
            Palette::Divider => (30, 40, 60),
        }
    }

    /// Red, green and blue.
    pub fn rgb(&self) -> (r: (u8, u8, u8))
        ensures
            r == self.parts(),
    {
        match self {
            Palette::Primary => (0, 232, 198),
            Palette::Secondary => (0, 198, 232),
            Palette::Accent => (130, 100, 255),
            Palette::Highlight => (100, 232, 130),
            Palette::Muted => (160, 175, 195),
            Palette::Link => (255, 160, 100),
            Palette::Sky => (0, 210, 255),
            Palette::Warn => (255, 110, 220),
            Palette::Error => (255, 100, 100),
            Palette::Bg => (6, 8, 18),
            Palette::Surface => (12, 16, 30),
            Palette::Fg => (224, 235, 255),
            Palette::Divider => (30, 40, 60),
        }
    }
}

/// No two purposes share a colour.
pub proof fn lemma_colours_differ(a: Palette, b: Palette)
    requires
        a.parts() == b.parts(),
    ensures
        a == b,
{
}

/// How a piece of text looks.
#[derive(Debug, Clone, Copy, PartialEq, Eq, Structural)]
pub struct Style {
    pub fg: Option<Palette>,
    pub bg: Option<Palette>,
    pub bold: bool,
    pub underlined: bool,
    pub reversed: bool,
}

impl Style {
    /// Text in a colour, and nothing else.
    pub open spec fn of(fg: Palette) -> Style {
        Style { fg: Some(fg), bg: None, bold: false, underlined: false, reversed: false }
    }

    /// The same, in bold.
    pub open spec fn strong(fg: Palette) -> Style {
        Style { bold: true, ..Style::of(fg) }
    }

    /// Text in a colour.
    pub fn colored(fg: Palette) -> (r: Self)
        ensures
            r == Style::of(fg),
    {
        Style { fg: Some(fg), bg: None, bold: false, underlined: false, reversed: false }
    }

    /// Bold text in a colour.
    pub fn bold(fg: Palette) -> (r: Self)
        ensures
            r == Style::strong(fg),
    {
        Style { fg: Some(fg), bg: None, bold: true, underlined: false, reversed: false }
    }
}

pub fn base_style() -> (r: Style)
    ensures
        r == (Style { bg: Some(Palette::Bg), ..Style::of(Palette::Fg) }),
{
    Style { bg: Some(Palette::Bg), ..Style::colored(Palette::Fg) }
}

pub fn title_style() -> (r: Style)
    ensures
        r == Style::strong(Palette::Primary),
{
    Style::bold(Palette::Primary)
}

pub fn muted_style() -> (r: Style)
    ensures
        r == Style::of(Palette::Muted),
{
    Style::colored(Palette::Muted)
}

pub fn accent_style() -> (r: Style)
    ensures
        r == Style::strong(Palette::Accent),
{
    Style::bold(Palette::Accent)
}

pub fn highlight_style() -> (r: Style)
    ensures
        r == (Style { bg: Some(Palette::Primary), ..Style::strong(Palette::Bg) }),
{
    Style { bg: Some(Palette::Primary), ..Style::bold(Palette::Bg) }
}

pub fn selection_style() -> (r: Style)
    ensures
        r == (Style { reversed: true, ..Style::strong(Palette::Accent) }),
{
    Style { reversed: true, ..Style::bold(Palette::Accent) }
}

pub fn tab_active() -> (r: Style)
    ensures
        r == (Style { underlined: true, ..Style::strong(Palette::Primary) }),
{
    Style { underlined: true, ..Style::bold(Palette::Primary) }
}

pub fn tab_inactive() -> (r: Style)
    ensures
        r == Style::of(Palette::Muted),
{
    Style::colored(Palette::Muted)
}

pub fn border_style(active: bool) -> (r: Style)
    ensures
        r == (if active {
            Style::strong(Palette::Primary)
        } else {
            Style::of(Palette::Muted)
        }),
{
    if active {
        Style::bold(Palette::Primary)
    } else {
        Style::colored(Palette::Muted)
    }
}

pub fn status_playing() -> (r: Style)
    ensures
        r == Style::strong(Palette::Highlight),
{
    Style::bold(Palette::Highlight)
}

pub fn status_paused() -> (r: Style)
    ensures
        r == Style::of(Palette::Warn),
{
    Style::colored(Palette::Warn)
}

// ---------------------------------------------------------------------------
// Tabs
// ---------------------------------------------------------------------------

/// A piece of text with its look.
#[derive(Debug)]
pub struct Piece {
    pub text: String,
    pub style: Style,
}

/// What pieces hold.
pub open spec fn piece_views(v: Seq<Piece>) -> Seq<(Seq<char>, Style)> {
    v.map_values(|p: Piece| (p.text@, p.style))
}

/// Appends a piece.
pub fn push_piece(v: &mut Vec<Piece>, text: String, style: Style)
    ensures
        piece_views(final(v)@) == piece_views(old(v)@).push((text@, style)),
{
    let ghost before = v@;
    v.push(Piece { text, style });
    proof {
        assert(piece_views(v@) =~= piece_views(before).push((text@, style)));
    }
}

/// The row of tabs: a sign and a name each, and the selected one.
#[derive(Debug)]
pub struct NeonTabs<'a> {
    pub labels: &'a [(&'a str, &'a str)],
    pub selected: usize,
}

/// The pieces of one tab.
pub open spec fn tab_pieces(icon: Seq<char>, label: Seq<char>, selected: bool) -> Seq<
    (Seq<char>, Style),
> {
    if selected {
        seq![
            ("▍"@, Style::of(Palette::Primary)),
            (" "@ + icon + " "@, Style::strong(Palette::Primary)),
            (label + "  "@, Style::strong(Palette::Fg)),
        ]
    } else {
        seq![
            (" "@, Style::of(Palette::Bg)),
            (" "@ + icon + " "@, Style::strong(Palette::Muted)),
            (label + "  "@, Style::of(Palette::Muted)),
        ]
    }
}

/// The pieces of the first tabs of a row, with a line between two of them.
pub open spec fn tabs_pieces(
    labels: Seq<(&str, &str)>,
    selected: int,
    n: int,
) -> Seq<(Seq<char>, Style)>
    decreases n,
{
    if n <= 0 {
        Seq::empty()
    } else {
        let before = tabs_pieces(labels, selected, n - 1) + tab_pieces(
            labels[n - 1].0@,
            labels[n - 1].1@,
            n - 1 == selected,
        );
        if n < labels.len() {
            before.push(("│  "@, Style::of(Palette::Divider)))
        } else {
            before
        }
    }
}

impl<'a> NeonTabs<'a> {
    pub fn new(labels: &'a [(&'a str, &'a str)], selected: usize) -> (r: Self)
        ensures
            r.labels == labels,
            r.selected == selected,
    {
        NeonTabs { labels, selected }
    }

    /// The pieces of the row, from left to right.
    pub fn pieces(&self) -> (r: Vec<Piece>)
        ensures
            piece_views(r@) == tabs_pieces(
                self.labels@,
                self.selected as int,
                self.labels@.len() as int,
            ),
    {
        let mut out: Vec<Piece> = Vec::new();
        let mut i: usize = 0;
        proof {
            assert(piece_views(out@) =~= Seq::<(Seq<char>, Style)>::empty());
        }
        while i < self.labels.len()
            invariant
                i <= self.labels@.len(),
                piece_views(out@) == tabs_pieces(self.labels@, self.selected as int, i as int),
            decreases self.labels@.len() - i,
        {
            let (icon, label): (&str, &str) = self.labels[i];
            let ghost before = piece_views(out@);
            let selected: bool = i == self.selected;
            let mut icon_text: String = " ".to_owned();
            icon_text.push_str(icon);
            icon_text.push_str(" ");
            let mut label_text: String = label.to_owned();
            label_text.push_str("  ");
            if selected {
                push_piece(&mut out, "▍".to_owned(), Style::colored(Palette::Primary));
                push_piece(&mut out, icon_text, Style::bold(Palette::Primary));
                push_piece(&mut out, label_text, Style::bold(Palette::Fg));
            } else {
                push_piece(&mut out, " ".to_owned(), Style::colored(Palette::Bg));
                push_piece(&mut out, icon_text, Style::bold(Palette::Muted));
                push_piece(&mut out, label_text, Style::colored(Palette::Muted));
            }
            proof {
                assert(piece_views(out@) =~= before + tab_pieces(icon@, label@, selected));
            }
            i += 1;
            if i < self.labels.len() {
                push_piece(&mut out, "│  ".to_owned(), Style::colored(Palette::Divider));
            }
        }
        out
    }
}

/// A tab shows its sign and its name; only the selected one stands out.
pub proof fn lemma_tab_shown(icon: Seq<char>, label: Seq<char>, selected: bool)
    ensures
        tab_pieces(icon, label, selected).len() == 3,
        tab_pieces(icon, label, selected)[1].0 == " "@ + icon + " "@,
        tab_pieces(icon, label, selected)[2].0 == label + "  "@,
        tab_pieces(icon, label, selected)[2].1.bold == selected,
        tab_pieces(icon, label, true)[0].0 == "▍"@,
        tab_pieces(icon, label, false)[0].0 == " "@,
{
}

/// A style is of its colour, and strong or not.
pub proof fn lemma_styles(c: Palette)
    ensures
        Style::of(c).fg == Some(c),
        Style::strong(c).fg == Some(c),
        !Style::of(c).bold,
        Style::strong(c).bold,
        Style::of(c).bg is None,
        !Style::strong(c).reversed && !Style::strong(c).underlined,
{
}

} // verus!
