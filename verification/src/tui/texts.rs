//! What stands on the screens besides the rows of their lists.

use vstd::prelude::*;

use crate::columns::fill_to;
use crate::config::ServerConfig;
use crate::devices::RemoteDevice;
use crate::num::{push_dec, push_int, push_next, push_signed};
use crate::tenths::{push_seconds, push_signed_milli};
use crate::text::{chars, is_blank, str_eq, trim};
use crate::tui::app::{App, AppView};
use crate::tui::screens::Screen;
use crate::tui::theme::{piece_views, push_piece, Palette, Piece, Style};

verus! {

/// The title of an open album.
pub open spec fn album_title(album: crate::models::BaseView, tracks: nat) -> Seq<char> {
    " ◈ "@ + album.name + (match album.production_year {
        Some(y) => "  ("@ + crate::num::dec_int(y as int) + ")"@,
        None => ""@,
    }) + "   "@ + album.line() + "   — "@ + crate::num::dec(tracks)
        + " track(s)   (Esc to go back) "@
}

/// The title of the screen's list.
pub open spec fn list_title_of(a: AppView) -> Seq<char> {
    match a.screen {
        Screen::Search => " ⌕ Results "@,
        Screen::Devices => " ◈ Renderers  (Chromecast + UPnP — Enter to select, r to rescan) "@,
        Screen::Settings => " ◉ Servers  ("@ + crate::num::dec(a.config.servers.len())
            + " saved — Enter to switch, t to cycle) "@,
        Screen::Playlists => match a.open_playlist {
            None => " ▤ Playlists "@,
            Some(p) => " ▤ "@ + p.name + " — "@ + crate::num::dec(a.playlist_items.len())
                + " tracks   (Esc to go back) "@,
        },
        Screen::Music => match a.open_album {
            None => " ♪ Music — Albums "@,
            Some(b) => album_title(b, a.album_tracks.len()),
        },
        Screen::Videos => match a.open_series {
            None => " ▶ Videos — Movies & Series "@,
            Some(s) => " ▶ "@ + s.name + " — "@ + crate::num::dec(a.series_children.len())
                + " episode(s)   (Esc to go back) "@,
        },
        Screen::Queue => if a.playback.queue.len() == 0 {
            " ≡ Queue "@
        } else {
            " ≡ Queue  ("@ + crate::num::dec(
                match a.playback.current_index {
                    Some(i) => (i + 1) as nat,
                    None => 0,
                },
            ) + "/"@ + crate::num::dec(a.playback.queue.len()) + ") "@
        },
    }
}

/// What stands in place of an empty list.
pub open spec fn empty_message_of(a: AppView) -> Seq<char> {
    match a.screen {
        Screen::Queue =>
            "Queue is empty — press Enter on an item to play, `a` to enqueue."@,
        Screen::Music => if a.open_album is Some {
            "  Loading tracks…"@
        } else {
            "Loading… (press `r` to refresh)"@
        },
        Screen::Videos => "Loading… (press `r` to refresh)"@,
        Screen::Playlists => "No playlists yet."@,
        Screen::Search => if crate::text::trimmed(a.query).len() == 0 {
            "type to search — results update as you type"@
        } else {
            "no matches"@
        },
        Screen::Devices => "No devices found yet — press `r` to rescan."@,
        Screen::Settings => "  No servers yet — run `fin login <url>` to add one."@,
    }
}

/// The title of the field for typing.
pub open spec fn search_title_of(typing: bool) -> Seq<char> {
    if typing {
        " ⌕ Search  (typing) "@
    } else {
        " ⌕ Search  (press / or Tab to type) "@
    }
}

/// The field for typing. The cursor blinks while it has the focus.
pub open spec fn search_field(query: Seq<char>, typing: bool, pulse: u8) -> Seq<
    (Seq<char>, Style),
> {
    let on = typing && pulse % 2 == 0;
    let start = seq![
        ("  "@, Style::of(Palette::Fg)),
        ("⌕ "@, Style::strong(Palette::Primary)),
    ];
    if query.len() == 0 {
        let hint = start.push(
            ("type to search music, movies, series…"@, Style::of(Palette::Muted)),
        );
        if typing {
            hint.push(
                (
                    if on {
                        "  ▏"@
                    } else {
                        "   "@
                    },
                    Style::of(Palette::Primary),
                ),
            )
        } else {
            hint
        }
    } else {
        start.push((query, Style::strong(Palette::Fg))).push(
            (
                if on {
                    "▏"@
                } else {
                    " "@
                },
                Style::strong(Palette::Primary),
            ),
        )
    }
}

/// Who is logged in where. The second piece's colour changes with time.
pub open spec fn header_of(a: AppView) -> Seq<(Seq<char>, Style)> {
    let cur = a.config.current_index();
    let (user, url, name) = match cur {
        Some(i) => (
            a.config.servers[i].user_name@,
            a.config.servers[i].url@,
            a.config.servers[i].name@,
        ),
        None => ("guest"@, "not logged in"@, ""@),
    };
    seq![
        ("  ⚡ fin "@, Style::strong(Palette::Primary)),
        ("— a neon jellyfin client"@, Style::of(Palette::Primary)),
        ("   "@ + user + " "@, Style::strong(Palette::Accent)),
        ("@ "@ + url + " "@, Style::of(Palette::Muted)),
        (
            if name.len() == 0 {
                ""@
            } else {
                "["@ + name + "]"@
            },
            Style::of(Palette::Highlight),
        ),
        (
            if a.config.servers.len() > 1 {
                "  ⇄ "@ + crate::num::dec(a.config.servers.len()) + " servers"@
            } else {
                ""@
            },
            Style::of(Palette::Sky),
        ),
    ]
}

/// A row of the list of servers.
pub open spec fn server_row_of(s: ServerConfig, current: Option<Seq<char>>) -> Seq<
    (Seq<char>, Style),
> {
    let active = s.name@ == (match current {
        Some(n) => n,
        None => ""@,
    });
    seq![
        (
            if active {
                " ▍ "@
            } else {
                "   "@
            },
            Style::strong(Palette::Primary),
        ),
        (
            crate::columns::filled(s.name@, s.name@.len() as int, 18),
            if active {
                Style::strong(Palette::Primary)
            } else {
                Style::of(Palette::Fg)
            },
        ),
        (" "@ + s.url@ + "  "@, Style::of(Palette::Sky)),
        ("as "@ + s.user_name@, Style::of(Palette::Muted)),
    ]
}

/// A row of the list of devices.
pub open spec fn device_row_of(d: RemoteDevice, selected: bool) -> Seq<(Seq<char>, Style)> {
    seq![
        (
            match d {
                RemoteDevice::Cast(_) => " 󰓐 "@,
                RemoteDevice::Upnp(_) => " ◈ "@,
            },
            Style::strong(
                if selected {
                    Palette::Primary
                } else {
                    Palette::Accent
                },
            ),
        ),
        (d.shown_as(), Style::strong(Palette::Fg)),
        (
            "   ["@ + (match d {
                RemoteDevice::Cast(_) => "chromecast"@,
                RemoteDevice::Upnp(_) => "upnp"@,
            }) + "]  "@,
            Style::of(Palette::Highlight),
        ),
        (d.line(), Style::of(Palette::Sky)),
    ]
}

/// The lines of the settings, in the order in which they stand.
#[derive(Debug, Clone, Copy, PartialEq, Eq, Structural)]
pub enum SettingsLine {
    Renderer,
    LastCast,
    LastUpnp,
    ReplayGain,
    Crossfade,
    Tone,
    ConfigFile,
    Flags,
}

/// A text, or a dash.
pub open spec fn or_dash(o: Option<Seq<char>>) -> Seq<char> {
    match o {
        Some(s) => s,
        None => "—"@,
    }
}

/// A line of the settings; the path is that of the file with the
/// configuration.
pub open spec fn settings_line_of(a: AppView, line: SettingsLine, path: Seq<char>) -> Seq<
    (Seq<char>, Style),
> {
    let title = Style::strong(Palette::Primary);
    let accent = Style::strong(Palette::Accent);
    let muted = Style::of(Palette::Muted);
    match line {
        SettingsLine::Renderer => seq![
            ("  Renderer      "@, title),
            (a.config.renderer.name(), accent),
            (
                "   (press m for local, 6 → Enter for a chromecast / UPnP renderer)"@,
                muted,
            ),
        ],
        SettingsLine::LastCast => seq![
            ("  Last Cast     "@, title),
            (or_dash(a.config.last_chromecast), Style::of(Palette::Highlight)),
        ],
        SettingsLine::LastUpnp => seq![
            ("  Last UPnP     "@, title),
            (or_dash(a.config.last_upnp), Style::of(Palette::Highlight)),
        ],
        SettingsLine::ReplayGain => seq![
            ("  ReplayGain    "@, title),
            (a.config.replaygain.mode.name(), accent),
            (
                "   preamp "@ + crate::tenths::signed_milli(
                    a.config.replaygain.preamp_mdb as int,
                ) + " dB   clip-guard "@ + (if a.config.replaygain.prevent_clip {
                    "on"@
                } else {
                    "off"@
                }) + "   (press g to cycle)"@,
                muted,
            ),
        ],
        SettingsLine::Crossfade => seq![
            ("  Crossfade     "@, title),
            (a.config.crossfade.mode.name(), accent),
            (
                "   duration "@ + crate::tenths::seconds(a.config.crossfade.duration_ms as int)
                    + " s   (f: cycle mode, Shift+F: cycle duration)"@,
                muted,
            ),
        ],
        SettingsLine::Tone => seq![
            ("  Tone          "@, title),
            ("bass "@ + crate::num::dec_signed(a.config.bass as int) + " dB"@, accent),
            ("   "@, muted),
            ("treble "@ + crate::num::dec_signed(a.config.treble as int) + " dB"@, accent),
            ("   (b/B: bass, y/Y: treble; 1 dB steps)"@, muted),
        ],
        SettingsLine::ConfigFile => seq![
            ("  Config File   "@, title),
            (path, Style::of(Palette::Sky)),
        ],
        SettingsLine::Flags => seq![
            ("  All settings are also CLI flags — `fin --help`."@, muted),
        ],
    }
}

/// The title over the sliders.
pub open spec fn eq_title_of(bands: nat, on: bool) -> Seq<char> {
    " ▤ Equalizer  ("@ + crate::num::dec(bands) + (if on {
        " bands, on) "@
    } else {
        " bands, off) "@
    })
}

fn no_pieces() -> (r: Vec<Piece>)
    ensures
        piece_views(r@) == Seq::<(Seq<char>, Style)>::empty(),
{
    let r: Vec<Piece> = Vec::new();
    proof {
        assert(piece_views(r@) =~= Seq::<(Seq<char>, Style)>::empty());
    }
    r
}

fn around(before: &str, text: &str, after: &str) -> (r: String)
    ensures
        r@ == before@ + text@ + after@,
{
    let mut r: String = before.to_owned();
    r.push_str(text);
    r.push_str(after);
    r
}

fn opened(sign: &str, name: &str, n: usize, after: &str) -> (r: String)
    ensures
        r@ == sign@ + name@ + " — "@ + crate::num::dec(n as nat) + after@,
{
    let mut r: String = sign.to_owned();
    r.push_str(name);
    r.push_str(" — ");
    push_dec(&mut r, n as u64);
    r.push_str(after);
    r
}

/// A row of the list of servers.
pub fn server_row(s: &ServerConfig, current: &Option<String>) -> (r: Vec<Piece>)
    ensures
        piece_views(r@) == server_row_of(*s, crate::text::opt_view(*current)),
{
    let active: bool = match current {
        Some(n) => str_eq(s.name.as_str(), n.as_str()),
        None => str_eq(s.name.as_str(), ""),
    };
    let mut out: Vec<Piece> = no_pieces();
    push_piece(
        &mut out,
        if active {
            " ▍ ".to_owned()
        } else {
            "   ".to_owned()
        },
        Style::bold(Palette::Primary),
    );
    let len: usize = chars(s.name.as_str()).len();
    push_piece(
        &mut out,
        fill_to(s.name.as_str(), len, 18),
        if active {
            Style::bold(Palette::Primary)
        } else {
            Style::colored(Palette::Fg)
        },
    );
    push_piece(&mut out, around(" ", s.url.as_str(), "  "), Style::colored(Palette::Sky));
    let mut who: String = "as ".to_owned();
    who.push_str(s.user_name.as_str());
    push_piece(&mut out, who, Style::colored(Palette::Muted));
    proof {
        assert(piece_views(out@) =~= server_row_of(*s, crate::text::opt_view(*current)));
    }
    out
}

/// A row of the list of devices.
pub fn device_row(d: &RemoteDevice, selected: bool) -> (r: Vec<Piece>)
    ensures
        piece_views(r@) == device_row_of(*d, selected),
{
    let mut out: Vec<Piece> = no_pieces();
    push_piece(
        &mut out,
        match d {
            RemoteDevice::Cast(_) => " 󰓐 ".to_owned(),
            RemoteDevice::Upnp(_) => " ◈ ".to_owned(),
        },
        Style::bold(
            if selected {
                Palette::Primary
            } else {
                Palette::Accent
            },
        ),
    );
    push_piece(&mut out, d.display_name(), Style::bold(Palette::Fg));
    push_piece(&mut out, around("   [", d.kind_label(), "]  "), Style::colored(Palette::Highlight));
    push_piece(&mut out, d.subtitle(), Style::colored(Palette::Sky));
    proof {
        assert(piece_views(out@) =~= device_row_of(*d, selected));
    }
    out
}

/// The title of the field for typing.
pub fn search_title(typing: bool) -> (r: &'static str)
    ensures
        r@ == search_title_of(typing),
{
    if typing {
        " ⌕ Search  (typing) "
    } else {
        " ⌕ Search  (press / or Tab to type) "
    }
}

fn dashed(o: &Option<String>) -> (r: String)
    ensures
        r@ == or_dash(crate::text::opt_view(*o)),
{
    match o {
        Some(s) => s.clone(),
        None => "—".to_owned(),
    }
}

impl App {
    /// The title of the screen's list.
    pub fn list_title(&self) -> (r: String)
        ensures
            r@ == list_title_of(self@),
    {
        match self.screen {
            Screen::Search => " ⌕ Results ".to_owned(),
            Screen::Devices =>
                " ◈ Renderers  (Chromecast + UPnP — Enter to select, r to rescan) ".to_owned(),
            Screen::Settings => {
                let mut r: String = " ◉ Servers  (".to_owned();
                push_dec(&mut r, self.config.servers.len() as u64);
                r.push_str(" saved — Enter to switch, t to cycle) ");
                r
            },
            Screen::Playlists => match &self.open_playlist {
                None => " ▤ Playlists ".to_owned(),
                Some(p) => opened(
                    " ▤ ",
                    p.name.as_str(),
                    self.playlist_items.len(),
                    " tracks   (Esc to go back) ",
                ),
            },
            Screen::Music => match &self.open_album {
                None => " ♪ Music — Albums ".to_owned(),
                Some(b) => {
                    let mut r: String = " ◈ ".to_owned();
                    r.push_str(b.name.as_str());
                    let year: String = match b.production_year {
                        Some(y) => {
                            let mut t: String = "  (".to_owned();
                            push_int(&mut t, y as i64);
                            t.push_str(")");
                            t
                        },
                        None => "".to_owned(),
                    };
                    r.push_str(year.as_str());
                    r.push_str("   ");
                    let line: String = b.subtitle();
                    r.push_str(line.as_str());
                    r.push_str("   — ");
                    push_dec(&mut r, self.album_tracks.len() as u64);
                    r.push_str(" track(s)   (Esc to go back) ");
                    r
                },
            },
            Screen::Videos => match &self.open_series {
                None => " ▶ Videos — Movies & Series ".to_owned(),
                Some(s) => opened(
                    " ▶ ",
                    s.name.as_str(),
                    self.series_children.len(),
                    " episode(s)   (Esc to go back) ",
                ),
            },
            Screen::Queue => {
                if self.playback.queue.len() == 0 {
                    " ≡ Queue ".to_owned()
                } else {
                    let mut r: String = " ≡ Queue  (".to_owned();
                    match self.playback.current_index {
                        Some(i) => push_next(&mut r, i),
                        None => push_dec(&mut r, 0),
                    }
                    r.push_str("/");
                    push_dec(&mut r, self.playback.queue.len() as u64);
                    r.push_str(") ");
                    r
                }
            },
        }
    }

    /// What stands in place of an empty list.
    pub fn empty_message(&self) -> (r: &'static str)
        ensures
            r@ == empty_message_of(self@),
    {
        match self.screen {
            Screen::Queue => "Queue is empty — press Enter on an item to play, `a` to enqueue.",
            Screen::Music => if self.open_album.is_some() {
                "  Loading tracks…"
            } else {
                "Loading… (press `r` to refresh)"
            },
            Screen::Videos => "Loading… (press `r` to refresh)",
            Screen::Playlists => "No playlists yet.",
            Screen::Search => {
                let all: Vec<char> = chars(self.search_query.as_str());
                if trim(all.as_slice()).len() == 0 {
                    "type to search — results update as you type"
                } else {
                    "no matches"
                }
            },
            Screen::Devices => "No devices found yet — press `r` to rescan.",
            Screen::Settings => "  No servers yet — run `fin login <url>` to add one.",
        }
    }

    /// The field for typing.
    pub fn search_box(&self, pulse: u8) -> (r: Vec<Piece>)
        ensures
            piece_views(r@) == search_field(self@.query, self@.typing, pulse),
    {
        let on: bool = self.search_input_focused && pulse % 2 == 0;
        let mut out: Vec<Piece> = no_pieces();
        push_piece(&mut out, "  ".to_owned(), Style::colored(Palette::Fg));
        push_piece(&mut out, "⌕ ".to_owned(), Style::bold(Palette::Primary));
        if is_blank(self.search_query.as_str()) {
            push_piece(
                &mut out,
                "type to search music, movies, series…".to_owned(),
                Style::colored(Palette::Muted),
            );
            if self.search_input_focused {
                push_piece(
                    &mut out,
                    if on {
                        "  ▏".to_owned()
                    } else {
                        "   ".to_owned()
                    },
                    Style::colored(Palette::Primary),
                );
            }
        } else {
            push_piece(&mut out, self.search_query.clone(), Style::bold(Palette::Fg));
            push_piece(
                &mut out,
                if on {
                    "▏".to_owned()
                } else {
                    " ".to_owned()
                },
                Style::bold(Palette::Primary),
            );
        }
        proof {
            assert(piece_views(out@) =~= search_field(self@.query, self@.typing, pulse));
        }
        out
    }

    /// Who is logged in where.
    pub fn header(&self) -> (r: Vec<Piece>)
        ensures
            piece_views(r@) == header_of(self@),
    {
        let (user, url, name): (String, String, String) = match self.config.current() {
            Some(s) => (s.user_name.clone(), s.url.clone(), s.name.clone()),
            None => ("guest".to_owned(), "not logged in".to_owned(), "".to_owned()),
        };
        proof {
            reveal_strlit("");
        }
        let mut out: Vec<Piece> = no_pieces();
        push_piece(&mut out, "  ⚡ fin ".to_owned(), Style::bold(Palette::Primary));
        push_piece(
            &mut out,
            "— a neon jellyfin client".to_owned(),
            Style::colored(Palette::Primary),
        );
        push_piece(&mut out, around("   ", user.as_str(), " "), Style::bold(Palette::Accent));
        push_piece(&mut out, around("@ ", url.as_str(), " "), Style::colored(Palette::Muted));
        let badge: String = if is_blank(name.as_str()) {
            "".to_owned()
        } else {
            around("[", name.as_str(), "]")
        };
        push_piece(&mut out, badge, Style::colored(Palette::Highlight));
        let count: String = if self.config.servers.len() > 1 {
            let mut t: String = "  ⇄ ".to_owned();
            push_dec(&mut t, self.config.servers.len() as u64);
            t.push_str(" servers");
            t
        } else {
            "".to_owned()
        };
        push_piece(&mut out, count, Style::colored(Palette::Sky));
        proof {
            assert(piece_views(out@) =~= header_of(self@));
        }
        out
    }

    /// A line of the settings.
    pub fn settings_line(&self, line: SettingsLine, path: &str) -> (r: Vec<Piece>)
        ensures
            piece_views(r@) == settings_line_of(self@, line, path@),
    {
        let title: Style = Style::bold(Palette::Primary);
        let accent: Style = Style::bold(Palette::Accent);
        let muted: Style = Style::colored(Palette::Muted);
        let mut out: Vec<Piece> = no_pieces();
        match line {
            SettingsLine::Renderer => {
                push_piece(&mut out, "  Renderer      ".to_owned(), title);
                push_piece(&mut out, self.config.renderer.label().to_owned(), accent);
                push_piece(
                    &mut out,
                    "   (press m for local, 6 → Enter for a chromecast / UPnP renderer)".to_owned(),
                    muted,
                );
            },
            SettingsLine::LastCast => {
                push_piece(&mut out, "  Last Cast     ".to_owned(), title);
                push_piece(
                    &mut out,
                    dashed(&self.config.last_chromecast),
                    Style::colored(Palette::Highlight),
                );
            },
            SettingsLine::LastUpnp => {
                push_piece(&mut out, "  Last UPnP     ".to_owned(), title);
                push_piece(
                    &mut out,
                    dashed(&self.config.last_upnp),
                    Style::colored(Palette::Highlight),
                );
            },
            SettingsLine::ReplayGain => {
                push_piece(&mut out, "  ReplayGain    ".to_owned(), title);
                push_piece(&mut out, self.config.replaygain.mode.label().to_owned(), accent);
                let mut t: String = "   preamp ".to_owned();
                push_signed_milli(&mut t, self.config.replaygain.preamp_mdb);
                t.push_str(" dB   clip-guard ");
                t.push_str(
                    if self.config.replaygain.prevent_clip {
                        "on"
                    } else {
                        "off"
                    },
                );
                t.push_str("   (press g to cycle)");
                push_piece(&mut out, t, muted);
            },
            SettingsLine::Crossfade => {
                push_piece(&mut out, "  Crossfade     ".to_owned(), title);
                push_piece(&mut out, self.config.crossfade.mode.label().to_owned(), accent);
                let mut t: String = "   duration ".to_owned();
                push_seconds(&mut t, self.config.crossfade.duration_ms);
                t.push_str(" s   (f: cycle mode, Shift+F: cycle duration)");
                push_piece(&mut out, t, muted);
            },
            SettingsLine::Tone => {
                push_piece(&mut out, "  Tone          ".to_owned(), title);
                let mut bass: String = "bass ".to_owned();
                push_signed(&mut bass, self.config.bass as i64);
                bass.push_str(" dB");
                push_piece(&mut out, bass, accent);
                push_piece(&mut out, "   ".to_owned(), muted);
                let mut treble: String = "treble ".to_owned();
                push_signed(&mut treble, self.config.treble as i64);
                treble.push_str(" dB");
                push_piece(&mut out, treble, accent);
                push_piece(
                    &mut out,
                    "   (b/B: bass, y/Y: treble; 1 dB steps)".to_owned(),
                    muted,
                );
            },
            SettingsLine::ConfigFile => {
                push_piece(&mut out, "  Config File   ".to_owned(), title);
                push_piece(&mut out, path.to_owned(), Style::colored(Palette::Sky));
            },
            SettingsLine::Flags => {
                push_piece(
                    &mut out,
                    "  All settings are also CLI flags — `fin --help`.".to_owned(),
                    muted,
                );
            },
        }
        proof {
            assert(piece_views(out@) =~= settings_line_of(self@, line, path@));
        }
        out
    }

    /// The title over the sliders.
    pub fn eq_title(&self) -> (r: String)
        ensures
            r@ == eq_title_of(self@.config.bands.len(), self@.config.eq_enabled),
    {
        let mut r: String = " ▤ Equalizer  (".to_owned();
        push_dec(&mut r, self.config.eq_band_settings.len() as u64);
        r.push_str(
            if self.config.eq_enabled {
                " bands, on) "
            } else {
                " bands, off) "
            },
        );
        r
    }
}

/// The title of a list names what it lists: what is open by its own name and how
/// many there are in it, and the queue by the place in it.
pub proof fn lemma_titles(a: AppView)
    ensures
        a.screen == Screen::Playlists && a.open_playlist is Some ==> list_title_of(a) == " ▤ "@
            + a.open_playlist->0.name + " — "@ + crate::num::dec(a.playlist_items.len())
            + " tracks   (Esc to go back) "@,
        a.screen == Screen::Videos && a.open_series is Some ==> list_title_of(a) == " ▶ "@
            + a.open_series->0.name + " — "@ + crate::num::dec(a.series_children.len())
            + " episode(s)   (Esc to go back) "@,
        a.screen == Screen::Music && a.open_album is Some && a.open_album->0.production_year
            is Some ==> list_title_of(a) == " ◈ "@ + a.open_album->0.name + ("  ("@
            + crate::num::dec_int(a.open_album->0.production_year->0 as int) + ")"@) + "   "@
            + a.open_album->0.line() + "   — "@ + crate::num::dec(a.album_tracks.len())
            + " track(s)   (Esc to go back) "@,
        a.screen == Screen::Queue && a.playback.queue.len() > 0 && a.playback.current_index is Some
            && a.playback.current_index->0 >= 0 ==> list_title_of(a) == " ≡ Queue  ("@
            + crate::num::dec((a.playback.current_index->0 + 1) as nat) + "/"@ + crate::num::dec(
            a.playback.queue.len(),
        ) + ") "@,
        a.screen == Screen::Settings ==> list_title_of(a) == " ◉ Servers  ("@ + crate::num::dec(
            a.config.servers.len(),
        ) + " saved — Enter to switch, t to cycle) "@,
{
}

/// An empty list says why: nothing was typed, or nothing was found.
pub proof fn lemma_empty_lists(a: AppView)
    ensures
        a.screen == Screen::Search && crate::text::trimmed(a.query).len() == 0 ==> empty_message_of(
            a,
        ) == "type to search — results update as you type"@,
        a.screen == Screen::Search && crate::text::trimmed(a.query).len() > 0 ==> empty_message_of(
            a,
        ) == "no matches"@,
        a.screen == Screen::Playlists ==> empty_message_of(a) == "No playlists yet."@,
{
}

/// What was typed stands in the field, with a cursor behind it that blinks while
/// it is typed in.
pub proof fn lemma_field(query: Seq<char>, typing: bool, pulse: u8)
    requires
        query.len() > 0,
    ensures
        ({
            let f = search_field(query, typing, pulse);
            &&& f.len() == 4
            &&& f[2].0 == query
            &&& f[3].0 == (if typing && pulse % 2 == 0 {
                "▏"@
            } else {
                " "@
            })
        }),
{
}

/// The header names the user and the address of the active server; without one
/// it says so.
pub proof fn lemma_header(a: AppView)
    ensures
        a.config.current_index() is Some ==> {
            let s = a.config.servers[a.config.current_index()->0];
            &&& header_of(a)[2].0 == "   "@ + s.user_name@ + " "@
            &&& header_of(a)[3].0 == "@ "@ + s.url@ + " "@
            &&& s.name@.len() > 0 ==> header_of(a)[4].0 == "["@ + s.name@ + "]"@
        },
        a.config.current_index() is None ==> header_of(a)[2].0 == "   "@ + "guest"@ + " "@
            && header_of(a)[3].0 == "@ "@ + "not logged in"@ + " "@,
{
}

/// The active server is marked in its list, and no other; a device is shown by
/// its name and its line.
pub proof fn lemma_rows(s: ServerConfig, current: Seq<char>, d: RemoteDevice, selected: bool)
    ensures
        server_row_of(s, Some(current))[0].0 == (if s.name@ == current {
            " ▍ "@
        } else {
            "   "@
        }),
        server_row_of(s, Some(current))[1].0 == crate::columns::filled(
            s.name@,
            s.name@.len() as int,
            18,
        ),
        server_row_of(s, Some(current))[2].0 == " "@ + s.url@ + "  "@,
        server_row_of(s, Some(current))[3].0 == "as "@ + s.user_name@,
        device_row_of(d, selected)[1].0 == d.shown_as(),
        device_row_of(d, selected)[3].0 == d.line(),
        d is Cast ==> device_row_of(d, selected)[2].0 == "   ["@ + "chromecast"@ + "]  "@,
        d is Upnp ==> device_row_of(d, selected)[2].0 == "   ["@ + "upnp"@ + "]  "@,
{
}

/// The settings show what is set: the renderer, the devices, the modes, and bass
/// and treble each under its own name.
pub proof fn lemma_settings_shown(a: AppView, path: Seq<char>)
    ensures
        settings_line_of(a, SettingsLine::Renderer, path)[1].0 == a.config.renderer.name(),
        a.config.last_chromecast is Some ==> settings_line_of(a, SettingsLine::LastCast, path)[1].0
            == a.config.last_chromecast->0,
        a.config.last_upnp is Some ==> settings_line_of(a, SettingsLine::LastUpnp, path)[1].0
            == a.config.last_upnp->0,
        settings_line_of(a, SettingsLine::ReplayGain, path)[1].0 == a.config.replaygain.mode.name(),
        settings_line_of(a, SettingsLine::Crossfade, path)[1].0 == a.config.crossfade.mode.name(),
        settings_line_of(a, SettingsLine::Tone, path)[1].0 == "bass "@ + crate::num::dec_signed(
            a.config.bass as int,
        ) + " dB"@,
        settings_line_of(a, SettingsLine::Tone, path)[3].0 == "treble "@ + crate::num::dec_signed(
            a.config.treble as int,
        ) + " dB"@,
        settings_line_of(a, SettingsLine::ConfigFile, path)[1].0 == path,
        or_dash(None) == "—"@,
{
}

} // verus!
