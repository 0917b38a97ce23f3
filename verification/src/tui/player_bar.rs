//! The bar at the bottom: what plays, where, and how far it has come.

use vstd::prelude::*;

use crate::config::CrossfadeMode;
use crate::num::{fmt_dur, push_dec, push_signed};
use crate::queue::RepeatMode;
use crate::renderer::{PlaybackState, PlaybackStatus, RendererKind};
use crate::tenths::whole_seconds;
use crate::tui::theme::{piece_views, push_piece, Palette, Piece, Style};

verus! {

/// What the bar shows.
#[derive(Debug)]
pub struct PlayerBar<'a> {
    pub state: &'a PlaybackState,
    pub renderer: RendererKind,
    pub renderer_label: &'a str,
}

/// The sign of a status, and its look.
pub open spec fn status_sign(status: PlaybackStatus) -> (Seq<char>, Style) {
    match status {
        PlaybackStatus::Playing => ("▶"@, Style::strong(Palette::Highlight)),
        PlaybackStatus::Paused => ("⏸"@, Style::strong(Palette::Warn)),
        PlaybackStatus::Buffering => ("⋯"@, Style::strong(Palette::Sky)),
        PlaybackStatus::Stopped => ("⏹"@, Style::strong(Palette::Muted)),
        PlaybackStatus::Idle => ("⏹"@, Style::strong(Palette::Muted)),
    }
}

/// The sign of a status, and its look.
pub fn status_icon(status: PlaybackStatus) -> (r: (&'static str, Style))
    ensures
        (r.0@, r.1) == status_sign(status),
{
    match status {
        PlaybackStatus::Playing => ("▶", Style::bold(Palette::Highlight)),
        PlaybackStatus::Paused => ("⏸", Style::bold(Palette::Warn)),
        PlaybackStatus::Buffering => ("⋯", Style::bold(Palette::Sky)),
        PlaybackStatus::Stopped => ("⏹", Style::bold(Palette::Muted)),
        PlaybackStatus::Idle => ("⏹", Style::bold(Palette::Muted)),
    }
}

/// A time in words, given in microseconds.
pub fn fmt_time(us: u64) -> (r: String)
    ensures
        r@ == crate::num::short_time((us / 1000000) as nat),
{
    fmt_dur(us / 1000000)
}

/// The name of a renderer, behind its sign.
pub open spec fn renderer_sign(kind: RendererKind) -> Seq<char> {
    match kind {
        RendererKind::Mpv => "󰐋 local"@,
        RendererKind::Chromecast => "󰓐 chromecast"@,
        RendererKind::Upnp => "◈ upnp"@,
    }
}

/// How something looks that is on or off.
pub open spec fn switch_look(on: bool) -> Style {
    if on {
        Style::strong(Palette::Highlight)
    } else {
        Style::of(Palette::Muted)
    }
}

fn look(on: bool) -> (r: Style)
    ensures
        r == switch_look(on),
{
    if on {
        Style::bold(Palette::Highlight)
    } else {
        Style::colored(Palette::Muted)
    }
}

/// The title row: the sign of the status, whether the track came from another
/// device, and its title.
pub open spec fn title_row(state: PlaybackState) -> Seq<(Seq<char>, Style)> {
    let sign = status_sign(state.status);
    let first = seq![(sign.0 + " "@, sign.1)];
    match state.now_playing {
        Some(item) => (if crate::text::starts_with(item.id@, "upnp-cast:"@) {
            first.push(("⇊ UPnP "@, Style::strong(Palette::Accent)))
        } else {
            first
        }).push((item.title@, Style::strong(Palette::Fg))),
        None => first.push(("Nothing playing"@, Style::strong(Palette::Fg))),
    }
}

/// The sign of a repeat mode.
pub open spec fn repeat_sign(mode: RepeatMode) -> Seq<char> {
    match mode {
        RepeatMode::Off => "↻ "@,
        RepeatMode::All => "↻ "@,
        RepeatMode::One => "↺ "@,
    }
}

/// The signs of what is done to the sound, each only while it is done.
pub open spec fn badges(state: PlaybackState) -> Seq<Seq<char>> {
    let none = Seq::<Seq<char>>::empty();
    (if state.replaygain.mode == crate::config::ReplayGainMode::Off {
        none
    } else {
        seq!["RG:"@ + state.replaygain.mode.name() + " "@]
    }) + (match state.crossfade.mode {
        CrossfadeMode::Off => none,
        CrossfadeMode::Crossfade => seq!["⋈ "@ + fade_text(state.crossfade.duration_ms as int)],
        CrossfadeMode::Mixed => seq!["≈ "@ + fade_text(state.crossfade.duration_ms as int)],
    }) + (if state.eq_enabled {
        seq!["EQ "@]
    } else {
        none
    }) + (if state.bass_db != 0 || state.treble_db != 0 {
        seq![tone_text(state.bass_db as int, state.treble_db as int)]
    } else {
        none
    })
}

/// The length of an overlap, in whole seconds.
pub open spec fn fade_text(ms: int) -> Seq<char> {
    crate::num::dec(crate::tenths::half_even(ms, 1000) as nat) + "s "@
}

/// The bass and the treble.
pub open spec fn tone_text(bass: int, treble: int) -> Seq<char> {
    "B"@ + crate::num::dec_signed(bass) + "/T"@ + crate::num::dec_signed(treble) + " "@
}

/// Texts that are on.
pub open spec fn lit(v: Seq<Seq<char>>) -> Seq<(Seq<char>, Style)> {
    v.map_values(|s: Seq<char>| (s, Style::strong(Palette::Highlight)))
}

/// The row to the right of the title.
pub open spec fn right_row(state: PlaybackState, kind: RendererKind, label: Seq<char>) -> Seq<
    (Seq<char>, Style),
> {
    seq![
        ("⇄ "@, switch_look(state.shuffle)),
        (repeat_sign(state.repeat), switch_look(state.repeat != RepeatMode::Off)),
    ] + lit(badges(state)) + seq![
        (
            "♪ "@ + crate::num::dec((state.volume_milli / 10) as nat) + "%   "@,
            Style::of(Palette::Highlight),
        ),
        (renderer_sign(kind) + "  "@, Style::strong(Palette::Accent)),
        ("on "@ + label, Style::of(Palette::Muted)),
    ]
}

/// What a time is said to be that nobody knows.
pub const UNKNOWN_TIME: &'static str = "--:--";

/// The whole length of what plays, in words.
pub open spec fn total_text(state: PlaybackState) -> Seq<char> {
    if state.duration_us > 0 {
        crate::num::short_time((state.duration_us / 1000000) as nat)
    } else {
        match state.now_playing {
            Some(item) => match item.duration_secs {
                Some(s) => crate::num::short_time(s as nat),
                None => UNKNOWN_TIME@,
            },
            None => UNKNOWN_TIME@,
        }
    }
}

fn overlap_text(sign: &str, ms: u32) -> (r: String)
    ensures
        r@ == sign@ + fade_text(ms as int),
{
    let mut tail: String = String::new();
    push_dec(&mut tail, whole_seconds(ms));
    tail.push_str("s ");
    proof {
        assert(tail@ =~= fade_text(ms as int));
    }
    let mut r: String = sign.to_owned();
    r.push_str(tail.as_str());
    r
}

impl<'a> PlayerBar<'a> {
    /// The title row.
    pub fn title(&self) -> (r: Vec<Piece>)
        ensures
            piece_views(r@) == title_row(*self.state),
    {
        let mut out: Vec<Piece> = Vec::new();
        let (icon, style): (&'static str, Style) = status_icon(self.state.status);
        let mut sign: String = icon.to_owned();
        sign.push_str(" ");
        push_piece(&mut out, sign, style);
        match &self.state.now_playing {
            Some(item) => {
                if item.is_upnp_cast() {
                    push_piece(&mut out, "⇊ UPnP ".to_owned(), Style::bold(Palette::Accent));
                }
                push_piece(&mut out, item.title.clone(), Style::bold(Palette::Fg));
            },
            None => {
                push_piece(&mut out, "Nothing playing".to_owned(), Style::bold(Palette::Fg));
            },
        }
        proof {
            assert(piece_views(out@) =~= title_row(*self.state));
        }
        out
    }

    /// The row below the title.
    pub fn subtitle(&self) -> (r: String)
        ensures
            r@ == (match self.state.now_playing {
                Some(item) => item.subtitle@,
                None => ""@,
            }),
    {
        match &self.state.now_playing {
            Some(item) => item.subtitle.clone(),
            None => "".to_owned(),
        }
    }

    fn push_badges(&self, out: &mut Vec<Piece>)
        ensures
            piece_views(final(out)@) == piece_views(old(out)@) + lit(badges(*self.state)),
    {
        let ghost start = piece_views(out@);
        let ghost mut had = Seq::<Seq<char>>::empty();
        let s: &PlaybackState = self.state;
        proof {
            assert(start =~= start + lit(had));
        }
        if s.replaygain.mode.is_active() {
            let mut t: String = "RG:".to_owned();
            t.push_str(s.replaygain.mode.label());
            t.push_str(" ");
            proof {
                had = had.push(t@);
            }
            push_piece(out, t, Style::bold(Palette::Highlight));
            proof {
                assert(piece_views(out@) =~= start + lit(had));
            }
        }
        if s.crossfade.mode.is_active() {
            let t: String = match s.crossfade.mode {
                CrossfadeMode::Crossfade => overlap_text("⋈ ", s.crossfade.duration_ms),
                _ => overlap_text("≈ ", s.crossfade.duration_ms),
            };
            proof {
                had = had.push(t@);
            }
            push_piece(out, t, Style::bold(Palette::Highlight));
            proof {
                assert(piece_views(out@) =~= start + lit(had));
            }
        }
        if s.eq_enabled {
            proof {
                had = had.push("EQ "@);
            }
            push_piece(out, "EQ ".to_owned(), Style::bold(Palette::Highlight));
            proof {
                assert(piece_views(out@) =~= start + lit(had));
            }
        }
        if s.bass_db != 0 || s.treble_db != 0 {
            let mut t: String = "B".to_owned();
            push_signed(&mut t, s.bass_db as i64);
            t.push_str("/T");
            push_signed(&mut t, s.treble_db as i64);
            t.push_str(" ");
            proof {
                had = had.push(t@);
            }
            push_piece(out, t, Style::bold(Palette::Highlight));
            proof {
                assert(piece_views(out@) =~= start + lit(had));
            }
        }
        proof {
            assert(had =~= badges(*s));
        }
    }

    /// The row to the right of the title.
    pub fn right(&self) -> (r: Vec<Piece>)
        ensures
            piece_views(r@) == right_row(*self.state, self.renderer, self.renderer_label@),
    {
        let s: &PlaybackState = self.state;
        let mut out: Vec<Piece> = Vec::new();
        push_piece(&mut out, "⇄ ".to_owned(), look(s.shuffle));
        let glyph: &'static str = match s.repeat {
            RepeatMode::Off => "↻ ",
            RepeatMode::All => "↻ ",
            RepeatMode::One => "↺ ",
        };
        push_piece(&mut out, glyph.to_owned(), look(s.repeat != RepeatMode::Off));
        proof {
            assert(piece_views(out@) =~= seq![
                ("⇄ "@, switch_look(s.shuffle)),
                (repeat_sign(s.repeat), switch_look(s.repeat != RepeatMode::Off)),
            ]);
        }
        self.push_badges(&mut out);
        let ghost mid = piece_views(out@);
        let mut volume: String = "♪ ".to_owned();
        push_dec(&mut volume, (s.volume_milli / 10) as u64);
        volume.push_str("%   ");
        push_piece(&mut out, volume, Style::colored(Palette::Highlight));
        let mut where_: String = match self.renderer {
            RendererKind::Mpv => "󰐋 local".to_owned(),
            RendererKind::Chromecast => "󰓐 chromecast".to_owned(),
            RendererKind::Upnp => "◈ upnp".to_owned(),
        };
        where_.push_str("  ");
        push_piece(&mut out, where_, Style::bold(Palette::Accent));
        let mut on: String = "on ".to_owned();
        on.push_str(self.renderer_label);
        push_piece(&mut out, on, Style::colored(Palette::Muted));
        proof {
            assert(piece_views(out@) =~= right_row(*s, self.renderer, self.renderer_label@));
        }
        out
    }

    /// How long it has played, in words.
    pub fn elapsed(&self) -> (r: String)
        ensures
            r@ == crate::num::short_time((self.state.position_us / 1000000) as nat),
    {
        fmt_time(self.state.position_us)
    }

    /// How long it is, in words.
    pub fn total(&self) -> (r: String)
        ensures
            r@ == total_text(*self.state),
    {
        if self.state.duration_us > 0 {
            return fmt_time(self.state.duration_us);
        }
        match &self.state.now_playing {
            Some(item) => match item.duration_secs {
                Some(s) => fmt_dur(s),
                None => UNKNOWN_TIME.to_owned(),
            },
            None => UNKNOWN_TIME.to_owned(),
        }
    }

    /// How far it has come: so many parts of so many.
    pub fn progress(&self) -> (r: (u64, u64))
        ensures
            r.0 <= r.1,
            r.1 > 0,
            r == (if self.state.duration_us == 0 {
                (0, 1)
            } else if self.state.position_us > self.state.duration_us {
                (self.state.duration_us, self.state.duration_us)
            } else {
                (self.state.position_us, self.state.duration_us)
            }),
    {
        let total: u64 = self.state.duration_us;
        if total == 0 {
            (0, 1)
        } else if self.state.position_us > total {
            (total, total)
        } else {
            (self.state.position_us, total)
        }
    }
}

/// The bar shows the title of what plays, behind the sign of its status, and
/// marks what another device pushed; where nothing plays it says so.
pub proof fn lemma_title_shown(state: PlaybackState)
    ensures
        ({
            let row = title_row(state);
            &&& row[0].0 == status_sign(state.status).0 + " "@
            &&& state.now_playing is Some ==> row.last().0 == state.now_playing->0.title@
            &&& state.now_playing is None ==> row.last().0 == "Nothing playing"@ && row.len() == 2
            &&& state.now_playing is Some ==> (row.len() == 3 <==> crate::text::starts_with(
                state.now_playing->0.id@,
                crate::queue::UPNP_CAST_ID_PREFIX@,
            ))
        }),
{
}

/// The signs tell the statuses apart: playing, paused, on its way, and at rest.
pub proof fn lemma_status_signs()
    ensures
        status_sign(PlaybackStatus::Playing).0 == "▶"@,
        status_sign(PlaybackStatus::Paused).0 == "⏸"@,
        status_sign(PlaybackStatus::Buffering).0 == "⋯"@,
        status_sign(PlaybackStatus::Stopped).0 == "⏹"@,
        status_sign(PlaybackStatus::Idle) == status_sign(PlaybackStatus::Stopped),
        renderer_sign(RendererKind::Mpv) == "󰐋 local"@,
        renderer_sign(RendererKind::Chromecast) == "󰓐 chromecast"@,
        renderer_sign(RendererKind::Upnp) == "◈ upnp"@,
{
}

/// The row to the right tells shuffle and repeat by whether they are lit, the
/// volume in percent, and where it plays.
pub proof fn lemma_right_row(state: PlaybackState, kind: RendererKind, label: Seq<char>)
    ensures
        ({
            let row = right_row(state, kind, label);
            let n = row.len() as int;
            &&& row[0].1 == switch_look(state.shuffle)
            &&& row[1].1 == switch_look(state.repeat != RepeatMode::Off)
            &&& row[n - 3].0 == "♪ "@ + crate::num::dec((state.volume_milli as int / 10) as nat)
                + "%   "@
            &&& row[n - 2].0 == renderer_sign(kind) + "  "@
            &&& row[n - 1].0 == "on "@ + label
        }),
        switch_look(true) != switch_look(false),
        switch_look(true).bold && !switch_look(false).bold,
{
}

/// What is done to the sound has a sign, and only while it is done.
pub proof fn lemma_badges(state: PlaybackState)
    ensures
        ({
            let plain = state.replaygain.mode == crate::config::ReplayGainMode::Off
                && state.crossfade.mode == CrossfadeMode::Off && !state.eq_enabled
                && state.bass_db == 0 && state.treble_db == 0;
            &&& plain <==> badges(state).len() == 0
            &&& state.replaygain.mode != crate::config::ReplayGainMode::Off ==> badges(state)[0]
                == "RG:"@ + state.replaygain.mode.name() + " "@
            &&& state.bass_db != 0 || state.treble_db != 0 ==> badges(state).last() == "B"@
                + crate::num::dec_signed(state.bass_db as int) + "/T"@ + crate::num::dec_signed(
                state.treble_db as int,
            ) + " "@
            &&& state.eq_enabled && state.bass_db == 0 && state.treble_db == 0 ==> badges(
                state,
            ).last() == "EQ "@
        }),
{
}

/// The whole length is what the renderer knows, else what the server told, else
/// unknown.
pub proof fn lemma_total_shown(state: PlaybackState)
    ensures
        state.duration_us > 0 ==> total_text(state) == crate::num::short_time(
            (state.duration_us as int / 1_000_000) as nat,
        ),
        state.duration_us == 0 && state.now_playing is Some && state.now_playing->0.duration_secs
            is Some ==> total_text(state) == crate::num::short_time(
            state.now_playing->0.duration_secs->0 as nat,
        ),
        state.duration_us == 0 && state.now_playing is None ==> total_text(state) == "--:--"@,
{
}

} // verus!
