//! The bands of the equalizer as sliders: where each of them stands, and what is
//! written above and below it.

use vstd::prelude::*;

use crate::config::EqBand;
use crate::num::push_int;
use crate::tenths::{push_plain_tenths, push_signed_tenths, push_tenths, quotient};
use crate::tui::help::Area;
use crate::tui::theme::Palette;

verus! {

/// A frequency in words: `60 Hz`, `1.2 kHz` or `20 kHz`.
pub open spec fn hz_text(hz: int) -> Seq<char> {
    if hz < 1000 {
        crate::num::dec_int(hz) + " Hz"@
    } else if hz % 1000 == 0 {
        crate::num::dec_int(hz / 1000) + " kHz"@
    } else {
        crate::tenths::tenths(crate::tenths::quotient_tenths(hz, 1000)) + " kHz"@
    }
}

/// A frequency in words.
pub fn fmt_hz(hz: i32) -> (r: String)
    ensures
        r@ == hz_text(hz as int),
{
    let mut out: String = String::new();
    if hz < 1000 {
        push_int(&mut out, hz as i64);
        proof {
            assert(out@ =~= crate::num::dec_int(hz as int));
        }
        out.push_str(" Hz");
    } else if hz % 1000 == 0 {
        push_int(&mut out, (hz / 1000) as i64);
        proof {
            assert(out@ =~= crate::num::dec_int(hz as int / 1000));
        }
        out.push_str(" kHz");
    } else {
        let n: u64 = quotient(hz as u32, 1000);
        push_tenths(&mut out, n);
        proof {
            assert(out@ =~= crate::tenths::tenths(n as int));
        }
        out.push_str(" kHz");
    }
    out
}

/// Tenths of a number, as it is held once it was divided by ten.
pub open spec fn held_tenths(n: int) -> int {
    let m = crate::tenths::quotient_tenths(crate::tenths::magnitude(n), 10);
    if n < 0 {
        -m
    } else {
        m
    }
}

/// Tenths of a number, as it is held once it was divided by ten.
pub fn tenths_of(n: i32) -> (r: i64)
    ensures
        r == held_tenths(n as int),
        r > i64::MIN,
{
    let m: u32 = if n < 0 {
        (-(n as i64)) as u32
    } else {
        n as u32
    };
    let q: u64 = quotient(m, 10);
    if n < 0 {
        -(q as i64)
    } else {
        q as i64
    }
}

/// The nearest whole number to a fraction; halfway, the one further from zero.
pub open spec fn half_away(n: int, d: int) -> int {
    if n < 0 {
        -((2 * (-n) + d) / (2 * d))
    } else {
        (2 * n + d) / (2 * d)
    }
}

/// One band as it is drawn.
#[derive(Debug)]
pub struct Slider {
    /// Where its column begins.
    pub col_x: u16,
    /// Where its bar stands.
    pub bar_x: u16,
    /// The first and the last row of the bar that are filled.
    pub from: u16,
    pub to: u16,
    pub selected: bool,
    /// The gain, above the bar.
    pub db_text: String,
    /// The frequency, below it.
    pub hz_text: String,
}

/// The sliders as they are drawn.
#[derive(Debug)]
pub struct Sliders {
    pub col_width: u16,
    /// The first and the last row of the bars, and the one for no gain.
    pub bar_top: u16,
    pub bar_bottom: u16,
    pub center: u16,
    /// The rows of the unit and of the frequencies.
    pub unit_row: u16,
    pub hz_row: u16,
    pub columns: Vec<Slider>,
    /// The label of the axis, where it begins and how much room it gets.
    pub axis_text: String,
    pub axis_x: u16,
    pub axis_width: u16,
}

/// The equalizer as it is to be drawn.
#[derive(Debug)]
pub struct EqSliders<'a> {
    pub bands: &'a [EqBand],
    pub enabled: bool,
    pub selected: Option<usize>,
    /// The gain at the end of a bar, in decibel.
    pub range_db: i32,
}

/// How far a bar reaches from the middle.
pub open spec fn bar_offset(gain: int, range_db: int, half: int) -> int {
    if range_db == 0 {
        0
    } else {
        half_away(crate::config::clamped(gain, -10 * range_db, 10 * range_db) * half, 10 * range_db)
    }
}

/// The number of bands that are drawn.
pub open spec fn shown_bands(n: int) -> int {
    if n < 10 {
        n
    } else {
        10
    }
}

/// The width of a band's column.
pub open spec fn column_width(width: int, bands: int) -> int {
    if width / shown_bands(bands) < 4 {
        4
    } else {
        width / shown_bands(bands)
    }
}

/// How many columns begin within the area.
pub open spec fn shown_columns(width: int, bands: int) -> int {
    let w = column_width(width, bands);
    let fit = (width + w - 1) / w;
    if fit < shown_bands(bands) {
        fit
    } else {
        shown_bands(bands)
    }
}

/// A band as it is drawn.
pub open spec fn slider_for(
    s: Slider,
    band: EqBand,
    i: int,
    selected: Option<usize>,
    range_db: int,
    area: Area,
    bands: int,
) -> bool {
    let w = column_width(area.width as int, bands);
    let center = area.y + area.height / 2;
    let top = area.y + 1;
    let bottom = area.y + area.height - 3;
    let end = crate::config::clamped(
        center - bar_offset(band.gain as int, range_db, (bottom - top) / 2),
        top,
        bottom,
    );
    &&& s.col_x == area.x + i * w
    &&& s.bar_x == s.col_x + w / 2
    &&& s.from == (if end < center {
        end
    } else {
        center
    })
    &&& s.to == (if end < center {
        center
    } else {
        end
    })
    &&& s.selected == (selected matches Some(k) && k == i)
    &&& s.db_text@ == crate::tenths::signed_tenths(held_tenths(band.gain as int))
    &&& s.hz_text@ == hz_text(band.cutoff as int)
}

/// What is shown in place of the sliders where there are no bands, or no room.
pub const NO_BANDS: &'static str = "No EQ bands — add [[eq_band_settings]] to config.toml";

proof fn lemma_columns(width: int, bands: int, i: int)
    requires
        width >= 8,
        bands >= 1,
        0 <= i < shown_bands(bands),
    ensures
        column_width(width, bands) >= 4,
        column_width(width, bands) <= width,
        i * column_width(width, bands) < width <==> i < shown_columns(width, bands),
        i * column_width(width, bands) < width ==> i * column_width(width, bands) + column_width(
            width,
            bands,
        ) <= width + 4,
{
    let n = shown_bands(bands);
    let w = column_width(width, bands);
    assert(width / n <= width) by (nonlinear_arith)
        requires
            width >= 0,
            n >= 1,
    ;
    assert((i * w < width) <==> (i < (width + w - 1) / w)) by (nonlinear_arith)
        requires
            w >= 4,
            width >= 8,
            i >= 0,
    ;
    if width / n >= 4 {
        assert(i * w + w <= width) by (nonlinear_arith)
            requires
                w == width / n,
                i + 1 <= n,
                n >= 1,
                w >= 4,
                width >= 8,
        ;
    }
}

fn offset_of(gain: i32, range_db: i32, half: u16) -> (r: i64)
    requires
        range_db >= 0,
    ensures
        r == bar_offset(gain as int, range_db as int, half as int),
        -(half as int) <= r <= half,
{
    if range_db == 0 {
        return 0;
    }
    let limit: i64 = 10 * (range_db as i64);
    let g: i64 = if (gain as i64) < -limit {
        -limit
    } else if (gain as i64) > limit {
        limit
    } else {
        gain as i64
    };
    let m: i64 = if g < 0 {
        -g
    } else {
        g
    };
    let h: i64 = half as i64;
    proof {
        assert(0 <= m * h <= limit * h && limit * h <= 21474836480 * 65536) by (nonlinear_arith)
            requires
                0 <= m <= limit,
                limit <= 21474836480,
                0 <= h < 65536,
        ;
        assert((2 * (m * h) + limit) / (2 * limit) <= h) by (nonlinear_arith)
            requires
                0 <= m * h <= limit * h,
                limit >= 1,
        ;
        assert((-m) * h == -(m * h)) by (nonlinear_arith);
        assert((2 * (m * h) + limit) / (2 * limit) >= 0) by (nonlinear_arith)
            requires
                0 <= m * h,
                limit >= 1,
        ;
        if m * h == 0 {
            assert(limit as int / (2 * limit) == 0) by (nonlinear_arith)
                requires
                    limit >= 1,
            ;
        }
    }
    let q: i64 = (2 * (m * h) + limit) / (2 * limit);
    if g < 0 {
        -q
    } else {
        q
    }
}

impl<'a> EqSliders<'a> {
    /// How the sliders are drawn in an area, or that there is nothing to draw.
    pub fn layout(&self, area: Area) -> (r: Option<Sliders>)
        requires
            self.range_db >= 0,
            area.x + area.width + 4 <= u16::MAX,
            area.y + area.height <= u16::MAX,
        ensures
            r is Some <==> self.bands@.len() > 0 && area.width >= 8 && area.height >= 5,
            match r {
                Some(s) => {
                    &&& s.col_width == column_width(area.width as int, self.bands@.len() as int)
                    &&& s.bar_top == area.y + 1
                    &&& s.bar_bottom == area.y + area.height - 3
                    &&& s.center == area.y + area.height / 2
                    &&& s.unit_row == area.y + area.height - 2
                    &&& s.hz_row == area.y + area.height - 1
                    &&& s.columns@.len() == shown_columns(
                        area.width as int,
                        self.bands@.len() as int,
                    )
                    &&& forall|i: int|
                        0 <= i < s.columns@.len() ==> slider_for(
                            #[trigger] s.columns@[i],
                            self.bands@[i],
                            i,
                            self.selected,
                            self.range_db as int,
                            area,
                            self.bands@.len() as int,
                        )
                    &&& s.axis_text@ == "±"@ + crate::num::dec_int(self.range_db as int) + " dB"@
                    &&& s.axis_width == crate::num::dec_int(self.range_db as int).len() + 5
                    &&& s.axis_x == (if area.x + area.width < s.axis_width {
                        0
                    } else {
                        area.x + area.width - s.axis_width
                    })
                },
                None => true,
            },
    {
        if self.bands.len() == 0 || area.width < 8 || area.height < 5 {
            return None;
        }
        let n: usize = if self.bands.len() < 10 {
            self.bands.len()
        } else {
            10
        };
        let each: u16 = area.width / (n as u16);
        let w: u16 = if each < 4 {
            4
        } else {
            each
        };
        let ghost total = self.bands@.len() as int;
        proof {
            assert(w == column_width(area.width as int, total));
        }
        let center: u16 = area.y + area.height / 2;
        let top: u16 = area.y + 1;
        let bottom: u16 = area.y + (area.height - 3);
        let half: u16 = (bottom - top) / 2;
        let right: u16 = area.x + area.width;
        let mut columns: Vec<Slider> = Vec::new();
        let mut i: usize = 0;
        let mut col_x: u16 = area.x;
        while i < n && col_x < right
            invariant
                i <= n,
                n == shown_bands(total),
                total == self.bands@.len(),
                total > 0,
                self.range_db >= 0,
                area.width >= 8,
                area.height >= 5,
                area.x + area.width + 4 <= u16::MAX,
                area.y + area.height <= u16::MAX,
                w == column_width(area.width as int, total),
                4 <= w,
                right == area.x + area.width,
                center == area.y + area.height / 2,
                top == area.y + 1,
                bottom == area.y + area.height - 3,
                half == (bottom - top) / 2,
                col_x == area.x + i * w,
                col_x <= area.x + area.width + 4,
                columns@.len() == i,
                i > 0 ==> (i - 1) * w < area.width,
                forall|k: int|
                    0 <= k < i ==> slider_for(
                        #[trigger] columns@[k],
                        self.bands@[k],
                        k,
                        self.selected,
                        self.range_db as int,
                        area,
                        total,
                    ),
            decreases n - i,
        {
            let band: EqBand = self.bands[i];
            let off: i64 = offset_of(band.gain, self.range_db, half);
            let raw: i64 = (center as i64) - off;
            let end: u16 = if raw < top as i64 {
                top
            } else if raw > bottom as i64 {
                bottom
            } else {
                raw as u16
            };
            let mut db_text: String = String::new();
            let t: i64 = tenths_of(band.gain);
            push_signed_tenths(&mut db_text, t);
            proof {
                assert(db_text@ =~= crate::tenths::signed_tenths(t as int));
                lemma_columns(area.width as int, total, i as int);
                assert((i + 1) * w == i * w + w) by (nonlinear_arith);
            }
            let s: Slider = Slider {
                col_x,
                bar_x: col_x + w / 2,
                from: if end < center {
                    end
                } else {
                    center
                },
                to: if end < center {
                    center
                } else {
                    end
                },
                selected: match self.selected {
                    Some(k) => k == i,
                    None => false,
                },
                db_text,
                hz_text: fmt_hz(band.cutoff),
            };
            proof {
                assert(slider_for(
                    s,
                    self.bands@[i as int],
                    i as int,
                    self.selected,
                    self.range_db as int,
                    area,
                    total,
                ));
            }
            columns.push(s);
            col_x = col_x + w;
            i += 1;
        }
        proof {
            if i < n {
                lemma_columns(area.width as int, total, i as int);
            }
            if i > 0 {
                lemma_columns(area.width as int, total, i - 1);
            }
            assert(0 * w == 0) by (nonlinear_arith);
        }
        let mut axis_text: String = "±".to_owned();
        push_int(&mut axis_text, self.range_db as i64);
        axis_text.push_str(" dB");
        let len: usize = crate::text::chars(axis_text.as_str()).len();
        proof {
            reveal_strlit("±");
            reveal_strlit(" dB");
            reveal_with_fuel(power10, 11);
            lemma_dec_short(self.range_db as nat, 10);
        }
        // The first sign takes two bytes.
        let axis_width: u16 = (len + 1) as u16;
        let axis_x: u16 = if right < axis_width {
            0
        } else {
            right - axis_width
        };
        Some(
            Sliders {
                col_width: w,
                bar_top: top,
                bar_bottom: bottom,
                center,
                unit_row: area.y + (area.height - 2),
                hz_row: area.y + (area.height - 1),
                columns,
                axis_text,
                axis_x,
                axis_width,
            },
        )
    }

    /// The colour of a band's bar.
    pub fn bar_color(&self, band: usize) -> (r: Palette)
        ensures
            r == (if !self.enabled {
                Palette::Muted
            } else if self.selected == Some(band) {
                Palette::Highlight
            } else {
                Palette::Primary
            }),
    {
        let selected: bool = match self.selected {
            Some(k) => k == band,
            None => false,
        };
        if !self.enabled {
            Palette::Muted
        } else if selected {
            Palette::Highlight
        } else {
            Palette::Primary
        }
    }
}

/// The power of ten.
pub open spec fn power10(k: nat) -> nat
    decreases k,
{
    if k == 0 {
        1
    } else {
        10 * power10((k - 1) as nat)
    }
}

proof fn lemma_dec_short(n: nat, k: nat)
    requires
        k >= 1,
        n < power10(k),
    ensures
        crate::num::dec(n).len() <= k,
    decreases k,
{
    reveal_with_fuel(power10, 2);
    if n >= 10 {
        lemma_dec_short(n / 10, (k - 1) as nat);
    }
}

/// The hint below the sliders.
pub open spec fn band_hint(bands: Seq<EqBand>, selected: int) -> Seq<char> {
    (if bands.len() == 0 {
        "  no bands configured — add [[eq_band_settings]] to config.toml    "@
    } else {
        let i = if selected < bands.len() {
            selected
        } else {
            bands.len() - 1
        };
        "  band "@ + crate::num::dec((i + 1) as nat) + ": "@ + crate::num::dec_int(
            bands[i].cutoff as int,
        ) + " Hz  Q "@ + crate::tenths::plain_tenths(held_tenths(bands[i].q as int)) + "  "@
            + crate::tenths::signed_tenths(held_tenths(bands[i].gain as int)) + " dB    "@
    }) + "E: on/off   [ / ]: band   Shift+↑/↓: ±1 dB"@
}

/// The hint below the sliders.
pub fn eq_hint(bands: &[EqBand], selected: usize) -> (r: String)
    ensures
        r@ == band_hint(bands@, selected as int),
{
    let mut r: String = if bands.len() == 0 {
        "  no bands configured — add [[eq_band_settings]] to config.toml    ".to_owned()
    } else {
        let i: usize = if selected < bands.len() {
            selected
        } else {
            bands.len() - 1
        };
        let count: usize = bands.len();
        let mut t: String = "  band ".to_owned();
        crate::num::push_dec(&mut t, (i + 1) as u64);
        t.push_str(": ");
        push_int(&mut t, bands[i].cutoff as i64);
        t.push_str(" Hz  Q ");
        push_plain_tenths(&mut t, tenths_of(bands[i].q));
        t.push_str("  ");
        push_signed_tenths(&mut t, tenths_of(bands[i].gain));
        t.push_str(" dB    ");
        t
    };
    r.push_str("E: on/off   [ / ]: band   Shift+↑/↓: ±1 dB");
    r
}

/// A bar stays within its rows, holds the row for no gain, and grows to the
/// side of its gain: upward for more, downward for less.
pub proof fn lemma_bar_in_place(
    s: Slider,
    band: EqBand,
    i: int,
    selected: Option<usize>,
    range_db: int,
    area: Area,
    bands: int,
)
    requires
        area.height >= 5,
        range_db >= 0,
        slider_for(s, band, i, selected, range_db, area, bands),
    ensures
        area.y < s.from <= area.y + area.height / 2 <= s.to <= area.y + area.height - 3,
        band.gain >= 0 ==> s.to == area.y + area.height / 2,
        band.gain <= 0 ==> s.from == area.y + area.height / 2,
{
    let half = (area.height - 4) / 2;
    let d = 10 * range_db;
    let g = crate::config::clamped(band.gain as int, -d, d);
    if range_db > 0 {
        assert((g * half >= 0 ==> g * half == 0 || g > 0) && (g >= 0 ==> g * half >= 0) && (g <= 0
            ==> g * half <= 0)) by (nonlinear_arith)
            requires
                half >= 0,
        ;
        let n = g * half;
        if n >= 0 {
            assert((2 * n + d) / (2 * d) >= 0) by (nonlinear_arith)
                requires
                    n >= 0,
                    d > 0,
            ;
        } else {
            assert((2 * (-n) + d) / (2 * d) >= 0) by (nonlinear_arith)
                requires
                    n < 0,
                    d > 0,
            ;
        }
        if n == 0 {
            assert((2 * n + d) / (2 * d) == 0) by (nonlinear_arith)
                requires
                    n == 0,
                    d > 0,
            ;
        }
    }
}

/// A bar of no gain reaches nowhere, and one of the whole range reaches all the
/// way, up or down; beyond the range it reaches no further.
pub proof fn lemma_bar_ends(gain: int, range_db: int, half: int)
    requires
        range_db > 0,
        half >= 0,
    ensures
        bar_offset(0, range_db, half) == 0,
        gain >= 10 * range_db ==> bar_offset(gain, range_db, half) == half,
        gain <= -10 * range_db ==> bar_offset(gain, range_db, half) == -half,
{
    let d = 10 * range_db;
    assert(0 * half == 0);
    assert(half_away(0, d) == 0) by (nonlinear_arith)
        requires
            d > 0,
    ;
    assert((2 * (d * half) + d) / (2 * d) == half) by (nonlinear_arith)
        requires
            d > 0,
            half >= 0,
    ;
    assert((-d) * half == -(d * half)) by (nonlinear_arith);
    assert(d * half >= 0) by (nonlinear_arith)
        requires
            d > 0,
            half >= 0,
    ;
    if half == 0 {
        assert(d * half == 0);
    } else {
        assert(d * half > 0) by (nonlinear_arith)
            requires
                d > 0,
                half > 0,
        ;
    }
}

/// A frequency below a thousand is told in hertz, and a whole number of
/// thousands in kilohertz.
pub proof fn lemma_frequencies(hz: nat)
    ensures
        hz < 1000 ==> hz_text(hz as int) == crate::num::dec(hz) + " Hz"@,
        hz >= 1 ==> hz_text((1000 * hz) as int) == crate::num::dec(hz) + " kHz"@,
{
}

/// The hint names the band that is selected by its number, counted from one,
/// and its frequency.
pub proof fn lemma_hint_names_band(bands: Seq<EqBand>, i: int)
    requires
        0 <= i < bands.len(),
    ensures
        exists|b: Seq<char>|
            band_hint(bands, i) == "  band "@ + crate::num::dec((i + 1) as nat) + ": "@
                + crate::num::dec_int(bands[i].cutoff as int) + #[trigger] (" Hz  Q "@ + b),
{
    let b = crate::tenths::plain_tenths(held_tenths(bands[i].q as int)) + "  "@
        + crate::tenths::signed_tenths(held_tenths(bands[i].gain as int)) + " dB    "@
        + "E: on/off   [ / ]: band   Shift+↑/↓: ±1 dB"@;
    assert(band_hint(bands, i) =~= "  band "@ + crate::num::dec((i + 1) as nat) + ": "@
        + crate::num::dec_int(bands[i].cutoff as int) + (" Hz  Q "@ + b));
}

} // verus!
