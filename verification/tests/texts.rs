//! Numbers, times and columns as they are shown.

use fin::columns::{align_right, columns, pad_to, spaces, truncate, truncate_to_width};
use fin::config::EqBand;
use fin::ids::fresh_id;
use fin::num::{fmt_dur, fmt_hms, parse_hms, push_int, push_signed};
use fin::sort::str_before;
use fin::tui::eq::{eq_hint, fmt_hz, tenths_of, EqSliders};
use fin::tui::help::Area;
use fin::tui::player_bar::fmt_time;
use fin::tui::theme::Palette;

#[test]
fn hours_minutes_seconds_read_back() {
    for secs in [0u64, 1, 59, 60, 3599, 3600, 36_610, 359_999] {
        assert_eq!(parse_hms(&fmt_hms(secs * 1_000_000)), Some(secs * 1_000_000));
    }
    assert_eq!(fmt_hms(3_661_999_999), "1:01:01");
}

#[test]
fn a_time_that_is_none_is_not_read() {
    assert_eq!(parse_hms("NOT_IMPLEMENTED"), None);
    assert_eq!(parse_hms(""), None);
}

#[test]
fn numbers_are_read_as_they_are_written() {
    assert_eq!(parse_hms("+5"), Some(5_000_000));
    assert_eq!(parse_hms("1.5e1"), Some(15_000_000));
    assert_eq!(parse_hms("25E-1"), Some(2_500_000));
    assert_eq!(parse_hms("0:01:2.25e+1"), Some(82_500_000));
    assert_eq!(parse_hms("0.0000019"), Some(1));
    assert_eq!(parse_hms("1e400"), Some(u64::MAX));
    assert_eq!(parse_hms("0e999999999999999999999999999"), Some(0));
    assert_eq!(parse_hms("7e-999999999999999999999999999"), Some(0));
    assert_eq!(parse_hms(".5"), Some(500_000));
    assert_eq!(parse_hms("5."), Some(5_000_000));
    for bad in [".", "+", "e5", "5e", "5e1.0", "++5", "5e+-1", "x"] {
        assert_eq!(parse_hms(bad), None);
    }
    for bad in ["-", "--5", "+-5", "-x", "infinit", "infinityx", "nano", "1:", "1:x"] {
        assert_eq!(parse_hms(bad), None);
    }
}

#[test]
fn a_time_below_none_is_the_start_and_one_beyond_all_the_end() {
    assert_eq!(parse_hms("-5"), Some(0));
    assert_eq!(parse_hms("-0.5e3"), Some(0));
    assert_eq!(parse_hms("0:-1:90"), Some(30_000_000));
    assert_eq!(parse_hms("-1:00:30"), Some(0));
    for end in ["inf", "+INF", "Infinity", "0:inf:-5"] {
        assert_eq!(parse_hms(end), Some(u64::MAX));
    }
    for start in ["-inf", "-infinity", "nan", "NaN", "-nan", "1:nan:00"] {
        assert_eq!(parse_hms(start), Some(0));
    }
}

#[test]
fn short_times() {
    assert_eq!(fmt_dur(65), "1:05");
    assert_eq!(fmt_dur(3_600), "1:00:00");
    assert_eq!(fmt_time(0), "0:00");
    assert_eq!(fmt_time(3_725_999_999), "1:02:05");
}

#[test]
fn signed_numbers() {
    let mut s = String::new();
    push_int(&mut s, -42);
    push_signed(&mut s, 3);
    push_signed(&mut s, -3);
    assert_eq!(s, "-42+3-3");
}

#[test]
fn frequencies() {
    assert_eq!(fmt_hz(60), "60 Hz");
    assert_eq!(fmt_hz(20_000), "20 kHz");
    // These are the nearest single precision numbers, shown with one digit.
    assert_eq!(fmt_hz(1_250), "1.2 kHz");
    assert_eq!(fmt_hz(1_150), "1.1 kHz");
    for hz in [1_001, 1_049, 1_350, 1_450, 2_750, 3_950, 12_345, 15_999] {
        assert_eq!(fmt_hz(hz), format!("{:.1} kHz", hz as f32 / 1000.0));
    }
}

#[test]
fn tenths_are_rounded_as_a_single_precision_number_is() {
    for n in [0, 1, -1, 5, -5, 125, -125, 240, -240] {
        let shown = format!("{:+.1}", n as f32 / 10.0);
        assert_eq!(tenths_of(n), n as i64, "{shown}");
    }
}

#[test]
fn columns_of_wide_characters() {
    assert_eq!(columns("abc"), 3);
    assert_eq!(columns("日本"), 4);
    assert_eq!(spaces(3), "   ");
}

#[test]
fn a_text_is_cut_to_its_column() {
    assert_eq!(truncate("abcdef", 6), "abcdef");
    assert_eq!(truncate("abcdef", 4), "abc…");
    assert_eq!(truncate("abcdef", 1), "…");
    assert_eq!(truncate("日本語", 5), "日本…");
    assert_eq!(truncate("日本語", 4), "日…");
    assert_eq!(truncate_to_width("abcdef", 4), "abc…");
}

#[test]
fn a_text_is_filled_to_its_column() {
    assert_eq!(pad_to("ab", 4), "ab  ");
    assert_eq!(pad_to("日", 4), "日  ");
    assert_eq!(pad_to("abcdef", 4), "abcdef");
    assert_eq!(align_right("1:05", 6), "  1:05");
}

#[test]
fn texts_are_ordered_by_their_characters() {
    assert!(str_before("a", "b"));
    assert!(str_before("a", "ab"));
    assert!(!str_before("a", "a"));
    assert!(str_before("Z", "a"));
}

#[test]
fn fresh_ids_are_uuids_and_differ() {
    let a = fresh_id();
    let b = fresh_id();
    assert_eq!(a.len(), 36);
    assert_eq!(a.chars().filter(|c| *c == '-').count(), 4);
    assert_eq!(a.chars().nth(14), Some('4'));
    assert_ne!(a, b);
}

fn bands(gains: &[i32]) -> Vec<EqBand> {
    gains.iter().map(|g| EqBand { cutoff: 1000, q: 70, gain: *g }).collect()
}

#[test]
fn sliders_fill_from_the_middle() {
    let b = bands(&[0, 240, -240]);
    let s = EqSliders { bands: &b, enabled: true, selected: Some(1), range_db: 24 };
    let laid = s.layout(Area { x: 0, y: 0, width: 60, height: 15 }).unwrap();
    assert_eq!(laid.columns.len(), 3);
    assert_eq!(laid.col_width, 20);
    assert_eq!(laid.center, 7);
    assert_eq!((laid.bar_top, laid.bar_bottom), (1, 12));
    assert_eq!((laid.columns[0].from, laid.columns[0].to), (7, 7));
    assert_eq!((laid.columns[1].from, laid.columns[1].to), (2, 7));
    assert_eq!((laid.columns[2].from, laid.columns[2].to), (7, 12));
    assert!(laid.columns[1].selected);
    assert_eq!(laid.columns[1].db_text, "+24.0");
    assert_eq!(laid.columns[2].db_text, "-24.0");
    assert_eq!(laid.columns[0].hz_text, "1 kHz");
    assert_eq!(s.bar_color(1), Palette::Highlight);
    assert_eq!(s.bar_color(0), Palette::Primary);
}

#[test]
fn no_sliders_where_there_is_no_room() {
    let b = bands(&[0]);
    let s = EqSliders { bands: &b, enabled: true, selected: None, range_db: 24 };
    assert!(s.layout(Area { x: 0, y: 0, width: 7, height: 20 }).is_none());
    assert!(s.layout(Area { x: 0, y: 0, width: 40, height: 4 }).is_none());
    let none = EqSliders { bands: &[], enabled: true, selected: None, range_db: 24 };
    assert!(none.layout(Area { x: 0, y: 0, width: 40, height: 20 }).is_none());
}

#[test]
fn the_hint_tells_the_selected_band() {
    let b = bands(&[0, -125]);
    assert_eq!(
        eq_hint(&b, 1),
        "  band 2: 1000 Hz  Q 7.0  -12.5 dB    E: on/off   [ / ]: band   Shift+↑/↓: ±1 dB"
    );
}
