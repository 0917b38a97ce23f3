//! The terminal program: keys, screens and what they show.

use fin::cast::CastDevice;
use fin::config::{Config, CrossfadeMode, CrossfadeSettings, ReplayGainMode, ServerConfig};
use fin::devices::{merge, note_cast, note_location, note_upnp, pick_chromecast, Location, RemoteDevice};
use fin::jellyfin::{JellyfinClient, StreamFormat};
use fin::media::{MediaClient, ServerKind};
use fin::models::BaseItem;
use fin::queue::{QueueItem, RepeatMode};
use fin::renderer::{PlaybackState, PlaybackStatus, RendererCall, RendererKind};
use fin::tui::app::{App, Effect, StatusLook, HELP_LINE};
use fin::tui::help::{build_lines, help_sections, Area, HelpModal};
use fin::tui::keys::{key_action, Action, Key, Mods, PlayMode};
use fin::tui::outcome::{load_screen, search_kinds, ScreenLoad};
use fin::tui::player_bar::{PlayerBar, UNKNOWN_TIME};
use fin::tui::screens::{
    album_rows, album_track_row, item_row_line, marked_row, number_width, AlbumRow, RowLayout,
    RowLook, Screen,
};
use fin::tui::texts::{device_row, server_row, SettingsLine};
use fin::tui::theme::{NeonTabs, Palette, Piece};
use fin::upnp::UpnpDevice;

fn base(kind: &str, id: &str) -> BaseItem {
    BaseItem {
        id: id.into(),
        name: format!("name {id}"),
        type_: kind.into(),
        album: None,
        album_id: None,
        album_artist: None,
        artists: Some(vec!["Ann".into()]),
        series_name: None,
        production_year: Some(1999),
        run_time_ticks: Some(650_000_000),
        media_type: None,
        container: None,
        index_number: None,
        parent_index_number: None,
        image_tags: None,
        is_folder: None,
        overview: None,
    }
}

fn entry(id: &str) -> QueueItem {
    QueueItem {
        id: id.into(),
        title: format!("title {id}"),
        subtitle: "Ann".into(),
        stream_url: format!("http://example/{id}"),
        image_url: None,
        duration_secs: Some(65),
        is_video: false,
        content_type: "audio/mpeg".into(),
    }
}

fn server(name: &str) -> ServerConfig {
    ServerConfig {
        name: name.into(),
        url: format!("http://{name}"),
        user_id: "u".into(),
        user_name: "ann".into(),
        access_token: "t".into(),
        device_id: "d".into(),
        server_kind: ServerKind::Jellyfin,
    }
}

const NONE: Mods = Mods { control: false, shift: false, other: false };
const SHIFT: Mods = Mods { control: false, shift: true, other: false };
const CONTROL: Mods = Mods { control: true, shift: false, other: false };

fn app() -> App {
    let mut config = Config::default();
    config.ensure_eq_bands();
    config.add_or_update_server(server("a"));
    config.add_or_update_server(server("b"));
    let mut app = App::new(config, RendererKind::Mpv);
    app.search_input_focused = false;
    app
}

fn press(app: &mut App, key: Key) -> Effect {
    app.handle_key(key, NONE, 0).effect
}

fn told(app: &mut App) -> String {
    app.status_line(0).0.trim().to_string()
}

fn plain(pieces: &[Piece]) -> String {
    pieces.iter().map(|p| p.text.as_str()).collect()
}

// Keys ----------------------------------------------------------------------

#[test]
fn the_help_swallows_other_keys() {
    assert_eq!(key_action(true, true, Screen::Music, Key::Char('q'), NONE), Action::Ignore);
    assert_eq!(key_action(true, true, Screen::Music, Key::Esc, NONE), Action::CloseHelp);
    assert_eq!(key_action(true, false, Screen::Music, Key::Char('c'), CONTROL), Action::Quit);
}

#[test]
fn what_is_typed_lands_in_the_field() {
    for c in ['q', 's', '?', ' ', '7'] {
        assert_eq!(
            key_action(false, true, Screen::Search, Key::Char(c), NONE),
            Action::Type(c)
        );
    }
}

#[test]
fn tabs_come_round() {
    let mut s = Screen::Music;
    for _ in 0..7 {
        assert_eq!(s.next().prev(), s);
        s = s.next();
    }
    assert_eq!(s, Screen::Music);
    assert_eq!(Screen::all().len(), 7);
    assert_eq!(Screen::all()[Screen::Queue.index()], Screen::Queue);
}

// Lists ---------------------------------------------------------------------

#[test]
fn the_selection_stays_in_the_list() {
    let mut a = app();
    a.screen_loaded(ScreenLoad::Albums, vec![base("MusicAlbum", "1"), base("MusicAlbum", "2")], 0);
    assert_eq!(told(&mut a), "♪ 2 album(s)");
    for _ in 0..5 {
        press(&mut a, Key::Down);
    }
    assert!(a.selected.unwrap() < 2);
    for _ in 0..5 {
        press(&mut a, Key::Up);
    }
    assert_eq!(a.selected, Some(0));
    assert_eq!(a.list_len(), 2);
}

#[test]
fn an_album_opens_and_closes() {
    let mut a = app();
    a.screen_loaded(ScreenLoad::Albums, vec![base("MusicAlbum", "1")], 0);
    assert!(matches!(press(&mut a, Key::Enter), Effect::OpenAlbum(i) if i.id == "1"));
    assert_eq!(a.empty_message().trim(), "Loading tracks…");
    let mut second = base("Audio", "y");
    second.index_number = Some(2);
    let mut first = base("Audio", "x");
    first.index_number = Some(1);
    a.album_opened("name 1", vec![second, first], 0);
    assert_eq!(told(&mut a), "◈ name 1 — 2 track(s)");
    assert_eq!(a.current_list()[0].id, "x");
    assert_eq!(a.list_title(), " ◈ name 1  (1999)   Ann   — 2 track(s)   (Esc to go back) ");
    assert!(matches!(press(&mut a, Key::Enter), Effect::Expand(i, PlayMode::PlayNow) if i.id == "x"));
    press(&mut a, Key::Esc);
    assert!(a.open_album.is_none());
    assert_eq!(a.list_title(), " ♪ Music — Albums ");
}

#[test]
fn jumping_in_the_queue_keeps_it() {
    let mut a = app();
    a.playback.queue = vec![entry("1"), entry("2")];
    a.playback.current_index = Some(0);
    press(&mut a, Key::Char('4'));
    assert_eq!(a.screen, Screen::Queue);
    assert_eq!(a.list_title(), " ≡ Queue  (1/2) ");
    a.playback.current_index = None;
    assert_eq!(a.list_title(), " ≡ Queue  (0/2) ");
    a.playback.current_index = Some(usize::MAX);
    assert_eq!(a.list_title(), " ≡ Queue  (18446744073709551616/2) ");
    a.playback.current_index = Some(0);
    press(&mut a, Key::Down);
    match press(&mut a, Key::Enter) {
        Effect::Jump(items, 1, title) => {
            assert_eq!(items.len(), 2);
            assert_eq!(title, "title 2");
        }
        other => panic!("{other:?}"),
    }
    a.jumped("title 2", None, 0);
    assert_eq!(told(&mut a), "▶ Jumped to “title 2”");
    a.removed("title 2", Some("gone".into()), 0);
    assert_eq!(told(&mut a), "remove: gone");
}

#[test]
fn what_is_played_is_told() {
    let client = MediaClient::Jellyfin(JellyfinClient::with_credentials(
        "http://m", "box", "d", "u", "tok",
    ));
    let mut a = app();
    let items = vec![base("Audio", "1"), base("Audio", "2")];
    let p = a.expanded(&client, PlayMode::Enqueue, items, StreamFormat::Direct, 0).unwrap();
    assert!(matches!(p.call, RendererCall::Enqueue(items) if items.len() == 2));
    a.played(PlayMode::Enqueue, &p.title, p.count, None, 0);
    assert_eq!(told(&mut a), "+ Queued 2 item(s)");
    a.played(PlayMode::PlayNow, "x", 1, None, 0);
    assert_eq!(told(&mut a), "▶ Playing “x” (1 item(s))");
    a.played(PlayMode::PlayNow, "x", 1, Some("no".into()), 0);
    assert_eq!(told(&mut a), "renderer: no");
    assert!(a.expanded(&client, PlayMode::PlayNow, vec![], StreamFormat::Direct, 0).is_none());
    assert_eq!(told(&mut a), "Nothing playable here.");
}

#[test]
fn an_older_search_does_not_overwrite_a_newer_one() {
    let mut a = app();
    press(&mut a, Key::Char('/'));
    assert!(a.search_input_focused);
    let first = match press(&mut a, Key::Char('x')) {
        Effect::Search(n, q) => {
            assert_eq!(q, "x");
            n
        }
        other => panic!("{other:?}"),
    };
    let second = match press(&mut a, Key::Char('y')) {
        Effect::Search(n, q) => {
            assert_eq!(q, "xy");
            n
        }
        other => panic!("{other:?}"),
    };
    assert_ne!(first, second);
    a.search_done(second, "xy", vec![base("Audio", "1")], 0);
    a.search_done(first, "x", vec![], 0);
    assert_eq!(a.search_results.len(), 1);
    assert_eq!(told(&mut a), "⌕ 1 match(es) for “xy”");
    a.search_failed(first, "late", 0);
    assert_eq!(told(&mut a), "⌕ 1 match(es) for “xy”");
    a.search_failed(second, "down", 0);
    assert_eq!(a.status_line(0), (" ⌕ search failed: down ".to_string(), StatusLook::Trouble));
    assert_eq!(search_kinds().len(), 6);
}

#[test]
fn messages_fade() {
    let mut a = app();
    a.set_status("hello".into(), 1_000);
    assert_eq!(a.status_line(4_999), (" hello ".to_string(), StatusLook::Message));
    assert_eq!(a.status_line(5_000), (format!(" {HELP_LINE} "), StatusLook::Help));
}

#[test]
fn servers_are_cycled() {
    let mut a = app();
    let step = a.handle_key(Key::Char('t'), NONE, 0);
    assert!(step.load && !step.save);
    let server = match step.effect {
        Effect::UseServer(s) => s,
        other => panic!("{other:?}"),
    };
    assert_eq!(server.name, "a");
    assert_eq!(a.config.current_server.as_deref(), Some("a"));

    a.music_items = vec![base("Audio", "1")];
    assert!(!a.switched(&server, Some("no".into()), 0));
    assert_eq!(told(&mut a), "switch: no");
    assert_eq!(a.music_items.len(), 1);
    assert!(a.switched(&server, None, 0));
    assert_eq!(told(&mut a), "◉ Switched to `a` (http://a, as ann)");
    assert!(a.music_items.is_empty());
}

#[test]
fn settings_are_asked_of_the_renderer_first() {
    let mut a = app();
    let settings = match press(&mut a, Key::Char('g')) {
        Effect::SetReplayGain(s) => s,
        other => panic!("{other:?}"),
    };
    assert_eq!(settings.mode, ReplayGainMode::Track);
    assert_eq!(a.config.replaygain.mode, ReplayGainMode::Off);
    assert!(!a.replaygain_set(settings, Some("no".into()), 0));
    assert_eq!(told(&mut a), "replaygain: no");
    assert!(a.replaygain_set(settings, None, 0));
    assert_eq!(a.config.replaygain.mode, ReplayGainMode::Track);
    assert_eq!(told(&mut a), "ReplayGain: track");
    let fade = CrossfadeSettings { mode: CrossfadeMode::Mixed, duration_ms: 8_000 };
    assert!(a.crossfade_set(fade, None, 0));
    assert_eq!(told(&mut a), "Crossfade: mixed (8.0s)");
    assert!(a.overlap_set(fade, None, 0));
    assert_eq!(told(&mut a), "Crossfade duration: 8.0s");
}

#[test]
fn gains_are_nudged() {
    let mut a = app();
    let step = a.handle_key(Key::Char('B'), NONE, 0);
    assert!(step.save);
    assert!(matches!(step.effect, Effect::SetTone(1, 0, 0, 0)));
    assert_eq!(told(&mut a), "Tone: bass +1 dB   treble +0 dB");
    press(&mut a, Key::Char('7'));
    assert_eq!(a.screen, Screen::Settings);
    a.handle_key(Key::Up, SHIFT, 0);
    assert_eq!(a.config.eq_band_settings[0].gain, 10);
    assert_eq!(told(&mut a), "band 1: 32 Hz → +1.0 dB");
    press(&mut a, Key::Char('['));
    assert_eq!(a.eq_selected_band, 9);
}

#[test]
fn what_a_screen_loads() {
    assert_eq!(load_screen(Screen::Music), ScreenLoad::Albums);
    assert_eq!(load_screen(Screen::Devices), ScreenLoad::Devices);
    assert_eq!(load_screen(Screen::Queue), ScreenLoad::Nothing);
}

// Rows ----------------------------------------------------------------------

#[test]
fn rows_fill_their_width() {
    for total in [0u16, 10, 15, 44, 45, 80, 200] {
        let l = RowLayout::compute(total);
        let sum = l.icon_col + l.title_col + l.gap1 + l.sub_col + l.gap2 + l.time_col;
        assert_eq!(sum, usize::from(total).max(15));
    }
    let l = RowLayout::compute(80);
    assert_eq!((l.title_col, l.sub_col), (35, 30));
}

#[test]
fn a_row_of_an_item() {
    let l = RowLayout::compute(60);
    let r = item_row_line(&base("Audio", "1"), true, false, l);
    assert_eq!(r.look, RowLook::Selected);
    assert_eq!(r.icon, " ♪ ");
    assert_eq!(r.title, format!("{:<24}", "name 1"));
    assert_eq!(r.sub, format!("{:<21}", "Ann"));
    assert_eq!(r.time, "    1:05");
    let r = item_row_line(&base("Audio", "1"), true, true, l);
    assert_eq!((r.look, r.icon.as_str()), (RowLook::Playing, " ▶ "));
}

#[test]
fn albums_show_their_discs() {
    let track = |id: &str, disc: i32, n: i32| {
        let mut t = base("Audio", id);
        t.parent_index_number = Some(disc);
        t.index_number = Some(n);
        t
    };
    let tracks = vec![track("a", 1, 1), track("b", 2, 101)];
    let rows = album_rows(&tracks);
    assert_eq!(
        rows.rows,
        vec![AlbumRow::Disc(1), AlbumRow::Track(0), AlbumRow::Disc(2), AlbumRow::Track(1)]
    );
    assert_eq!(marked_row(&rows, Some(1)), Some(3));
    assert_eq!(marked_row(&rows, Some(9)), Some(3));
    assert_eq!(number_width(&tracks), 3);
    let r = album_track_row(&tracks[0], false, RowLayout::compute(60), 3);
    assert_eq!(r.number, "  1. ");
    let one = album_rows(&vec![track("a", 1, 1)]);
    assert_eq!(one.rows, vec![AlbumRow::Track(0)]);
}

// Texts ---------------------------------------------------------------------

#[test]
fn the_header_tells_who_is_where() {
    assert_eq!(
        plain(&app().header()),
        "  ⚡ fin — a neon jellyfin client   ann @ http://b [b]  ⇄ 2 servers"
    );
    let guest = App::new(Config::default(), RendererKind::Mpv);
    assert_eq!(
        plain(&guest.header()),
        "  ⚡ fin — a neon jellyfin client   guest @ not logged in "
    );
}

#[test]
fn the_settings_are_told() {
    let a = app();
    assert_eq!(
        plain(&a.settings_line(SettingsLine::ReplayGain, "")),
        "  ReplayGain    off   preamp +0.0 dB   clip-guard on   (press g to cycle)"
    );
    assert_eq!(
        plain(&a.settings_line(SettingsLine::Crossfade, "")),
        "  Crossfade     off   duration 5.0 s   (f: cycle mode, Shift+F: cycle duration)"
    );
    assert_eq!(
        plain(&a.settings_line(SettingsLine::ConfigFile, "/c.toml")),
        "  Config File   /c.toml"
    );
    assert_eq!(a.eq_title(), " ▤ Equalizer  (10 bands, off) ");
    assert_eq!(
        plain(&server_row(&server("b"), &Some("b".into()))),
        format!(" ▍ {:<18} http://b  as ann", "b")
    );
}

#[test]
fn the_cursor_blinks_while_typing() {
    let mut a = app();
    press(&mut a, Key::Char('/'));
    press(&mut a, Key::Char('x'));
    assert_eq!(plain(&a.search_box(0)), "  ⌕ x▏");
    assert_eq!(plain(&a.search_box(1)), "  ⌕ x ");
}

#[test]
fn the_player_bar() {
    let mut state = PlaybackState::default();
    let bar = PlayerBar { state: &state, renderer: RendererKind::Mpv, renderer_label: "here" };
    assert_eq!(plain(&bar.title()), "⏹ Nothing playing");
    assert_eq!(bar.total(), UNKNOWN_TIME);
    state.status = PlaybackStatus::Playing;
    state.now_playing = Some(entry("upnp-cast:1"));
    state.position_us = 5_000_000;
    state.volume_milli = 290;
    state.repeat = RepeatMode::One;
    state.crossfade = CrossfadeSettings { mode: CrossfadeMode::Crossfade, duration_ms: 5_000 };
    state.bass_db = 3;
    let bar = PlayerBar { state: &state, renderer: RendererKind::Upnp, renderer_label: "Den" };
    assert_eq!(plain(&bar.title()), "▶ ⇊ UPnP title upnp-cast:1");
    assert_eq!(bar.elapsed(), "0:05");
    assert_eq!(bar.total(), "1:05");
    assert!(plain(&bar.right()).starts_with("⇄ ↺ ⋈ 5s B+3/T+0 ♪ 29%   ◈ upnp  on Den"));
}

#[test]
fn tabs_mark_the_selected_one() {
    let labels = [("♪", "Music"), ("▶", "Videos")];
    let pieces = NeonTabs::new(&labels, 1).pieces();
    assert_eq!(plain(&pieces), "  ♪ Music  │  ▍ ▶ Videos  ");
    assert_ne!(Palette::Fg.rgb(), Palette::Bg.rgb());
    assert_eq!(Palette::Primary.rgb(), (0, 232, 198));
}

#[test]
fn the_help_is_complete_and_centered() {
    let entries: usize = help_sections().iter().map(|s| s.entries.len()).sum();
    let sections = help_sections().len();
    assert_eq!(build_lines(80).len(), entries + sections + sections - 1);
    let a = HelpModal::area_for(Area { x: 0, y: 0, width: 100, height: 40 });
    assert_eq!((a.x, a.y, a.width, a.height), (4, 2, 92, 36));
    let a = HelpModal::area_for(Area { x: 0, y: 0, width: 200, height: 90 });
    assert_eq!((a.x, a.y, a.width, a.height), (40, 15, 120, 60));
}

// Devices -------------------------------------------------------------------

fn cast(name: &str, uuid: &str) -> CastDevice {
    CastDevice {
        name: name.into(),
        model: "Nest".into(),
        address: "10.0.0.2".into(),
        port: 8009,
        uuid: uuid.into(),
    }
}

fn upnp(name: &str, udn: &str) -> UpnpDevice {
    UpnpDevice {
        udn: udn.into(),
        friendly_name: name.into(),
        model: "TV".into(),
        manufacturer: "M".into(),
        address: "10.0.0.3".into(),
        location: "http://h/".into(),
        av_transport_control_url: "http://h/ctl".into(),
        rendering_control_url: None,
    }
}

#[test]
fn a_device_is_listed_once() {
    let mut found = Vec::new();
    note_cast(&mut found, cast("old", "1"));
    note_cast(&mut found, cast("other", "2"));
    note_cast(&mut found, cast("new", "1"));
    assert_eq!(found.len(), 2);
    assert!(found.iter().any(|d| d.name == "new") && !found.iter().any(|d| d.name == "old"));
    let mut tvs = Vec::new();
    note_upnp(&mut tvs, upnp("first", "u"));
    note_upnp(&mut tvs, upnp("second", "u"));
    assert_eq!(tvs.len(), 1);
    assert_eq!(tvs[0].friendly_name, "first");
    let mut at = Vec::new();
    note_location(&mut at, Location { url: "http://h".into(), address: "1".into() });
    note_location(&mut at, Location { url: "http://h".into(), address: "2".into() });
    assert_eq!(at.len(), 1);
    assert_eq!(at[0].address, "1");
}

#[test]
fn devices_are_sorted_by_name_and_picked_without_case() {
    let all = merge(vec![cast("b", "1"), cast("d", "2")], vec![upnp("c", "3"), upnp("a", "4")]);
    let names: Vec<String> = all.iter().map(|d| d.display_name()).collect();
    assert_eq!(names, vec!["a", "b", "c", "d"]);
    let casts = vec![cast("Den", "1"), cast("Kitchen", "2")];
    assert_eq!(pick_chromecast(&casts, Some("kitchen")).unwrap().uuid, "2");
    assert_eq!(pick_chromecast(&casts, Some("attic")).unwrap().uuid, "1");
    assert!(pick_chromecast(&vec![], None).is_none());
    assert!(plain(&device_row(&RemoteDevice::Upnp(upnp("TV", "u")), false)).contains("TV"));
}

#[test]
fn a_connected_device_is_remembered() {
    let mut a = app();
    a.devices_found(vec![cast("Den", "1")], vec![], 0);
    assert_eq!(told(&mut a), "Found 1 device(s).");
    a.connected(&RemoteDevice::Cast(cast("Den", "1")), 0);
    assert_eq!(a.config.last_chromecast.as_deref(), Some("Den"));
    assert_eq!(a.renderer_kind, RendererKind::Chromecast);
    assert_eq!(told(&mut a), "Streaming to Den.");
    assert!(matches!(press(&mut a, Key::Char('m')), Effect::UseLocal));
    assert_eq!(a.renderer_label, "this machine");
}

#[test]
fn gains_far_out_are_held() {
    let mut c = Config::default();
    c.ensure_eq_bands();
    c.bass = i32::MAX;
    c.treble = i32::MIN;
    c.nudge_tone(1, -1);
    assert_eq!((c.bass, c.treble), (24, -24));
    c.eq_band_settings[3].gain = i32::MAX;
    assert_eq!(c.nudge_eq_band_gain(3, 5), Some(3));
    assert_eq!(c.eq_band_settings[3].gain, 240);
}
