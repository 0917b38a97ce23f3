//! The command line.

use fin::cli::{
    advertises, cmd_logout, cmd_server, hit_line, load_and_merge, log_level, login_lines,
    mpv_install_hint, normalize_url, play_types, playlist_line, plays_tracks, search_types,
    server_list, started_line, stays, Cli, CliError, PlayArgs, QueueArgs, RendererArg, ServerCmd,
    System,
};
use fin::config::{Config, RendererPref, ServerConfig, ServerError};
use fin::media::ServerKind;
use fin::models::BaseItem;
use fin::renderer::RendererKind;

fn flags() -> Cli {
    Cli {
        verbose: 0,
        server: None,
        server_name: None,
        token: None,
        user_id: None,
        user_name: None,
        device_id: None,
        renderer: None,
        mpv: false,
        chromecast: None,
        upnp: None,
        no_media_renderer: false,
        media_renderer: false,
    }
}

fn server(name: &str) -> ServerConfig {
    ServerConfig {
        name: name.into(),
        url: format!("http://{name}"),
        user_id: "u".into(),
        user_name: "ann".into(),
        access_token: "tok".into(),
        device_id: "dev".into(),
        server_kind: ServerKind::Jellyfin,
    }
}

fn config(names: &[&str]) -> Config {
    let mut c = Config::default();
    for n in names {
        c.add_or_update_server(server(n));
    }
    c
}

fn item(kind: &str, name: &str) -> BaseItem {
    BaseItem {
        id: "i1".into(),
        name: name.into(),
        type_: kind.into(),
        album: None,
        album_id: None,
        album_artist: None,
        artists: Some(vec!["Ann".into()]),
        series_name: None,
        production_year: None,
        run_time_ticks: None,
        media_type: None,
        container: None,
        index_number: None,
        parent_index_number: None,
        image_tags: None,
        is_folder: None,
        overview: None,
    }
}

#[test]
fn without_flags_nothing_changes() {
    let merged = load_and_merge(&flags(), config(&["a", "b"]));
    assert_eq!(merged.current_server.as_deref(), Some("b"));
    assert_eq!(merged.servers.len(), 2);
    assert_eq!(merged.renderer, RendererPref::Mpv);
}

#[test]
fn a_url_adds_a_server_under_its_host() {
    let mut f = flags();
    f.server = Some("https://media.example:8096".into());
    f.token = Some("t".into());
    let merged = load_and_merge(&f, config(&["a"]));
    assert_eq!(merged.current_server.as_deref(), Some("media.example"));
    let s = merged.current().unwrap();
    assert_eq!(s.access_token, "t");
    assert_eq!(s.user_id, "");
}

#[test]
fn a_name_switches_and_fields_patch() {
    let mut f = flags();
    f.server_name = Some("a".into());
    f.user_name = Some("eve".into());
    let merged = load_and_merge(&f, config(&["a", "b"]));
    assert_eq!(merged.current().unwrap().name, "a");
    assert_eq!(merged.current().unwrap().user_name, "eve");
    assert_eq!(merged.find_server("b").unwrap().user_name, "ann");
}

#[test]
fn shortcut_flags_win_over_the_renderer_flag() {
    let mut f = flags();
    f.renderer = Some(RendererArg::Upnp);
    assert_eq!(load_and_merge(&f, config(&[])).renderer, RendererPref::Upnp);
    f.chromecast = Some("Den".into());
    let merged = load_and_merge(&f, config(&[]));
    assert_eq!(merged.renderer, RendererPref::Chromecast);
    assert_eq!(merged.last_chromecast.as_deref(), Some("Den"));
    f.mpv = true;
    assert_eq!(load_and_merge(&f, config(&[])).renderer, RendererPref::Mpv);
}

#[test]
fn an_empty_device_name_is_not_remembered() {
    let mut f = flags();
    f.upnp = Some(String::new());
    let merged = load_and_merge(&f, config(&[]));
    assert_eq!(merged.renderer, RendererPref::Upnp);
    assert_eq!(merged.last_upnp, None);
}

#[test]
fn it_is_advertised_unless_told_otherwise() {
    let mut f = flags();
    assert!(advertises(&f));
    f.no_media_renderer = true;
    assert!(!advertises(&f));
}

#[test]
fn addresses_get_a_scheme() {
    assert_eq!(normalize_url(" media.example/ "), "http://media.example");
    assert_eq!(normalize_url("https://media.example//"), "https://media.example");
    assert_eq!(normalize_url("http://m"), "http://m");
}

#[test]
fn log_levels() {
    assert_eq!(log_level(0), "warn,fin=info,mdns_sd=off");
    assert_eq!(log_level(1), "info,fin=debug,mdns_sd=warn");
    assert_eq!(log_level(2), "debug");
}

#[test]
fn kinds_that_are_searched() {
    assert_eq!(search_types(&Some("music".into())), vec!["Audio", "MusicAlbum", "MusicArtist"]);
    assert_eq!(search_types(&Some("video".into())), vec!["Movie", "Series", "Episode"]);
    assert_eq!(search_types(&None).len(), 6);
    assert_eq!(play_types(&Some("movie".into())), vec!["Movie", "Episode"]);
    assert_eq!(play_types(&None), vec!["Audio", "MusicAlbum", "Movie", "Episode"]);
}

#[test]
fn only_an_album_plays_its_tracks() {
    assert!(plays_tracks(&item("MusicAlbum", "x")));
    assert!(!plays_tracks(&item("Audio", "x")));
}

#[test]
fn the_list_of_servers_marks_the_current_one() {
    let lines = server_list(&config(&["a", "b"]));
    assert_eq!(lines.len(), 2);
    assert_eq!(
        lines[1],
        format!("▍ {:<20} {:<45}  as {}", "b", "http://b", "ann")
    );
    assert!(lines[0].starts_with("  a "));
    assert_eq!(server_list(&config(&[])), vec!["no servers yet — run `fin login <url>` to add one"]);
}

#[test]
fn servers_are_switched_removed_and_renamed() {
    let mut c = config(&["a", "b"]);
    let (lines, save) = cmd_server(&mut c, ServerCmd::Switch { name: "a".into() }).unwrap();
    assert!(save);
    assert_eq!(lines, vec!["✓ active server → `a` (http://a, as ann)"]);
    let (lines, _) =
        cmd_server(&mut c, ServerCmd::Rename { from: "a".into(), to: "z".into() }).unwrap();
    assert_eq!(lines, vec!["✓ `a` → `z`"]);
    assert_eq!(c.current_server.as_deref(), Some("z"));
    let (lines, _) = cmd_server(&mut c, ServerCmd::Rm { name: "z".into() }).unwrap();
    assert_eq!(lines, vec!["✓ removed `z`"]);
    let (_, save) = cmd_server(&mut c, ServerCmd::List).unwrap();
    assert!(!save);
}

#[test]
fn what_cannot_be_done_is_told() {
    let mut c = config(&["a", "b"]);
    let e = cmd_server(&mut c, ServerCmd::Switch { name: "x".into() }).unwrap_err();
    assert!(matches!(e, CliError::Server(ServerError::NotFound, _)));
    assert_eq!(e.text(), "no server named `x`");
    let e = cmd_server(&mut c, ServerCmd::Rename { from: "a".into(), to: "b".into() });
    assert_eq!(e.unwrap_err().text(), "a server named `b` already exists");
    let mut empty = config(&[]);
    let e = cmd_logout(&mut empty, None).unwrap_err();
    assert_eq!(e.text(), "no server to log out of");
}

#[test]
fn logging_out_of_the_last_server() {
    let mut c = config(&["a"]);
    let lines = cmd_logout(&mut c, None).unwrap();
    assert_eq!(
        lines,
        vec!["✓ removed `a`", "  no servers left — run `fin login <url>` to add one"]
    );
}

#[test]
fn what_is_said_after_a_login() {
    assert_eq!(
        login_lines("ann", "home", 2),
        vec![
            "✓ signed in as ann on `home` — now the active server",
            "  (2 servers saved — switch anytime with `fin server switch <name>`)",
        ]
    );
    assert_eq!(login_lines("ann", "home", 1).len(), 1);
}

#[test]
fn hits_and_playlists() {
    assert_eq!(hit_line(&item("Audio", "Song")), "♪  Song   Ann");
    assert_eq!(playlist_line(&item("Playlist", "Mix")), "▤ Mix   (i1)");
}

#[test]
fn what_is_said_once_it_plays() {
    assert_eq!(started_line(true, "x", 3, "Den"), "+ queued 3 item(s) on Den");
    assert_eq!(started_line(false, "x", 3, "Den"), "▶ playing “x” on Den");
}

#[test]
fn only_a_chromecast_needs_the_program_to_stay() {
    assert!(stays(RendererKind::Chromecast));
}

#[test]
fn queue_arguments_are_those_of_play() {
    let q: QueueArgs =
        PlayArgs { query: "x".into(), kind: Some("music".into()), hls: true }.into();
    assert_eq!((q.query.as_str(), q.kind.as_deref(), q.hls), ("x", Some("music"), true));
}

#[test]
fn how_mpv_is_installed() {
    assert_eq!(mpv_install_hint(System::MacOs), "brew install mpv");
    assert_eq!(
        mpv_install_hint(System::Linux),
        "sudo apt install mpv   # or:  sudo pacman -S mpv"
    );
    assert_eq!(
        mpv_install_hint(System::Windows),
        "winget install mpv    # or:  scoop install mpv"
    );
    assert_eq!(mpv_install_hint(System::Other), "install mpv from https://mpv.io");
}
