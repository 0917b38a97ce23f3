//! The configuration: servers, modes and bands.

use fin::config::{
    default_eq_band_settings, derive_server_name, Config, CrossfadeMode, CrossfadeSettings, EqBand,
    ReplayGainMode, ReplayGainSettings, ServerConfig,
};
use fin::media::ServerKind;

fn srv(name: &str) -> ServerConfig {
    ServerConfig {
        name: name.into(),
        url: format!("http://{name}"),
        user_id: "u".into(),
        user_name: "user".into(),
        access_token: "tok".into(),
        device_id: "dev".into(),
        server_kind: ServerKind::Jellyfin,
    }
}

// ------------------------------------------------------------------
// derive_server_name
// ------------------------------------------------------------------

#[test]
fn derive_name_strips_scheme_and_path() {
    assert_eq!(
        derive_server_name("https://media.example.com:8096/path"),
        "media.example.com"
    );
    assert_eq!(derive_server_name("http://192.168.1.42"), "192.168.1.42");
    assert_eq!(derive_server_name("http://host:8096"), "host");
}

#[test]
fn derive_name_falls_back_when_input_is_empty() {
    assert_eq!(derive_server_name(""), "server");
    assert_eq!(derive_server_name("http://"), "server");
}

// ------------------------------------------------------------------
// Server management
// ------------------------------------------------------------------

#[test]
fn add_or_update_inserts_new_and_marks_current() {
    let mut cfg = Config::default();
    cfg.add_or_update_server(srv("a"));
    assert_eq!(cfg.servers.len(), 1);
    assert_eq!(cfg.current_server.as_deref(), Some("a"));
}

#[test]
fn add_or_update_overwrites_existing_by_name() {
    let mut cfg = Config::default();
    cfg.add_or_update_server(srv("a"));
    let mut updated = srv("a");
    updated.access_token = "new-token".into();
    cfg.add_or_update_server(updated);
    assert_eq!(cfg.servers.len(), 1);
    assert_eq!(cfg.servers[0].access_token, "new-token");
}

#[test]
fn switch_to_moves_current_pointer() {
    let mut cfg = Config::default();
    cfg.add_or_update_server(srv("a"));
    cfg.add_or_update_server(srv("b"));
    cfg.switch_to("a").unwrap();
    assert_eq!(cfg.current_server.as_deref(), Some("a"));
}

#[test]
fn switch_to_unknown_server_errors() {
    let mut cfg = Config::default();
    cfg.add_or_update_server(srv("a"));
    assert!(cfg.switch_to("missing").is_err());
    // Current unchanged.
    assert_eq!(cfg.current_server.as_deref(), Some("a"));
}

#[test]
fn remove_current_falls_back_to_first_remaining() {
    let mut cfg = Config::default();
    cfg.add_or_update_server(srv("a"));
    cfg.add_or_update_server(srv("b"));
    cfg.add_or_update_server(srv("c"));
    cfg.switch_to("b").unwrap();
    cfg.remove_server("b").unwrap();
    assert_eq!(
        cfg.servers
            .iter()
            .map(|s| s.name.clone())
            .collect::<Vec<_>>(),
        vec!["a", "c"]
    );
    assert_eq!(cfg.current_server.as_deref(), Some("a"));
}

#[test]
fn remove_non_current_keeps_current_untouched() {
    let mut cfg = Config::default();
    cfg.add_or_update_server(srv("a"));
    cfg.add_or_update_server(srv("b"));
    // add_or_update_server makes the *added* server current; assert current is b, then remove a.
    assert_eq!(cfg.current_server.as_deref(), Some("b"));
    cfg.remove_server("a").unwrap();
    assert_eq!(cfg.current_server.as_deref(), Some("b"));
}

#[test]
fn remove_last_server_clears_current() {
    let mut cfg = Config::default();
    cfg.add_or_update_server(srv("a"));
    cfg.remove_server("a").unwrap();
    assert!(cfg.servers.is_empty());
    assert_eq!(cfg.current_server, None);
}

#[test]
fn remove_unknown_returns_err() {
    let mut cfg = Config::default();
    cfg.add_or_update_server(srv("a"));
    assert!(cfg.remove_server("missing").is_err());
}

#[test]
fn cycle_next_wraps_around() {
    let mut cfg = Config::default();
    cfg.add_or_update_server(srv("a"));
    cfg.add_or_update_server(srv("b"));
    cfg.add_or_update_server(srv("c"));
    cfg.switch_to("a").unwrap();
    assert_eq!(cfg.cycle_next().map(|s| s.name.clone()), Some("b".into()));
    assert_eq!(cfg.cycle_next().map(|s| s.name.clone()), Some("c".into()));
    // Wraps back to the first.
    assert_eq!(cfg.cycle_next().map(|s| s.name.clone()), Some("a".into()));
}

#[test]
fn cycle_next_on_empty_returns_none() {
    let mut cfg = Config::default();
    assert!(cfg.cycle_next().is_none());
}

#[test]
fn find_server_returns_by_exact_name() {
    let mut cfg = Config::default();
    cfg.add_or_update_server(srv("prod"));
    cfg.add_or_update_server(srv("dev"));
    assert!(cfg.find_server("prod").is_some());
    assert!(cfg.find_server("nope").is_none());
}

// ------------------------------------------------------------------
// Playback-mode enum helpers
// ------------------------------------------------------------------

#[test]
fn replaygain_mode_labels_and_cycle() {
    assert_eq!(ReplayGainMode::Off.label(), "off");
    assert_eq!(ReplayGainMode::Track.label(), "track");
    assert_eq!(ReplayGainMode::Album.label(), "album");
    assert_eq!(ReplayGainMode::Off.next(), ReplayGainMode::Track);
    assert_eq!(ReplayGainMode::Track.next(), ReplayGainMode::Album);
    assert_eq!(ReplayGainMode::Album.next(), ReplayGainMode::Off);
    assert!(!ReplayGainMode::Off.is_active());
    assert!(ReplayGainMode::Track.is_active());
    assert!(ReplayGainMode::Album.is_active());
}

#[test]
fn crossfade_mode_labels_and_cycle() {
    assert_eq!(CrossfadeMode::Off.label(), "off");
    assert_eq!(CrossfadeMode::Crossfade.label(), "crossfade");
    assert_eq!(CrossfadeMode::Mixed.label(), "mixed");
    assert_eq!(CrossfadeMode::Off.next(), CrossfadeMode::Crossfade);
    assert_eq!(CrossfadeMode::Crossfade.next(), CrossfadeMode::Mixed);
    assert_eq!(CrossfadeMode::Mixed.next(), CrossfadeMode::Off);
    assert!(!CrossfadeMode::Off.is_active());
    assert!(CrossfadeMode::Crossfade.is_active());
    assert!(CrossfadeMode::Mixed.is_active());
}

#[test]
fn crossfade_default_duration_is_five_seconds() {
    // The public contract: fresh installs get a 5 s overlap when the
    // mode is turned on, matching the README + Settings hint.
    let s = CrossfadeSettings::default();
    assert!((s.duration_ms as f64 / 1000.0 - 5.0).abs() < 1e-6);
    assert_eq!(s.mode, CrossfadeMode::Off);
}

#[test]
fn replaygain_default_has_clip_guard_on() {
    // Clip prevention on by default — safer for typical listeners.
    let s = ReplayGainSettings::default();
    assert!(s.prevent_clip);
    assert!((s.preamp_mdb as f64 / 1000.0 - 0.0).abs() < 1e-6);
    assert_eq!(s.mode, ReplayGainMode::Off);
}

// ------------------------------------------------------------------
// Default EQ preset
// ------------------------------------------------------------------

#[test]
fn default_eq_band_settings_has_ten_iso_octave_bands() {
    let bands = default_eq_band_settings();
    assert_eq!(bands.len(), 10);
    // First = 32 Hz low shelf, last = 16 kHz high shelf.
    assert_eq!(bands[0].cutoff, 32);
    assert_eq!(bands[9].cutoff, 16_000);
    // Every band flat + Q 7.0.
    for b in &bands {
        assert_eq!(b.q, 70);
        assert_eq!(b.gain, 0);
    }
    // Strictly ascending cutoffs — a monotonic sweep across the audible
    // range so users get a meaningful sliders layout out of the box.
    for w in bands.windows(2) {
        assert!(w[0].cutoff < w[1].cutoff);
    }
}

#[test]
fn ensure_eq_bands_fills_empty_with_defaults() {
    let mut cfg = Config::default();
    assert!(cfg.eq_band_settings.is_empty());
    cfg.ensure_eq_bands();
    assert_eq!(cfg.eq_band_settings.len(), 10);
    assert_eq!(cfg.eq_band_settings[0].cutoff, 32);
}

#[test]
fn ensure_eq_bands_pads_short_lists_to_ten() {
    let mut cfg = Config::default();
    // Simulate a truncated preset with three custom bands.
    cfg.eq_band_settings = vec![
        EqBand {
            cutoff: 100,
            q: 70,
            gain: 30,
        },
        EqBand {
            cutoff: 300,
            q: 70,
            gain: 15,
        },
        EqBand {
            cutoff: 900,
            q: 70,
            gain: -20,
        },
    ];
    cfg.ensure_eq_bands();
    assert_eq!(cfg.eq_band_settings.len(), 10);
    // First three preserved verbatim.
    assert_eq!(cfg.eq_band_settings[0].cutoff, 100);
    assert_eq!(cfg.eq_band_settings[1].cutoff, 300);
    assert_eq!(cfg.eq_band_settings[2].cutoff, 900);
    // Slots 3..9 filled from the ISO default at their respective indices.
    let defaults = default_eq_band_settings();
    for i in 3..10 {
        assert_eq!(cfg.eq_band_settings[i], defaults[i]);
    }
}

#[test]
fn ensure_eq_bands_leaves_full_lists_alone() {
    let mut cfg = Config::default();
    let mut custom = default_eq_band_settings();
    // Tweak one so we can spot mutation.
    custom[5].gain = 87;
    cfg.eq_band_settings = custom.clone();
    cfg.ensure_eq_bands();
    assert_eq!(cfg.eq_band_settings, custom);
}
