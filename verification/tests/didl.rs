//! XML and DIDL-Lite.

use fin::mediarenderer::xml::{
    content_type, fmt_hms, is_video, parse_didl, parse_hms, title_from_uri, CastMeta,
};

const DIDL: &str = r#"<DIDL-Lite xmlns="urn:schemas-upnp-org:metadata-1-0/DIDL-Lite/" xmlns:dc="http://purl.org/dc/elements/1.1/" xmlns:upnp="urn:schemas-upnp-org:metadata-1-0/upnp/"><item id="1" parentID="0" restricted="1"><dc:title>So What</dc:title><upnp:artist>Miles Davis</upnp:artist><upnp:class>object.item.audioItem.musicTrack</upnp:class><res duration="0:09:22.000" protocolInfo="http-get:*:audio/flac:*">http://srv/track.flac</res></item></DIDL-Lite>"#;

#[test]
fn didl_roundtrip() {
    let m = parse_didl(DIDL);
    assert_eq!(m.title.as_deref(), Some("So What"));
    assert_eq!(m.artist.as_deref(), Some("Miles Davis"));
    assert_eq!(m.mime.as_deref(), Some("audio/flac"));
    assert_eq!(m.duration_secs, Some(562));
    assert!(!is_video(&m, "http://srv/track.flac"));
    assert_eq!(
        content_type(&m, "http://srv/track.flac", false),
        "audio/flac"
    );
}

#[test]
fn video_class_wins_over_extension() {
    let didl = DIDL.replace("object.item.audioItem.musicTrack", "object.item.videoItem");
    let m = parse_didl(&didl);
    assert!(is_video(&m, "http://srv/track.flac"));
}

#[test]
fn bare_uri_classification() {
    let m = CastMeta::default();
    assert!(is_video(&m, "http://srv/movie.mkv?token=a.b"));
    assert!(!is_video(&m, "http://srv/song.mp3"));
    assert_eq!(
        content_type(&m, "http://srv/movie.mkv", true),
        "video/x-matroska"
    );
}

#[test]
fn hms_helpers() {
    assert_eq!(fmt_hms(562_900_000), "0:09:22");
    assert_eq!(parse_hms("1:02:03"), Some(3_723_000_000));
    assert_eq!(parse_hms("NOT_IMPLEMENTED"), None);
}

#[test]
fn title_fallback_decodes_percent_escapes() {
    assert_eq!(title_from_uri("http://s/a/My%20Song.mp3"), "My Song.mp3");
    assert_eq!(title_from_uri("http://s/"), "UPnP stream");
}
