//! Subsonic servers.

use fin::subsonic::{
    album_to_base_item, md5_hex, random_salt, song_to_base_item, Album, Found, PingResp, Song,
    StarredResp, SubsonicError,
};

fn text(v: &serde_json::Value, key: &str) -> Option<String> {
    v.get(key).and_then(|t| t.as_str()).map(|t| t.to_string())
}

fn number(v: &serde_json::Value, key: &str) -> Option<i32> {
    v.get(key).and_then(|n| n.as_i64()).map(|n| n as i32)
}

fn answer(raw: &str) -> serde_json::Value {
    let v: serde_json::Value = serde_json::from_str(raw).expect("an answer in JSON");
    v.get("subsonic-response").expect("an envelope").clone()
}

fn error(v: &serde_json::Value) -> Option<SubsonicError> {
    v.get("error").map(|e| SubsonicError {
        code: number(e, "code"),
        message: text(e, "message"),
    })
}

fn ping(raw: &str) -> PingResp {
    let v = answer(raw);
    PingResp {
        status: text(&v, "status").unwrap_or_default(),
        error: error(&v),
    }
}

fn song(v: &serde_json::Value) -> Song {
    Song {
        id: text(v, "id").unwrap(),
        title: text(v, "title").unwrap(),
        album: text(v, "album"),
        album_id: text(v, "albumId"),
        artist: text(v, "artist"),
        track: number(v, "track"),
        disc_number: number(v, "discNumber"),
        year: number(v, "year"),
        duration: number(v, "duration").map(|n| n as u64),
    }
}

#[test]
fn md5_hex_matches_reference_vectors() {
    // Canonical MD5 test vectors from RFC 1321.
    assert_eq!(md5_hex(""), "d41d8cd98f00b204e9800998ecf8427e");
    assert_eq!(md5_hex("abc"), "900150983cd24fb0d6963f7d28e17f72");
}

#[test]
fn random_salt_is_eight_alnum_chars() {
    let s = random_salt();
    assert_eq!(s.len(), 8);
    for c in s.chars() {
        assert!(c.is_ascii_lowercase() || c.is_ascii_digit(), "bad char {c}");
    }
}

#[test]
fn album_maps_to_music_album_base_item() {
    let a = Album {
        id: "a1".into(),
        name: "Kind of Blue".into(),
        artist: Some("Miles Davis".into()),
        year: Some(1959),
        duration: Some(2712),
        song_count: Some(5),
        cover_art: Some("cov-a1".into()),
    };
    let bi = album_to_base_item(a);
    assert_eq!(bi.id, "a1");
    assert_eq!(bi.type_, "MusicAlbum");
    assert_eq!(bi.production_year, Some(1959));
    assert_eq!(bi.album_artist.as_deref(), Some("Miles Davis"));
    // 2712 seconds → run_time_ticks in Jellyfin's 100-ns unit.
    assert_eq!(bi.run_time_ticks, Some(27_120_000_000));
}

#[test]
fn song_maps_disc_and_track_number() {
    let s = Song {
        id: "s1".into(),
        title: "So What".into(),
        album: Some("Kind of Blue".into()),
        album_id: Some("a1".into()),
        artist: Some("Miles Davis".into()),
        track: Some(1),
        disc_number: Some(2),
        year: Some(1959),
        duration: Some(556),
    };
    let bi = song_to_base_item(s);
    assert_eq!(bi.type_, "Audio");
    assert_eq!(bi.index_number, Some(1));
    assert_eq!(bi.parent_index_number, Some(2));
    assert_eq!(bi.album.as_deref(), Some("Kind of Blue"));
}

#[test]
fn deserialize_ok_ping_response() {
    let raw = r#"{"subsonic-response": {"status": "ok", "version": "1.16.1"}}"#;
    let r = ping(raw);
    r.check().unwrap();
}

#[test]
fn deserialize_starred2_maps_albums_and_songs() {
    // The status stands behind the content here; artists with a star are
    // there, and left out.
    let raw = r#"{"subsonic-response":{"starred2":{"album":[],"artist":[{"id":"ar-1","name":"070 Shake"}],"song":[{"id":"so-1","title":"Catch 1","album":"X","albumId":"al-1","artist":"42 Dugg","track":11,"discNumber":1,"duration":169,"year":2024},{"id":"so-2","title":"Megan","artist":"42 Dugg","duration":155}]},"status":"ok","type":"smolsonic","version":"1.16.1"}}"#;
    let v = answer(raw);
    let found = v.get("starred2").map(|s| Found {
        album: s.get("album").and_then(|a| a.as_array()).map(|_| vec![]),
        song: s
            .get("song")
            .and_then(|a| a.as_array())
            .map(|a| a.iter().map(song).collect()),
    });
    let r = StarredResp {
        status: text(&v, "status").unwrap_or_default(),
        error: error(&v),
        starred2: found,
    };
    r.check().expect("check ok");
    let s = r.starred2().expect("has starred2");
    assert_eq!(s.album.unwrap_or_default().len(), 0);
    assert_eq!(s.song.unwrap_or_default().len(), 2);
}

#[test]
fn deserialize_error_response_surfaces_code_and_message() {
    let raw = r#"{"subsonic-response": {"status": "failed", "error": {"code": 40, "message": "Wrong username or password"}}}"#;
    let r = ping(raw);
    let err = r.check().unwrap_err().text();
    assert!(err.contains("40"));
    assert!(err.contains("Wrong username"));
}
