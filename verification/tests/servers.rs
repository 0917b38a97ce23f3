//! What servers are asked, and what they answer.

use fin::config::{Config, CrossfadeSettings, LegacyServerConfig, ServerConfig};
use fin::jellyfin::{
    quick_hits, source_container, ClientError, JellyfinClient, StreamFormat, ITEM_FIELDS,
};
use fin::json::{
    hints_in, listed_in, normalize_key, normalize_keys, parse_json, parse_json_lenient, Json,
};
use fin::media::{
    client_from_stored, is_answer_of, listen_start_ms, login_any, probe_server, probe_url, refusal,
    MediaClient, Probed, ServerKind, StreamError,
};
use fin::renderer::{PlaybackState, PlaybackStatus, RendererKind};
use fin::models::{ticks, AuthResult, AuthUser, BaseItem, SearchHint};
use fin::subsonic::{
    albums_in, check_status, entries_in, hits_in, md5_hex, playlists_in, salt_from, starred_in,
    tracks_in, Album, AlbumList2, AlbumListResp, AlbumResp, AlbumWithSongs, AnswerError, Browse,
    Found, LoginMissing, Playlist, PlaylistResp, PlaylistWithEntries, Playlists, PlaylistsResp,
    SearchResp, Song, StarredResp, SubsonicClient, SubsonicError,
};
use fin::tui::outcome::{
    base_item_to_queue, expand_playable, primary_tag, queue_items, stream_format, Expansion,
};
use fin::tui::scrobble::{Report, ReportRequest, Scrobbler};

fn item(kind: &str, id: &str) -> BaseItem {
    BaseItem {
        id: id.into(),
        name: format!("name {id}"),
        type_: kind.into(),
        album: None,
        album_id: None,
        album_artist: None,
        artists: None,
        series_name: None,
        production_year: None,
        run_time_ticks: Some(620_000_000),
        media_type: None,
        container: Some("FLAC,ogg".into()),
        index_number: None,
        parent_index_number: None,
        image_tags: None,
        is_folder: None,
        overview: None,
    }
}

fn jellyfin() -> JellyfinClient {
    JellyfinClient::with_credentials("http://m/", "box", "dev", "user", "tok")
}

fn pairs(q: &[(&'static str, String)]) -> Vec<(String, String)> {
    q.iter().map(|(k, v)| (k.to_string(), v.clone())).collect()
}

fn object(fields: &[(&str, Json)]) -> Json {
    Json::Object(fields.iter().map(|(k, v)| (k.to_string(), v.clone())).collect())
}

fn text(s: &str) -> Json {
    Json::Text(s.to_string())
}

// Jellyfin ------------------------------------------------------------------

#[test]
fn the_login_is_told_in_a_header() {
    assert_eq!(
        jellyfin().auth_header(),
        "MediaBrowser Client=\"fin\", Device=\"box\", DeviceId=\"dev\", Version=\"0.3.1\", Token=\"tok\""
    );
    let fresh = JellyfinClient::new("http://m", "box");
    assert!(!fresh.auth_header().contains("Token"));
    assert_eq!(fresh.device_id().len(), 36);
}

#[test]
fn nothing_is_asked_before_a_login() {
    let mut c = JellyfinClient::new("http://m", "box");
    assert!(matches!(c.views(), Err(ClientError::NotAuthenticated)));
    let e = c.stream_url(&item("Audio", "a"), StreamFormat::Direct);
    assert!(matches!(e, Err(ClientError::NoAccessToken)));
    let post = c.login("ann", "secret");
    assert_eq!(post.url, "http://m/Users/AuthenticateByName");
    assert_eq!(post.body.get("Pw").and_then(|p| p.as_str()), Some("secret"));
    c.logged_in(&AuthResult {
        access_token: "tok".into(),
        server_id: "s".into(),
        user: AuthUser { id: "user".into(), name: "ann".into() },
    });
    assert_eq!(c.views().unwrap().url, "http://m/Users/user/Views");
}

#[test]
fn browsing_asks_for_the_fields_in_use() {
    let get =
        jellyfin().items(Some("p"), &["Audio", "Movie"], true, Some("SortName"), Some(9)).unwrap();
    assert_eq!(get.url, "http://m/Users/user/Items");
    assert_eq!(
        pairs(&get.query),
        vec![
            ("Fields".to_string(), ITEM_FIELDS.to_string()),
            ("Recursive".to_string(), "true".to_string()),
            ("ParentId".to_string(), "p".to_string()),
            ("IncludeItemTypes".to_string(), "Audio,Movie".to_string()),
            ("SortBy".to_string(), "SortName".to_string()),
            ("SortOrder".to_string(), "Ascending".to_string()),
            ("Limit".to_string(), "9".to_string()),
        ]
    );
    let get = jellyfin().items(None, &[], false, None, None).unwrap();
    assert_eq!(get.query.len(), 2);
}

#[test]
fn searches() {
    let get = jellyfin().search("a b", &["Audio"], 50).unwrap();
    assert_eq!(get.url, "http://m/Search/Hints");
    assert!(pairs(&get.query).contains(&("searchTerm".to_string(), "a b".to_string())));
    let get = jellyfin().search_fallback("a b", &[], 50).unwrap();
    assert_eq!(get.url, "http://m/Users/user/Items");
}

#[test]
fn streams_carry_their_parameters_escaped() {
    let url = jellyfin()
        .stream_url_with(&item("Audio", "a-1"), StreamFormat::Direct, "s e")
        .unwrap();
    assert_eq!(
        url,
        "http://m/Audio/a-1/stream.flac?api_key=tok&DeviceId=dev&PlaySessionId=s%20e&Static=true&MediaSourceId=a%2D1"
    );
    let url = jellyfin().stream_url(&item("Movie", "v"), StreamFormat::Hls).unwrap();
    assert!(url.starts_with("http://m/Videos/v/main.m3u8?api_key=tok&DeviceId=dev&PlaySessionId="));
    assert!(!url.contains("Static"));
}

#[test]
fn a_stream_has_the_type_of_its_container() {
    assert_eq!(JellyfinClient::content_type_for_url("http://m/Audio/a/stream.FLAC?x=.mp3"), "audio/flac");
    assert_eq!(
        JellyfinClient::content_type_for_url("http://m/Videos/a/main.m3u8"),
        "application/vnd.apple.mpegurl"
    );
    assert_eq!(JellyfinClient::content_type_for_url("http://m/Videos/a/stream"), "video/mp4");
    assert_eq!(JellyfinClient::content_type_for_url("http://m/Audio/a/stream"), "audio/mpeg");
    assert_eq!(source_container(&item("Audio", "a"), true), "flac");
    let mut bare = item("Audio", "a");
    bare.container = Some(" ".into());
    assert_eq!(source_container(&bare, true), "mp3");
    assert_eq!(source_container(&bare, false), "mp4");
}

#[test]
fn pictures() {
    assert_eq!(
        jellyfin().image_url("a", "t", 300),
        "http://m/Items/a/Images/Primary?tag=t&fillWidth=300&format=jpg"
    );
}

#[test]
fn reports() {
    let post = jellyfin().report_progress(&item("Audio", "a"), "s", 70, true);
    assert_eq!(post.url, "http://m/Sessions/Playing/Progress");
    assert!(matches!(post.body.get("PositionTicks"), Some(Json::Number(n)) if n == "70"));
    assert!(matches!(post.body.get("IsPaused"), Some(Json::Bool(true))));
    assert_eq!(post.body.get("EventName").and_then(|e| e.as_str()), Some("TimeUpdate"));
}

#[test]
fn a_quick_search_without_hits_is_no_answer() {
    assert!(quick_hits(vec![]).is_none());
    let hint = SearchHint {
        id: "a".into(),
        name: "n".into(),
        type_: "Audio".into(),
        album: None,
        album_artist: None,
        artists: None,
        production_year: None,
        run_time_ticks: None,
        media_type: None,
        series_name: None,
    };
    assert_eq!(quick_hits(vec![hint]).unwrap()[0].id, "a");
}

#[test]
fn casings_of_keys_agree() {
    assert_eq!(normalize_key("searchHints"), "SearchHints");
    assert_eq!(normalize_key(""), "");
    assert_eq!(normalize_key("ßx"), "SSx");
    let camel = object(&[("searchHints", Json::Array(vec![object(&[("id", text("a"))])]))]);
    let pascal = object(&[("SearchHints", Json::Array(vec![object(&[("Id", text("a"))])]))]);
    for answer in [camel, pascal] {
        let json = normalize_keys(&answer);
        match json.hints() {
            Some(Json::Array(hits)) => {
                assert_eq!(hits[0].get("Id").and_then(|i| i.as_str()), Some("a"));
            }
            other => panic!("{other:?}"),
        }
    }
}

#[test]
fn lists_come_bare_or_wrapped() {
    let wrapped = object(&[("Items", Json::Array(vec![Json::Null]))]);
    assert!(matches!(wrapped.listed(), Some(Json::Array(v)) if v.len() == 1));
    assert!(Json::Array(vec![]).listed().is_some());
    assert!(object(&[("Other", Json::Null)]).listed().is_none());
    let hints = object(&[("Hints", Json::Array(vec![]))]);
    assert!(hints.hints().is_some());
}

#[test]
fn ticks_and_seconds() {
    assert_eq!(ticks(62), 620_000_000);
    assert_eq!(item("Audio", "a").duration_secs(), Some(62));
}

// Subsonic ------------------------------------------------------------------

fn subsonic() -> SubsonicClient {
    SubsonicClient::with_credentials("http://s/", "dev", "ann", "sesame")
}

#[test]
fn a_call_proves_the_password_without_it() {
    let c = subsonic();
    let url = c.rest_url_with(c.ping(), "c19b2d").unwrap();
    let token = md5_hex("sesamec19b2d");
    assert_eq!(
        url,
        format!("http://s/rest/ping.view?u=ann&t={token}&s=c19b2d&v=1%2E16%2E1&c=fin&f=json")
    );
    assert_eq!(token, "26719a1196d2a940705a59634eb18eab");
    assert!(!url.contains("sesame"));
}

#[test]
fn salts_come_from_numbers() {
    assert_eq!(salt_from(&vec![0, 9, 10, 35, 1, 2, 3, 4]), "09az1234");
}

#[test]
fn two_calls_have_different_salts() {
    let c = subsonic();
    let urls: Vec<String> = (0..4).map(|_| c.rest_url(c.ping()).unwrap()).collect();
    assert!(urls.iter().any(|u| *u != urls[0]));
}

#[test]
fn without_a_login_there_is_no_call() {
    let c = SubsonicClient::new("http://s");
    assert!(matches!(c.rest_url(c.ping()), Err(LoginMissing::User)));
    assert!(matches!(c.stream_url(&item("Audio", "a")), Err(LoginMissing::User)));
    assert_eq!(c.image_url("a", 9), "http://s/rest/getCoverArt.view?&id=a&size=9");
}

#[test]
fn what_is_browsed() {
    let c = subsonic();
    match c.items(Some("al"), &["Audio"], None) {
        Browse::Tracks(call) => {
            assert_eq!(call.endpoint, "getAlbum");
            assert_eq!(pairs(&call.params), vec![("id".to_string(), "al".to_string())]);
        }
        other => panic!("{other:?}"),
    }
    assert!(matches!(c.items(None, &["Playlist"], None), Browse::Playlists(_)));
    match c.items(None, &["MusicAlbum"], Some(900)) {
        Browse::Albums(call) => {
            assert!(pairs(&call.params).contains(&("size".to_string(), "500".to_string())));
        }
        other => panic!("{other:?}"),
    }
    assert!(matches!(c.items(None, &["Movie"], None), Browse::Nothing));
}

#[test]
fn scrobbles() {
    let c = subsonic();
    let call = c.scrobble_submission(&item("Audio", "a"), Some(5), 9);
    assert_eq!(call.endpoint, "scrobble");
    assert_eq!(
        pairs(&call.params),
        vec![
            ("id".to_string(), "a".to_string()),
            ("submission".to_string(), "true".to_string()),
            ("time".to_string(), "5".to_string()),
        ]
    );
    let call = c.scrobble_now_playing(&item("Audio", "a"), 9);
    assert!(pairs(&call.params).contains(&("submission".to_string(), "false".to_string())));
    assert_eq!(c.set_star("a", true).endpoint, "star");
    assert_eq!(c.set_star("a", false).endpoint, "unstar");
}

fn failed() -> (String, Option<SubsonicError>) {
    let e = SubsonicError { code: Some(40), message: Some("Wrong username or password".into()) };
    ("failed".into(), Some(e))
}

#[test]
fn failures_are_told() {
    let (status, error) = failed();
    let f = check_status(&status, &error).unwrap_err();
    assert_eq!(f.text(), "subsonic error 40: Wrong username or password");
    let f = check_status("failed", &None).unwrap_err();
    assert_eq!(f.text(), "subsonic error -1: unknown");
    assert!(check_status("ok", &error).is_ok());
}

fn album(id: &str) -> Album {
    Album {
        id: id.into(),
        name: "n".into(),
        artist: Some("Ann".into()),
        year: Some(1999),
        duration: Some(10),
        song_count: Some(3),
        cover_art: Some("c".into()),
    }
}

fn song(id: &str) -> Song {
    Song {
        id: id.into(),
        title: "t".into(),
        album: None,
        album_id: None,
        artist: None,
        track: None,
        disc_number: None,
        year: None,
        duration: None,
    }
}

#[test]
fn answers_are_read() {
    let albums = albums_in(AlbumListResp {
        status: "ok".into(),
        error: None,
        album_list2: Some(AlbumList2 { album: vec![album("al")] }),
    });
    let albums = albums.ok().unwrap();
    assert_eq!(albums[0].type_, "MusicAlbum");
    assert_eq!(primary_tag(&albums[0]), Some("c"));
    let none = AlbumListResp { status: "ok".into(), error: None, album_list2: None };
    assert!(albums_in(none).ok().unwrap().is_empty());

    let hits = hits_in(SearchResp {
        status: "ok".into(),
        error: None,
        search_result3: Some(Found { album: Some(vec![album("al")]), song: Some(vec![song("s")]) }),
    });
    let ids: Vec<String> = hits.ok().unwrap().into_iter().map(|i| i.id).collect();
    assert_eq!(ids, vec!["al", "s"]);

    let starred = starred_in(StarredResp { status: "ok".into(), error: None, starred2: None });
    assert!(starred.ok().unwrap().is_empty());

    let lists = playlists_in(PlaylistsResp {
        status: "ok".into(),
        error: None,
        playlists: Some(Playlists {
            playlist: vec![Playlist {
                id: "p".into(),
                name: "Mix".into(),
                song_count: Some(2),
                duration: Some(9),
            }],
        }),
    });
    assert_eq!(lists.ok().unwrap()[0].type_, "Playlist");

    let entries = entries_in(PlaylistResp {
        status: "ok".into(),
        error: None,
        playlist: Some(PlaylistWithEntries { entry: None }),
    });
    assert!(entries.ok().unwrap().is_empty());
}

#[test]
fn what_is_not_there_is_told() {
    let none = AlbumResp { status: "ok".into(), error: None, album: None };
    assert!(matches!(tracks_in(none), Err(AnswerError::NotFound)));
    let none = PlaylistResp { status: "ok".into(), error: None, playlist: None };
    assert!(matches!(entries_in(none), Err(AnswerError::NotFound)));
    let (status, error) = failed();
    let refused =
        AlbumResp { status, error, album: Some(AlbumWithSongs { song: vec![song("s")] }) };
    assert!(matches!(tracks_in(refused), Err(AnswerError::Failed(f)) if f.code == 40));
}

// Either --------------------------------------------------------------------

#[test]
fn servers_are_told_apart() {
    assert_eq!(probe_url(ServerKind::Jellyfin, "http://m/"), "http://m/System/Info/Public");
    assert_eq!(
        probe_url(ServerKind::Subsonic, "http://m"),
        "http://m/rest/ping.view?c=fin&v=1.16.1&f=json"
    );
    assert!(is_answer_of(ServerKind::Jellyfin, true, "\"ProductName\":\"Jellyfin Server\""));
    assert!(!is_answer_of(ServerKind::Jellyfin, false, "Jellyfin"));
    assert!(is_answer_of(ServerKind::Subsonic, true, "{\"subsonic-response\":{}}"));
    assert!(matches!(
        probe_server("http://m", None, Some("no".into()), true),
        Probed::Kind(ServerKind::Jellyfin)
    ));
    assert!(matches!(
        probe_server("http://m", Some("no".into()), None, false),
        Probed::Kind(ServerKind::Subsonic)
    ));
    for (first, kind) in [(false, ServerKind::Jellyfin), (true, ServerKind::Subsonic)] {
        assert!(matches!(probe_server("http://m", None, None, first), Probed::Kind(k) if k == kind));
    }
    match probe_server("http://m/", Some("x".into()), Some("y".into()), false) {
        Probed::Neither(why) => assert_eq!(
            why,
            "could not detect server type at http://m:\n  jellyfin probe: x\n  subsonic probe: y"
        ),
        other => panic!("{other:?}"),
    }
}

#[test]
fn stored_logins() {
    let c = client_from_stored(ServerKind::Subsonic, "http://s", "box", "dev", "u", "ann", "pw");
    assert_eq!(c.kind(), ServerKind::Subsonic);
    assert_eq!(c.access_token(), None);
    assert!(c.stream_url(&item("Audio", "a"), StreamFormat::Hls).unwrap().contains("u=ann"));
    let c = client_from_stored(ServerKind::Jellyfin, "http://m", "box", "dev", "u", "ann", "tok");
    assert_eq!(c.user_id(), Some("u"));
    let auth = AuthResult {
        access_token: "tok".into(),
        server_id: "s".into(),
        user: AuthUser { id: "u".into(), name: "ann".into() },
    };
    let done = login_any(c, auth);
    assert_eq!(done.kind, ServerKind::Jellyfin);
    assert_eq!(done.device_id, "dev");
}

#[test]
fn errors_name_the_kind_of_server() {
    let c = MediaClient::Subsonic(SubsonicClient::new("http://s"));
    let e = c.stream_url(&item("Audio", "a"), StreamFormat::Direct);
    assert!(matches!(e, Err(StreamError::Subsonic(LoginMissing::User))));
    let c = MediaClient::Jellyfin(JellyfinClient::new("http://m", "box"));
    let e = base_item_to_queue(&c, &item("Audio", "a"), StreamFormat::Direct);
    assert!(matches!(e, Err(StreamError::Jellyfin(ClientError::NoAccessToken))));
    assert!(queue_items(&c, &vec![item("Audio", "a")], StreamFormat::Direct).is_empty());
}

#[test]
fn a_queue_item_knows_its_picture_and_type() {
    let c = MediaClient::Jellyfin(jellyfin());
    let mut it = item("Audio", "a");
    it.image_tags = Some(object(&[("Primary", text("tag"))]));
    let q = base_item_to_queue(&c, &it, StreamFormat::Direct).ok().unwrap();
    assert_eq!(q.content_type, "audio/flac");
    assert!(q.image_url.unwrap().contains("tag=tag"));
    assert_eq!(q.duration_secs, Some(62));
    assert!(!q.is_video);
}

#[test]
fn listening_began_before_now() {
    assert_eq!(listen_start_ms(100_000, 40), 60_000);
    assert_eq!(listen_start_ms(1_000, 40), 0);
}

#[test]
fn reports_go_to_the_kind_of_server() {
    let started = Report::Started(item("Audio", "a"));
    let c = MediaClient::Jellyfin(jellyfin());
    assert!(matches!(c.report(&started, "s", 0), ReportRequest::Post(p) if p.url == "http://m/Sessions/Playing"));
    let c = MediaClient::Subsonic(subsonic());
    assert!(matches!(c.report(&started, "s", 0), ReportRequest::Call(_)));
    let progress = Report::Progress(item("Audio", "a"), 3);
    assert!(matches!(c.report(&progress, "s", 0), ReportRequest::Nothing));
}

#[test]
fn what_is_played_of_an_item() {
    assert_eq!(expand_playable(item("MusicAlbum", "a").kind()), Expansion::Tracks);
    assert_eq!(expand_playable(item("MusicArtist", "a").kind()), Expansion::AllTracks);
    assert_eq!(expand_playable(item("Playlist", "a").kind()), Expansion::Entries);
    assert_eq!(expand_playable(item("Series", "a").kind()), Expansion::Episodes);
    assert_eq!(expand_playable(item("Movie", "a").kind()), Expansion::Itself);
}

#[test]
fn a_chromecast_gets_hls() {
    assert!(matches!(stream_format(false, RendererKind::Chromecast), StreamFormat::Hls));
    assert!(matches!(stream_format(false, RendererKind::Upnp), StreamFormat::Direct));
    assert!(matches!(stream_format(true, RendererKind::Mpv), StreamFormat::Hls));
}

#[test]
fn reports_follow_what_is_heard() {
    let c = MediaClient::Jellyfin(jellyfin());
    let mut state = PlaybackState::default();
    let mut s = Scrobbler::new("session".into(), 0);
    assert!(s.emit_scrobble_events(RendererKind::Mpv, &state, 0).is_empty());
    state.now_playing =
        base_item_to_queue(&c, &item("Audio", "a"), StreamFormat::Direct).ok();
    state.status = PlaybackStatus::Playing;
    assert!(s.emit_scrobble_events(RendererKind::Chromecast, &state, 0).is_empty());
    let events = s.emit_scrobble_events(RendererKind::Mpv, &state, 100);
    assert!(matches!(&events[..], [Report::Started(i)] if i.id == "a"));
    assert!(s.emit_scrobble_events(RendererKind::Mpv, &state, 5_000).is_empty());
    state.position_us = 11_000_000;
    let events = s.emit_scrobble_events(RendererKind::Mpv, &state, 10_200);
    assert!(matches!(&events[..], [Report::Progress(i, 11)] if i.id == "a"));
    state.now_playing =
        base_item_to_queue(&c, &item("Audio", "b"), StreamFormat::Direct).ok();
    let events = s.emit_scrobble_events(RendererKind::Mpv, &state, 10_300);
    assert!(matches!(&events[..], [Report::Stopped(old, _), Report::Started(new)]
        if old.id == "a" && new.id == "b"));
    state.now_playing = None;
    let events = s.emit_scrobble_events(RendererKind::Mpv, &state, 10_400);
    assert!(matches!(&events[..], [Report::Stopped(i, _)] if i.id == "b"));
}

// Settings ------------------------------------------------------------------

#[test]
fn an_old_server_is_taken_over_once() {
    let mut c = Config::default();
    c.server = Some(LegacyServerConfig {
        url: "https://media.example:8096/x".into(),
        user_id: "u".into(),
        user_name: "ann".into(),
        access_token: "t".into(),
        device_id: "d".into(),
    });
    c.migrate_legacy_server();
    assert_eq!(c.current_server.as_deref(), Some("media.example"));
    c.migrate_legacy_server();
    assert_eq!(c.servers.len(), 1);
    assert!(c.server.is_none());
}

#[test]
fn a_list_of_servers_wins_over_an_old_one() {
    let mut c = Config::default();
    c.servers = vec![saved("a")];
    c.server = Some(LegacyServerConfig {
        url: "https://media.example".into(),
        user_id: "u".into(),
        user_name: "ann".into(),
        access_token: "t".into(),
        device_id: "d".into(),
    });
    c.migrate_legacy_server();
    assert!(c.server.is_none());
    assert_eq!(c.servers.len(), 1);
    assert_eq!(c.servers[0].url, "http://a");
    assert_eq!(c.current_server.as_deref(), Some("a"));
}

#[test]
fn a_refusal_says_why() {
    assert_eq!(
        refusal(ServerKind::Jellyfin, "200 OK", "x"),
        "/System/Info/Public didn't look like Jellyfin"
    );
    assert_eq!(
        refusal(ServerKind::Subsonic, "404 Not Found", &"é".repeat(100)),
        format!("/rest/ping.view returned 404 Not Found: {}", "é".repeat(80))
    );
    assert_eq!(refusal(ServerKind::Subsonic, "200 OK", "hi"), "/rest/ping.view returned 200 OK: hi");
}

#[test]
fn what_others_push_is_not_reported() {
    let c = MediaClient::Jellyfin(jellyfin());
    let mut state = PlaybackState::default();
    state.status = PlaybackStatus::Playing;
    let mut s = Scrobbler::new("session".into(), 0);
    state.now_playing =
        base_item_to_queue(&c, &item("Audio", "upnp-cast:7"), StreamFormat::Direct).ok();
    assert!(s.emit_scrobble_events(RendererKind::Mpv, &state, 100).is_empty());
    state.now_playing =
        base_item_to_queue(&c, &item("Audio", "a"), StreamFormat::Direct).ok();
    assert_eq!(s.emit_scrobble_events(RendererKind::Mpv, &state, 200).len(), 1);
    state.now_playing =
        base_item_to_queue(&c, &item("Audio", "upnp-cast:8"), StreamFormat::Direct).ok();
    let events = s.emit_scrobble_events(RendererKind::Mpv, &state, 300);
    assert!(matches!(&events[..], [Report::Stopped(i, _)] if i.id == "a"));
}

fn saved(name: &str) -> ServerConfig {
    ServerConfig {
        name: name.into(),
        url: format!("http://{name}"),
        user_id: String::new(),
        user_name: String::new(),
        access_token: String::new(),
        device_id: String::new(),
        server_kind: ServerKind::Jellyfin,
    }
}

#[test]
fn cycling_visits_every_server() {
    let mut c = Config::default();
    for n in ["a", "b", "c"] {
        c.add_or_update_server(saved(n));
    }
    let mut seen = Vec::new();
    for _ in 0..3 {
        seen.push(c.cycle_next().unwrap().name.clone());
    }
    assert_eq!(seen, vec!["a", "b", "c"]);
    assert_eq!(c.current_position(), Some(2));
}

#[test]
fn overlaps_come_round() {
    let mut s = CrossfadeSettings::default();
    let mut seen = Vec::new();
    for _ in 0..4 {
        s = s.next_duration();
        seen.push(s.duration_ms);
    }
    assert_eq!(seen, vec![8_000, 12_000, 3_000, 5_000]);
}

#[test]
fn gains_have_limits() {
    let mut c = Config::default();
    c.ensure_eq_bands();
    c.nudge_tone(30, -30);
    assert_eq!((c.bass, c.treble), (24, -24));
    assert_eq!(c.nudge_eq_band_gain(99, 10), Some(9));
    assert_eq!(c.eq_band_settings[9].gain, 10);
    c.nudge_eq_band_gain(0, -500);
    assert_eq!(c.eq_band_settings[0].gain, -240);
    c.eq_band_settings.clear();
    assert_eq!(c.nudge_eq_band_gain(0, 1), None);
}

#[test]
fn json_is_read_from_text() {
    let j = parse_json(" {\"a\": [null, true, -1.5, 18446744073709551615, \"\\u00e9\"]} ").unwrap();
    match j.get("a") {
        Some(Json::Array(v)) => {
            assert_eq!(v.len(), 5);
            assert!(matches!(v[0], Json::Null));
            assert!(matches!(v[1], Json::Bool(true)));
            assert!(matches!(&v[2], Json::Number(n) if n == "-1.5"));
            assert!(matches!(&v[3], Json::Number(n) if n == "18446744073709551615"));
            assert_eq!(v[4].as_str(), Some("é"));
        }
        other => panic!("{other:?}"),
    }
    for bad in ["", "{", "nul", "[1,]", "{\"a\":1} x", "'a'"] {
        assert!(parse_json(bad).is_none());
        assert!(parse_json_lenient(bad).is_none());
    }
}

#[test]
fn answers_are_read_in_either_casing() {
    for body in [
        "{\"searchHints\":[{\"itemId\":\"a\",\"name\":\"n\"}]}",
        "{\"SearchHints\":[{\"ItemId\":\"a\",\"Name\":\"n\"}]}",
    ] {
        let lenient = parse_json_lenient(body).unwrap();
        assert!(lenient.get("SearchHints").is_some());
        match hints_in(body) {
            Some(Json::Array(hits)) => {
                assert_eq!(hits[0].get("ItemId").and_then(|i| i.as_str()), Some("a"));
                assert_eq!(hits[0].get("Name").and_then(|i| i.as_str()), Some("n"));
            }
            other => panic!("{other:?}"),
        }
    }
    assert!(hints_in("{\"hints\":[]}").is_some());
    assert!(hints_in("{\"other\":[]}").is_none());
    assert!(hints_in("no json").is_none());
}

#[test]
fn lists_are_read_bare_or_wrapped() {
    for body in ["[{\"id\":\"a\"}]", "{\"items\":[{\"Id\":\"a\"}]}"] {
        match listed_in(body) {
            Some(Json::Array(items)) => {
                assert_eq!(items[0].get("Id").and_then(|i| i.as_str()), Some("a"));
            }
            other => panic!("{other:?}"),
        }
    }
    assert!(listed_in("null").is_none());
    assert!(listed_in("").is_none());
}
