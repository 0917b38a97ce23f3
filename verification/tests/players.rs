//! The players: audio here, mpv, a Chromecast and a UPnP renderer.

use fin::cast::{
    build_media, cast_device, handle_command as cast_command, load_done as cast_loaded, take_status,
    Activity, CastClock, CastSession, CastStatus, Loaded,
};
use fin::config::{CrossfadeMode, CrossfadeSettings, EqBand};
use fin::json::Json;
use fin::local::{Active, LocalRenderer};
use fin::mpv::{
    handle_event, observe_payload, plan_command, Incoming, Ipc, LoadMode, MpvCommand,
    PropertyValue,
};
use fin::persist::{latest, PersistedQueue};
use fin::queue::{QueueItem, RepeatMode};
use fin::remote::{After, Remote, RemoteAction};
use fin::renderer::{PlaybackStatus, RendererCall};
use fin::rockbox::{to_rb_crossfade, EngineOp, MixMode, RockboxPlayer};
use fin::symphonia::{
    packet_step, prime_step, DecodeStep, PacketEvent, PlayerAction, PrimeStep, SymphoniaPlayer, Work,
};
use fin::upnp::{
    handle_command as upnp_command, load_done as upnp_loaded, poll_status, position_in,
    soap_action, soap_calls, soap_envelope, transport_in,
};

fn item(id: &str, video: bool) -> QueueItem {
    QueueItem {
        id: id.into(),
        title: format!("title {id}"),
        subtitle: "Ann".into(),
        stream_url: format!("http://example/{id}?a=1&b=2"),
        image_url: None,
        duration_secs: Some(60),
        is_video: video,
        content_type: "audio/mpeg".into(),
    }
}

fn tracks(ids: &[&str]) -> Vec<QueueItem> {
    ids.iter().map(|i| item(i, false)).collect()
}

fn loads(a: &PlayerAction) -> Option<&str> {
    match a {
        PlayerAction::Load(i) => Some(i.id.as_str()),
        _ => None,
    }
}

fn remote_loads(a: &RemoteAction) -> Option<&str> {
    match a {
        RemoteAction::Load(i) => Some(i.id.as_str()),
        _ => None,
    }
}

// Audio ---------------------------------------------------------------------

#[test]
fn the_state_follows_the_queue() {
    let mut p = SymphoniaPlayer::new();
    let step = p.command(RendererCall::Play(tracks(&["a", "b"]), 1));
    assert_eq!(loads(&step.action), Some("b"));
    assert!(!step.drop_track);
    assert_eq!(p.state().status, PlaybackStatus::Buffering);
    assert_eq!(p.state().duration_us, 60_000_000);
    assert!(matches!(p.load_done(Some(61_000_000)), PlayerAction::Nothing));
    assert_eq!(p.state().status, PlaybackStatus::Playing);
    assert_eq!(p.state().current_index, Some(1));
    assert_eq!(p.state().now_playing.unwrap().id, "b");
}

#[test]
fn adding_does_not_disturb_what_plays() {
    let mut p = SymphoniaPlayer::new();
    p.command(RendererCall::Play(tracks(&["a"]), 0));
    p.load_done(Some(1));
    let step = p.command(RendererCall::Enqueue(tracks(&["b"])));
    assert!(!step.drop_track);
    assert!(matches!(step.action, PlayerAction::Nothing));
    assert_eq!(p.state().now_playing.unwrap().id, "a");
    assert_eq!(p.state().queue.len(), 2);
}

#[test]
fn tracks_that_cannot_be_opened_are_skipped_to_the_end() {
    let mut p = SymphoniaPlayer::new();
    let step = p.command(RendererCall::Play(tracks(&["a", "b"]), 0));
    assert_eq!(loads(&step.action), Some("a"));
    assert_eq!(loads(&p.load_done(None)), Some("b"));
    assert!(matches!(p.load_done(None), PlayerAction::Nothing));
    assert_eq!(p.state().status, PlaybackStatus::Idle);
    assert!(matches!(p.work(100_000), Work::Block));
}

#[test]
fn the_end_of_a_track_starts_the_next() {
    let mut p = SymphoniaPlayer::new();
    p.command(RendererCall::Play(tracks(&["a", "b"]), 0));
    p.load_done(Some(1));
    assert!(matches!(p.work(100), Work::Rest(5)));
    assert!(matches!(p.work(8_192), Work::Decode));
    let step = p.decoded(DecodeStep::Pushed, 5, 10);
    assert!(!step.drop_track);
    assert_eq!(p.state().position_us, 5);
    let step = p.decoded(DecodeStep::EndOfStream, 10, 10);
    assert!(step.drop_track);
    assert_eq!(loads(&step.action), Some("b"));
}

#[test]
fn a_restored_queue_waits_and_resumes_where_it_was() {
    let mut p = SymphoniaPlayer::new();
    let dropped = p.restore(PersistedQueue {
        items: tracks(&["a", "b"]),
        current_index: Some(1),
        shuffle: false,
        repeat: RepeatMode::All,
        position_us: 9_000_000,
    });
    assert!(!dropped);
    assert_eq!(p.state().status, PlaybackStatus::Paused);
    assert_eq!(p.state().position_us, 9_000_000);
    let saved = p.snapshot();
    assert_eq!(saved.current_index, Some(1));
    assert_eq!(saved.position_us, 9_000_000);
    let step = p.command(RendererCall::Resume);
    assert_eq!(loads(&step.action), Some("b"));
    assert!(matches!(p.load_done(Some(60_000_000)), PlayerAction::Seek(9_000_000)));
}

#[test]
fn repeat_one_plays_the_track_again() {
    let mut p = SymphoniaPlayer::new();
    p.command(RendererCall::Play(tracks(&["a", "b"]), 0));
    p.load_done(Some(1));
    p.command(RendererCall::SetRepeat(RepeatMode::One));
    let step = p.decoded(DecodeStep::EndOfStream, 1, 1);
    assert_eq!(loads(&step.action), Some("a"));
}

#[test]
fn the_volume_has_a_ceiling() {
    let mut p = SymphoniaPlayer::new();
    p.command(RendererCall::SetVolume(9_000));
    assert_eq!(p.state().volume_milli, 1_500);
}

#[test]
fn the_last_snapshot_counts() {
    let snap = |n: u64| PersistedQueue { position_us: n, ..PersistedQueue::default() };
    assert_eq!(latest(vec![snap(1), snap(2)]).unwrap().position_us, 2);
    assert!(latest(vec![]).is_none());
}

// Both kinds on this machine ------------------------------------------------

#[test]
fn a_queue_is_played_by_the_kind_of_its_first_item() {
    let mut l = LocalRenderer::new();
    let mixed = vec![item("v", true), item("a", false), item("w", true)];
    let step = l.route(RendererCall::Play(mixed, 0));
    assert_eq!(l.active, Active::Video);
    assert!(step.audio.is_none());
    match step.video {
        Some(RendererCall::Play(items, 0)) => {
            let ids: Vec<String> = items.into_iter().map(|i| i.id).collect();
            assert_eq!(ids, vec!["v", "w"]);
        }
        other => panic!("{other:?}"),
    }
    let step = l.route(RendererCall::Play(tracks(&["a"]), 0));
    assert_eq!(step.stop_first, Active::Video);
    assert!(matches!(step.audio, Some(RendererCall::Play(_, 0))));
}

#[test]
fn commands_go_to_the_player_at_work() {
    let mut l = LocalRenderer::new();
    assert!(l.route(RendererCall::Pause).audio.is_none());
    l.restore();
    assert!(matches!(l.route(RendererCall::Pause).audio, Some(RendererCall::Pause)));
    let both = l.route(RendererCall::SetVolume(500));
    assert!(both.audio.is_some() && both.video.is_some());
    assert!(matches!(l.route(RendererCall::Stop).audio, Some(RendererCall::Stop)));
    assert_eq!(l.active, Active::Idle);
}

// mpv -----------------------------------------------------------------------

#[test]
fn mpv_gets_the_whole_queue() {
    let mut r = Remote::new();
    let plan = plan_command(&mut r, RendererCall::Play(tracks(&["a", "b"]), 1));
    assert!(plan.clear_first);
    assert_eq!(plan.commands.len(), 4);
    assert!(matches!(&plan.commands[0], MpvCommand::LoadFile(_, LoadMode::Replace)));
    assert!(matches!(&plan.commands[1], MpvCommand::LoadFile(_, LoadMode::Append)));
    assert!(matches!(&plan.commands[2], MpvCommand::SetPlaylistPos(1)));
    assert!(matches!(&plan.commands[3], MpvCommand::SetPause(false)));
    assert_eq!(r.state.current_index, Some(1));
}

#[test]
fn mpv_is_sent_json() {
    let json = MpvCommand::LoadFile("http://x".into(), LoadMode::AppendPlay).payload(7);
    let command = json.get("command").unwrap();
    match command {
        Json::Array(parts) => {
            let texts: Vec<&str> = parts.iter().filter_map(|p| p.as_str()).collect();
            assert_eq!(texts, vec!["loadfile", "http://x", "append-play"]);
        }
        other => panic!("{other:?}"),
    }
    assert!(matches!(json.get("request_id"), Some(Json::Number(n)) if n == "7"));
    let json = observe_payload("pause", 3);
    assert!(matches!(json.get("request_id"), Some(Json::Number(n)) if n == "3"));
}

fn reply(id: &str, error: Option<&str>) -> Json {
    let mut fields = vec![("request_id".to_string(), Json::Number(id.to_string()))];
    if let Some(e) = error {
        fields.push(("error".to_string(), Json::Text(e.to_string())));
    }
    Json::Object(fields)
}

#[test]
fn every_request_is_answered_once() {
    let mut ipc = Ipc::new();
    let first = ipc.request(true);
    let unasked = ipc.request(false);
    assert_ne!(first, unasked);
    assert!(matches!(ipc.incoming(&reply(&unasked.to_string(), None)), Incoming::Nothing));
    let answer = ipc.incoming(&reply(&first.to_string(), Some("success")));
    assert!(matches!(answer, Incoming::Reply(id, true) if id == first));
    let again = ipc.incoming(&reply(&first.to_string(), Some("success")));
    assert!(matches!(again, Incoming::Nothing));
    let second = ipc.request(true);
    let answer = ipc.incoming(&reply(&second.to_string(), Some("property unavailable")));
    assert!(matches!(answer, Incoming::Reply(id, false) if id == second));
}

#[test]
fn mpv_reports_change_the_state() {
    let mut r = Remote::new();
    plan_command(&mut r, RendererCall::Play(tracks(&["a"]), 0));
    handle_event(&mut r, "file-loaded", "", PropertyValue::Other);
    assert_eq!(r.state.status, PlaybackStatus::Playing);
    handle_event(&mut r, "property-change", "time-pos", PropertyValue::Number(3_000_000));
    assert_eq!(r.state.position_us, 3_000_000);
    handle_event(&mut r, "property-change", "volume", PropertyValue::Number(50_000_000));
    assert_eq!(r.state.volume_milli, 500);
    handle_event(&mut r, "property-change", "pause", PropertyValue::Flag(true));
    assert_eq!(r.state.status, PlaybackStatus::Paused);
    handle_event(&mut r, "end-file", "", PropertyValue::Other);
    assert_eq!(r.state.status, PlaybackStatus::Idle);
    assert_eq!(r.state.position_us, 0);
    handle_event(&mut r, "shutdown", "", PropertyValue::Other);
    assert_eq!(r.state.status, PlaybackStatus::Stopped);
}

// Chromecast ----------------------------------------------------------------

fn cast() -> CastSession {
    CastSession { remote: Remote::new(), media_session_id: None }
}

#[test]
fn what_a_chromecast_announces() {
    let d = cast_device(
        None,
        Some("Nest".into()),
        None,
        "host".into(),
        "full".into(),
        "10.0.0.2".into(),
        8009,
    );
    assert_eq!((d.name.as_str(), d.model.as_str(), d.uuid.as_str()), ("host", "Nest", "full"));
    let m = build_media(&item("v", true));
    assert!(m.movie);
    assert_eq!(m.line.as_deref(), Some("Ann"));
    assert_eq!(m.duration_secs, Some(60));
}

#[test]
fn only_the_end_of_an_item_advances() {
    let mut c = cast();
    let plan = cast_command(&mut c, RendererCall::Play(tracks(&["a", "b"]), 0));
    assert_eq!(remote_loads(&plan.action), Some("a"));
    cast_loaded(
        &mut c,
        &item("a", false),
        Some(Loaded { media_session_id: 5, duration_us: Some(9) }),
    );
    assert_eq!(c.media_session_id, Some(5));
    assert_eq!(c.remote.state.duration_us, 9);
    let mut report =
        CastStatus { position_us: Some(4), duration_us: None, activity: Activity::Paused };
    assert!(matches!(take_status(&mut c, report), RemoteAction::Nothing));
    assert_eq!(c.remote.queue.current_index(), Some(0));
    assert_eq!(c.remote.state.status, PlaybackStatus::Paused);
    report.activity = Activity::Finished;
    assert_eq!(remote_loads(&take_status(&mut c, report)), Some("b"));
    assert!(matches!(take_status(&mut c, report), RemoteAction::Nothing));
    assert_eq!(c.remote.state.status, PlaybackStatus::Idle);
}

#[test]
fn without_a_session_there_is_nothing_to_pause() {
    let mut c = cast();
    assert!(matches!(cast_command(&mut c, RendererCall::Pause).action, RemoteAction::Nothing));
    let plan = cast_command(&mut c, RendererCall::SetVolume(4_000));
    assert!(matches!(plan.action, RemoteAction::SetVolume(1_000)));
    assert_eq!(plan.after, After::Volume(1_000));
    c.remote.finish(plan.after, false);
    assert_eq!(c.remote.state.volume_milli, 1_000);
}

#[test]
fn pings_and_statuses_are_due_in_time() {
    let mut clock = CastClock { heartbeat_ms: 0, status_ms: 0 };
    let due = clock.due(750);
    assert!(!due.ping && !due.status);
    let due = clock.due(751);
    assert!(!due.ping && due.status);
    let due = clock.due(4_001);
    assert!(due.ping && due.status);
    assert!(!clock.due(4_002).ping);
}

// UPnP ----------------------------------------------------------------------

#[test]
fn a_device_at_rest_advances_once() {
    let mut r = Remote::new();
    let plan = upnp_command(&mut r, RendererCall::Play(tracks(&["a", "b"]), 0), true);
    assert_eq!(remote_loads(&plan.action), Some("a"));
    upnp_loaded(&mut r, &item("a", false));
    let mut active = false;
    assert!(matches!(poll_status(&mut r, &mut active, "STOPPED", None), RemoteAction::Nothing));
    assert_eq!(r.queue.current_index(), Some(0));
    let info = position_in("<RelTime>0:00:07</RelTime><TrackDuration>0:01:00</TrackDuration>");
    poll_status(&mut r, &mut active, "PLAYING", Some(info));
    assert!(active);
    assert_eq!(r.state.position_us, 7_000_000);
    assert_eq!(r.state.duration_us, 60_000_000);
    let next = poll_status(&mut r, &mut active, "STOPPED", None);
    assert_eq!(remote_loads(&next), Some("b"));
    assert!(matches!(poll_status(&mut r, &mut active, "STOPPED", None), RemoteAction::Nothing));
    assert_eq!(r.queue.current_index(), Some(1));
}

#[test]
fn what_a_device_is_sent() {
    let calls = soap_calls(&RemoteAction::Load(item("a", false)));
    assert_eq!(calls.len(), 2);
    assert_eq!(calls[0].action, "SetAVTransportURI");
    assert!(calls[0].body.starts_with(
        "<InstanceID>0</InstanceID><CurrentURI>http://example/a?a=1&amp;b=2</CurrentURI>"
    ));
    assert_eq!(calls[1].action, "Play");
    let seek = soap_calls(&RemoteAction::Seek(62_900_000));
    assert!(seek[0].body.ends_with("<Target>0:01:02</Target>"));
    let volume = soap_calls(&RemoteAction::SetVolume(255));
    assert!(volume[0].rendering);
    assert!(volume[0].body.ends_with("<DesiredVolume>26</DesiredVolume>"));
    assert!(soap_calls(&RemoteAction::Nothing).is_empty());
    assert_eq!(soap_action("urn:x", "Play"), "\"urn:x#Play\"");
    assert!(soap_envelope("urn:x", "Play", "<a/>")
        .contains("<s:Body><u:Play xmlns:u=\"urn:x\"><a/></u:Play></s:Body>"));
    assert_eq!(transport_in("<CurrentTransportState>PLAYING</CurrentTransportState>"), "PLAYING");
}

// Rockbox -------------------------------------------------------------------

#[test]
fn the_items_follow_the_engine() {
    let mut p = RockboxPlayer::new();
    let plan = p.command(RendererCall::Play(tracks(&["a", "b"]), 1), None);
    assert!(plan.persist);
    assert!(matches!(&plan.ops[0], EngineOp::SetQueue(urls) if urls.len() == 2));
    p.command(RendererCall::PlayNext(tracks(&["x"])), Some(0));
    let ids: Vec<&str> = p.items.iter().map(|i| i.id.as_str()).collect();
    assert_eq!(ids, vec!["a", "x", "b"]);
    p.command(RendererCall::RemoveFromQueue(0), Some(1));
    assert_eq!(p.items.len(), 2);
}

#[test]
fn the_overlap_of_the_engine() {
    let settings = |mode| CrossfadeSettings { mode, duration_ms: 5_000 };
    assert!(to_rb_crossfade(settings(CrossfadeMode::Off)).is_none());
    let fade = to_rb_crossfade(settings(CrossfadeMode::Crossfade)).unwrap();
    assert_eq!((fade.fade_ms, fade.mix), (5_000, MixMode::Crossfade));
    let mix = to_rb_crossfade(settings(CrossfadeMode::Mixed)).unwrap();
    assert_eq!(mix.mix, MixMode::Mix);
}

#[test]
fn the_engine_takes_ten_bands() {
    let mut p = RockboxPlayer::new();
    let bands: Vec<EqBand> = (0..12).map(|n| EqBand { cutoff: n, q: 70, gain: 0 }).collect();
    assert_eq!(p.set_eq(true, &bands).len(), 10);
    assert!(p.eq_enabled);
    p.set_tone(3, -2);
    let state = p.state(None);
    assert_eq!((state.bass_db, state.treble_db), (3, -2));
}

#[test]
fn packets_decide_how_a_track_goes_on() {
    assert_eq!(packet_step(PacketEvent::EndOfFile), DecodeStep::EndOfStream);
    assert_eq!(packet_step(PacketEvent::ResetRequired), DecodeStep::EndOfStream);
    assert_eq!(packet_step(PacketEvent::ReadFailed), DecodeStep::Error);
    assert_eq!(packet_step(PacketEvent::DecoderFailed), DecodeStep::Error);
    assert_eq!(packet_step(PacketEvent::OtherTrack), DecodeStep::Pushed);
    assert_eq!(packet_step(PacketEvent::Damaged), DecodeStep::Pushed);
    assert_eq!(packet_step(PacketEvent::Decoded(0)), DecodeStep::Pushed);

    assert_eq!(prime_step(PacketEvent::Decoded(0)), PrimeStep::Again);
    assert_eq!(prime_step(PacketEvent::Decoded(2)), PrimeStep::Ready);
    assert_eq!(prime_step(PacketEvent::OtherTrack), PrimeStep::Again);
    assert_eq!(prime_step(PacketEvent::Damaged), PrimeStep::Again);
    assert_eq!(prime_step(PacketEvent::EndOfFile), PrimeStep::Failed);
    assert_eq!(prime_step(PacketEvent::ResetRequired), PrimeStep::Failed);
    assert_eq!(prime_step(PacketEvent::ReadFailed), PrimeStep::Failed);
    assert_eq!(prime_step(PacketEvent::DecoderFailed), PrimeStep::Failed);
}

#[test]
fn what_was_asked_for_is_what_starts() {
    let items = vec![item("v", true), item("a", false), item("c", false)];
    let mut l = LocalRenderer::new();
    let step = l.route(RendererCall::Play(items.clone(), 1));
    assert!(step.video.is_none());
    match step.audio {
        Some(RendererCall::Play(kept, 0)) => {
            let ids: Vec<&str> = kept.iter().map(|i| i.id.as_str()).collect();
            assert_eq!(ids, ["a", "c"]);
        }
        other => panic!("{other:?}"),
    }
    let step = l.route(RendererCall::Play(items, 2));
    assert!(matches!(step.audio, Some(RendererCall::Play(_, 1))));
}

fn mixed(current: Option<usize>) -> PersistedQueue {
    PersistedQueue {
        items: vec![item("v", true), item("a", false), item("w", true), item("c", false)],
        current_index: current,
        shuffle: true,
        repeat: RepeatMode::Off,
        position_us: 4,
    }
}

#[test]
fn videos_are_not_restored() {
    let mut p = RockboxPlayer::new();
    let plan = p.restore(mixed(Some(3)));
    let ids: Vec<&str> = p.items.iter().map(|i| i.id.as_str()).collect();
    assert_eq!(ids, ["a", "c"]);
    match &plan.seed[..] {
        [EngineOp::SetQueue(urls), EngineOp::SkipTo(1)] => {
            assert_eq!(urls.len(), 2);
            assert_eq!(urls[0], "http://example/a?a=1&b=2");
        }
        other => panic!("{other:?}"),
    }
    assert!(matches!(&p.restore(mixed(Some(1))).seed[..], [EngineOp::SetQueue(_)]));

    let mut s = SymphoniaPlayer::new();
    s.restore(mixed(Some(2)));
    assert_eq!(s.state().queue.len(), 2);
    assert_eq!(s.state().now_playing.map(|i| i.id), Some("c".to_string()));

    let only = PersistedQueue { items: vec![item("v", true)], ..mixed(Some(0)) };
    assert!(p.restore(only).seed.is_empty());
}

#[test]
fn lines_of_mpv_are_taken_as_they_come() {
    let mut ipc = Ipc::new();
    let first = ipc.request(true);
    let (heard, event) = ipc.take_line("not json");
    assert!(matches!(heard, Incoming::Nothing) && event.is_none());
    let line = format!("{{\"data\":null,\"request_id\":{first},\"error\":\"success\"}}");
    let (heard, event) = ipc.take_line(&line);
    assert!(matches!(heard, Incoming::Reply(id, true) if id == first) && event.is_none());
    let (heard, _) = ipc.take_line(&line);
    assert!(matches!(heard, Incoming::Nothing));
    for (data, value) in [
        ("12.5", PropertyValue::Number(12_500_000)),
        ("-3", PropertyValue::Number(0)),
        ("1e300", PropertyValue::Number(u64::MAX)),
        ("true", PropertyValue::Flag(true)),
        ("null", PropertyValue::Other),
        ("\"7\"", PropertyValue::Other),
    ] {
        let line = format!(
            "{{\"event\":\"property-change\",\"id\":1,\"name\":\"time-pos\",\"data\":{data}}}"
        );
        let (heard, event) = ipc.take_line(&line);
        assert!(matches!(heard, Incoming::Event));
        let event = event.unwrap();
        assert_eq!((event.event.as_str(), event.name.as_str()), ("property-change", "time-pos"));
        assert_eq!(event.data, value);
    }
    let (heard, event) = ipc.take_line("{\"event\":\"file-loaded\"}");
    assert!(matches!(heard, Incoming::Event));
    let event = event.unwrap();
    assert_eq!((event.event.as_str(), event.name.as_str()), ("file-loaded", ""));
    assert_eq!(event.data, PropertyValue::Other);
}
