//! The player on the desktop bus.

use fin::mpris::{
    loop_status, metadata, mpris_status, play_pause, position, repeat_mode, seek, set_position,
    set_volume, track_id, LoopStatus, MprisStatus, Notifier, Property, Snapshot, NO_TRACK,
};
use fin::queue::{QueueItem, RepeatMode};
use fin::renderer::{PlaybackState, PlaybackStatus, RendererCall};

fn item(id: &str) -> QueueItem {
    QueueItem {
        id: id.into(),
        title: "Song".into(),
        subtitle: "Ann".into(),
        stream_url: "http://example/s".into(),
        image_url: Some("http://example/i".into()),
        duration_secs: Some(100),
        is_video: false,
        content_type: "audio/mpeg".into(),
    }
}

fn playing(id: &str, position_us: u64) -> PlaybackState {
    let mut s = PlaybackState::default();
    s.status = PlaybackStatus::Playing;
    s.now_playing = Some(item(id));
    s.queue = vec![item(id)];
    s.current_index = Some(0);
    s.position_us = position_us;
    s.duration_us = 100_000_000;
    s
}

#[test]
fn loop_modes_come_back() {
    for m in [RepeatMode::Off, RepeatMode::One, RepeatMode::All] {
        assert_eq!(repeat_mode(loop_status(m)), m);
    }
    assert_eq!(loop_status(RepeatMode::One), LoopStatus::Track);
}

#[test]
fn track_ids_are_object_paths() {
    assert_eq!(track_id(&item("upnp-cast:3")), "/rs/tsirysndr/fin/track/upnp_cast_3");
    assert_eq!(track_id(&item("")), "/rs/tsirysndr/fin/track/_");
    assert_eq!(track_id(&item("é9")), "/rs/tsirysndr/fin/track/_9");
}

#[test]
fn metadata_of_a_track_and_of_none() {
    let m = metadata(&playing("a", 0));
    assert_eq!(m.title.as_deref(), Some("Song"));
    assert_eq!(m.artist.as_deref(), Some("Ann"));
    assert_eq!(m.length_us, Some(100_000_000));
    assert_eq!(m.art_url.as_deref(), Some("http://example/i"));
    let none = metadata(&PlaybackState::default());
    assert_eq!(none.track_id, NO_TRACK);
    assert!(none.title.is_none() && none.length_us.is_none());
}

#[test]
fn a_length_that_the_stream_does_not_tell_comes_from_the_item() {
    let mut s = playing("a", 0);
    s.duration_us = 0;
    assert_eq!(metadata(&s).length_us, Some(100_000_000));
}

#[test]
fn statuses() {
    assert_eq!(mpris_status(PlaybackStatus::Buffering), MprisStatus::Playing);
    assert_eq!(mpris_status(PlaybackStatus::Paused), MprisStatus::Paused);
    assert_eq!(mpris_status(PlaybackStatus::Idle), MprisStatus::Stopped);
    assert!(matches!(play_pause(PlaybackStatus::Playing), RendererCall::Pause));
    assert!(matches!(play_pause(PlaybackStatus::Stopped), RendererCall::Resume));
}

#[test]
fn seeking_by_an_offset() {
    let s = playing("a", 10_000_000);
    assert!(matches!(seek(&s, 5_000_000), RendererCall::Seek(15_000_000)));
    assert!(matches!(seek(&s, -50_000_000), RendererCall::Seek(0)));
    assert!(matches!(seek(&s, 90_000_001), RendererCall::Next));
}

#[test]
fn a_position_counts_for_the_current_track_only() {
    let s = playing("a", 0);
    let here = track_id(&item("a"));
    assert!(matches!(set_position(&s, &here, 7_000_000), Some(RendererCall::Seek(7_000_000))));
    assert!(set_position(&s, &track_id(&item("b")), 7_000_000).is_none());
    assert!(set_position(&s, &here, -1).is_none());
    assert!(set_position(&s, &here, 100_000_001).is_none());
    assert!(set_position(&PlaybackState::default(), &here, 0).is_none());
}

#[test]
fn volumes_are_limited() {
    assert!(matches!(set_volume(1_500), RendererCall::SetVolume(1_000)));
    assert!(matches!(set_volume(-3), RendererCall::SetVolume(0)));
    assert!(matches!(set_volume(420), RendererCall::SetVolume(420)));
    assert_eq!(position(&playing("a", 42)), 42);
}

#[test]
fn a_steady_player_says_nothing() {
    let mut n = Notifier::new(&playing("a", 0), 0);
    let notice = n.tick(&playing("a", 500_000), 500_000);
    assert!(notice.seeked_us.is_none());
    assert!(notice.changed.is_empty());
    let notice = n.tick(&playing("a", 1_000_000), 1_000_000);
    assert!(notice.seeked_us.is_none() && notice.changed.is_empty());
}

#[test]
fn a_jump_is_told() {
    let mut n = Notifier::new(&playing("a", 0), 0);
    assert_eq!(n.tick(&playing("a", 30_000_000), 500_000).seeked_us, Some(30_000_000));
    let mut n = Notifier::new(&playing("a", 50_000_000), 0);
    assert_eq!(n.tick(&playing("a", 1_000_000), 500_000).seeked_us, Some(1_000_000));
}

#[test]
fn another_track_is_no_jump() {
    let mut n = Notifier::new(&playing("a", 90_000_000), 0);
    let notice = n.tick(&playing("b", 0), 500_000);
    assert!(notice.seeked_us.is_none());
    assert_eq!(notice.changed.len(), 1);
    assert!(matches!(notice.changed[0], Property::Metadata(_)));
}

#[test]
fn stopping_tells_all_that_changes() {
    let mut n = Notifier::new(&playing("a", 0), 0);
    let notice = n.tick(&PlaybackState::default(), 500_000);
    assert!(matches!(notice.changed[0], Property::PlaybackStatus(MprisStatus::Stopped)));
    assert!(notice.changed.iter().any(|p| matches!(p, Property::CanGoNext(false))));
    assert!(notice.changed.iter().any(|p| matches!(p, Property::CanGoPrevious(false))));
    assert!(notice.changed.iter().any(|p| matches!(p, Property::CanSeek(false))));
    assert!(!Snapshot::of(&PlaybackState::default()).can_play);
}
