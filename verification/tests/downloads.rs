//! A stream that still arrives, and its samples.

use fin::stream::{
    channel_source, drain_wait_ms, drained, frames_for, frames_in, played_us, ring_capacity,
    ChannelSource, Fetch, ReadStep, SeekError, SeekTarget, SharedBuf, StreamingSource,
};
use fin::symphonia::ext_from_content_type;

fn bytes(step: ReadStep) -> Vec<u8> {
    match step {
        ReadStep::Bytes(b) => b,
        other => panic!("no bytes: {other:?}"),
    }
}

#[test]
fn reads_follow_each_other_while_more_arrives() {
    let mut buf = SharedBuf::new();
    let mut at = StreamingSource::new();
    assert!(matches!(at.read(&buf, 4), ReadStep::Wait));
    assert!(buf.fetched(Fetch::Started(Some(6))));
    assert!(buf.fetched(Fetch::Chunk(vec![1, 2, 3, 4])));
    assert_eq!(bytes(at.read(&buf, 3)), vec![1, 2, 3]);
    assert!(buf.fetched(Fetch::Chunk(vec![5, 6])));
    assert_eq!(bytes(at.read(&buf, 9)), vec![4, 5, 6]);
    assert!(matches!(at.read(&buf, 1), ReadStep::Wait));
    assert!(!buf.fetched(Fetch::End));
    assert!(matches!(at.read(&buf, 1), ReadStep::End));
    assert_eq!(bytes(at.read(&buf, 0)), Vec::<u8>::new());
}

#[test]
fn nobody_waits_for_a_cancelled_download() {
    let mut buf = SharedBuf::new();
    buf.cancelled = true;
    let mut at = StreamingSource::new();
    assert!(matches!(at.read(&buf, 4), ReadStep::Cancelled));
    assert!(!buf.fetched(Fetch::Chunk(vec![1])));
    assert!(buf.done);
}

#[test]
fn what_arrived_before_a_failure_is_read() {
    let mut buf = SharedBuf::new();
    buf.fetched(Fetch::Chunk(vec![1]));
    assert!(!buf.fetched(Fetch::Failed("gone".into())));
    let mut at = StreamingSource::new();
    assert_eq!(bytes(at.read(&buf, 4)), vec![1]);
    assert_eq!(buf.error.as_deref(), Some("gone"));
}

#[test]
fn seeks() {
    let mut buf = SharedBuf::new();
    let mut at = StreamingSource::new();
    assert_eq!(at.seek(&buf, SeekTarget::End(0)), Err(SeekError::UnknownLength));
    buf.fetched(Fetch::Started(Some(100)));
    assert_eq!(at.seek(&buf, SeekTarget::End(-10)), Ok(90));
    assert_eq!(at.seek(&buf, SeekTarget::Current(5)), Ok(95));
    assert_eq!(at.seek(&buf, SeekTarget::Current(-96)), Err(SeekError::BeforeStart));
    assert_eq!(at.pos, 95);
    assert_eq!(at.seek(&buf, SeekTarget::Start(3)), Ok(3));
}

#[test]
fn frames_and_times() {
    assert_eq!(frames_in(10, 2), 5);
    assert_eq!(frames_in(10, 0), 10);
    assert_eq!(played_us(44_100, 0, 44_100), 1_000_000);
    assert_eq!(played_us(10, 20, 44_100), 0);
    assert_eq!(frames_for(1_500_000, 48_000), 72_000);
    assert_eq!(ring_capacity(48_000, 2), 24_000);
    assert_eq!(ring_capacity(4_000, 2), 4_096);
    assert!(drained(9_998, 10_000, 2));
    assert!(!drained(9_997, 10_000, 2));
    assert_eq!(drain_wait_ms(48, 48_000), 10);
    assert_eq!(drain_wait_ms(4_800, 48_000), 100);
    assert_eq!(drain_wait_ms(480_000, 48_000), 200);
}

#[test]
fn channels_are_mapped() {
    assert_eq!(channel_source(2, 2, 1), ChannelSource::One(1));
    assert_eq!(channel_source(2, 1, 0), ChannelSource::Mean);
    assert_eq!(channel_source(1, 6, 4), ChannelSource::One(0));
    assert_eq!(channel_source(6, 2, 1), ChannelSource::One(1));
    assert_eq!(channel_source(3, 6, 5), ChannelSource::One(1));
    assert_eq!(channel_source(0, 2, 0), ChannelSource::Silence);
}

#[test]
fn containers_of_content_types() {
    assert_eq!(ext_from_content_type("audio/mpeg"), Some("mp3"));
    assert_eq!(ext_from_content_type(" Audio/FLAC ; charset=x"), Some("flac"));
    assert_eq!(ext_from_content_type("audio/x-m4a"), Some("m4a"));
    assert_eq!(ext_from_content_type("application/ogg"), Some("ogg"));
    assert_eq!(ext_from_content_type("video/mp4"), None);
}
