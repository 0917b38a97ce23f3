//! The SOAP control endpoints: AVTransport, RenderingControl and
//! ConnectionManager.
//!
//! This is where a control point's actions turn into calls on the renderer.
//! Each function takes the session and the renderer's state as they are, and
//! says what the renderer is to be asked and what the control point is told.

use vstd::prelude::*;
use vstd::slice::slice_subrange;

use crate::mediarenderer::desc::SINK_PROTOCOL_INFO;
use crate::mediarenderer::xml::{
    content_type, encode_entities, is_video, parse_didl, tag_text, title_from_uri, CastMeta,
};
use crate::num::{fmt_hms, fmt_secs, number_of, parse_hms, push_dec, push_next, to_time};
use crate::queue::{clone_opt, QueueItem, UPNP_CAST_ID_PREFIX};
use crate::renderer::{one_item, PlaybackState, PlaybackStatus, RendererCall};
use crate::text::{chars, find_after_last, from_chars, lossy, str_eq};

verus! {

/// The services of a MediaRenderer.
#[derive(Debug, Clone, Copy, PartialEq, Eq, Structural)]
pub enum Service {
    AvTransport,
    RenderingControl,
    ConnectionManager,
}

impl Service {
    /// The URN of a service.
    pub open spec fn urn(self) -> Seq<char> {
        match self {
            Service::AvTransport => "urn:schemas-upnp-org:service:AVTransport:1"@,
            Service::RenderingControl => "urn:schemas-upnp-org:service:RenderingControl:1"@,
            Service::ConnectionManager => "urn:schemas-upnp-org:service:ConnectionManager:1"@,
        }
    }

    /// The path that a service's actions are posted to.
    pub open spec fn control_path(self) -> Seq<char> {
        match self {
            Service::AvTransport => "/control/AVTransport"@,
            Service::RenderingControl => "/control/RenderingControl"@,
            Service::ConnectionManager => "/control/ConnectionManager"@,
        }
    }

    /// The path that a service's events are subscribed at.
    pub open spec fn event_path(self) -> Seq<char> {
        match self {
            Service::AvTransport => "/event/AVTransport"@,
            Service::RenderingControl => "/event/RenderingControl"@,
            Service::ConnectionManager => "/event/ConnectionManager"@,
        }
    }

    pub fn service_type(&self) -> (r: &'static str)
        ensures
            r@ == self.urn(),
    {
        match self {
            Service::AvTransport => "urn:schemas-upnp-org:service:AVTransport:1",
            Service::RenderingControl => "urn:schemas-upnp-org:service:RenderingControl:1",
            Service::ConnectionManager => "urn:schemas-upnp-org:service:ConnectionManager:1",
        }
    }

    pub fn from_control_path(path: &str) -> (r: Option<Self>)
        ensures
            match r {
                Some(s) => path@ == s.control_path(),
                None => forall|s: Service| path@ != #[trigger] s.control_path(),
            },
    {
        if str_eq(path, "/control/AVTransport") {
            Some(Service::AvTransport)
        } else if str_eq(path, "/control/RenderingControl") {
            Some(Service::RenderingControl)
        } else if str_eq(path, "/control/ConnectionManager") {
            Some(Service::ConnectionManager)
        } else {
            None
        }
    }

    pub fn from_event_path(path: &str) -> (r: Option<Self>)
        ensures
            match r {
                Some(s) => path@ == s.event_path(),
                None => forall|s: Service| path@ != #[trigger] s.event_path(),
            },
    {
        if str_eq(path, "/event/AVTransport") {
            Some(Service::AvTransport)
        } else if str_eq(path, "/event/RenderingControl") {
            Some(Service::RenderingControl)
        } else if str_eq(path, "/event/ConnectionManager") {
            Some(Service::ConnectionManager)
        } else {
            None
        }
    }
}

/// The paths of different services differ, so a path names one service.
pub proof fn lemma_paths_distinct(a: Service, b: Service)
    ensures
        a.control_path() == b.control_path() ==> a == b,
        a.event_path() == b.event_path() ==> a == b,
        a.control_path() != b.event_path(),
{
    reveal_strlit("/control/AVTransport");
    reveal_strlit("/control/RenderingControl");
    reveal_strlit("/control/ConnectionManager");
    reveal_strlit("/event/AVTransport");
    reveal_strlit("/event/RenderingControl");
    reveal_strlit("/event/ConnectionManager");
    assert(a.control_path()[1] == 'c');
    assert(b.event_path()[1] == 'e');
    assert(a.control_path().len() == b.control_path().len() ==> a == b);
    assert(a.event_path().len() == b.event_path().len() ==> a == b);
}

/// Why an action fails.
#[derive(Debug, Clone, Copy, PartialEq, Eq, Structural)]
pub enum SoapError {
    InvalidAction,
    InvalidArgs,
    ActionFailed,
    SeekModeNotSupported,
}

impl SoapError {
    /// The UPnP error code.
    pub open spec fn number(self) -> nat {
        match self {
            SoapError::InvalidAction => 401,
            SoapError::InvalidArgs => 402,
            SoapError::ActionFailed => 501,
            SoapError::SeekModeNotSupported => 710,
        }
    }

    /// The description that goes with the code.
    pub open spec fn words(self) -> Seq<char> {
        match self {
            SoapError::InvalidAction => "Invalid Action"@,
            SoapError::InvalidArgs => "Invalid Args"@,
            SoapError::ActionFailed => "Action Failed"@,
            SoapError::SeekModeNotSupported => "Seek mode not supported"@,
        }
    }

    pub fn code(&self) -> (r: u16)
        ensures
            r == self.number(),
    {
        match self {
            SoapError::InvalidAction => 401,
            SoapError::InvalidArgs => 402,
            SoapError::ActionFailed => 501,
            SoapError::SeekModeNotSupported => 710,
        }
    }

    pub fn desc(&self) -> (r: &'static str)
        ensures
            r@ == self.words(),
    {
        match self {
            SoapError::InvalidAction => "Invalid Action",
            SoapError::InvalidArgs => "Invalid Args",
            SoapError::ActionFailed => "Action Failed",
            SoapError::SeekModeNotSupported => "Seek mode not supported",
        }
    }
}

/// What a control point last pushed. The renderer owns playback; this only
/// remembers what was said, so that it can be told again.
#[derive(Debug)]
pub struct Session {
    /// Item staged by `SetAVTransportURI`, consumed by the next `Play`.
    pub pending: Option<QueueItem>,
    /// Last item that was pushed into the renderer.
    pub current: Option<QueueItem>,
    pub current_uri: String,
    pub current_meta: String,
    pub next_uri: String,
    pub next_meta: String,
    /// Volume before mute, in thousandths: there while muted.
    pub pre_mute_volume: Option<u32>,
    /// Counter behind the ids of cast items.
    pub item_seq: u64,
}

/// A session as a value.
pub ghost struct SessionView {
    pub pending: Option<crate::queue::ItemView>,
    pub current: Option<crate::queue::ItemView>,
    pub current_uri: Seq<char>,
    pub current_meta: Seq<char>,
    pub next_uri: Seq<char>,
    pub next_meta: Seq<char>,
    pub pre_mute_volume: Option<u32>,
    pub item_seq: nat,
}

/// An optional item as a value.
pub open spec fn opt_item(o: Option<QueueItem>) -> Option<crate::queue::ItemView> {
    match o {
        Some(i) => Some(i@),
        None => None,
    }
}

impl View for Session {
    type V = SessionView;

    open spec fn view(&self) -> SessionView {
        SessionView {
            pending: opt_item(self.pending),
            current: opt_item(self.current),
            current_uri: self.current_uri@,
            current_meta: self.current_meta@,
            next_uri: self.next_uri@,
            next_meta: self.next_meta@,
            pre_mute_volume: self.pre_mute_volume,
            item_seq: self.item_seq as nat,
        }
    }
}

impl Session {
    /// A session in which nothing was said yet.
    pub fn new() -> (r: Self)
        ensures
            r@ == (SessionView {
                pending: None,
                current: None,
                current_uri: Seq::empty(),
                current_meta: Seq::empty(),
                next_uri: Seq::empty(),
                next_meta: Seq::empty(),
                pre_mute_volume: None,
                item_seq: 0,
            }),
    {
        Session {
            pending: None,
            current: None,
            current_uri: String::new(),
            current_meta: String::new(),
            next_uri: String::new(),
            next_meta: String::new(),
            pre_mute_volume: None,
            item_seq: 0,
        }
    }
}

/// What follows from an action that did not fail: a call on the renderer, if
/// any, and the arguments of the answer. Where the call fails, the answer is
/// `ActionFailed` instead.
#[derive(Debug)]
pub struct Step {
    pub call: Option<RendererCall>,
    pub out: String,
}

/// The outcome of an action as a value.
pub open spec fn outcome(r: Result<Step, SoapError>) -> Result<
    (Option<crate::renderer::CallView>, Seq<char>),
    SoapError,
> {
    match r {
        Ok(s) => Ok((crate::renderer::call_view(s.call), s.out@)),
        Err(e) => Err(e),
    }
}

/// The text of an argument in a SOAP body.
pub fn arg(body: &str, name: &str) -> (r: Option<String>)
    ensures
        crate::text::opt_view(r) == crate::mediarenderer::xml::text_of_tag(body@, name@),
{
    tag_text(body, name)
}

/// An argument's text, or nothing.
pub open spec fn arg_or_empty(body: Seq<char>, name: Seq<char>) -> Seq<char> {
    match crate::mediarenderer::xml::text_of_tag(body, name) {
        Some(t) => t,
        None => Seq::empty(),
    }
}

fn arg_text(body: &str, name: &str) -> (r: String)
    ensures
        r@ == arg_or_empty(body@, name@),
{
    match arg(body, name) {
        Some(t) => t,
        None => String::new(),
    }
}

/// The queue item that a cast URI turns into.
pub open spec fn cast_item(seq: nat, uri: Seq<char>, didl: Seq<char>) -> crate::queue::ItemView {
    let meta = crate::mediarenderer::xml::didl_meta(didl);
    let video = crate::mediarenderer::xml::is_video_item(meta, uri);
    crate::queue::ItemView {
        id: UPNP_CAST_ID_PREFIX@ + crate::num::dec(seq),
        title: match meta.title {
            Some(t) => t,
            None => crate::mediarenderer::xml::uri_title(uri),
        },
        subtitle: match meta.artist {
            Some(a) => a,
            None => Seq::empty(),
        },
        stream_url: uri,
        image_url: meta.album_art,
        duration_secs: match meta.duration_secs {
            Some(n) => Some(n as u64),
            None => None,
        },
        is_video: video,
        content_type: crate::mediarenderer::xml::item_content_type(meta, uri, video),
    }
}

/// The number of the next item. Behind the last number counting starts again.
pub open spec fn next_seq(n: nat) -> nat {
    if n >= u64::MAX {
        0
    } else {
        n + 1
    }
}

/// Builds the queue item that a cast URI turns into. Its id marks it as one
/// that another device pushed, and keeps scrobbling from reporting it.
pub fn build_item(session: &mut Session, uri: &str, meta_didl: &str) -> (r: QueueItem)
    ensures
        r@ == cast_item(next_seq(old(session)@.item_seq), uri@, meta_didl@),
        final(session)@ == (SessionView {
            item_seq: next_seq(old(session)@.item_seq),
            ..old(session)@
        }),
{
    let meta: CastMeta = parse_didl(meta_didl);
    let video: bool = is_video(&meta, uri);
    session.item_seq = if session.item_seq == u64::MAX {
        0
    } else {
        session.item_seq + 1
    };
    let mut id: String = UPNP_CAST_ID_PREFIX.to_owned();
    push_dec(&mut id, session.item_seq);
    let title: String = match &meta.title {
        Some(t) => t.clone(),
        None => title_from_uri(uri),
    };
    let subtitle: String = match &meta.artist {
        Some(a) => a.clone(),
        None => String::new(),
    };
    QueueItem {
        id,
        title,
        subtitle,
        stream_url: uri.to_owned(),
        image_url: clone_opt(&meta.album_art),
        duration_secs: meta.duration_secs,
        is_video: video,
        content_type: content_type(&meta, uri, video),
    }
}

/// The UPnP name of a playback status.
pub open spec fn transport_name(status: PlaybackStatus) -> Seq<char> {
    match status {
        PlaybackStatus::Playing => "PLAYING"@,
        PlaybackStatus::Paused => "PAUSED_PLAYBACK"@,
        PlaybackStatus::Buffering => "TRANSITIONING"@,
        PlaybackStatus::Stopped => "STOPPED"@,
        PlaybackStatus::Idle => "STOPPED"@,
    }
}

pub fn transport_state(status: PlaybackStatus) -> (r: &'static str)
    ensures
        r@ == transport_name(status),
{
    match status {
        PlaybackStatus::Playing => "PLAYING",
        PlaybackStatus::Paused => "PAUSED_PLAYBACK",
        PlaybackStatus::Buffering => "TRANSITIONING",
        PlaybackStatus::Stopped => "STOPPED",
        PlaybackStatus::Idle => "STOPPED",
    }
}

/// The renderer is at work on something.
pub open spec fn is_playing(status: PlaybackStatus) -> bool {
    status == PlaybackStatus::Playing || status == PlaybackStatus::Buffering
}

/// `SetAVTransportURI`: the item is staged, or, where something is playing,
/// played at once: a change of the URI in the middle means "switch tracks".
pub open spec fn set_uri_spec(
    s: SessionView,
    status: PlaybackStatus,
    body: Seq<char>,
) -> (SessionView, Result<(Option<crate::renderer::CallView>, Seq<char>), SoapError>) {
    match crate::mediarenderer::xml::text_of_tag(body, "CurrentURI"@) {
        None => (s, Err(SoapError::InvalidArgs)),
        Some(uri) => {
            let meta = arg_or_empty(body, "CurrentURIMetaData"@);
            let item = cast_item(next_seq(s.item_seq), uri, meta);
            let t = SessionView {
                current_uri: uri,
                current_meta: meta,
                next_uri: Seq::empty(),
                next_meta: Seq::empty(),
                item_seq: next_seq(s.item_seq),
                ..s
            };
            if is_playing(status) {
                (
                    SessionView { current: Some(item), pending: None, ..t },
                    Ok(
                        (
                            Some(crate::renderer::CallView::Play(seq![item], 0)),
                            Seq::empty(),
                        ),
                    ),
                )
            } else {
                (SessionView { pending: Some(item), ..t }, Ok((None, Seq::empty())))
            }
        },
    }
}

fn no_call() -> (r: Result<Step, SoapError>)
    ensures
        outcome(r) == Ok::<(Option<crate::renderer::CallView>, Seq<char>), SoapError>(
            (None, Seq::empty()),
        ),
{
    Ok(Step { call: None, out: String::new() })
}

fn only_call(call: RendererCall) -> (r: Result<Step, SoapError>)
    ensures
        outcome(r) == Ok::<(Option<crate::renderer::CallView>, Seq<char>), SoapError>(
            (Some(call@), Seq::empty()),
        ),
{
    Ok(Step { call: Some(call), out: String::new() })
}

fn only_text(out: String) -> (r: Result<Step, SoapError>)
    ensures
        outcome(r) == Ok::<(Option<crate::renderer::CallView>, Seq<char>), SoapError>(
            (None, out@),
        ),
{
    Ok(Step { call: None, out })
}

fn set_uri(session: &mut Session, status: PlaybackStatus, body: &str) -> (r: Result<
    Step,
    SoapError,
>)
    ensures
        (final(session)@, outcome(r)) == set_uri_spec(old(session)@, status, body@),
{
    let uri: String = match arg(body, "CurrentURI") {
        Some(u) => u,
        None => {
            return Err(SoapError::InvalidArgs);
        },
    };
    let meta: String = arg_text(body, "CurrentURIMetaData");
    let item: QueueItem = build_item(session, uri.as_str(), meta.as_str());
    session.current_uri = uri;
    session.current_meta = meta;
    session.next_uri = String::new();
    session.next_meta = String::new();
    if status == PlaybackStatus::Playing || status == PlaybackStatus::Buffering {
        session.current = Some(item.clone());
        session.pending = None;
        only_call(RendererCall::Play(one_item(item), 0))
    } else {
        session.pending = Some(item);
        no_call()
    }
}

/// `SetNextAVTransportURI`: the item goes to the end of the renderer's queue,
/// whose own advance gives the gapless transition.
pub open spec fn set_next_spec(s: SessionView, body: Seq<char>) -> (
    SessionView,
    Result<(Option<crate::renderer::CallView>, Seq<char>), SoapError>,
) {
    match crate::mediarenderer::xml::text_of_tag(body, "NextURI"@) {
        None => (s, Err(SoapError::InvalidArgs)),
        Some(uri) => {
            let meta = arg_or_empty(body, "NextURIMetaData"@);
            let item = cast_item(next_seq(s.item_seq), uri, meta);
            (
                SessionView { next_uri: uri, next_meta: meta, item_seq: next_seq(s.item_seq), ..s },
                Ok((Some(crate::renderer::CallView::Enqueue(seq![item])), Seq::empty())),
            )
        },
    }
}

fn set_next(session: &mut Session, body: &str) -> (r: Result<Step, SoapError>)
    ensures
        (final(session)@, outcome(r)) == set_next_spec(old(session)@, body@),
{
    let uri: String = match arg(body, "NextURI") {
        Some(u) => u,
        None => {
            return Err(SoapError::InvalidArgs);
        },
    };
    let meta: String = arg_text(body, "NextURIMetaData");
    let item: QueueItem = build_item(session, uri.as_str(), meta.as_str());
    session.next_uri = uri;
    session.next_meta = meta;
    only_call(RendererCall::Enqueue(one_item(item)))
}

/// `Play`: a staged item is played. Without one, a pause ends, and a renderer
/// at rest plays the last item again.
pub open spec fn play_spec(s: SessionView, status: PlaybackStatus) -> (
    SessionView,
    Result<(Option<crate::renderer::CallView>, Seq<char>), SoapError>,
) {
    match s.pending {
        Some(item) => (
            SessionView { pending: None, current: Some(item), ..s },
            Ok((Some(crate::renderer::CallView::Play(seq![item], 0)), Seq::empty())),
        ),
        None => (
            s,
            Ok(
                (
                    match status {
                        PlaybackStatus::Paused => Some(crate::renderer::CallView::Resume),
                        PlaybackStatus::Stopped | PlaybackStatus::Idle => match s.current {
                            Some(item) => Some(crate::renderer::CallView::Play(seq![item], 0)),
                            None => None,
                        },
                        _ => None,
                    },
                    Seq::empty(),
                ),
            ),
        ),
    }
}

fn play(session: &mut Session, status: PlaybackStatus) -> (r: Result<Step, SoapError>)
    ensures
        (final(session)@, outcome(r)) == play_spec(old(session)@, status),
{
    match session.pending.take() {
        Some(item) => {
            session.current = Some(item.clone());
            only_call(RendererCall::Play(one_item(item), 0))
        },
        None => match status {
            PlaybackStatus::Paused => only_call(RendererCall::Resume),
            PlaybackStatus::Stopped | PlaybackStatus::Idle => match &session.current {
                Some(item) => only_call(RendererCall::Play(one_item(item.clone()), 0)),
                None => no_call(),
            },
            _ => no_call(),
        },
    }
}

/// `Seek`: by time only, to a target that is a clock time.
pub open spec fn seek_spec(body: Seq<char>) -> Result<
    (Option<crate::renderer::CallView>, Seq<char>),
    SoapError,
> {
    let unit = arg_or_empty(body, "Unit"@);
    if unit != "REL_TIME"@ && unit != "ABS_TIME"@ {
        Err(SoapError::SeekModeNotSupported)
    } else {
        match crate::mediarenderer::xml::text_of_tag(body, "Target"@) {
            None => Err(SoapError::InvalidArgs),
            Some(t) => match crate::num::hms_us(t) {
                None => Err(SoapError::InvalidArgs),
                Some(us) => Ok(
                    (Some(crate::renderer::CallView::Seek(us as int)), Seq::empty()),
                ),
            },
        }
    }
}

fn seek(body: &str) -> (r: Result<Step, SoapError>)
    ensures
        outcome(r) == seek_spec(body@),
{
    let unit: String = arg_text(body, "Unit");
    if !str_eq(unit.as_str(), "REL_TIME") && !str_eq(unit.as_str(), "ABS_TIME") {
        return Err(SoapError::SeekModeNotSupported);
    }
    match arg(body, "Target") {
        None => Err(SoapError::InvalidArgs),
        Some(t) => match parse_hms(t.as_str()) {
            None => Err(SoapError::InvalidArgs),
            Some(us) => only_call(RendererCall::Seek(us)),
        },
    }
}

/// The URI of the track that the answer to `GetPositionInfo` names: what is
/// playing, else what the session last heard.
pub open spec fn track_uri(s: SessionView, st: PlaybackState) -> Seq<char> {
    match st.now_playing {
        Some(item) => item.stream_url@,
        None => s.current_uri,
    }
}

/// The length of that track in whole seconds: as the renderer knows it, else
/// as the item says.
pub open spec fn track_secs(st: PlaybackState) -> nat {
    match st.now_playing {
        Some(item) => if st.duration_us > 0 {
            st.duration_us as nat / 1_000_000
        } else {
            match item.duration_secs {
                Some(n) => n as nat,
                None => 0,
            }
        },
        None => 0,
    }
}

/// The number of the track, counted from one.
pub open spec fn track_number(st: PlaybackState) -> nat {
    match st.current_index {
        Some(i) => (i + 1) as nat,
        None => if st.now_playing is Some {
            1
        } else {
            0
        },
    }
}

/// The answer to `GetPositionInfo`.
pub open spec fn position_text(s: SessionView, st: PlaybackState) -> Seq<char> {
    "<Track>"@ + crate::num::dec(track_number(st)) + "</Track><TrackDuration>"@ + crate::num::hms(
        track_secs(st),
    ) + "</TrackDuration><TrackMetaData>"@ + crate::mediarenderer::xml::encoded(s.current_meta)
        + "</TrackMetaData><TrackURI>"@ + crate::mediarenderer::xml::encoded(track_uri(s, st))
        + "</TrackURI><RelTime>"@ + crate::num::hms(st.position_us as nat / 1_000_000)
        + "</RelTime><AbsTime>NOT_IMPLEMENTED</AbsTime><RelCount>2147483647</RelCount><AbsCount>2147483647</AbsCount>"@
}

fn position_info(session: &Session, state: &PlaybackState) -> (r: String)
    ensures
        r@ == position_text(session@, *state),
{
    let secs: u64 = match &state.now_playing {
        Some(item) => if state.duration_us > 0 {
            state.duration_us / 1_000_000
        } else {
            match item.duration_secs {
                Some(n) => n,
                None => 0,
            }
        },
        None => 0,
    };
    let uri: String = match &state.now_playing {
        Some(item) => encode_entities(item.stream_url.as_str()),
        None => encode_entities(session.current_uri.as_str()),
    };
    let meta: String = encode_entities(session.current_meta.as_str());
    let length: String = fmt_secs(secs);
    let at: String = fmt_hms(state.position_us);
    let mut out: String = "<Track>".to_owned();
    match state.current_index {
        Some(i) => {
            push_next(&mut out, i);
        },
        None => {
            push_dec(
                &mut out,
                if state.now_playing.is_some() {
                    1
                } else {
                    0
                },
            );
        },
    }
    out.push_str("</Track><TrackDuration>");
    out.push_str(length.as_str());
    out.push_str("</TrackDuration><TrackMetaData>");
    out.push_str(meta.as_str());
    out.push_str("</TrackMetaData><TrackURI>");
    out.push_str(uri.as_str());
    out.push_str("</TrackURI><RelTime>");
    out.push_str(at.as_str());
    out.push_str(
        "</RelTime><AbsTime>NOT_IMPLEMENTED</AbsTime><RelCount>2147483647</RelCount><AbsCount>2147483647</AbsCount>",
    );
    out
}

/// The number of tracks: at least one where a URI was set.
pub open spec fn media_tracks(s: SessionView, st: PlaybackState) -> nat {
    if st.queue@.len() == 0 && s.current_uri.len() > 0 {
        1
    } else {
        st.queue@.len()
    }
}

/// The answer to `GetMediaInfo`.
pub open spec fn media_text(s: SessionView, st: PlaybackState) -> Seq<char> {
    "<NrTracks>"@ + crate::num::dec(media_tracks(s, st)) + "</NrTracks><MediaDuration>"@
        + crate::num::hms(st.duration_us as nat / 1_000_000) + "</MediaDuration><CurrentURI>"@
        + crate::mediarenderer::xml::encoded(s.current_uri) + "</CurrentURI><CurrentURIMetaData>"@
        + crate::mediarenderer::xml::encoded(s.current_meta) + "</CurrentURIMetaData><NextURI>"@
        + crate::mediarenderer::xml::encoded(s.next_uri) + "</NextURI><NextURIMetaData>"@
        + crate::mediarenderer::xml::encoded(s.next_meta)
        + "</NextURIMetaData><PlayMedium>NETWORK</PlayMedium><RecordMedium>NOT_IMPLEMENTED</RecordMedium><WriteStatus>NOT_IMPLEMENTED</WriteStatus>"@
}

fn media_info(session: &Session, state: &PlaybackState) -> (r: String)
    ensures
        r@ == media_text(session@, *state),
{
    let queued: usize = state.queue.len();
    let tracks: u64 = if queued == 0 && !session.current_uri.as_str().is_empty() {
        1
    } else {
        queued as u64
    };
    let length: String = fmt_hms(state.duration_us);
    let uri: String = encode_entities(session.current_uri.as_str());
    let meta: String = encode_entities(session.current_meta.as_str());
    let next_uri: String = encode_entities(session.next_uri.as_str());
    let next_meta: String = encode_entities(session.next_meta.as_str());
    let mut out: String = "<NrTracks>".to_owned();
    push_dec(&mut out, tracks);
    out.push_str("</NrTracks><MediaDuration>");
    out.push_str(length.as_str());
    out.push_str("</MediaDuration><CurrentURI>");
    out.push_str(uri.as_str());
    out.push_str("</CurrentURI><CurrentURIMetaData>");
    out.push_str(meta.as_str());
    out.push_str("</CurrentURIMetaData><NextURI>");
    out.push_str(next_uri.as_str());
    out.push_str("</NextURI><NextURIMetaData>");
    out.push_str(next_meta.as_str());
    out.push_str(
        "</NextURIMetaData><PlayMedium>NETWORK</PlayMedium><RecordMedium>NOT_IMPLEMENTED</RecordMedium><WriteStatus>NOT_IMPLEMENTED</WriteStatus>",
    );
    out
}

/// The answer to `GetTransportInfo`.
pub open spec fn transport_text(status: PlaybackStatus) -> Seq<char> {
    "<CurrentTransportState>"@ + transport_name(status)
        + "</CurrentTransportState><CurrentTransportStatus>OK</CurrentTransportStatus><CurrentSpeed>1</CurrentSpeed>"@
}

fn transport_info(status: PlaybackStatus) -> (r: String)
    ensures
        r@ == transport_text(status),
{
    let mut out: String = "<CurrentTransportState>".to_owned();
    out.push_str(transport_state(status));
    out.push_str(
        "</CurrentTransportState><CurrentTransportStatus>OK</CurrentTransportStatus><CurrentSpeed>1</CurrentSpeed>",
    );
    out
}

/// What each action of the AVTransport service does to the session, asks of
/// the renderer and answers.
pub open spec fn av_transport_spec(
    s: SessionView,
    st: PlaybackState,
    action: Seq<char>,
    body: Seq<char>,
) -> (SessionView, Result<(Option<crate::renderer::CallView>, Seq<char>), SoapError>) {
    if action == "SetAVTransportURI"@ {
        set_uri_spec(s, st.status, body)
    } else if action == "SetNextAVTransportURI"@ {
        set_next_spec(s, body)
    } else if action == "Play"@ {
        play_spec(s, st.status)
    } else if action == "Pause"@ {
        (s, Ok((Some(crate::renderer::CallView::Pause), Seq::empty())))
    } else if action == "Stop"@ {
        (s, Ok((Some(crate::renderer::CallView::Stop), Seq::empty())))
    } else if action == "Seek"@ {
        (s, seek_spec(body))
    } else if action == "Next"@ {
        (s, Ok((Some(crate::renderer::CallView::Next), Seq::empty())))
    } else if action == "Previous"@ {
        (s, Ok((Some(crate::renderer::CallView::Previous), Seq::empty())))
    } else if action == "GetTransportInfo"@ {
        (s, Ok((None, transport_text(st.status))))
    } else if action == "GetPositionInfo"@ {
        (s, Ok((None, position_text(s, st))))
    } else if action == "GetMediaInfo"@ {
        (s, Ok((None, media_text(s, st))))
    } else if action == "GetDeviceCapabilities"@ {
        (
            s,
            Ok(
                (
                    None,
                    "<PlayMedia>NETWORK</PlayMedia><RecMedia>NOT_IMPLEMENTED</RecMedia><RecQualityModes>NOT_IMPLEMENTED</RecQualityModes>"@,
                ),
            ),
        )
    } else if action == "GetTransportSettings"@ {
        (
            s,
            Ok(
                (
                    None,
                    "<PlayMode>NORMAL</PlayMode><RecQualityMode>NOT_IMPLEMENTED</RecQualityMode>"@,
                ),
            ),
        )
    } else {
        (s, Err(SoapError::InvalidAction))
    }
}

/// Carries out an action of the AVTransport service.
pub fn av_transport(
    session: &mut Session,
    state: &PlaybackState,
    action: &str,
    body: &str,
) -> (r: Result<Step, SoapError>)
    ensures
        (final(session)@, outcome(r)) == av_transport_spec(
            old(session)@,
            *state,
            action@,
            body@,
        ),
{
    if str_eq(action, "SetAVTransportURI") {
        set_uri(session, state.status, body)
    } else if str_eq(action, "SetNextAVTransportURI") {
        set_next(session, body)
    } else if str_eq(action, "Play") {
        play(session, state.status)
    } else if str_eq(action, "Pause") {
        only_call(RendererCall::Pause)
    } else if str_eq(action, "Stop") {
        only_call(RendererCall::Stop)
    } else if str_eq(action, "Seek") {
        seek(body)
    } else if str_eq(action, "Next") {
        only_call(RendererCall::Next)
    } else if str_eq(action, "Previous") {
        only_call(RendererCall::Previous)
    } else if str_eq(action, "GetTransportInfo") {
        only_text(transport_info(state.status))
    } else if str_eq(action, "GetPositionInfo") {
        only_text(position_info(session, state))
    } else if str_eq(action, "GetMediaInfo") {
        only_text(media_info(session, state))
    } else if str_eq(action, "GetDeviceCapabilities") {
        only_text(
            "<PlayMedia>NETWORK</PlayMedia><RecMedia>NOT_IMPLEMENTED</RecMedia><RecQualityModes>NOT_IMPLEMENTED</RecQualityModes>".to_owned(),
        )
    } else if str_eq(action, "GetTransportSettings") {
        only_text(
            "<PlayMode>NORMAL</PlayMode><RecQualityMode>NOT_IMPLEMENTED</RecQualityMode>".to_owned(),
        )
    } else {
        Err(SoapError::InvalidAction)
    }
}

/// A volume of thousandths in whole percent, rounded; more than full counts
/// as full.
pub open spec fn percent(volume_milli: nat) -> nat {
    if volume_milli > 1000 {
        100
    } else {
        (volume_milli + 5) / 10
    }
}

/// The volume in whole percent.
pub fn volume_percent(volume_milli: u32) -> (r: u32)
    ensures
        r == percent(volume_milli as nat),
{
    if volume_milli > 1000 {
        100
    } else {
        (volume_milli + 5) / 10
    }
}

/// The text of `DesiredMute` asks for silence.
pub open spec fn wants_mute(body: Seq<char>) -> bool {
    match crate::mediarenderer::xml::text_of_tag(body, "DesiredMute"@) {
        Some(t) => t == "1"@ || t == "true"@ || t == "True"@ || t == "yes"@,
        None => false,
    }
}

fn mute_wanted(body: &str) -> (r: bool)
    ensures
        r == wants_mute(body@),
{
    match arg(body, "DesiredMute") {
        Some(t) => str_eq(t.as_str(), "1") || str_eq(t.as_str(), "true") || str_eq(
            t.as_str(),
            "True",
        ) || str_eq(t.as_str(), "yes"),
        None => false,
    }
}

/// `SetMute`: the volume is remembered and taken to zero, or set to what was
/// remembered. Where the wish is met already, nothing happens.
pub open spec fn set_mute_spec(s: SessionView, volume_milli: u32, want: bool) -> (
    SessionView,
    Option<crate::renderer::CallView>,
) {
    match s.pre_mute_volume {
        None => if want {
            (
                SessionView { pre_mute_volume: Some(volume_milli), ..s },
                Some(crate::renderer::CallView::SetVolume(0)),
            )
        } else {
            (s, None)
        },
        Some(saved) => if want {
            (s, None)
        } else {
            (
                SessionView { pre_mute_volume: None, ..s },
                Some(crate::renderer::CallView::SetVolume(saved as int)),
            )
        },
    }
}

/// The volume in thousandths that a percentage stands for, rounded; it is at
/// most the full one, and silent where the percentage is negative or none.
pub open spec fn volume_of(percent: Seq<char>) -> Option<nat> {
    match crate::num::number(percent) {
        Some(n) => {
            let micros = crate::num::time_of(n);
            Some(
                if micros >= 100_000_000 {
                    1000
                } else {
                    (micros + 50_000) / 100_000
                },
            )
        },
        None => None,
    }
}

fn parse_volume(percent: &str) -> (r: Option<u32>)
    ensures
        match r {
            Some(v) => volume_of(percent@) == Some(v as nat),
            None => volume_of(percent@) is None,
        },
{
    let cs: Vec<char> = chars(percent);
    match number_of(cs.as_slice()) {
        Some(n) => {
            let micros: u64 = to_time(n);
            if micros >= 100_000_000 {
                Some(1000)
            } else {
                Some(((micros + 50_000) / 100_000) as u32)
            }
        },
        None => None,
    }
}

/// The volume that a body asks for.
pub open spec fn desired_volume(body: Seq<char>) -> Option<nat> {
    match crate::mediarenderer::xml::text_of_tag(body, "DesiredVolume"@) {
        Some(t) => volume_of(t),
        None => None,
    }
}

/// What each action of the RenderingControl service does to the session, asks
/// of the renderer and answers.
pub open spec fn rendering_control_spec(
    s: SessionView,
    st: PlaybackState,
    action: Seq<char>,
    body: Seq<char>,
) -> (SessionView, Result<(Option<crate::renderer::CallView>, Seq<char>), SoapError>) {
    if action == "GetVolume"@ {
        (
            s,
            Ok(
                (
                    None,
                    "<CurrentVolume>"@ + crate::num::dec(percent(st.volume_milli as nat))
                        + "</CurrentVolume>"@,
                ),
            ),
        )
    } else if action == "SetVolume"@ {
        match desired_volume(body) {
            None => (s, Err(SoapError::InvalidArgs)),
            Some(v) => (
                SessionView { pre_mute_volume: None, ..s },
                Ok((Some(crate::renderer::CallView::SetVolume(v as int)), Seq::empty())),
            ),
        }
    } else if action == "GetMute"@ {
        (
            s,
            Ok(
                (
                    None,
                    "<CurrentMute>"@ + (if s.pre_mute_volume is Some {
                        "1"@
                    } else {
                        "0"@
                    }) + "</CurrentMute>"@,
                ),
            ),
        )
    } else if action == "SetMute"@ {
        let (t, call) = set_mute_spec(s, st.volume_milli, wants_mute(body));
        (t, Ok((call, Seq::empty())))
    } else {
        (s, Err(SoapError::InvalidAction))
    }
}

/// Carries out an action of the RenderingControl service.
pub fn rendering_control(
    session: &mut Session,
    state: &PlaybackState,
    action: &str,
    body: &str,
) -> (r: Result<Step, SoapError>)
    ensures
        (final(session)@, outcome(r)) == rendering_control_spec(
            old(session)@,
            *state,
            action@,
            body@,
        ),
{
    if str_eq(action, "GetVolume") {
        let mut out: String = "<CurrentVolume>".to_owned();
        push_dec(&mut out, volume_percent(state.volume_milli) as u64);
        out.push_str("</CurrentVolume>");
        only_text(out)
    } else if str_eq(action, "SetVolume") {
        let desired: Option<u32> = match arg(body, "DesiredVolume") {
            Some(t) => parse_volume(t.as_str()),
            None => None,
        };
        match desired {
            None => Err(SoapError::InvalidArgs),
            Some(v) => {
                session.pre_mute_volume = None;
                only_call(RendererCall::SetVolume(v))
            },
        }
    } else if str_eq(action, "GetMute") {
        let mut out: String = "<CurrentMute>".to_owned();
        if session.pre_mute_volume.is_some() {
            out.push_str("1");
        } else {
            out.push_str("0");
        }
        out.push_str("</CurrentMute>");
        only_text(out)
    } else if str_eq(action, "SetMute") {
        let want: bool = mute_wanted(body);
        match session.pre_mute_volume {
            None => if want {
                session.pre_mute_volume = Some(state.volume_milli);
                only_call(RendererCall::SetVolume(0))
            } else {
                no_call()
            },
            Some(saved) => if want {
                no_call()
            } else {
                session.pre_mute_volume = None;
                only_call(RendererCall::SetVolume(saved))
            },
        }
    } else {
        Err(SoapError::InvalidAction)
    }
}

/// Muting and unmuting leads back: the session is as before, and the renderer
/// is last asked for the volume that it had. Whatever the volume is in
/// between does not matter.
pub proof fn lemma_unmute_restores(s: SessionView, volume: u32, between: u32)
    requires
        s.pre_mute_volume is None,
    ensures
        ({
            let (muted, silence) = set_mute_spec(s, volume, true);
            let (after, call) = set_mute_spec(muted, between, false);
            &&& silence == Some(crate::renderer::CallView::SetVolume(0))
            &&& call == Some(crate::renderer::CallView::SetVolume(volume as int))
            &&& after == s
        }),
{
}

/// Asking twice for the same is asking once: the second time changes nothing
/// and asks nothing of the renderer.
pub proof fn lemma_mute_idempotent(s: SessionView, volume: u32, between: u32, want: bool)
    ensures
        ({
            let (once, _call) = set_mute_spec(s, volume, want);
            set_mute_spec(once, between, want) == (
                once,
                None::<crate::renderer::CallView>,
            )
        }),
{
}

/// A URI that is set while nothing plays only waits, and what was to come next
/// is forgotten. The `Play` that follows starts it, and it alone; nothing waits
/// then.
pub proof fn lemma_set_then_play(
    s: SessionView,
    before: PlaybackState,
    later: PlaybackState,
    body: Seq<char>,
    again: Seq<char>,
)
    requires
        !is_playing(before.status),
        crate::mediarenderer::xml::text_of_tag(body, "CurrentURI"@) is Some,
    ensures
        ({
            let uri = crate::mediarenderer::xml::text_of_tag(body, "CurrentURI"@)->0;
            let item = cast_item(
                next_seq(s.item_seq),
                uri,
                arg_or_empty(body, "CurrentURIMetaData"@),
            );
            let (staged, set) = av_transport_spec(s, before, "SetAVTransportURI"@, body);
            let (started, played) = av_transport_spec(staged, later, "Play"@, again);
            &&& item.stream_url == uri
            &&& set == Ok::<(Option<crate::renderer::CallView>, Seq<char>), SoapError>(
                (None, Seq::empty()),
            )
            &&& staged.pending == Some(item)
            &&& staged.next_uri.len() == 0
            &&& staged.next_meta.len() == 0
            &&& played == Ok::<(Option<crate::renderer::CallView>, Seq<char>), SoapError>(
                (Some(crate::renderer::CallView::Play(seq![item], 0)), Seq::empty()),
            )
            &&& started.pending is None
            &&& started.current == Some(item)
            &&& started.current_uri == uri
        }),
{
    reveal_strlit("Play");
    reveal_strlit("SetAVTransportURI");
    reveal_strlit("SetNextAVTransportURI");
    assert("Play"@.len() == 4);
    assert("SetAVTransportURI"@.len() == 17);
    assert("SetNextAVTransportURI"@.len() == 21);
}

/// What each action of the ConnectionManager service answers.
pub open spec fn connection_manager_spec(action: Seq<char>) -> Result<Seq<char>, SoapError> {
    if action == "GetProtocolInfo"@ {
        Ok("<Source></Source><Sink>"@ + SINK_PROTOCOL_INFO@ + "</Sink>"@)
    } else if action == "GetCurrentConnectionIDs"@ {
        Ok("<ConnectionIDs>0</ConnectionIDs>"@)
    } else if action == "GetCurrentConnectionInfo"@ {
        Ok(
            "<RcsID>0</RcsID><AVTransportID>0</AVTransportID><ProtocolInfo></ProtocolInfo><PeerConnectionManager></PeerConnectionManager><PeerConnectionID>-1</PeerConnectionID><Direction>Input</Direction><Status>OK</Status>"@,
        )
    } else {
        Err(SoapError::InvalidAction)
    }
}

/// Answers an action of the ConnectionManager service.
pub fn connection_manager(action: &str) -> (r: Result<String, SoapError>)
    ensures
        match r {
            Ok(out) => connection_manager_spec(action@) == Ok::<Seq<char>, SoapError>(out@),
            Err(e) => connection_manager_spec(action@) == Err::<Seq<char>, SoapError>(e),
        },
{
    if str_eq(action, "GetProtocolInfo") {
        let mut out: String = "<Source></Source><Sink>".to_owned();
        out.push_str(SINK_PROTOCOL_INFO);
        out.push_str("</Sink>");
        Ok(out)
    } else if str_eq(action, "GetCurrentConnectionIDs") {
        Ok("<ConnectionIDs>0</ConnectionIDs>".to_owned())
    } else if str_eq(action, "GetCurrentConnectionInfo") {
        Ok(
            "<RcsID>0</RcsID><AVTransportID>0</AVTransportID><ProtocolInfo></ProtocolInfo><PeerConnectionManager></PeerConnectionManager><PeerConnectionID>-1</PeerConnectionID><Direction>Input</Direction><Status>OK</Status>".to_owned(),
        )
    } else {
        Err(SoapError::InvalidAction)
    }
}

/// What an action of any of the services does, asks and answers.
pub open spec fn dispatch_spec(
    s: SessionView,
    st: PlaybackState,
    svc: Service,
    action: Seq<char>,
    body: Seq<char>,
) -> (SessionView, Result<(Option<crate::renderer::CallView>, Seq<char>), SoapError>) {
    match svc {
        Service::AvTransport => av_transport_spec(s, st, action, body),
        Service::RenderingControl => rendering_control_spec(s, st, action, body),
        Service::ConnectionManager => (
            s,
            match connection_manager_spec(action) {
                Ok(out) => Ok((None, out)),
                Err(e) => Err(e),
            },
        ),
    }
}

/// Carries out an action of a service.
pub fn dispatch(
    session: &mut Session,
    state: &PlaybackState,
    svc: Service,
    action: &str,
    body: &str,
) -> (r: Result<Step, SoapError>)
    ensures
        (final(session)@, outcome(r)) == dispatch_spec(
            old(session)@,
            *state,
            svc,
            action@,
            body@,
        ),
{
    match svc {
        Service::AvTransport => av_transport(session, state, action, body),
        Service::RenderingControl => rendering_control(session, state, action, body),
        Service::ConnectionManager => match connection_manager(action) {
            Ok(out) => only_text(out),
            Err(e) => Err(e),
        },
    }
}

/// Carries out an action of a service whose body is as it was received.
pub fn dispatch_bytes(
    session: &mut Session,
    state: &PlaybackState,
    svc: Service,
    action: &str,
    body: &[u8],
) -> (r: Result<Step, SoapError>)
    ensures
        (final(session)@, outcome(r)) == dispatch_spec(
            old(session)@,
            *state,
            svc,
            action@,
            crate::text::utf8_lossy(body@),
        ),
{
    let text: String = lossy(body);
    dispatch(session, state, svc, action, text.as_str())
}

/// An action that is refused leaves the session as it was.
pub proof fn lemma_refused_unchanged(
    s: SessionView,
    st: PlaybackState,
    svc: Service,
    action: Seq<char>,
    body: Seq<char>,
)
    requires
        dispatch_spec(s, st, svc, action, body).1 is Err,
    ensures
        dispatch_spec(s, st, svc, action, body).0 == s,
{
}

/// What an action comes to in the end: its answer, or `ActionFailed` where the
/// renderer refused the call.
pub open spec fn settled(out: Seq<char>, call_ok: bool) -> Result<Seq<char>, SoapError> {
    if call_ok {
        Ok(out)
    } else {
        Err(SoapError::ActionFailed)
    }
}

/// Settles an action that did not fail, once the renderer has been asked.
/// `call_ok` says whether it did as it was asked, or was not asked at all.
pub fn settle(out: String, call_ok: bool) -> (a: Result<String, SoapError>)
    ensures
        match a {
            Ok(t) => settled(out@, call_ok) == Ok::<Seq<char>, SoapError>(t@),
            Err(e) => settled(out@, call_ok) == Err::<Seq<char>, SoapError>(e),
        },
{
    if call_ok {
        Ok(out)
    } else {
        Err(SoapError::ActionFailed)
    }
}

/// `s` without the double quotes at its front.
pub open spec fn unquote_start(s: Seq<char>) -> Seq<char>
    decreases s.len(),
{
    if s.len() > 0 && s[0] == '"' {
        unquote_start(s.skip(1))
    } else {
        s
    }
}

/// The action that a SOAPACTION header names: what stands behind the last
/// number sign, without the quotes round the header.
pub open spec fn action_in(header: Option<Seq<char>>) -> Seq<char> {
    match header {
        None => Seq::empty(),
        Some(h) => {
            let t = crate::text::trim_end_char(unquote_start(h), '"');
            t.skip(crate::text::after_last(t, '#', t.len() as int))
        },
    }
}

/// Reads the action from a SOAPACTION header, such as
/// `"urn:schemas-upnp-org:service:AVTransport:1#Play"`.
pub fn action_name(header: Option<&str>) -> (r: String)
    ensures
        r@ == action_in(
            match header {
                Some(h) => Some(h@),
                None => None,
            },
        ),
{
    match header {
        None => String::new(),
        Some(h) => {
            let cs: Vec<char> = chars(h);
            let all: &[char] = cs.as_slice();
            let mut a: usize = 0;
            proof {
                assert(all@.skip(0) =~= all@);
            }
            while a < all.len() && all[a] == '"'
                invariant
                    a <= all@.len(),
                    unquote_start(all@) == unquote_start(all@.skip(a as int)),
                decreases all@.len() - a,
            {
                proof {
                    assert(all@.skip(a as int).skip(1) =~= all@.skip(a as int + 1));
                }
                a += 1;
            }
            let open: &[char] = slice_subrange(all, a, all.len());
            proof {
                assert(open@ =~= all@.skip(a as int));
            }
            let t: &[char] = crate::text::cut_end_char(open, '"');
            let i: usize = find_after_last(t, '#');
            let name: &[char] = slice_subrange(t, i, t.len());
            proof {
                assert(name@ =~= t@.skip(i as int));
            }
            from_chars(name)
        },
    }
}

/// What every SOAP envelope begins with.
pub const ENVELOPE_HEAD: &'static str = "<?xml version=\"1.0\" encoding=\"utf-8\"?>\n<s:Envelope xmlns:s=\"http://schemas.xmlsoap.org/soap/envelope/\" s:encodingStyle=\"http://schemas.xmlsoap.org/soap/encoding/\">\n<s:Body>";

/// The envelope of an answer.
pub open spec fn answer_text(svc: Service, action: Seq<char>, out: Seq<char>) -> Seq<char> {
    ENVELOPE_HEAD@ + "<u:"@ + action + "Response xmlns:u=\""@ + svc.urn() + "\">"@ + out + "</u:"@
        + action + "Response></s:Body>\n</s:Envelope>"@
}

/// The envelope of a fault.
pub open spec fn fault_text(e: SoapError) -> Seq<char> {
    ENVELOPE_HEAD@
        + "<s:Fault><faultcode>s:Client</faultcode><faultstring>UPnPError</faultstring>\n<detail><UPnPError xmlns=\"urn:schemas-upnp-org:control-1-0\"><errorCode>"@
        + crate::num::dec(e.number()) + "</errorCode><errorDescription>"@ + e.words()
        + "</errorDescription></UPnPError></detail>\n</s:Fault></s:Body>\n</s:Envelope>"@
}

/// Writes the envelope of an answer.
pub fn answer_envelope(svc: Service, action: &str, out: &str) -> (r: String)
    ensures
        r@ == answer_text(svc, action@, out@),
{
    let mut e: String = ENVELOPE_HEAD.to_owned();
    e.push_str("<u:");
    e.push_str(action);
    e.push_str("Response xmlns:u=\"");
    e.push_str(svc.service_type());
    e.push_str("\">");
    e.push_str(out);
    e.push_str("</u:");
    e.push_str(action);
    e.push_str("Response></s:Body>\n</s:Envelope>");
    e
}

/// Writes the envelope of a fault.
pub fn fault_envelope(e: SoapError) -> (r: String)
    ensures
        r@ == fault_text(e),
{
    let mut out: String = ENVELOPE_HEAD.to_owned();
    out.push_str(
        "<s:Fault><faultcode>s:Client</faultcode><faultstring>UPnPError</faultstring>\n<detail><UPnPError xmlns=\"urn:schemas-upnp-org:control-1-0\"><errorCode>",
    );
    push_dec(&mut out, e.code() as u64);
    out.push_str("</errorCode><errorDescription>");
    out.push_str(e.desc());
    out.push_str("</errorDescription></UPnPError></detail>\n</s:Fault></s:Body>\n</s:Envelope>");
    out
}

/// The paths of different services differ, over all services at once.
pub proof fn lemma_all_paths_distinct()
    ensures
        forall|a: Service, b: Service| #[trigger]
            a.control_path() == #[trigger] b.control_path() ==> a == b,
        forall|a: Service, b: Service| #[trigger]
            a.event_path() == #[trigger] b.event_path() ==> a == b,
{
    assert forall|a: Service, b: Service| #[trigger]
        a.control_path() == #[trigger] b.control_path() implies a == b by {
        lemma_paths_distinct(a, b);
    }
    assert forall|a: Service, b: Service| #[trigger]
        a.event_path() == #[trigger] b.event_path() implies a == b by {
        lemma_paths_distinct(a, b);
    }
}

/// The names of the actions of the AVTransport service differ.
pub(crate) proof fn lemma_action_names()
    ensures
        "SetAVTransportURI"@.len() == 17,
        "SetNextAVTransportURI"@.len() == 21 && "SetNextAVTransportURI"@[0] == 'S',
        "Play"@.len() == 4 && "Play"@[0] == 'P',
        "Pause"@.len() == 5,
        "Stop"@.len() == 4 && "Stop"@[0] == 'S' && "Stop"@[1] == 't',
        "Seek"@.len() == 4 && "Seek"@[0] == 'S' && "Seek"@[1] == 'e',
        "Next"@.len() == 4 && "Next"@[0] == 'N',
        "Previous"@.len() == 8,
        "GetTransportInfo"@.len() == 16,
        "GetPositionInfo"@.len() == 15,
        "GetMediaInfo"@.len() == 12,
        "GetDeviceCapabilities"@.len() == 21 && "GetDeviceCapabilities"@[0] == 'G',
        "GetTransportSettings"@.len() == 20,
        "GetVolume"@.len() == 9 && "GetVolume"@[0] == 'G',
        "SetVolume"@.len() == 9 && "SetVolume"@[0] == 'S',
        "GetMute"@.len() == 7 && "GetMute"@[0] == 'G',
        "SetMute"@.len() == 7 && "SetMute"@[0] == 'S',
{
    reveal_strlit("SetAVTransportURI");
    reveal_strlit("SetNextAVTransportURI");
    reveal_strlit("Play");
    reveal_strlit("Pause");
    reveal_strlit("Stop");
    reveal_strlit("Seek");
    reveal_strlit("Next");
    reveal_strlit("Previous");
    reveal_strlit("GetTransportInfo");
    reveal_strlit("GetPositionInfo");
    reveal_strlit("GetMediaInfo");
    reveal_strlit("GetDeviceCapabilities");
    reveal_strlit("GetTransportSettings");
    reveal_strlit("GetVolume");
    reveal_strlit("SetVolume");
    reveal_strlit("GetMute");
    reveal_strlit("SetMute");
}

/// What an action answers where it asks the renderer for something and tells
/// the control point nothing.
pub open spec fn asks(call: crate::renderer::CallView) -> Result<
    (Option<crate::renderer::CallView>, Seq<char>),
    SoapError,
> {
    Ok((Some(call), Seq::empty()))
}

/// A seek to a clock time of hours, minutes and seconds asks the renderer for
/// just that time, in microseconds, whether the time is told as relative or as
/// absolute. The session stays as it is.
pub proof fn lemma_seek_by_clock(
    s: SessionView,
    st: PlaybackState,
    body: Seq<char>,
    hours: nat,
    minutes: nat,
    seconds: nat,
)
    requires
        minutes < 60,
        seconds < 60,
        (3600 * hours + 60 * minutes + seconds) * 1_000_000 <= u64::MAX,
        crate::mediarenderer::xml::text_of_tag(body, "Unit"@) == Some("REL_TIME"@)
            || crate::mediarenderer::xml::text_of_tag(body, "Unit"@) == Some("ABS_TIME"@),
        crate::mediarenderer::xml::text_of_tag(body, "Target"@) == Some(
            crate::num::dec(hours) + ":"@ + crate::num::dec2(minutes) + ":"@ + crate::num::dec2(
                seconds,
            ),
        ),
    ensures
        av_transport_spec(s, st, "Seek"@, body) == (
            s,
            asks(
                crate::renderer::CallView::Seek(
                    ((3600 * hours + 60 * minutes + seconds) * 1_000_000) as int,
                ),
            ),
        ),
{
    lemma_action_names();
    let secs = 3600 * hours + 60 * minutes + seconds;
    assert(secs / 3600 == hours && secs % 3600 / 60 == minutes && secs % 60 == seconds)
        by (nonlinear_arith)
        requires
            secs == 3600 * hours + 60 * minutes + seconds,
            minutes < 60,
            seconds < 60,
    ;
    crate::num::lemma_hms_round_trip(secs);
}

/// A seek that is not by time, or to what is no clock time, is refused, and the
/// renderer is asked nothing.
pub proof fn lemma_seek_refused(s: SessionView, st: PlaybackState, body: Seq<char>)
    ensures
        crate::mediarenderer::xml::text_of_tag(body, "Unit"@) == Some("TRACK_NR"@)
            ==> av_transport_spec(s, st, "Seek"@, body).1 == Err::<
            (Option<crate::renderer::CallView>, Seq<char>),
            SoapError,
        >(SoapError::SeekModeNotSupported),
        crate::mediarenderer::xml::text_of_tag(body, "Unit"@) is None ==> av_transport_spec(
            s,
            st,
            "Seek"@,
            body,
        ).1 == Err::<(Option<crate::renderer::CallView>, Seq<char>), SoapError>(
            SoapError::SeekModeNotSupported,
        ),
        crate::mediarenderer::xml::text_of_tag(body, "Unit"@) == Some("REL_TIME"@)
            && crate::mediarenderer::xml::text_of_tag(body, "Target"@) is None
            ==> av_transport_spec(s, st, "Seek"@, body).1 == Err::<
            (Option<crate::renderer::CallView>, Seq<char>),
            SoapError,
        >(SoapError::InvalidArgs),
        av_transport_spec(s, st, "Seek"@, body).0 == s,
{
    lemma_action_names();
    reveal_strlit("TRACK_NR");
    reveal_strlit("REL_TIME");
    reveal_strlit("ABS_TIME");
    assert("TRACK_NR"@[0] == 'T' && "REL_TIME"@[0] == 'R' && "ABS_TIME"@[0] == 'A');
}

/// A pause is a pause, a stop is a stop, and the steps go the way that they
/// say; none of them changes what the session holds.
pub proof fn lemma_transport_actions(s: SessionView, st: PlaybackState, body: Seq<char>)
    ensures
        av_transport_spec(s, st, "Pause"@, body) == (s, asks(crate::renderer::CallView::Pause)),
        av_transport_spec(s, st, "Stop"@, body) == (s, asks(crate::renderer::CallView::Stop)),
        av_transport_spec(s, st, "Next"@, body) == (s, asks(crate::renderer::CallView::Next)),
        av_transport_spec(s, st, "Previous"@, body) == (
            s,
            asks(crate::renderer::CallView::Previous),
        ),
{
    lemma_action_names();
}

/// Without an item that waits, `Play` goes on where there is a pause, and
/// starts the last item again where the renderer is at rest; a renderer at work
/// is left alone. The session stays as it is.
pub proof fn lemma_play_goes_on(s: SessionView, st: PlaybackState, body: Seq<char>)
    requires
        s.pending is None,
    ensures
        ({
            let (t, r) = av_transport_spec(s, st, "Play"@, body);
            &&& t == s
            &&& r is Ok
            &&& st.status == PlaybackStatus::Paused ==> r == asks(
                crate::renderer::CallView::Resume,
            )
            &&& (st.status == PlaybackStatus::Stopped || st.status == PlaybackStatus::Idle)
                && s.current is Some ==> r == asks(
                crate::renderer::CallView::Play(seq![s.current->0], 0),
            )
            &&& (st.status == PlaybackStatus::Stopped || st.status == PlaybackStatus::Idle)
                && s.current is None ==> r->Ok_0.0 is None
            &&& st.status == PlaybackStatus::Playing || st.status == PlaybackStatus::Buffering
                ==> r->Ok_0.0 is None
        }),
{
    lemma_action_names();
}

/// A URI that is set in the middle of a track is played at once, and it alone;
/// nothing waits then. One that is to come next is put behind what plays.
pub proof fn lemma_uris_taken(s: SessionView, st: PlaybackState, body: Seq<char>)
    ensures
        crate::mediarenderer::xml::text_of_tag(body, "CurrentURI"@) is Some && (st.status
            == PlaybackStatus::Playing || st.status == PlaybackStatus::Buffering) ==> {
            let uri = crate::mediarenderer::xml::text_of_tag(body, "CurrentURI"@)->0;
            let (t, r) = av_transport_spec(s, st, "SetAVTransportURI"@, body);
            &&& t.current is Some
            &&& t.current->0.stream_url == uri
            &&& r == asks(crate::renderer::CallView::Play(seq![t.current->0], 0))
            &&& t.pending is None
            &&& t.current_uri == uri
            &&& t.next_uri.len() == 0
            &&& t.pre_mute_volume == s.pre_mute_volume
        },
        crate::mediarenderer::xml::text_of_tag(body, "CurrentURI"@) is None
            ==> av_transport_spec(s, st, "SetAVTransportURI"@, body) == (
            s,
            Err::<(Option<crate::renderer::CallView>, Seq<char>), SoapError>(
                SoapError::InvalidArgs,
            ),
        ),
        crate::mediarenderer::xml::text_of_tag(body, "NextURI"@) is Some ==> {
            let uri = crate::mediarenderer::xml::text_of_tag(body, "NextURI"@)->0;
            let (t, r) = av_transport_spec(s, st, "SetNextAVTransportURI"@, body);
            &&& r is Ok
            &&& r->Ok_0.0 is Some
            &&& r->Ok_0.0->0 is Enqueue
            &&& r->Ok_0.0->0->Enqueue_0.len() == 1
            &&& r->Ok_0.0->0->Enqueue_0[0].stream_url == uri
            &&& t.next_uri == uri
            &&& t.current_uri == s.current_uri
            &&& t.pending == s.pending
            &&& t.current == s.current
        },
        crate::mediarenderer::xml::text_of_tag(body, "NextURI"@) is None ==> av_transport_spec(
            s,
            st,
            "SetNextAVTransportURI"@,
            body,
        ) == (
            s,
            Err::<(Option<crate::renderer::CallView>, Seq<char>), SoapError>(
                SoapError::InvalidArgs,
            ),
        ),
{
    lemma_action_names();
}

/// What is asked for is told and changes nothing: the state, the position, the
/// media, the volume and whether there is silence.
pub proof fn lemma_questions_change_nothing(
    s: SessionView,
    st: PlaybackState,
    action: Seq<char>,
    body: Seq<char>,
)
    requires
        action == "GetTransportInfo"@ || action == "GetPositionInfo"@ || action == "GetMediaInfo"@
            || action == "GetDeviceCapabilities"@ || action == "GetTransportSettings"@ || action
            == "GetVolume"@ || action == "GetMute"@,
    ensures
        ({
            let svc = if action == "GetVolume"@ || action == "GetMute"@ {
                Service::RenderingControl
            } else {
                Service::AvTransport
            };
            let (t, r) = dispatch_spec(s, st, svc, action, body);
            &&& t == s
            &&& r is Ok
            &&& r->Ok_0.0 is None
        }),
{
    lemma_action_names();
}

/// An action that none of the services knows is refused as such.
pub proof fn lemma_unknown_refused(s: SessionView, st: PlaybackState, svc: Service, body: Seq<char>)
    ensures
        dispatch_spec(s, st, svc, Seq::empty(), body).1 == Err::<
            (Option<crate::renderer::CallView>, Seq<char>),
            SoapError,
        >(SoapError::InvalidAction),
        dispatch_spec(s, st, Service::RenderingControl, "Play"@, body).1 == Err::<
            (Option<crate::renderer::CallView>, Seq<char>),
            SoapError,
        >(SoapError::InvalidAction),
        dispatch_spec(s, st, Service::AvTransport, "SetVolume"@, body).1 == Err::<
            (Option<crate::renderer::CallView>, Seq<char>),
            SoapError,
        >(SoapError::InvalidAction),
{
    lemma_action_names();
    reveal_strlit("GetProtocolInfo");
    reveal_strlit("GetCurrentConnectionIDs");
    reveal_strlit("GetCurrentConnectionInfo");
    assert("GetProtocolInfo"@.len() == 15 && "GetCurrentConnectionIDs"@.len() == 23
        && "GetCurrentConnectionInfo"@.len() == 24);
}

/// The name of each status is the one of its own, so that a control point tells
/// a renderer that plays from one that is paused, one that is on its way and one
/// that is at rest.
pub proof fn lemma_transport_names(a: PlaybackStatus, b: PlaybackStatus)
    ensures
        transport_name(PlaybackStatus::Playing) == "PLAYING"@,
        transport_name(PlaybackStatus::Paused) == "PAUSED_PLAYBACK"@,
        transport_name(PlaybackStatus::Buffering) == "TRANSITIONING"@,
        transport_name(PlaybackStatus::Stopped) == "STOPPED"@,
        transport_name(PlaybackStatus::Idle) == "STOPPED"@,
        transport_name(a) == transport_name(b) ==> a == b || ((a == PlaybackStatus::Stopped || a
            == PlaybackStatus::Idle) && (b == PlaybackStatus::Stopped || b
            == PlaybackStatus::Idle)),
        a == PlaybackStatus::Playing || a == PlaybackStatus::Buffering <==> is_playing(a),
{
    reveal_strlit("PLAYING");
    reveal_strlit("PAUSED_PLAYBACK");
    reveal_strlit("TRANSITIONING");
    reveal_strlit("STOPPED");
    assert("PLAYING"@[1] == 'L' && "PAUSED_PLAYBACK"@[1] == 'A' && "TRANSITIONING"@[1] == 'R'
        && "STOPPED"@[1] == 'T');
}

/// A volume in percent is as near to the volume as whole percents can be.
pub proof fn lemma_percent_near(volume_milli: nat)
    ensures
        percent(volume_milli) <= 100,
        volume_milli <= 1000 ==> -5 <= volume_milli - 10 * percent(volume_milli) <= 5,
        volume_milli >= 1000 ==> percent(volume_milli) == 100,
        volume_milli % 10 == 0 && volume_milli <= 1000 ==> 10 * percent(volume_milli)
            == volume_milli,
{
}

/// A volume of so many percent, written as a number, is asked for as ten times
/// as many thousandths; more than a hundred is full. It ends a silence.
pub proof fn lemma_volume_set(s: SessionView, st: PlaybackState, body: Seq<char>, percent: nat)
    requires
        crate::mediarenderer::xml::text_of_tag(body, "DesiredVolume"@) == Some(
            crate::num::dec(percent),
        ),
    ensures
        rendering_control_spec(s, st, "SetVolume"@, body) == (
            SessionView { pre_mute_volume: None, ..s },
            asks(
                crate::renderer::CallView::SetVolume(
                    if percent >= 100 {
                        1000
                    } else {
                        10 * percent as int
                    },
                ),
            ),
        ),
{
    lemma_action_names();
    crate::num::lemma_dec_number(percent);
}

/// Silence is asked for with a volume of nothing, and what was before comes
/// back when it ends.
pub proof fn lemma_mute_asked(
    s: SessionView,
    st: PlaybackState,
    on: Seq<char>,
    off: Seq<char>,
    later: PlaybackState,
)
    requires
        s.pre_mute_volume is None,
        crate::mediarenderer::xml::text_of_tag(on, "DesiredMute"@) == Some("1"@)
            || crate::mediarenderer::xml::text_of_tag(on, "DesiredMute"@) == Some("true"@),
        crate::mediarenderer::xml::text_of_tag(off, "DesiredMute"@) == Some("0"@)
            || crate::mediarenderer::xml::text_of_tag(off, "DesiredMute"@) == Some("false"@),
    ensures
        ({
            let (t, r) = rendering_control_spec(s, st, "SetMute"@, on);
            let (u, back) = rendering_control_spec(t, later, "SetMute"@, off);
            &&& r == asks(crate::renderer::CallView::SetVolume(0))
            &&& t.pre_mute_volume == Some(st.volume_milli)
            &&& back == asks(crate::renderer::CallView::SetVolume(st.volume_milli as int))
            &&& u == s
        }),
{
    lemma_action_names();
    reveal_strlit("0");
    reveal_strlit("1");
    reveal_strlit("false");
    reveal_strlit("true");
    reveal_strlit("True");
    reveal_strlit("yes");
    assert("0"@[0] == '0' && "1"@[0] == '1' && "false"@[0] == 'f' && "true"@[0] == 't'
        && "True"@[0] == 'T' && "yes"@[0] == 'y');
}

/// The codes are those of the protocol, and tell the failures apart.
pub proof fn lemma_error_codes(a: SoapError, b: SoapError)
    ensures
        SoapError::InvalidAction.number() == 401,
        SoapError::InvalidArgs.number() == 402,
        SoapError::ActionFailed.number() == 501,
        SoapError::SeekModeNotSupported.number() == 710,
        a.number() == b.number() ==> a == b,
        a.words().len() > 0,
{
    reveal_strlit("Invalid Action");
    reveal_strlit("Invalid Args");
    reveal_strlit("Action Failed");
    reveal_strlit("Seek mode not supported");
}

/// An answer goes out where the renderer did as it was asked, as it stands, and
/// nowhere else.
pub proof fn lemma_settled(out: Seq<char>)
    ensures
        settled(out, true) == Ok::<Seq<char>, SoapError>(out),
        settled(out, false) == Err::<Seq<char>, SoapError>(SoapError::ActionFailed),
{
}

/// An item that was pushed is marked as one, carries its address as it came,
/// and has the title that it came with, where it came with one.
pub proof fn lemma_cast_item(seq: nat, uri: Seq<char>, didl: Seq<char>)
    ensures
        ({
            let item = cast_item(seq, uri, didl);
            let meta = crate::mediarenderer::xml::didl_meta(didl);
            &&& item.stream_url == uri
            &&& crate::text::starts_with(item.id, UPNP_CAST_ID_PREFIX@)
            &&& meta.title is Some ==> item.title == meta.title->0
            &&& meta.artist is Some ==> item.subtitle == meta.artist->0
            &&& meta.artist is None ==> item.subtitle.len() == 0
            &&& item.image_url == meta.album_art
            &&& item.is_video == crate::mediarenderer::xml::is_video_item(meta, uri)
            &&& meta.mime is Some && meta.mime->0.contains('/') ==> item.content_type
                == meta.mime->0
            &&& meta.duration_secs is None ==> item.duration_secs is None
        }),
{
    let item = cast_item(seq, uri, didl);
    assert(item.id.subrange(0, UPNP_CAST_ID_PREFIX@.len() as int) =~= UPNP_CAST_ID_PREFIX@);
}

/// Two items that are pushed one after the other have ids of their own.
pub proof fn lemma_cast_ids_differ(
    n: nat,
    uri: Seq<char>,
    didl: Seq<char>,
    other: Seq<char>,
    meta: Seq<char>,
)
    requires
        n < u64::MAX,
    ensures
        next_seq(n) == n + 1,
        cast_item(n, uri, didl).id != cast_item(next_seq(n), other, meta).id,
{
    let p = UPNP_CAST_ID_PREFIX@;
    let a = crate::num::dec(n);
    let b = crate::num::dec(n + 1);
    crate::num::lemma_dec_digits(n);
    crate::num::lemma_dec_digits(n + 1);
    assert((p + a).skip(p.len() as int) =~= a);
    assert((p + b).skip(p.len() as int) =~= b);
}

proof fn lemma_unquoted_name(h: Seq<char>, name: Seq<char>)
    requires
        forall|i: int| 0 <= i < name.len() ==> #[trigger] name[i] != '#' && name[i] != '"',
        h.len() > 0,
        h[0] != '"',
        name.len() > 0,
    ensures
        action_in(Some("\""@ + h + "#"@ + name + "\""@)) == name,
{
    reveal_strlit("\"");
    reveal_strlit("#");
    let whole = "\""@ + h + "#"@ + name + "\""@;
    let inner = h + "#"@ + name;
    let open = inner + "\""@;
    assert(whole.skip(1) =~= open);
    assert(whole[0] == '"');
    assert(open[0] == h[0]);
    assert(unquote_start(whole) == unquote_start(open));
    assert(unquote_start(open) == open);
    assert(open.last() == '"');
    assert(open.drop_last() =~= inner);
    assert(inner.last() == name.last());
    assert(name.last() == name[name.len() - 1]);
    assert(crate::text::trim_end_char(open, '"') == crate::text::trim_end_char(inner, '"'));
    assert(crate::text::trim_end_char(inner, '"') == inner);
    lemma_behind(inner, h.len() as int + 1, inner.len() as int);
    assert(inner.skip(h.len() as int + 1) =~= name);
}

proof fn lemma_behind(s: Seq<char>, at: int, end: int)
    requires
        0 < at <= end <= s.len(),
        s[at - 1] == '#',
        forall|i: int| at <= i < end ==> #[trigger] s[i] != '#',
    ensures
        crate::text::after_last(s, '#', end) == at,
    decreases end - at,
{
    if at < end {
        lemma_behind(s, at, end - 1);
    }
}

/// The name of an action is read from its header as it was written there, in
/// quotes behind the service.
pub proof fn lemma_action_read(svc: Service, name: Seq<char>)
    requires
        name.len() > 0,
        forall|i: int| 0 <= i < name.len() ==> #[trigger] name[i] != '#' && name[i] != '"',
    ensures
        action_in(Some("\""@ + svc.urn() + "#"@ + name + "\""@)) == name,
{
    reveal_strlit("urn:schemas-upnp-org:service:AVTransport:1");
    reveal_strlit("urn:schemas-upnp-org:service:RenderingControl:1");
    reveal_strlit("urn:schemas-upnp-org:service:ConnectionManager:1");
    assert(svc.urn()[0] == 'u');
    lemma_unquoted_name(svc.urn(), name);
}

/// No service has an empty path, nor one of a document.
pub(crate) proof fn lemma_path_lengths(svc: Service)
    ensures
        svc.control_path().len() > 0,
        svc.event_path().len() > 0,
        svc.control_path()[1] == 'c',
        svc.event_path()[1] == 'e',
        svc.control_path().len() >= 2,
        svc.event_path().len() >= 2,
{
    reveal_strlit("/control/AVTransport");
    reveal_strlit("/control/RenderingControl");
    reveal_strlit("/control/ConnectionManager");
    reveal_strlit("/event/AVTransport");
    reveal_strlit("/event/RenderingControl");
    reveal_strlit("/event/ConnectionManager");
}

/// Each service has a name of its own on the network, and paths of its own.
pub proof fn lemma_services_named(a: Service, b: Service)
    ensures
        Service::AvTransport.urn() == "urn:schemas-upnp-org:service:AVTransport:1"@,
        Service::RenderingControl.urn() == "urn:schemas-upnp-org:service:RenderingControl:1"@,
        Service::ConnectionManager.urn() == "urn:schemas-upnp-org:service:ConnectionManager:1"@,
        Service::AvTransport.control_path() == "/control/AVTransport"@,
        Service::RenderingControl.control_path() == "/control/RenderingControl"@,
        Service::ConnectionManager.control_path() == "/control/ConnectionManager"@,
        a.urn() == b.urn() ==> a == b,
{
    reveal_strlit("urn:schemas-upnp-org:service:AVTransport:1");
    reveal_strlit("urn:schemas-upnp-org:service:RenderingControl:1");
    reveal_strlit("urn:schemas-upnp-org:service:ConnectionManager:1");
    assert(a.urn().len() == b.urn().len() ==> a == b);
}

/// An item that waits is played by `Play`, whatever the renderer does, and it
/// alone; then it is the current one and none waits. All else stays.
pub proof fn lemma_waiting_played(s: SessionView, st: PlaybackState, body: Seq<char>)
    requires
        s.pending is Some,
    ensures
        av_transport_spec(s, st, "Play"@, body) == (
            SessionView { pending: None, current: s.pending, ..s },
            asks(crate::renderer::CallView::Play(seq![s.pending->0], 0)),
        ),
{
    lemma_action_names();
}

/// A volume that is no number, or is not told at all, is refused, and what the
/// session holds stays as it is.
pub proof fn lemma_volume_refused(s: SessionView, st: PlaybackState, body: Seq<char>)
    requires
        crate::mediarenderer::xml::text_of_tag(body, "DesiredVolume"@) is None || crate::num::number(
            crate::mediarenderer::xml::text_of_tag(body, "DesiredVolume"@)->0,
        ) is None,
    ensures
        rendering_control_spec(s, st, "SetVolume"@, body) == (
            s,
            Err::<(Option<crate::renderer::CallView>, Seq<char>), SoapError>(
                SoapError::InvalidArgs,
            ),
        ),
{
    lemma_action_names();
}

/// An item that only waits leaves what plays, and whether there is silence, as
/// it was.
pub proof fn lemma_staging_keeps(s: SessionView, st: PlaybackState, body: Seq<char>)
    requires
        st.status == PlaybackStatus::Paused || st.status == PlaybackStatus::Stopped || st.status
            == PlaybackStatus::Idle,
    ensures
        ({
            let t = av_transport_spec(s, st, "SetAVTransportURI"@, body).0;
            &&& t.current == s.current
            &&& t.pre_mute_volume == s.pre_mute_volume
        }),
{
    lemma_action_names();
}

/// Each service answers its own actions: what is asked of a service is looked up
/// in that service alone.
pub proof fn lemma_dispatched(s: SessionView, st: PlaybackState, action: Seq<char>, body: Seq<char>)
    ensures
        dispatch_spec(s, st, Service::AvTransport, action, body) == av_transport_spec(
            s,
            st,
            action,
            body,
        ),
        dispatch_spec(s, st, Service::RenderingControl, action, body) == rendering_control_spec(
            s,
            st,
            action,
            body,
        ),
        dispatch_spec(s, st, Service::ConnectionManager, action, body).0 == s,
{
}

/// What was said with an address is kept with it, and told again: the metadata
/// as it came, or nothing where none did.
pub proof fn lemma_metadata_kept(s: SessionView, st: PlaybackState, body: Seq<char>)
    ensures
        crate::mediarenderer::xml::text_of_tag(body, "CurrentURI"@) is Some ==> {
            let t = av_transport_spec(s, st, "SetAVTransportURI"@, body).0;
            let meta = crate::mediarenderer::xml::text_of_tag(body, "CurrentURIMetaData"@);
            &&& meta is Some ==> t.current_meta == meta->0
            &&& meta is None ==> t.current_meta.len() == 0
            &&& t.current_uri == crate::mediarenderer::xml::text_of_tag(body, "CurrentURI"@)->0
            &&& t.item_seq == next_seq(s.item_seq)
        },
        crate::mediarenderer::xml::text_of_tag(body, "NextURI"@) is Some ==> {
            let t = av_transport_spec(s, st, "SetNextAVTransportURI"@, body).0;
            let meta = crate::mediarenderer::xml::text_of_tag(body, "NextURIMetaData"@);
            &&& meta is Some ==> t.next_meta == meta->0
            &&& meta is None ==> t.next_meta.len() == 0
            &&& t.current_meta == s.current_meta
            &&& t.pre_mute_volume == s.pre_mute_volume
            &&& t.item_seq == next_seq(s.item_seq)
        },
{
    lemma_action_names();
}

/// An item that was pushed is as long as it was said to be, and is named after
/// its address where it came without a title; its number is in its id.
pub proof fn lemma_cast_item_told(seq: nat, uri: Seq<char>, didl: Seq<char>)
    ensures
        ({
            let item = cast_item(seq, uri, didl);
            let meta = crate::mediarenderer::xml::didl_meta(didl);
            &&& meta.duration_secs is Some && meta.duration_secs->0 <= u64::MAX
                ==> item.duration_secs is Some && item.duration_secs->0 == meta.duration_secs->0
            &&& meta.title is None ==> item.title == crate::mediarenderer::xml::uri_title(uri)
            &&& item.id == "upnp-cast:"@ + crate::num::dec(seq)
        }),
{
}

} // verus!
