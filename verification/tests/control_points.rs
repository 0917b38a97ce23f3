//! This machine as a device that others cast to.

use fin::mediarenderer::desc::{
    av_transport_scpd, connection_manager_scpd, device_description, rendering_control_scpd,
};
use fin::mediarenderer::gena::{
    av_snapshot, event_body, expire, number_event, parse_callbacks, rc_snapshot, subscribe,
    subscribe_with, unsubscribe, Subscription, Watcher,
};
use fin::mediarenderer::http::{
    head_step, parse_head_bytes, response_head, route, sends_body, soap_response, HeadStep,
    HttpError, Options, Request, Response, Route, MAX_HEAD,
};
use fin::mediarenderer::soap::{
    action_name, dispatch, dispatch_bytes, settle, Service, Session, SoapError, Step,
};
use fin::mediarenderer::ssdp::{
    alive_message, byebye_message, parse_search, parse_search_bytes, reply_message,
    search_matches, targets,
};
use fin::mediarenderer::xml::{
    content_type, decode_entities, encode_entities, extension, is_video, parse_didl, tag_text,
    title_from_uri,
};
use fin::queue::QueueItem;
use fin::renderer::{PlaybackState, PlaybackStatus, RendererCall};
use fin::upnp::{describe, didl_lite, DescribeError};

fn options() -> Options {
    Options { friendly_name: "fin & co".into(), uuid: "u-1".into(), port: 0 }
}

fn act(
    s: &mut Session,
    st: &PlaybackState,
    action: &str,
    body: &str,
) -> Result<Step, SoapError> {
    dispatch(s, st, Service::AvTransport, action, body)
}

fn playing() -> PlaybackState {
    let mut st = PlaybackState::default();
    st.status = PlaybackStatus::Playing;
    st
}

const SET: &str = "<CurrentURI>http://h/a%20b.mp3</CurrentURI><CurrentURIMetaData></CurrentURIMetaData>";

#[test]
fn what_is_set_is_played() {
    let mut s = Session::new();
    let st = PlaybackState::default();
    let step = act(&mut s, &st, "SetAVTransportURI", SET).ok().unwrap();
    assert!(step.call.is_none());
    assert_eq!(s.current_uri, "http://h/a%20b.mp3");
    let step = act(&mut s, &st, "Play", "").ok().unwrap();
    match step.call {
        Some(RendererCall::Play(items, 0)) => {
            assert_eq!(items.len(), 1);
            assert!(items[0].is_upnp_cast());
            assert_eq!(items[0].title, "a b.mp3");
            assert_eq!(items[0].content_type, "audio/mpeg");
        }
        other => panic!("{other:?}"),
    }
}

#[test]
fn a_refused_action_changes_nothing() {
    let mut s = Session::new();
    let st = PlaybackState::default();
    let e = act(&mut s, &st, "Fly", "").err().unwrap();
    assert_eq!(e, SoapError::InvalidAction);
    assert_eq!(e.code(), 401);
    let e = act(&mut s, &st, "Seek", "<Unit>TRACK_NR</Unit><Target>2</Target>").err().unwrap();
    assert_eq!(e.code(), 710);
    let e = act(&mut s, &st, "SetAVTransportURI", "").err().unwrap();
    assert_eq!(e.code(), 402);
    assert_eq!(s.item_seq, 0);
    assert_eq!(SoapError::ActionFailed.code(), 501);
    assert_eq!(settle("out".into(), false).err(), Some(SoapError::ActionFailed));
    assert_eq!(settle("out".into(), true).ok().as_deref(), Some("out"));
}

#[test]
fn muting_and_unmuting_restores_the_volume() {
    let mut s = Session::new();
    let mut st = PlaybackState::default();
    st.volume_milli = 640;
    let rc = Service::RenderingControl;
    let mute = "<DesiredMute>1</DesiredMute>";
    let step = dispatch(&mut s, &st, rc, "SetMute", mute).ok().unwrap();
    assert!(matches!(step.call, Some(RendererCall::SetVolume(0))));
    assert_eq!(s.pre_mute_volume, Some(640));
    st.volume_milli = 0;
    let again = dispatch(&mut s, &st, rc, "SetMute", mute).ok().unwrap();
    assert!(again.call.is_none());
    assert_eq!(s.pre_mute_volume, Some(640));
    let step =
        dispatch(&mut s, &st, rc, "SetMute", "<DesiredMute>0</DesiredMute>").ok().unwrap();
    assert!(matches!(step.call, Some(RendererCall::SetVolume(640))));
    assert_eq!(s.pre_mute_volume, None);
}

#[test]
fn volumes_are_told_in_percent() {
    let mut s = Session::new();
    let mut st = PlaybackState::default();
    st.volume_milli = 255;
    let rc = Service::RenderingControl;
    let step = dispatch(&mut s, &st, rc, "GetVolume", "").ok().unwrap();
    assert_eq!(step.out, "<CurrentVolume>26</CurrentVolume>");
    for (text, milli) in
        [("30", 300), ("+12.34", 123), ("250", 1000), ("-5", 0), ("1e2", 1000), (" 7 ", 70)]
    {
        let body = format!("<DesiredVolume>{text}</DesiredVolume>");
        let step = dispatch(&mut s, &st, rc, "SetVolume", &body).ok().unwrap();
        assert!(matches!(step.call, Some(RendererCall::SetVolume(v)) if v == milli));
    }
    for (text, milli) in [("inf", 1000), ("-Infinity", 0), ("nan", 0), ("1e400", 1000)] {
        let body = format!("<DesiredVolume>{text}</DesiredVolume>");
        let step = dispatch(&mut s, &st, rc, "SetVolume", &body).ok().unwrap();
        assert!(matches!(step.call, Some(RendererCall::SetVolume(v)) if v == milli));
    }
    let e = dispatch(&mut s, &st, rc, "SetVolume", "<DesiredVolume>loud</DesiredVolume>").err();
    assert_eq!(e, Some(SoapError::InvalidArgs));
    let e = dispatch(&mut s, &st, rc, "SetVolume", "").err();
    assert_eq!(e, Some(SoapError::InvalidArgs));
}

#[test]
fn paths_lead_to_their_services() {
    let all =
        [Service::AvTransport, Service::RenderingControl, Service::ConnectionManager];
    for svc in all {
        let name = match svc {
            Service::AvTransport => "AVTransport",
            Service::RenderingControl => "RenderingControl",
            Service::ConnectionManager => "ConnectionManager",
        };
        assert!(device_description("n", "u").contains(svc.service_type()));
        assert!(device_description("n", "u").contains(name));
    }
    assert_eq!(Service::from_control_path("/nowhere"), None);
    assert_eq!(
        action_name(Some("\"urn:schemas-upnp-org:service:AVTransport:1#Play\"")),
        "Play"
    );
    assert_eq!(action_name(None), "");
}

#[test]
fn descriptions_are_served() {
    match route(&options(), "GET", "/description.xml") {
        Route::Answer(r) => {
            assert_eq!(r.status, 200);
            let text = String::from_utf8(r.body).unwrap();
            assert!(text.contains("<friendlyName>fin &amp; co</friendlyName>"));
            assert!(text.contains("<UDN>uuid:u-1</UDN>"));
        }
        other => panic!("{other:?}"),
    }
    assert!(matches!(route(&options(), "GET", "/x"), Route::Answer(r) if r.status == 404));
    assert!(!sends_body("HEAD"));
    assert!(sends_body("GET"));
}

#[test]
fn heads_are_read() {
    let raw = b"post /control?x#y HTTP/1.1\r\nContent-Length: 3\r\nSOAPACTION: \"a#B\"\r\n\r\nabcd";
    let end = match head_step(raw) {
        HeadStep::Complete(end) => end,
        other => panic!("{other:?}"),
    };
    let head = parse_head_bytes(raw, end).ok().unwrap();
    assert_eq!((head.method.as_str(), head.path.as_str()), ("POST", "/control"));
    assert_eq!(head.content_length, 3);
    let body = raw[end + 4..].to_vec();
    assert!(!head.needs_more(&body));
    let req = head.with_body(body);
    assert_eq!(req.body, b"abc");
    assert_eq!(req.header("soapaction"), Some("\"a#B\""));
}

#[test]
fn an_absolute_target_is_cut_to_its_path() {
    let raw = b"GET http://h:1/a/b?c HTTP/1.1";
    let head = parse_head_bytes(raw, raw.len()).ok().unwrap();
    assert_eq!(head.path, "/a/b");
    let raw = b"GET http://h HTTP/1.1\r\nX: \xff";
    let head = parse_head_bytes(raw, raw.len()).ok().unwrap();
    assert_eq!(head.path, "/");
    assert_eq!(head.headers[0].1, "\u{fffd}");
}

#[test]
fn bad_requests_are_told_apart() {
    let parse = |raw: &[u8]| parse_head_bytes(raw, raw.len()).err();
    assert_eq!(parse(b""), Some(HttpError::EmptyRequest));
    assert_eq!(parse(b"   "), Some(HttpError::MissingMethod));
    assert_eq!(parse(b"GET"), Some(HttpError::MissingPath));
    assert_eq!(
        parse(b"POST / HTTP/1.1\r\nContent-Length: 262145"),
        Some(HttpError::BodyTooLarge)
    );
    assert_eq!(head_step(&vec![b'x'; MAX_HEAD + 1]), HeadStep::TooLarge);
    assert_eq!(head_step(b"GET / HTTP/1.1\r\n"), HeadStep::Read);
}

#[test]
fn responses_are_written() {
    let mut r = Response::xml(200, "OK", "<a/>".into());
    r.push_header("X", "1");
    let head = response_head(&r, "linux");
    assert!(head.starts_with("HTTP/1.1 200 OK\r\n"));
    assert!(head.contains("X: 1\r\n"));
    assert!(head.contains("Server: linux UPnP/1.0 fin/0.3.1\r\nContent-Length: 4\r\n"));
    assert!(head.ends_with("Connection: close\r\n\r\n"));
    let fault = soap_response(Service::AvTransport, "Play", Err(SoapError::InvalidArgs));
    assert_eq!(fault.status, 500);
    assert!(String::from_utf8(fault.body).unwrap().contains("<errorCode>402</errorCode>"));
}

fn request(headers: &[(&str, &str)]) -> Request {
    Request {
        method: "SUBSCRIBE".into(),
        path: "/".into(),
        headers: headers.iter().map(|(k, v)| (k.to_string(), v.to_string())).collect(),
        body: Vec::new(),
    }
}

#[test]
fn subscriptions_begin_and_end() {
    let mut subs: Vec<Subscription> = Vec::new();
    let req = request(&[("CALLBACK", "<http://c/1><ftp://no>")]);
    let (resp, notice) =
        subscribe_with(&mut subs, Service::AvTransport, &req, 1_000, "uuid:s".into());
    assert_eq!(resp.status, 200);
    assert!(resp.headers.contains(&("SID".to_string(), "uuid:s".to_string())));
    assert!(resp.headers.contains(&("TIMEOUT".to_string(), "Second-1800".to_string())));
    let notice = notice.unwrap();
    assert_eq!((notice.seq, notice.callbacks.len()), (0, 1));
    assert_eq!(subs[0].expires_ms, 1_801_000);

    let due = number_event(&mut subs, Service::AvTransport);
    assert_eq!(due[0].seq, 1);
    assert_eq!(subs[0].seq, 2);
    assert!(number_event(&mut subs, Service::RenderingControl).is_empty());

    let (resp, notice) = subscribe_with(
        &mut subs,
        Service::AvTransport,
        &request(&[("SID", "uuid:s")]),
        9_000,
        "uuid:other".into(),
    );
    assert_eq!(resp.status, 200);
    assert!(notice.is_none());
    assert_eq!(subs[0].expires_ms, 1_809_000);

    assert_eq!(unsubscribe(&mut subs, &request(&[("SID", "uuid:s")])).status, 200);
    assert!(subs.is_empty());
    assert_eq!(unsubscribe(&mut subs, &request(&[("SID", "uuid:s")])).status, 412);
    assert_eq!(unsubscribe(&mut subs, &request(&[])).status, 412);
}

#[test]
fn subscriptions_without_a_callback_are_refused() {
    let mut subs: Vec<Subscription> = Vec::new();
    for headers in [&[][..], &[("CALLBACK", "nothing")][..], &[("SID", "uuid:x")][..]] {
        let (resp, notice) = subscribe(&mut subs, Service::AvTransport, &request(headers), 0);
        assert_eq!(resp.status, 412);
        assert!(notice.is_none());
    }
    assert!(subs.is_empty());
}

#[test]
fn subscriptions_get_ids_of_their_own_and_run_out() {
    let mut subs: Vec<Subscription> = Vec::new();
    let req = request(&[("CALLBACK", "<http://c/1>")]);
    subscribe(&mut subs, Service::AvTransport, &req, 0);
    subscribe(&mut subs, Service::AvTransport, &req, 5);
    assert_ne!(subs[0].sid, subs[1].sid);
    assert_eq!(subs[0].sid.len(), 41);
    expire(&mut subs, 1_800_000);
    assert_eq!(subs.len(), 1);
    assert_eq!(parse_callbacks("<http://a> <https://b>"), vec!["http://a", "https://b"]);
}

#[test]
fn events_tell_what_changed() {
    let s = Session::new();
    let st = playing();
    assert_eq!(av_snapshot(&st).transport, "PLAYING");
    assert!(av_snapshot(&st).same(&av_snapshot(&st)));
    assert!(!av_snapshot(&st).same(&av_snapshot(&PlaybackState::default())));
    assert_eq!(rc_snapshot(&st, &s).volume, 100);
    let body = event_body(Service::AvTransport, &st, &s);
    assert!(body.contains("&lt;TransportState val=&quot;PLAYING&quot;/&gt;"));
}

#[test]
fn every_target_is_announced_and_found() {
    let all = targets("uuid:u");
    assert_eq!(all.len(), 6);
    assert_eq!(search_matches("uuid:u", "ssdp:all").len(), 6);
    let one = search_matches("uuid:u", "upnp:rootdevice");
    assert_eq!(one, vec![("upnp:rootdevice".to_string(), "uuid:u::upnp:rootdevice".to_string())]);
    assert!(search_matches("uuid:u", "urn:other").is_empty());
    let alive = alive_message(&all[0], "http://l", "linux");
    assert!(alive.contains("NTS: ssdp:alive\r\n"));
    assert!(alive.contains("LOCATION: http://l\r\n"));
    assert!(byebye_message(&all[1]).contains("NT: uuid:u\r\nNTS: ssdp:byebye\r\n"));
    let reply = reply_message(&one[0], "now", "http://l", "linux");
    assert!(reply.contains("ST: upnp:rootdevice\r\nUSN: uuid:u::upnp:rootdevice\r\n"));
}

#[test]
fn searches_are_recognised() {
    let search = "M-SEARCH * HTTP/1.1\r\nMAN: \"ssdp:discover\"\r\nst: ssdp:all\r\n\r\n";
    assert_eq!(parse_search(search).as_deref(), Some("ssdp:all"));
    assert_eq!(parse_search(&search.replace("M-SEARCH", "NOTIFY")), None);
    assert_eq!(parse_search(&search.replace("ssdp:discover", "x")), None);
}

#[test]
fn entities_come_back() {
    let text = "a<b>&\"c'&amp;";
    assert_eq!(decode_entities(&encode_entities(text)), text);
    assert_eq!(tag_text("<x:T a=\"1\">v&lt;w</x:T>", "T").as_deref(), Some("v<w"));
}

#[test]
fn what_is_cast_comes_back() {
    let item = QueueItem {
        id: "i".into(),
        title: "A & B".into(),
        subtitle: "Ann".into(),
        stream_url: "http://h/a.flac".into(),
        image_url: Some("http://h/p.jpg".into()),
        duration_secs: Some(3_725),
        is_video: false,
        content_type: "audio/flac".into(),
    };
    let meta = parse_didl(&didl_lite(&item));
    assert_eq!(meta.title.as_deref(), Some("A & B"));
    assert_eq!(meta.artist.as_deref(), Some("Ann"));
    assert_eq!(meta.album_art.as_deref(), Some("http://h/p.jpg"));
    assert_eq!(meta.mime.as_deref(), Some("audio/flac"));
    assert!(!is_video(&meta, &item.stream_url));
    assert_eq!(content_type(&meta, &item.stream_url, false), "audio/flac");
}

#[test]
fn addresses_tell_titles_and_types() {
    assert_eq!(title_from_uri("http://h/x/My%20Song.mp3?k=v"), "My Song.mp3");
    assert_eq!(extension("http://h/x/a.MKV?k=.mp3").as_deref(), Some("mkv"));
}

#[test]
fn other_devices_are_described() {
    let body = "<root><friendlyName>TV</friendlyName><service><serviceType>urn:x:AVTransport:1</serviceType><controlURL>/ctl</controlURL></service></root>";
    let d = describe(body, "http://h:80/desc/d.xml", "10.0.0.3").ok().unwrap();
    assert_eq!(d.friendly_name, "TV");
    assert_eq!(d.av_transport_control_url, "http://h/ctl");
    assert_eq!(d.rendering_control_url, None);
    assert_eq!(d.udn, "http://h:80/desc/d.xml");
    let relative = body.replace("/ctl", "ctl");
    let d = describe(&relative, "http://h/desc/d.xml", "10.0.0.3").ok().unwrap();
    assert_eq!(d.av_transport_control_url, "http://h/desc/ctl");
    let e = describe(body, "no address", "10.0.0.3");
    assert!(matches!(e, Err(DescribeError::BadLocation)));
    let e = describe("<root/>", "http://h/", "10.0.0.3");
    assert!(matches!(e, Err(DescribeError::NoAvTransport)));
}

#[test]
fn changes_are_told_once() {
    let mut subs: Vec<Subscription> = Vec::new();
    for (svc, sid) in [(Service::AvTransport, "uuid:a"), (Service::RenderingControl, "uuid:r")] {
        subscribe_with(&mut subs, svc, &request(&[("CALLBACK", "<http://c/1>")]), 0, sid.into());
    }
    let session = Session::new();
    let mut watcher = Watcher::new();
    let mut state = playing();
    state.volume_milli = 500;

    let events = watcher.tick(&mut subs, &state, &session, 0);
    assert_eq!(events.len(), 2);
    assert_eq!((events[0].service, events[1].service), (Service::AvTransport, Service::RenderingControl));
    assert_eq!(events[0].notices[0].sid, "uuid:a");
    assert_eq!(events[0].notices[0].seq, 1);
    assert_eq!(events[0].body, event_body(Service::AvTransport, &state, &session));
    assert_eq!(events[1].notices[0].sid, "uuid:r");
    assert!(events[1].body.contains("50"));

    assert!(watcher.tick(&mut subs, &state, &session, 1_000).is_empty());

    state.volume_milli = 510;
    let events = watcher.tick(&mut subs, &state, &session, 2_000);
    assert_eq!(events.len(), 1);
    assert_eq!(events[0].service, Service::RenderingControl);
    assert_eq!(events[0].notices[0].seq, 2);

    state.volume_milli = 520;
    let events = watcher.tick(&mut subs, &state, &session, 1_800_000);
    assert!(subs.is_empty());
    assert_eq!(events.len(), 1);
    assert!(events[0].notices.is_empty());
}

#[test]
fn an_element_is_read_in_any_case() {
    for text in ["", "a & b <c> \"d\" 'e'", "&amp;", "x\ny"] {
        let xml = format!("<dc:Title>{0}</dc:Title>", encode_entities(text));
        assert_eq!(tag_text(&xml, "tITLE").as_deref(), Some(text));
        let xml = format!("<Title>{0}</Title>", encode_entities(text));
        assert_eq!(tag_text(&xml, "title").as_deref(), Some(text));
    }
}

#[test]
fn a_device_is_read_as_it_was_described() {
    let d = device_description("fin & <co> \"x\"", "1234-ab");
    assert_eq!(tag_text(&d, "friendlyName").as_deref(), Some("fin & <co> \"x\""));
    assert_eq!(tag_text(&d, "UDN").as_deref(), Some("uuid:1234-ab"));
    assert!(d.starts_with("<?xml version=\"1.0\" encoding=\"utf-8\"?>\n<root xmlns="));
    assert!(d.contains("<device>\n<deviceType>urn:schemas-upnp-org:device:MediaRenderer:1</deviceType>\n<friendlyName>"));
    assert!(d.contains("</friendlyName>\n<manufacturer>tsirysndr</manufacturer>\n"));
    assert!(d.contains("<UDN>uuid:1234-ab</UDN>\n<dlna:X_DLNADOC "));
    assert!(d.ends_with("</serviceList>\n</device>\n</root>"));
}

#[test]
fn services_answer_what_they_declare() {
    for (svc, text) in [
        (Service::AvTransport, av_transport_scpd()),
        (Service::RenderingControl, rendering_control_scpd()),
        (Service::ConnectionManager, connection_manager_scpd()),
    ] {
        let declared: Vec<&str> = text
            .split("<action><name>")
            .skip(1)
            .map(|rest| rest.split("</name>").next().unwrap())
            .collect();
        assert!(!declared.is_empty());
        for action in declared.iter().copied().chain(["", "play", "Record"]) {
            let mut s = Session::new();
            let r = dispatch(&mut s, &PlaybackState::default(), svc, action, "");
            let refused = matches!(r, Err(SoapError::InvalidAction));
            assert_eq!(refused, !declared.contains(&action), "{action}");
        }
    }
    let cm = connection_manager_scpd();
    let evented: Vec<&str> = cm
        .split("<stateVariable sendEvents=\"yes\"><name>")
        .skip(1)
        .map(|rest| rest.split("</name>").next().unwrap())
        .collect();
    assert_eq!(evented, ["SourceProtocolInfo", "SinkProtocolInfo", "CurrentConnectionIDs"]);
}

#[test]
fn a_content_type_with_parameters_does_not_disturb() {
    let item = QueueItem {
        id: "1".into(),
        title: "T".into(),
        subtitle: "A".into(),
        stream_url: "http://h/1".into(),
        image_url: None,
        duration_secs: None,
        is_video: true,
        content_type: "video/mp4; codecs=\"avc1, mp4a:2\" & more>".into(),
    };
    let m = parse_didl(&didl_lite(&item));
    assert_eq!(m.title.as_deref(), Some("T"));
    assert_eq!(m.artist.as_deref(), Some("A"));
    assert!(is_video(&m, "http://h/x.mp3"));
}

#[test]
fn a_content_type_with_an_element_does_not_disturb() {
    let mut item = QueueItem {
        id: "1".into(),
        title: "T".into(),
        subtitle: "A".into(),
        stream_url: "http://h/1".into(),
        image_url: Some("http://h/p".into()),
        duration_secs: None,
        is_video: true,
        content_type: "<upnp:artist>B</upnp:artist><upnp:albumArtURI>x</upnp:albumArtURI>".into(),
    };
    let m = parse_didl(&didl_lite(&item));
    assert_eq!(m.title.as_deref(), Some("T"));
    assert_eq!(m.artist.as_deref(), Some("A"));
    assert_eq!(m.album_art.as_deref(), Some("http://h/p"));
    assert!(is_video(&m, "http://h/x.mp3"));
    // Only what the item lacks can be taken from the content type.
    item.subtitle = String::new();
    assert_eq!(parse_didl(&didl_lite(&item)).artist.as_deref(), Some("B"));
}

#[test]
fn requests_are_answered_from_their_bytes() {
    let mut s = Session::new();
    let st = PlaybackState::default();
    let body = b"<CurrentURI>http://h/\xff.mp3</CurrentURI>";
    let step = dispatch_bytes(&mut s, &st, Service::AvTransport, "SetAVTransportURI", body);
    assert!(step.ok().unwrap().call.is_none());
    assert_eq!(s.current_uri, "http://h/\u{fffd}.mp3");
    let e = dispatch_bytes(&mut s, &st, Service::AvTransport, "Fly", b"\xff").err();
    assert_eq!(e, Some(SoapError::InvalidAction));
}

#[test]
fn searches_are_read_from_their_bytes() {
    let packet =
        b"M-SEARCH * HTTP/1.1\r\nMAN: \"ssdp:discover\"\r\nX: \xff\r\nST: ssdp:all\r\n\r\n";
    assert_eq!(parse_search_bytes(packet).as_deref(), Some("ssdp:all"));
    assert_eq!(parse_search_bytes(b"NOTIFY * HTTP/1.1\r\nST: ssdp:all\r\n\r\n"), None);
    assert_eq!(parse_search_bytes(b"\xff"), None);
}

#[test]
fn counting_goes_on_at_its_end() {
    let mut s = Session::new();
    let mut st = PlaybackState::default();
    s.item_seq = u64::MAX;
    act(&mut s, &st, "SetAVTransportURI", SET).ok().unwrap();
    assert_eq!(s.item_seq, 0);
    let step = act(&mut s, &st, "Play", "").ok().unwrap();
    assert!(matches!(step.call, Some(RendererCall::Play(..))));
    st.current_index = Some(usize::MAX);
    let told = act(&mut s, &st, "GetPositionInfo", "").ok().unwrap();
    assert!(told.out.starts_with("<Track>18446744073709551616</Track>"));
    st.current_index = Some(0);
    let told = act(&mut s, &st, "GetPositionInfo", "").ok().unwrap();
    assert!(told.out.starts_with("<Track>1</Track>"));
    st.current_index = None;
    let told = act(&mut s, &st, "GetPositionInfo", "").ok().unwrap();
    assert!(told.out.starts_with("<Track>0</Track>"));
}

#[test]
fn a_subscription_at_the_end_of_time_lasts_till_then() {
    let mut subs: Vec<Subscription> = Vec::new();
    let req = request(&[("CALLBACK", "<http://c/1>")]);
    let (resp, _) =
        subscribe_with(&mut subs, Service::AvTransport, &req, u64::MAX - 1, "uuid:s".into());
    assert_eq!(resp.status, 200);
    assert_eq!(subs[0].expires_ms, u64::MAX);
}
