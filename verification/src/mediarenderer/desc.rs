//! UPnP description documents: the root device description and the three
//! service descriptions.

use vstd::prelude::*;

use crate::config::VERSION;
use crate::mediarenderer::xml::encode_entities;

verus! {

/// Everything that the audio player or mpv can realistically take. Control
/// points filter their device pickers on this list.
pub const SINK_PROTOCOL_INFO: &'static str = "http-get:*:audio/mpeg:*,http-get:*:audio/mp3:*,http-get:*:audio/flac:*,http-get:*:audio/x-flac:*,http-get:*:audio/ogg:*,http-get:*:application/ogg:*,http-get:*:audio/opus:*,http-get:*:audio/vorbis:*,http-get:*:audio/mp4:*,http-get:*:audio/m4a:*,http-get:*:audio/aac:*,http-get:*:audio/x-m4a:*,http-get:*:audio/wav:*,http-get:*:audio/x-wav:*,http-get:*:audio/aiff:*,http-get:*:audio/L16:*,http-get:*:video/mp4:*,http-get:*:video/x-matroska:*,http-get:*:video/webm:*,http-get:*:video/mpeg:*,http-get:*:video/avi:*,http-get:*:video/x-msvideo:*,http-get:*:video/quicktime:*,http-get:*:video/mp2t:*,http-get:*:video/x-ms-wmv:*,http-get:*:application/x-mpegURL:*";

/// An element on a line of its own.
pub open spec fn line_text(name: Seq<char>, content: Seq<char>) -> Seq<char> {
    "<"@ + name + ">"@ + content + "</"@ + name + ">\n"@
}

fn push_line(out: &mut String, name: &str, content: &str)
    ensures
        final(out)@ == old(out)@ + line_text(name@, content@),
{
    let ghost before = out@;
    out.push_str("<");
    out.push_str(name);
    out.push_str(">");
    out.push_str(content);
    out.push_str("</");
    out.push_str(name);
    out.push_str(">\n");
    proof {
        assert(out@ =~= before + line_text(name@, content@));
    }
}

/// What the description of the root device begins with.
pub open spec fn device_head() -> Seq<char> {
    "<?xml version=\"1.0\" encoding=\"utf-8\"?>\n"@
        + "<root xmlns=\"urn:schemas-upnp-org:device-1-0\">\n"@
        + "<specVersion><major>1</major><minor>0</minor></specVersion>\n"@
        + "<device>\n"@
}

/// What the description of the root device ends with: its services.
pub const DEVICE_TAIL: &'static str = "<dlna:X_DLNADOC xmlns:dlna=\"urn:schemas-dlna-org:device-1-0\">DMR-1.50</dlna:X_DLNADOC>\n<serviceList>\n<service>\n<serviceType>urn:schemas-upnp-org:service:AVTransport:1</serviceType>\n<serviceId>urn:upnp-org:serviceId:AVTransport</serviceId>\n<SCPDURL>/scpd/AVTransport.xml</SCPDURL>\n<controlURL>/control/AVTransport</controlURL>\n<eventSubURL>/event/AVTransport</eventSubURL>\n</service>\n<service>\n<serviceType>urn:schemas-upnp-org:service:RenderingControl:1</serviceType>\n<serviceId>urn:upnp-org:serviceId:RenderingControl</serviceId>\n<SCPDURL>/scpd/RenderingControl.xml</SCPDURL>\n<controlURL>/control/RenderingControl</controlURL>\n<eventSubURL>/event/RenderingControl</eventSubURL>\n</service>\n<service>\n<serviceType>urn:schemas-upnp-org:service:ConnectionManager:1</serviceType>\n<serviceId>urn:upnp-org:serviceId:ConnectionManager</serviceId>\n<SCPDURL>/scpd/ConnectionManager.xml</SCPDURL>\n<controlURL>/control/ConnectionManager</controlURL>\n<eventSubURL>/event/ConnectionManager</eventSubURL>\n</service>\n</serviceList>\n</device>\n</root>";

/// The address of the project.
pub const HOME: &'static str = "https://github.com/tsirysndr/fin";

/// The description of the root device, from the name on.
pub open spec fn named_part(friendly_name: Seq<char>, uuid: Seq<char>) -> Seq<char> {
    line_text("friendlyName"@, crate::mediarenderer::xml::encoded(friendly_name)) + (line_text(
        "manufacturer"@,
        "tsirysndr"@,
    ) + (line_text("manufacturerURL"@, HOME@) + (line_text(
        "modelDescription"@,
        "fin terminal media player — rockbox-playback audio, mpv video"@,
    ) + (line_text("modelName"@, "fin"@) + (line_text("modelNumber"@, VERSION@) + (line_text(
        "modelURL"@,
        HOME@,
    ) + (line_text("UDN"@, "uuid:"@ + uuid) + DEVICE_TAIL@)))))))
}

/// The description of the root device.
pub open spec fn device_text(friendly_name: Seq<char>, uuid: Seq<char>) -> Seq<char> {
    device_head() + (line_text("deviceType"@, "urn:schemas-upnp-org:device:MediaRenderer:1"@)
        + named_part(friendly_name, uuid))
}

/// Describes the root device under its display name and its bare UUID.
pub fn device_description(friendly_name: &str, uuid: &str) -> (r: String)
    ensures
        r@ == device_text(friendly_name@, uuid@),
{
    let name: String = encode_entities(friendly_name);
    let mut udn: String = "uuid:".to_owned();
    udn.push_str(uuid);
    let mut out: String = "<?xml version=\"1.0\" encoding=\"utf-8\"?>\n".to_owned();
    out.push_str("<root xmlns=\"urn:schemas-upnp-org:device-1-0\">\n");
    out.push_str("<specVersion><major>1</major><minor>0</minor></specVersion>\n");
    out.push_str("<device>\n");
    push_line(&mut out, "deviceType", "urn:schemas-upnp-org:device:MediaRenderer:1");
    push_line(&mut out, "friendlyName", name.as_str());
    push_line(&mut out, "manufacturer", "tsirysndr");
    push_line(&mut out, "manufacturerURL", HOME);
    push_line(
        &mut out,
        "modelDescription",
        "fin terminal media player — rockbox-playback audio, mpv video",
    );
    push_line(&mut out, "modelName", "fin");
    push_line(&mut out, "modelNumber", VERSION);
    push_line(&mut out, "modelURL", HOME);
    push_line(&mut out, "UDN", udn.as_str());
    out.push_str(DEVICE_TAIL);
    proof {
        lemma_grouped(
            device_head(),
            line_text("deviceType"@, "urn:schemas-upnp-org:device:MediaRenderer:1"@),
            line_text("friendlyName"@, name@),
            line_text("manufacturer"@, "tsirysndr"@),
            line_text("manufacturerURL"@, HOME@),
            line_text(
                "modelDescription"@,
                "fin terminal media player — rockbox-playback audio, mpv video"@,
            ),
            line_text("modelName"@, "fin"@),
            line_text("modelNumber"@, VERSION@),
            line_text("modelURL"@, HOME@),
            line_text("UDN"@, udn@),
            DEVICE_TAIL@,
        );
    }
    out
}

proof fn lemma_grouped(
    h: Seq<char>,
    a: Seq<char>,
    b: Seq<char>,
    c: Seq<char>,
    d: Seq<char>,
    e: Seq<char>,
    f: Seq<char>,
    g: Seq<char>,
    i: Seq<char>,
    j: Seq<char>,
    t: Seq<char>,
)
    ensures
        h + a + b + c + d + e + f + g + i + j + t == h + (a + (b + (c + (d + (e + (f + (g + (i + (j
            + t))))))))),
{
    assert(h + a + b + c + d + e + f + g + i + j + t =~= h + a + b + c + d + (e + f + g + i + j
        + t));
    assert(e + f + g + i + j + t =~= e + (f + (g + (i + (j + t)))));
    let u = e + (f + (g + (i + (j + t))));
    assert(h + a + b + c + d + u =~= h + (a + (b + (c + (d + u)))));
}

/// An argument of an action: its name, its direction and the state variable
/// that it relates to.
pub open spec fn argument_text(a: (Seq<char>, Seq<char>, Seq<char>)) -> Seq<char> {
    "<argument><name>"@ + a.0 + "</name><direction>"@ + a.1 + "</direction><relatedStateVariable>"@
        + a.2 + "</relatedStateVariable></argument>"@
}

/// The arguments of an action, one behind the other.
pub open spec fn arguments_text(args: Seq<(Seq<char>, Seq<char>, Seq<char>)>) -> Seq<char>
    decreases args.len(),
{
    if args.len() == 0 {
        Seq::empty()
    } else {
        arguments_text(args.drop_last()) + argument_text(args.last())
    }
}

/// An action with its arguments.
pub open spec fn action_text(
    name: Seq<char>,
    args: Seq<(Seq<char>, Seq<char>, Seq<char>)>,
) -> Seq<char> {
    "<action><name>"@ + name + "</name><argumentList>"@ + arguments_text(args)
        + "</argumentList></action>"@
}

/// An action of a service with its arguments: the name of each, its direction
/// and the state variable that it relates to.
pub ghost struct ActionView {
    pub name: Seq<char>,
    pub args: Seq<(Seq<char>, Seq<char>, Seq<char>)>,
}

/// Actions, one behind the other.
pub open spec fn actions_text(actions: Seq<ActionView>) -> Seq<char>
    decreases actions.len(),
{
    if actions.len() == 0 {
        Seq::empty()
    } else {
        actions_text(actions.drop_last()) + action_text(actions.last().name, actions.last().args)
    }
}

proof fn lemma_more_actions(actions: Seq<ActionView>, k: int)
    requires
        0 <= k < actions.len(),
    ensures
        actions_text(actions.take(k + 1)) == actions_text(actions.take(k)) + action_text(
            actions[k].name,
            actions[k].args,
        ),
{
    assert(actions.take(k + 1).drop_last() =~= actions.take(k));
}

/// Writes the next action of a list.
fn put_action(
    out: &mut String,
    Ghost(all): Ghost<Seq<ActionView>>,
    Ghost(k): Ghost<int>,
    name: &str,
    args: &[(&'static str, &'static str, &'static str)],
)
    requires
        0 <= k < all.len(),
        all[k].name == name@,
        all[k].args == args_view(args@),
        old(out)@ == actions_text(all.take(k)),
    ensures
        final(out)@ == actions_text(all.take(k + 1)),
{
    out.push_str(action(name, args).as_str());
    proof {
        lemma_more_actions(all, k);
    }
}

/// What a table of arguments holds.
pub open spec fn args_view(
    args: Seq<(&'static str, &'static str, &'static str)>,
) -> Seq<(Seq<char>, Seq<char>, Seq<char>)> {
    args.map_values(|a: (&'static str, &'static str, &'static str)| (a.0@, a.1@, a.2@))
}

/// What a list of strings holds.
pub open spec fn strs_view(v: Seq<&'static str>) -> Seq<Seq<char>> {
    v.map_values(|s: &'static str| s@)
}

/// Writes an action with its arguments.
pub fn action(name: &str, args: &[(&'static str, &'static str, &'static str)]) -> (r: String)
    ensures
        r@ == action_text(name@, args_view(args@)),
{
    let mut list: String = String::new();
    let mut i: usize = 0;
    let ghost all = args_view(args@);
    proof {
        assert(all.take(0).len() == 0);
    }
    while i < args.len()
        invariant
            i <= args@.len(),
            all == args_view(args@),
            list@ == arguments_text(all.take(i as int)),
        decreases args@.len() - i,
    {
        let ghost before = list@;
        let a: (&'static str, &'static str, &'static str) = args[i];
        list.push_str("<argument><name>");
        list.push_str(a.0);
        list.push_str("</name><direction>");
        list.push_str(a.1);
        list.push_str("</direction><relatedStateVariable>");
        list.push_str(a.2);
        list.push_str("</relatedStateVariable></argument>");
        proof {
            assert(all[i as int] == (a.0@, a.1@, a.2@));
            assert(all.take(i as int + 1).drop_last() =~= all.take(i as int));
            assert(list@ =~= before + argument_text(all[i as int]));
        }
        i += 1;
    }
    proof {
        assert(all.take(i as int) =~= all);
    }
    let mut out: String = "<action><name>".to_owned();
    out.push_str(name);
    out.push_str("</name><argumentList>");
    out.push_str(list.as_str());
    out.push_str("</argumentList></action>");
    out
}

/// Allowed values, one behind the other.
pub open spec fn values_text(values: Seq<Seq<char>>) -> Seq<char>
    decreases values.len(),
{
    if values.len() == 0 {
        Seq::empty()
    } else {
        values_text(values.drop_last()) + ("<allowedValue>"@ + values.last() + "</allowedValue>"@)
    }
}

/// A state variable with its type, whether it is evented, and the values that
/// it is restricted to, if it is.
pub open spec fn var_text(
    name: Seq<char>,
    ty: Seq<char>,
    send_events: bool,
    allowed: Seq<Seq<char>>,
) -> Seq<char> {
    "<stateVariable sendEvents=\""@ + (if send_events {
        "yes"@
    } else {
        "no"@
    }) + "\"><name>"@ + name + "</name><dataType>"@ + ty + "</dataType>"@ + (if allowed.len() == 0 {
        Seq::empty()
    } else {
        "<allowedValueList>"@ + values_text(allowed) + "</allowedValueList>"@
    }) + "</stateVariable>"@
}

/// Writes a state variable.
pub fn var(name: &str, ty: &str, send_events: bool, allowed: &[&'static str]) -> (r: String)
    ensures
        r@ == var_text(name@, ty@, send_events, strs_view(allowed@)),
{
    let ghost all = strs_view(allowed@);
    let mut values: String = String::new();
    if allowed.len() > 0 {
        let mut items: String = String::new();
        let mut i: usize = 0;
        proof {
            assert(all.take(0).len() == 0);
        }
        while i < allowed.len()
            invariant
                i <= allowed@.len(),
                all == strs_view(allowed@),
                items@ == values_text(all.take(i as int)),
            decreases allowed@.len() - i,
        {
            let ghost before = items@;
            items.push_str("<allowedValue>");
            items.push_str(allowed[i]);
            items.push_str("</allowedValue>");
            proof {
                assert(all.take(i as int + 1).drop_last() =~= all.take(i as int));
                assert(items@ =~= before + ("<allowedValue>"@ + all[i as int]
                    + "</allowedValue>"@));
            }
            i += 1;
        }
        proof {
            assert(all.take(i as int) =~= all);
        }
        values.push_str("<allowedValueList>");
        values.push_str(items.as_str());
        values.push_str("</allowedValueList>");
        proof {
            assert(values@ =~= "<allowedValueList>"@ + values_text(all) + "</allowedValueList>"@);
        }
    }
    let mut out: String = "<stateVariable sendEvents=\"".to_owned();
    if send_events {
        out.push_str("yes");
    } else {
        out.push_str("no");
    }
    out.push_str("\"><name>");
    out.push_str(name);
    out.push_str("</name><dataType>");
    out.push_str(ty);
    out.push_str("</dataType>");
    out.push_str(values.as_str());
    out.push_str("</stateVariable>");
    out
}

/// A state variable of a service.
pub ghost struct VarView {
    pub name: Seq<char>,
    pub ty: Seq<char>,
    /// Whether subscribers are told of it.
    pub send_events: bool,
    /// The values that it is restricted to, if it is.
    pub allowed: Seq<Seq<char>>,
}

impl VarView {
    /// The variable as it is written.
    pub open spec fn text(self) -> Seq<char> {
        var_text(self.name, self.ty, self.send_events, self.allowed)
    }
}

/// State variables, one behind the other.
pub open spec fn vars_text(vars: Seq<VarView>) -> Seq<char>
    decreases vars.len(),
{
    if vars.len() == 0 {
        Seq::empty()
    } else {
        vars_text(vars.drop_last()) + vars.last().text()
    }
}

proof fn lemma_more_vars(vars: Seq<VarView>, k: int)
    requires
        0 <= k < vars.len(),
    ensures
        vars_text(vars.take(k + 1)) == vars_text(vars.take(k)) + vars[k].text(),
{
    assert(vars.take(k + 1).drop_last() =~= vars.take(k));
}

/// Writes the next state variable of a list.
fn put_var(
    out: &mut String,
    Ghost(all): Ghost<Seq<VarView>>,
    Ghost(k): Ghost<int>,
    name: &str,
    ty: &str,
    send_events: bool,
    allowed: &[&'static str],
)
    requires
        0 <= k < all.len(),
        all[k] == (VarView {
            name: name@,
            ty: ty@,
            send_events,
            allowed: strs_view(allowed@),
        }),
        old(out)@ == vars_text(all.take(k)),
    ensures
        final(out)@ == vars_text(all.take(k + 1)),
{
    out.push_str(var(name, ty, send_events, allowed).as_str());
    proof {
        lemma_more_vars(all, k);
    }
}

/// Writes the next state variable of a list, one that may hold any value of
/// its type.
fn put_free_var(
    out: &mut String,
    Ghost(all): Ghost<Seq<VarView>>,
    Ghost(k): Ghost<int>,
    name: &str,
    ty: &str,
    send_events: bool,
)
    requires
        0 <= k < all.len(),
        all[k] == (VarView { name: name@, ty: ty@, send_events, allowed: Seq::empty() }),
        old(out)@ == vars_text(all.take(k)),
    ensures
        final(out)@ == vars_text(all.take(k + 1)),
{
    let none: [&'static str; 0] = [];
    proof {
        assert(strs_view(none@) =~= Seq::empty());
    }
    put_var(out, Ghost(all), Ghost(k), name, ty, send_events, &none);
}

/// A service description round its actions and its state variables.
pub open spec fn scpd_text(actions: Seq<ActionView>, vars: Seq<VarView>) -> Seq<char> {
    scpd_head() + actions_text(actions) + "</actionList>\n<serviceStateTable>"@ + vars_text(vars)
        + "</serviceStateTable>\n</scpd>"@
}

/// Whether a service has an action of this name.
pub open spec fn declares(actions: Seq<ActionView>, name: Seq<char>) -> bool {
    exists|k: int| 0 <= k < actions.len() && (#[trigger] actions[k]).name == name
}

/// Whether a service has a state variable of this name.
pub open spec fn has_var(vars: Seq<VarView>, name: Seq<char>) -> bool {
    exists|k: int| 0 <= k < vars.len() && (#[trigger] vars[k]).name == name
}

/// Whether subscribers are told of a state variable of this name.
pub open spec fn evented(vars: Seq<VarView>, name: Seq<char>) -> bool {
    exists|k: int|
        0 <= k < vars.len() && (#[trigger] vars[k]).name == name && vars[k].send_events
}

/// Whether every argument relates to a state variable of the service.
pub open spec fn related(actions: Seq<ActionView>, vars: Seq<VarView>) -> bool {
    forall|k: int, j: int|
        0 <= k < actions.len() && 0 <= j < actions[k].args.len() ==> has_var(
            vars,
            (#[trigger] actions[k].args[j]).2,
        )
}

/// What every service description begins with.
pub open spec fn scpd_head() -> Seq<char> {
    "<?xml version=\"1.0\" encoding=\"utf-8\"?>\n"@
        + "<scpd xmlns=\"urn:schemas-upnp-org:service-1-0\">\n"@
        + "<specVersion><major>1</major><minor>0</minor></specVersion>\n"@ + "<actionList>"@
}

/// Writes a service description round what was written of its actions and its
/// state variables.
pub fn scpd(actions: String, vars: String) -> (r: String)
    ensures
        r@ == scpd_head() + actions@ + "</actionList>\n<serviceStateTable>"@ + vars@
            + "</serviceStateTable>\n</scpd>"@,
{
    let mut out: String = "<?xml version=\"1.0\" encoding=\"utf-8\"?>\n".to_owned();
    out.push_str("<scpd xmlns=\"urn:schemas-upnp-org:service-1-0\">\n");
    out.push_str("<specVersion><major>1</major><minor>0</minor></specVersion>\n");
    out.push_str("<actionList>");
    out.push_str(actions.as_str());
    out.push_str("</actionList>\n<serviceStateTable>");
    out.push_str(vars.as_str());
    out.push_str("</serviceStateTable>\n</scpd>");
    out
}

/// The actions of the AVTransport service.
pub open spec fn av_transport_actions() -> Seq<ActionView> {
    seq![
        ActionView { name: "SetAVTransportURI"@, args: seq![("InstanceID"@, "in"@, "A_ARG_TYPE_InstanceID"@), ("CurrentURI"@, "in"@, "AVTransportURI"@), ("CurrentURIMetaData"@, "in"@, "AVTransportURIMetaData"@)] },
        ActionView { name: "SetNextAVTransportURI"@, args: seq![("InstanceID"@, "in"@, "A_ARG_TYPE_InstanceID"@), ("NextURI"@, "in"@, "NextAVTransportURI"@), ("NextURIMetaData"@, "in"@, "NextAVTransportURIMetaData"@)] },
        ActionView { name: "GetMediaInfo"@, args: seq![("InstanceID"@, "in"@, "A_ARG_TYPE_InstanceID"@), ("NrTracks"@, "out"@, "NumberOfTracks"@), ("MediaDuration"@, "out"@, "CurrentMediaDuration"@), ("CurrentURI"@, "out"@, "AVTransportURI"@), ("CurrentURIMetaData"@, "out"@, "AVTransportURIMetaData"@), ("NextURI"@, "out"@, "NextAVTransportURI"@), ("NextURIMetaData"@, "out"@, "NextAVTransportURIMetaData"@), ("PlayMedium"@, "out"@, "PlaybackStorageMedium"@), ("RecordMedium"@, "out"@, "RecordStorageMedium"@), ("WriteStatus"@, "out"@, "RecordMediumWriteStatus"@)] },
        ActionView { name: "GetTransportInfo"@, args: seq![("InstanceID"@, "in"@, "A_ARG_TYPE_InstanceID"@), ("CurrentTransportState"@, "out"@, "TransportState"@), ("CurrentTransportStatus"@, "out"@, "TransportStatus"@), ("CurrentSpeed"@, "out"@, "TransportPlaySpeed"@)] },
        ActionView { name: "GetPositionInfo"@, args: seq![("InstanceID"@, "in"@, "A_ARG_TYPE_InstanceID"@), ("Track"@, "out"@, "CurrentTrack"@), ("TrackDuration"@, "out"@, "CurrentTrackDuration"@), ("TrackMetaData"@, "out"@, "CurrentTrackMetaData"@), ("TrackURI"@, "out"@, "CurrentTrackURI"@), ("RelTime"@, "out"@, "RelativeTimePosition"@), ("AbsTime"@, "out"@, "AbsoluteTimePosition"@), ("RelCount"@, "out"@, "RelativeCounterPosition"@), ("AbsCount"@, "out"@, "AbsoluteCounterPosition"@)] },
        ActionView { name: "GetDeviceCapabilities"@, args: seq![("InstanceID"@, "in"@, "A_ARG_TYPE_InstanceID"@), ("PlayMedia"@, "out"@, "PossiblePlaybackStorageMedia"@), ("RecMedia"@, "out"@, "PossibleRecordStorageMedia"@), ("RecQualityModes"@, "out"@, "PossibleRecordQualityModes"@)] },
        ActionView { name: "GetTransportSettings"@, args: seq![("InstanceID"@, "in"@, "A_ARG_TYPE_InstanceID"@), ("PlayMode"@, "out"@, "CurrentPlayMode"@), ("RecQualityMode"@, "out"@, "CurrentRecordQualityMode"@)] },
        ActionView { name: "Stop"@, args: seq![("InstanceID"@, "in"@, "A_ARG_TYPE_InstanceID"@)] },
        ActionView { name: "Play"@, args: seq![("InstanceID"@, "in"@, "A_ARG_TYPE_InstanceID"@), ("Speed"@, "in"@, "TransportPlaySpeed"@)] },
        ActionView { name: "Pause"@, args: seq![("InstanceID"@, "in"@, "A_ARG_TYPE_InstanceID"@)] },
        ActionView { name: "Seek"@, args: seq![("InstanceID"@, "in"@, "A_ARG_TYPE_InstanceID"@), ("Unit"@, "in"@, "A_ARG_TYPE_SeekMode"@), ("Target"@, "in"@, "A_ARG_TYPE_SeekTarget"@)] },
        ActionView { name: "Next"@, args: seq![("InstanceID"@, "in"@, "A_ARG_TYPE_InstanceID"@)] },
        ActionView { name: "Previous"@, args: seq![("InstanceID"@, "in"@, "A_ARG_TYPE_InstanceID"@)] },
    ]
}

/// The state variables of the AVTransport service.
pub open spec fn av_transport_vars() -> Seq<VarView> {
    seq![
        VarView { name: "TransportState"@, ty: "string"@, send_events: false, allowed: seq!["STOPPED"@, "PAUSED_PLAYBACK"@, "PLAYING"@, "TRANSITIONING"@, "NO_MEDIA_PRESENT"@] },
        VarView { name: "TransportStatus"@, ty: "string"@, send_events: false, allowed: seq!["OK"@, "ERROR_OCCURRED"@] },
        VarView { name: "PlaybackStorageMedium"@, ty: "string"@, send_events: false, allowed: Seq::empty() },
        VarView { name: "RecordStorageMedium"@, ty: "string"@, send_events: false, allowed: Seq::empty() },
        VarView { name: "PossiblePlaybackStorageMedia"@, ty: "string"@, send_events: false, allowed: Seq::empty() },
        VarView { name: "PossibleRecordStorageMedia"@, ty: "string"@, send_events: false, allowed: Seq::empty() },
        VarView { name: "CurrentPlayMode"@, ty: "string"@, send_events: false, allowed: seq!["NORMAL"@] },
        VarView { name: "TransportPlaySpeed"@, ty: "string"@, send_events: false, allowed: seq!["1"@] },
        VarView { name: "RecordMediumWriteStatus"@, ty: "string"@, send_events: false, allowed: Seq::empty() },
        VarView { name: "CurrentRecordQualityMode"@, ty: "string"@, send_events: false, allowed: Seq::empty() },
        VarView { name: "PossibleRecordQualityModes"@, ty: "string"@, send_events: false, allowed: Seq::empty() },
        VarView { name: "NumberOfTracks"@, ty: "ui4"@, send_events: false, allowed: Seq::empty() },
        VarView { name: "CurrentTrack"@, ty: "ui4"@, send_events: false, allowed: Seq::empty() },
        VarView { name: "CurrentTrackDuration"@, ty: "string"@, send_events: false, allowed: Seq::empty() },
        VarView { name: "CurrentMediaDuration"@, ty: "string"@, send_events: false, allowed: Seq::empty() },
        VarView { name: "CurrentTrackMetaData"@, ty: "string"@, send_events: false, allowed: Seq::empty() },
        VarView { name: "CurrentTrackURI"@, ty: "string"@, send_events: false, allowed: Seq::empty() },
        VarView { name: "AVTransportURI"@, ty: "string"@, send_events: false, allowed: Seq::empty() },
        VarView { name: "AVTransportURIMetaData"@, ty: "string"@, send_events: false, allowed: Seq::empty() },
        VarView { name: "NextAVTransportURI"@, ty: "string"@, send_events: false, allowed: Seq::empty() },
        VarView { name: "NextAVTransportURIMetaData"@, ty: "string"@, send_events: false, allowed: Seq::empty() },
        VarView { name: "RelativeTimePosition"@, ty: "string"@, send_events: false, allowed: Seq::empty() },
        VarView { name: "AbsoluteTimePosition"@, ty: "string"@, send_events: false, allowed: Seq::empty() },
        VarView { name: "RelativeCounterPosition"@, ty: "i4"@, send_events: false, allowed: Seq::empty() },
        VarView { name: "AbsoluteCounterPosition"@, ty: "i4"@, send_events: false, allowed: Seq::empty() },
        VarView { name: "A_ARG_TYPE_SeekMode"@, ty: "string"@, send_events: false, allowed: seq!["REL_TIME"@, "ABS_TIME"@] },
        VarView { name: "A_ARG_TYPE_SeekTarget"@, ty: "string"@, send_events: false, allowed: Seq::empty() },
        VarView { name: "A_ARG_TYPE_InstanceID"@, ty: "ui4"@, send_events: false, allowed: Seq::empty() },
        VarView { name: "LastChange"@, ty: "string"@, send_events: true, allowed: Seq::empty() },
    ]
}

fn av_transport_action_list() -> (r: String)
    ensures
        r@ == actions_text(av_transport_actions()),
{
    let ghost all = av_transport_actions();
    let mut out: String = String::new();
    proof {
        assert(out@ =~= actions_text(all.take(0)));
    }
    let a0: [(&str, &str, &str); 3] = [("InstanceID", "in", "A_ARG_TYPE_InstanceID"), ("CurrentURI", "in", "AVTransportURI"), ("CurrentURIMetaData", "in", "AVTransportURIMetaData")];
    proof {
        assert(args_view(a0@) =~= seq![("InstanceID"@, "in"@, "A_ARG_TYPE_InstanceID"@), ("CurrentURI"@, "in"@, "AVTransportURI"@), ("CurrentURIMetaData"@, "in"@, "AVTransportURIMetaData"@)]);
    }
    put_action(&mut out, Ghost(all), Ghost(0), "SetAVTransportURI", &a0);
    let a1: [(&str, &str, &str); 3] = [("InstanceID", "in", "A_ARG_TYPE_InstanceID"), ("NextURI", "in", "NextAVTransportURI"), ("NextURIMetaData", "in", "NextAVTransportURIMetaData")];
    proof {
        assert(args_view(a1@) =~= seq![("InstanceID"@, "in"@, "A_ARG_TYPE_InstanceID"@), ("NextURI"@, "in"@, "NextAVTransportURI"@), ("NextURIMetaData"@, "in"@, "NextAVTransportURIMetaData"@)]);
    }
    put_action(&mut out, Ghost(all), Ghost(1), "SetNextAVTransportURI", &a1);
    let a2: [(&str, &str, &str); 10] = [("InstanceID", "in", "A_ARG_TYPE_InstanceID"), ("NrTracks", "out", "NumberOfTracks"), ("MediaDuration", "out", "CurrentMediaDuration"), ("CurrentURI", "out", "AVTransportURI"), ("CurrentURIMetaData", "out", "AVTransportURIMetaData"), ("NextURI", "out", "NextAVTransportURI"), ("NextURIMetaData", "out", "NextAVTransportURIMetaData"), ("PlayMedium", "out", "PlaybackStorageMedium"), ("RecordMedium", "out", "RecordStorageMedium"), ("WriteStatus", "out", "RecordMediumWriteStatus")];
    proof {
        assert(args_view(a2@) =~= seq![("InstanceID"@, "in"@, "A_ARG_TYPE_InstanceID"@), ("NrTracks"@, "out"@, "NumberOfTracks"@), ("MediaDuration"@, "out"@, "CurrentMediaDuration"@), ("CurrentURI"@, "out"@, "AVTransportURI"@), ("CurrentURIMetaData"@, "out"@, "AVTransportURIMetaData"@), ("NextURI"@, "out"@, "NextAVTransportURI"@), ("NextURIMetaData"@, "out"@, "NextAVTransportURIMetaData"@), ("PlayMedium"@, "out"@, "PlaybackStorageMedium"@), ("RecordMedium"@, "out"@, "RecordStorageMedium"@), ("WriteStatus"@, "out"@, "RecordMediumWriteStatus"@)]);
    }
    put_action(&mut out, Ghost(all), Ghost(2), "GetMediaInfo", &a2);
    let a3: [(&str, &str, &str); 4] = [("InstanceID", "in", "A_ARG_TYPE_InstanceID"), ("CurrentTransportState", "out", "TransportState"), ("CurrentTransportStatus", "out", "TransportStatus"), ("CurrentSpeed", "out", "TransportPlaySpeed")];
    proof {
        assert(args_view(a3@) =~= seq![("InstanceID"@, "in"@, "A_ARG_TYPE_InstanceID"@), ("CurrentTransportState"@, "out"@, "TransportState"@), ("CurrentTransportStatus"@, "out"@, "TransportStatus"@), ("CurrentSpeed"@, "out"@, "TransportPlaySpeed"@)]);
    }
    put_action(&mut out, Ghost(all), Ghost(3), "GetTransportInfo", &a3);
    let a4: [(&str, &str, &str); 9] = [("InstanceID", "in", "A_ARG_TYPE_InstanceID"), ("Track", "out", "CurrentTrack"), ("TrackDuration", "out", "CurrentTrackDuration"), ("TrackMetaData", "out", "CurrentTrackMetaData"), ("TrackURI", "out", "CurrentTrackURI"), ("RelTime", "out", "RelativeTimePosition"), ("AbsTime", "out", "AbsoluteTimePosition"), ("RelCount", "out", "RelativeCounterPosition"), ("AbsCount", "out", "AbsoluteCounterPosition")];
    proof {
        assert(args_view(a4@) =~= seq![("InstanceID"@, "in"@, "A_ARG_TYPE_InstanceID"@), ("Track"@, "out"@, "CurrentTrack"@), ("TrackDuration"@, "out"@, "CurrentTrackDuration"@), ("TrackMetaData"@, "out"@, "CurrentTrackMetaData"@), ("TrackURI"@, "out"@, "CurrentTrackURI"@), ("RelTime"@, "out"@, "RelativeTimePosition"@), ("AbsTime"@, "out"@, "AbsoluteTimePosition"@), ("RelCount"@, "out"@, "RelativeCounterPosition"@), ("AbsCount"@, "out"@, "AbsoluteCounterPosition"@)]);
    }
    put_action(&mut out, Ghost(all), Ghost(4), "GetPositionInfo", &a4);
    let a5: [(&str, &str, &str); 4] = [("InstanceID", "in", "A_ARG_TYPE_InstanceID"), ("PlayMedia", "out", "PossiblePlaybackStorageMedia"), ("RecMedia", "out", "PossibleRecordStorageMedia"), ("RecQualityModes", "out", "PossibleRecordQualityModes")];
    proof {
        assert(args_view(a5@) =~= seq![("InstanceID"@, "in"@, "A_ARG_TYPE_InstanceID"@), ("PlayMedia"@, "out"@, "PossiblePlaybackStorageMedia"@), ("RecMedia"@, "out"@, "PossibleRecordStorageMedia"@), ("RecQualityModes"@, "out"@, "PossibleRecordQualityModes"@)]);
    }
    put_action(&mut out, Ghost(all), Ghost(5), "GetDeviceCapabilities", &a5);
    let a6: [(&str, &str, &str); 3] = [("InstanceID", "in", "A_ARG_TYPE_InstanceID"), ("PlayMode", "out", "CurrentPlayMode"), ("RecQualityMode", "out", "CurrentRecordQualityMode")];
    proof {
        assert(args_view(a6@) =~= seq![("InstanceID"@, "in"@, "A_ARG_TYPE_InstanceID"@), ("PlayMode"@, "out"@, "CurrentPlayMode"@), ("RecQualityMode"@, "out"@, "CurrentRecordQualityMode"@)]);
    }
    put_action(&mut out, Ghost(all), Ghost(6), "GetTransportSettings", &a6);
    let a7: [(&str, &str, &str); 1] = [("InstanceID", "in", "A_ARG_TYPE_InstanceID")];
    proof {
        assert(args_view(a7@) =~= seq![("InstanceID"@, "in"@, "A_ARG_TYPE_InstanceID"@)]);
    }
    put_action(&mut out, Ghost(all), Ghost(7), "Stop", &a7);
    let a8: [(&str, &str, &str); 2] = [("InstanceID", "in", "A_ARG_TYPE_InstanceID"), ("Speed", "in", "TransportPlaySpeed")];
    proof {
        assert(args_view(a8@) =~= seq![("InstanceID"@, "in"@, "A_ARG_TYPE_InstanceID"@), ("Speed"@, "in"@, "TransportPlaySpeed"@)]);
    }
    put_action(&mut out, Ghost(all), Ghost(8), "Play", &a8);
    let a9: [(&str, &str, &str); 1] = [("InstanceID", "in", "A_ARG_TYPE_InstanceID")];
    proof {
        assert(args_view(a9@) =~= seq![("InstanceID"@, "in"@, "A_ARG_TYPE_InstanceID"@)]);
    }
    put_action(&mut out, Ghost(all), Ghost(9), "Pause", &a9);
    let a10: [(&str, &str, &str); 3] = [("InstanceID", "in", "A_ARG_TYPE_InstanceID"), ("Unit", "in", "A_ARG_TYPE_SeekMode"), ("Target", "in", "A_ARG_TYPE_SeekTarget")];
    proof {
        assert(args_view(a10@) =~= seq![("InstanceID"@, "in"@, "A_ARG_TYPE_InstanceID"@), ("Unit"@, "in"@, "A_ARG_TYPE_SeekMode"@), ("Target"@, "in"@, "A_ARG_TYPE_SeekTarget"@)]);
    }
    put_action(&mut out, Ghost(all), Ghost(10), "Seek", &a10);
    let a11: [(&str, &str, &str); 1] = [("InstanceID", "in", "A_ARG_TYPE_InstanceID")];
    proof {
        assert(args_view(a11@) =~= seq![("InstanceID"@, "in"@, "A_ARG_TYPE_InstanceID"@)]);
    }
    put_action(&mut out, Ghost(all), Ghost(11), "Next", &a11);
    let a12: [(&str, &str, &str); 1] = [("InstanceID", "in", "A_ARG_TYPE_InstanceID")];
    proof {
        assert(args_view(a12@) =~= seq![("InstanceID"@, "in"@, "A_ARG_TYPE_InstanceID"@)]);
    }
    put_action(&mut out, Ghost(all), Ghost(12), "Previous", &a12);
    proof {
        assert(all.take(13) =~= all);
    }
    out
}

fn av_transport_var_list() -> (r: String)
    ensures
        r@ == vars_text(av_transport_vars()),
{
    let ghost all = av_transport_vars();
    let mut out: String = String::new();
    proof {
        assert(out@ =~= vars_text(all.take(0)));
    }
    let v0: [&str; 5] = ["STOPPED", "PAUSED_PLAYBACK", "PLAYING", "TRANSITIONING", "NO_MEDIA_PRESENT"];
    proof {
        assert(strs_view(v0@) =~= seq!["STOPPED"@, "PAUSED_PLAYBACK"@, "PLAYING"@, "TRANSITIONING"@, "NO_MEDIA_PRESENT"@]);
    }
    put_var(&mut out, Ghost(all), Ghost(0), "TransportState", "string", false, &v0);
    let v1: [&str; 2] = ["OK", "ERROR_OCCURRED"];
    proof {
        assert(strs_view(v1@) =~= seq!["OK"@, "ERROR_OCCURRED"@]);
    }
    put_var(&mut out, Ghost(all), Ghost(1), "TransportStatus", "string", false, &v1);
    put_free_var(&mut out, Ghost(all), Ghost(2), "PlaybackStorageMedium", "string", false);
    put_free_var(&mut out, Ghost(all), Ghost(3), "RecordStorageMedium", "string", false);
    put_free_var(&mut out, Ghost(all), Ghost(4), "PossiblePlaybackStorageMedia", "string", false);
    put_free_var(&mut out, Ghost(all), Ghost(5), "PossibleRecordStorageMedia", "string", false);
    let v6: [&str; 1] = ["NORMAL"];
    proof {
        assert(strs_view(v6@) =~= seq!["NORMAL"@]);
    }
    put_var(&mut out, Ghost(all), Ghost(6), "CurrentPlayMode", "string", false, &v6);
    let v7: [&str; 1] = ["1"];
    proof {
        assert(strs_view(v7@) =~= seq!["1"@]);
    }
    put_var(&mut out, Ghost(all), Ghost(7), "TransportPlaySpeed", "string", false, &v7);
    put_free_var(&mut out, Ghost(all), Ghost(8), "RecordMediumWriteStatus", "string", false);
    put_free_var(&mut out, Ghost(all), Ghost(9), "CurrentRecordQualityMode", "string", false);
    put_free_var(&mut out, Ghost(all), Ghost(10), "PossibleRecordQualityModes", "string", false);
    put_free_var(&mut out, Ghost(all), Ghost(11), "NumberOfTracks", "ui4", false);
    put_free_var(&mut out, Ghost(all), Ghost(12), "CurrentTrack", "ui4", false);
    put_free_var(&mut out, Ghost(all), Ghost(13), "CurrentTrackDuration", "string", false);
    put_free_var(&mut out, Ghost(all), Ghost(14), "CurrentMediaDuration", "string", false);
    put_free_var(&mut out, Ghost(all), Ghost(15), "CurrentTrackMetaData", "string", false);
    put_free_var(&mut out, Ghost(all), Ghost(16), "CurrentTrackURI", "string", false);
    put_free_var(&mut out, Ghost(all), Ghost(17), "AVTransportURI", "string", false);
    put_free_var(&mut out, Ghost(all), Ghost(18), "AVTransportURIMetaData", "string", false);
    put_free_var(&mut out, Ghost(all), Ghost(19), "NextAVTransportURI", "string", false);
    put_free_var(&mut out, Ghost(all), Ghost(20), "NextAVTransportURIMetaData", "string", false);
    put_free_var(&mut out, Ghost(all), Ghost(21), "RelativeTimePosition", "string", false);
    put_free_var(&mut out, Ghost(all), Ghost(22), "AbsoluteTimePosition", "string", false);
    put_free_var(&mut out, Ghost(all), Ghost(23), "RelativeCounterPosition", "i4", false);
    put_free_var(&mut out, Ghost(all), Ghost(24), "AbsoluteCounterPosition", "i4", false);
    let v25: [&str; 2] = ["REL_TIME", "ABS_TIME"];
    proof {
        assert(strs_view(v25@) =~= seq!["REL_TIME"@, "ABS_TIME"@]);
    }
    put_var(&mut out, Ghost(all), Ghost(25), "A_ARG_TYPE_SeekMode", "string", false, &v25);
    put_free_var(&mut out, Ghost(all), Ghost(26), "A_ARG_TYPE_SeekTarget", "string", false);
    put_free_var(&mut out, Ghost(all), Ghost(27), "A_ARG_TYPE_InstanceID", "ui4", false);
    put_free_var(&mut out, Ghost(all), Ghost(28), "LastChange", "string", true);
    proof {
        assert(all.take(29) =~= all);
    }
    out
}

/// The service description of AVTransport.
pub fn av_transport_scpd() -> (r: String)
    ensures
        r@ == scpd_text(av_transport_actions(), av_transport_vars()),
{
    scpd(av_transport_action_list(), av_transport_var_list())
}

/// The actions of the RenderingControl service.
pub open spec fn rendering_control_actions() -> Seq<ActionView> {
    seq![
        ActionView { name: "GetVolume"@, args: seq![("InstanceID"@, "in"@, "A_ARG_TYPE_InstanceID"@), ("Channel"@, "in"@, "A_ARG_TYPE_Channel"@), ("CurrentVolume"@, "out"@, "Volume"@)] },
        ActionView { name: "SetVolume"@, args: seq![("InstanceID"@, "in"@, "A_ARG_TYPE_InstanceID"@), ("Channel"@, "in"@, "A_ARG_TYPE_Channel"@), ("DesiredVolume"@, "in"@, "Volume"@)] },
        ActionView { name: "GetMute"@, args: seq![("InstanceID"@, "in"@, "A_ARG_TYPE_InstanceID"@), ("Channel"@, "in"@, "A_ARG_TYPE_Channel"@), ("CurrentMute"@, "out"@, "Mute"@)] },
        ActionView { name: "SetMute"@, args: seq![("InstanceID"@, "in"@, "A_ARG_TYPE_InstanceID"@), ("Channel"@, "in"@, "A_ARG_TYPE_Channel"@), ("DesiredMute"@, "in"@, "Mute"@)] },
    ]
}

/// The state variables of the RenderingControl service.
pub open spec fn rendering_control_vars() -> Seq<VarView> {
    seq![
        VarView { name: "Volume"@, ty: "ui2"@, send_events: false, allowed: Seq::empty() },
        VarView { name: "Mute"@, ty: "boolean"@, send_events: false, allowed: Seq::empty() },
        VarView { name: "A_ARG_TYPE_Channel"@, ty: "string"@, send_events: false, allowed: seq!["Master"@] },
        VarView { name: "A_ARG_TYPE_InstanceID"@, ty: "ui4"@, send_events: false, allowed: Seq::empty() },
        VarView { name: "LastChange"@, ty: "string"@, send_events: true, allowed: Seq::empty() },
    ]
}

fn rendering_control_action_list() -> (r: String)
    ensures
        r@ == actions_text(rendering_control_actions()),
{
    let ghost all = rendering_control_actions();
    let mut out: String = String::new();
    proof {
        assert(out@ =~= actions_text(all.take(0)));
    }
    let a0: [(&str, &str, &str); 3] = [("InstanceID", "in", "A_ARG_TYPE_InstanceID"), ("Channel", "in", "A_ARG_TYPE_Channel"), ("CurrentVolume", "out", "Volume")];
    proof {
        assert(args_view(a0@) =~= seq![("InstanceID"@, "in"@, "A_ARG_TYPE_InstanceID"@), ("Channel"@, "in"@, "A_ARG_TYPE_Channel"@), ("CurrentVolume"@, "out"@, "Volume"@)]);
    }
    put_action(&mut out, Ghost(all), Ghost(0), "GetVolume", &a0);
    let a1: [(&str, &str, &str); 3] = [("InstanceID", "in", "A_ARG_TYPE_InstanceID"), ("Channel", "in", "A_ARG_TYPE_Channel"), ("DesiredVolume", "in", "Volume")];
    proof {
        assert(args_view(a1@) =~= seq![("InstanceID"@, "in"@, "A_ARG_TYPE_InstanceID"@), ("Channel"@, "in"@, "A_ARG_TYPE_Channel"@), ("DesiredVolume"@, "in"@, "Volume"@)]);
    }
    put_action(&mut out, Ghost(all), Ghost(1), "SetVolume", &a1);
    let a2: [(&str, &str, &str); 3] = [("InstanceID", "in", "A_ARG_TYPE_InstanceID"), ("Channel", "in", "A_ARG_TYPE_Channel"), ("CurrentMute", "out", "Mute")];
    proof {
        assert(args_view(a2@) =~= seq![("InstanceID"@, "in"@, "A_ARG_TYPE_InstanceID"@), ("Channel"@, "in"@, "A_ARG_TYPE_Channel"@), ("CurrentMute"@, "out"@, "Mute"@)]);
    }
    put_action(&mut out, Ghost(all), Ghost(2), "GetMute", &a2);
    let a3: [(&str, &str, &str); 3] = [("InstanceID", "in", "A_ARG_TYPE_InstanceID"), ("Channel", "in", "A_ARG_TYPE_Channel"), ("DesiredMute", "in", "Mute")];
    proof {
        assert(args_view(a3@) =~= seq![("InstanceID"@, "in"@, "A_ARG_TYPE_InstanceID"@), ("Channel"@, "in"@, "A_ARG_TYPE_Channel"@), ("DesiredMute"@, "in"@, "Mute"@)]);
    }
    put_action(&mut out, Ghost(all), Ghost(3), "SetMute", &a3);
    proof {
        assert(all.take(4) =~= all);
    }
    out
}

fn rendering_control_var_list() -> (r: String)
    ensures
        r@ == vars_text(rendering_control_vars()),
{
    let ghost all = rendering_control_vars();
    let mut out: String = String::new();
    proof {
        assert(out@ =~= vars_text(all.take(0)));
    }
    put_free_var(&mut out, Ghost(all), Ghost(0), "Volume", "ui2", false);
    put_free_var(&mut out, Ghost(all), Ghost(1), "Mute", "boolean", false);
    let v2: [&str; 1] = ["Master"];
    proof {
        assert(strs_view(v2@) =~= seq!["Master"@]);
    }
    put_var(&mut out, Ghost(all), Ghost(2), "A_ARG_TYPE_Channel", "string", false, &v2);
    put_free_var(&mut out, Ghost(all), Ghost(3), "A_ARG_TYPE_InstanceID", "ui4", false);
    put_free_var(&mut out, Ghost(all), Ghost(4), "LastChange", "string", true);
    proof {
        assert(all.take(5) =~= all);
    }
    out
}

/// The service description of RenderingControl.
pub fn rendering_control_scpd() -> (r: String)
    ensures
        r@ == scpd_text(rendering_control_actions(), rendering_control_vars()),
{
    scpd(rendering_control_action_list(), rendering_control_var_list())
}

/// The actions of the ConnectionManager service.
pub open spec fn connection_manager_actions() -> Seq<ActionView> {
    seq![
        ActionView { name: "GetProtocolInfo"@, args: seq![("Source"@, "out"@, "SourceProtocolInfo"@), ("Sink"@, "out"@, "SinkProtocolInfo"@)] },
        ActionView { name: "GetCurrentConnectionIDs"@, args: seq![("ConnectionIDs"@, "out"@, "CurrentConnectionIDs"@)] },
        ActionView { name: "GetCurrentConnectionInfo"@, args: seq![("ConnectionID"@, "in"@, "A_ARG_TYPE_ConnectionID"@), ("RcsID"@, "out"@, "A_ARG_TYPE_RcsID"@), ("AVTransportID"@, "out"@, "A_ARG_TYPE_AVTransportID"@), ("ProtocolInfo"@, "out"@, "A_ARG_TYPE_ProtocolInfo"@), ("PeerConnectionManager"@, "out"@, "A_ARG_TYPE_ConnectionManager"@), ("PeerConnectionID"@, "out"@, "A_ARG_TYPE_ConnectionID"@), ("Direction"@, "out"@, "A_ARG_TYPE_Direction"@), ("Status"@, "out"@, "A_ARG_TYPE_ConnectionStatus"@)] },
    ]
}

/// The state variables of the ConnectionManager service.
pub open spec fn connection_manager_vars() -> Seq<VarView> {
    seq![
        VarView { name: "SourceProtocolInfo"@, ty: "string"@, send_events: true, allowed: Seq::empty() },
        VarView { name: "SinkProtocolInfo"@, ty: "string"@, send_events: true, allowed: Seq::empty() },
        VarView { name: "CurrentConnectionIDs"@, ty: "string"@, send_events: true, allowed: Seq::empty() },
        VarView { name: "A_ARG_TYPE_ConnectionID"@, ty: "i4"@, send_events: false, allowed: Seq::empty() },
        VarView { name: "A_ARG_TYPE_RcsID"@, ty: "i4"@, send_events: false, allowed: Seq::empty() },
        VarView { name: "A_ARG_TYPE_AVTransportID"@, ty: "i4"@, send_events: false, allowed: Seq::empty() },
        VarView { name: "A_ARG_TYPE_ProtocolInfo"@, ty: "string"@, send_events: false, allowed: Seq::empty() },
        VarView { name: "A_ARG_TYPE_ConnectionManager"@, ty: "string"@, send_events: false, allowed: Seq::empty() },
        VarView { name: "A_ARG_TYPE_Direction"@, ty: "string"@, send_events: false, allowed: seq!["Input"@, "Output"@] },
        VarView { name: "A_ARG_TYPE_ConnectionStatus"@, ty: "string"@, send_events: false, allowed: seq!["OK"@] },
    ]
}

fn connection_manager_action_list() -> (r: String)
    ensures
        r@ == actions_text(connection_manager_actions()),
{
    let ghost all = connection_manager_actions();
    let mut out: String = String::new();
    proof {
        assert(out@ =~= actions_text(all.take(0)));
    }
    let a0: [(&str, &str, &str); 2] = [("Source", "out", "SourceProtocolInfo"), ("Sink", "out", "SinkProtocolInfo")];
    proof {
        assert(args_view(a0@) =~= seq![("Source"@, "out"@, "SourceProtocolInfo"@), ("Sink"@, "out"@, "SinkProtocolInfo"@)]);
    }
    put_action(&mut out, Ghost(all), Ghost(0), "GetProtocolInfo", &a0);
    let a1: [(&str, &str, &str); 1] = [("ConnectionIDs", "out", "CurrentConnectionIDs")];
    proof {
        assert(args_view(a1@) =~= seq![("ConnectionIDs"@, "out"@, "CurrentConnectionIDs"@)]);
    }
    put_action(&mut out, Ghost(all), Ghost(1), "GetCurrentConnectionIDs", &a1);
    let a2: [(&str, &str, &str); 8] = [("ConnectionID", "in", "A_ARG_TYPE_ConnectionID"), ("RcsID", "out", "A_ARG_TYPE_RcsID"), ("AVTransportID", "out", "A_ARG_TYPE_AVTransportID"), ("ProtocolInfo", "out", "A_ARG_TYPE_ProtocolInfo"), ("PeerConnectionManager", "out", "A_ARG_TYPE_ConnectionManager"), ("PeerConnectionID", "out", "A_ARG_TYPE_ConnectionID"), ("Direction", "out", "A_ARG_TYPE_Direction"), ("Status", "out", "A_ARG_TYPE_ConnectionStatus")];
    proof {
        assert(args_view(a2@) =~= seq![("ConnectionID"@, "in"@, "A_ARG_TYPE_ConnectionID"@), ("RcsID"@, "out"@, "A_ARG_TYPE_RcsID"@), ("AVTransportID"@, "out"@, "A_ARG_TYPE_AVTransportID"@), ("ProtocolInfo"@, "out"@, "A_ARG_TYPE_ProtocolInfo"@), ("PeerConnectionManager"@, "out"@, "A_ARG_TYPE_ConnectionManager"@), ("PeerConnectionID"@, "out"@, "A_ARG_TYPE_ConnectionID"@), ("Direction"@, "out"@, "A_ARG_TYPE_Direction"@), ("Status"@, "out"@, "A_ARG_TYPE_ConnectionStatus"@)]);
    }
    put_action(&mut out, Ghost(all), Ghost(2), "GetCurrentConnectionInfo", &a2);
    proof {
        assert(all.take(3) =~= all);
    }
    out
}

fn connection_manager_var_list() -> (r: String)
    ensures
        r@ == vars_text(connection_manager_vars()),
{
    let ghost all = connection_manager_vars();
    let mut out: String = String::new();
    proof {
        assert(out@ =~= vars_text(all.take(0)));
    }
    put_free_var(&mut out, Ghost(all), Ghost(0), "SourceProtocolInfo", "string", true);
    put_free_var(&mut out, Ghost(all), Ghost(1), "SinkProtocolInfo", "string", true);
    put_free_var(&mut out, Ghost(all), Ghost(2), "CurrentConnectionIDs", "string", true);
    put_free_var(&mut out, Ghost(all), Ghost(3), "A_ARG_TYPE_ConnectionID", "i4", false);
    put_free_var(&mut out, Ghost(all), Ghost(4), "A_ARG_TYPE_RcsID", "i4", false);
    put_free_var(&mut out, Ghost(all), Ghost(5), "A_ARG_TYPE_AVTransportID", "i4", false);
    put_free_var(&mut out, Ghost(all), Ghost(6), "A_ARG_TYPE_ProtocolInfo", "string", false);
    put_free_var(&mut out, Ghost(all), Ghost(7), "A_ARG_TYPE_ConnectionManager", "string", false);
    let v8: [&str; 2] = ["Input", "Output"];
    proof {
        assert(strs_view(v8@) =~= seq!["Input"@, "Output"@]);
    }
    put_var(&mut out, Ghost(all), Ghost(8), "A_ARG_TYPE_Direction", "string", false, &v8);
    let v9: [&str; 1] = ["OK"];
    proof {
        assert(strs_view(v9@) =~= seq!["OK"@]);
    }
    put_var(&mut out, Ghost(all), Ghost(9), "A_ARG_TYPE_ConnectionStatus", "string", false, &v9);
    proof {
        assert(all.take(10) =~= all);
    }
    out
}

/// The service description of ConnectionManager.
pub fn connection_manager_scpd() -> (r: String)
    ensures
        r@ == scpd_text(connection_manager_actions(), connection_manager_vars()),
{
    scpd(connection_manager_action_list(), connection_manager_var_list())
}

} // verus!
