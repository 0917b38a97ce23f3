//! What is posted to a renderer is what a renderer does: each request that the
//! controlling side writes is read, on the other side, as the action of that
//! meaning, and each answer as what was answered.

use vstd::prelude::*;

use crate::mediarenderer::echo::{
    element, found, free_of, lemma_content_type_comes_back, lemma_decode_plain, lemma_encoded_free,
    lemma_hit, lemma_kind_comes_back, lemma_lettered, lemma_lower_join,
    lemma_metadata_comes_back, lemma_name_stops, lemma_plain_free, lemma_skip_element,
    lemma_skip_tag, lemma_skip_text, lemma_text_back, letters, passed, plain, prefix_like,
    tag_name, type_like,
};
use crate::mediarenderer::gena::propertyset_text;
use crate::mediarenderer::soap::{
    asks, cast_item, dispatch_spec, lemma_action_names, lemma_cast_item, lemma_play_goes_on,
    lemma_seek_by_clock, lemma_set_then_play, lemma_transport_actions, lemma_volume_set,
    media_text, media_tracks, next_seq, percent, position_text, rendering_control_spec,
    track_number, track_secs, track_uri, transport_name, transport_text, Service, SessionView,
    SoapError,
};
use crate::mediarenderer::xml::{decoded, encoded, entity, text_of_tag};
use crate::queue::QueueItem;
use crate::remote::RemoteAction;
use crate::renderer::{CallView, PlaybackState, PlaybackStatus};
use crate::text::{lower, lower_char, trim_start, trimmed};
use crate::upnp::{didl_text, envelope_text, posts, seek_body, set_uri_body, volume_body};

verus! {

/// The service that a post goes to.
pub open spec fn service_of(post: (bool, Seq<char>, Seq<char>)) -> Service {
    if post.0 {
        Service::RenderingControl
    } else {
        Service::AvTransport
    }
}

/// What a renderer does with a post, once it has arrived in its envelope.
pub open spec fn delivered(
    s: SessionView,
    st: PlaybackState,
    post: (bool, Seq<char>, Seq<char>),
) -> (SessionView, Result<(Option<CallView>, Seq<char>), SoapError>) {
    dispatch_spec(
        s,
        st,
        service_of(post),
        post.1,
        envelope_text(service_of(post).urn(), post.1, post.2),
    )
}

/// The element of a name that stands first is the one that is found.
proof fn lemma_child_hit(t: Seq<char>, content: Seq<char>, x: Seq<char>)
    requires
        letters(t),
        t.len() > 0,
        free_of(content, '<'),
    ensures
        found(element(t, content) + x, lower(t)) == Some(decoded(trimmed(content))),
{
    let none = Seq::<char>::empty();
    assert(none + t =~= t);
    lemma_lettered(none, t);
    lemma_hit(t, content, x, lower(t));
}

/// An element of another name is passed over.
proof fn lemma_child_skip(t: Seq<char>, content: Seq<char>, x: Seq<char>, n: Seq<char>)
    requires
        letters(t),
        t.len() > 0,
        free_of(content, '<'),
        lower(t) != n,
    ensures
        found(element(t, content) + x, n) == found(x, n),
{
    let none = Seq::<char>::empty();
    assert(none + t =~= t);
    lemma_lettered(none, t);
    lemma_skip_element(t, lower(t), content, x, n);
}

/// A tag with attributes is passed over by its name.
proof fn lemma_tag_skip(p: Seq<char>, t: Seq<char>, rest: Seq<char>, x: Seq<char>, n: Seq<char>)
    requires
        prefix_like(p),
        letters(t),
        t.len() > 0,
        lower(t) != n,
        rest.len() == 0 || rest[0] == ' ',
        free_of(rest, '<'),
    ensures
        found(seq!['<'] + (p + t + rest) + seq!['>'] + x, n) == found(x, n),
{
    let name = p + t;
    let body = name + rest;
    lemma_lettered(p, t);
    lemma_lower_join(name, rest);
    if rest.len() > 0 {
        assert(lower(rest)[0] == ' ');
        lemma_name_stops(lower(name), lower(rest), 0);
    } else {
        assert(lower(body) =~= lower(name));
    }
    assert(tag_name(body) =~= lower(name));
    assert(body[0] == name[0]);
    assert forall|i: int| 0 <= i < body.len() implies #[trigger] body[i] != '<' by {
        if i < name.len() {
            assert(body[i] == name[i]);
        } else {
            assert(body[i] == rest[i - name.len()]);
        }
    }
    assert(lower(body)[0] == lower_char(body[0]));
    assert(passed(body, n));
    lemma_skip_tag(body, x, n);
}

/// What the envelope's own tag says.
pub open spec fn envelope_tag() -> Seq<char> {
    " xmlns:s=\"http://schemas.xmlsoap.org/soap/envelope/\" s:encodingStyle=\"http://schemas.xmlsoap.org/soap/encoding/\""@
}

proof fn lemma_envelope_tag()
    ensures
        free_of(envelope_tag(), '<'),
        envelope_tag().len() > 0,
        envelope_tag()[0] == ' ',
{
    reveal_strlit(
        " xmlns:s=\"http://schemas.xmlsoap.org/soap/envelope/\" s:encodingStyle=\"http://schemas.xmlsoap.org/soap/encoding/\"",
    );
    let s = envelope_tag();
    assert(plain(s, 90)) by {
        reveal_with_fuel(plain, 32);
    }
    assert(plain(s, 60)) by {
        reveal_with_fuel(plain, 32);
    }
    assert(plain(s, 30)) by {
        reveal_with_fuel(plain, 32);
    }
    assert(plain(s, 0)) by {
        reveal_with_fuel(plain, 32);
    }
    lemma_plain_free(s);
}

/// The head of an envelope, tag by tag.
proof fn lemma_head_shape()
    ensures
        "<?xml version=\"1.0\" encoding=\"utf-8\"?><s:Envelope xmlns:s=\"http://schemas.xmlsoap.org/soap/envelope/\" s:encodingStyle=\"http://schemas.xmlsoap.org/soap/encoding/\"><s:Body><u:"@
            == seq!['<'] + "?xml version=\"1.0\" encoding=\"utf-8\"?"@ + seq!['>'] + (seq!['<'] + (
        seq!['s', ':'] + "Envelope"@ + envelope_tag()) + seq!['>'] + (seq!['<'] + (seq!['s', ':']
            + "Body"@ + Seq::<char>::empty()) + seq!['>'] + seq!['<', 'u', ':'])),
{
    reveal_strlit(
        "<?xml version=\"1.0\" encoding=\"utf-8\"?><s:Envelope xmlns:s=\"http://schemas.xmlsoap.org/soap/envelope/\" s:encodingStyle=\"http://schemas.xmlsoap.org/soap/encoding/\"><s:Body><u:",
    );
    reveal_strlit("?xml version=\"1.0\" encoding=\"utf-8\"?");
    reveal_strlit("Envelope");
    reveal_strlit("Body");
    reveal_strlit(
        " xmlns:s=\"http://schemas.xmlsoap.org/soap/envelope/\" s:encodingStyle=\"http://schemas.xmlsoap.org/soap/encoding/\"",
    );
    assert("<?xml version=\"1.0\" encoding=\"utf-8\"?><s:Envelope xmlns:s=\"http://schemas.xmlsoap.org/soap/envelope/\" s:encodingStyle=\"http://schemas.xmlsoap.org/soap/encoding/\"><s:Body><u:"@
        =~= seq!['<'] + "?xml version=\"1.0\" encoding=\"utf-8\"?"@ + seq!['>'] + (seq!['<'] + (
    seq!['s', ':'] + "Envelope"@ + envelope_tag()) + seq!['>'] + (seq!['<'] + (seq!['s', ':']
        + "Body"@ + Seq::<char>::empty()) + seq!['>'] + seq!['<', 'u', ':'])));
}

/// The end of an envelope.
pub open spec fn envelope_end(action: Seq<char>) -> Seq<char> {
    "</u:"@ + action + "></s:Body></s:Envelope>"@
}

/// The tag of an action, behind its name.
pub open spec fn action_tag(service: Seq<char>) -> Seq<char> {
    " xmlns:u=\""@ + service + seq!['"']
}

proof fn lemma_join3(
    a: Seq<char>,
    b: Seq<char>,
    c: Seq<char>,
    u: Seq<char>,
    action: Seq<char>,
    tag: Seq<char>,
    y: Seq<char>,
)
    ensures
        (a + (b + (c + (seq!['<'] + u)))) + action + tag + seq!['>'] + y == a + (b + (c + (seq!['<'] + (u
            + action + tag) + seq!['>'] + y))),
{
    assert((a + (b + (c + (seq!['<'] + u)))) + action + tag + seq!['>'] + y =~= a + (b + (c + (seq!['<'] + (u
        + action + tag) + seq!['>'] + y))));
}

/// What is looked for in an envelope is found in the body of the action.
proof fn lemma_in_envelope(service: Seq<char>, action: Seq<char>, body: Seq<char>, n: Seq<char>)
    requires
        letters(action),
        action.len() > 0,
        free_of(service, '<'),
        n != lower("Envelope"@),
        n != lower("Body"@),
        n != lower(action),
    ensures
        found(envelope_text(service, action, body), n) == found(body + envelope_end(action), n),
{
    let pi = "?xml version=\"1.0\" encoding=\"utf-8\"?"@;
    let sp = seq!['s', ':'];
    let up = seq!['u', ':'];
    let none = Seq::<char>::empty();
    let a = seq!['<'] + pi + seq!['>'];
    let b = seq!['<'] + (sp + "Envelope"@ + envelope_tag()) + seq!['>'];
    let c = seq!['<'] + (sp + "Body"@ + none) + seq!['>'];
    let y = body + envelope_end(action);
    let tag = action_tag(service);
    lemma_head_shape();
    lemma_envelope_tag();
    assert(seq!['<', 'u', ':'] =~= seq!['<'] + up);
    assert(" xmlns:u=\""@ + service + "\">"@ =~= tag + seq!['>']) by {
        reveal_strlit("\">");
    }
    let head = a + (b + (c + (seq!['<'] + up)));
    assert(envelope_text(service, action, body) =~= head + action + (tag + seq!['>']) + y);
    assert(head + action + (tag + seq!['>']) + y =~= head + action + tag + seq!['>'] + y);
    lemma_join3(a, b, c, up, action, tag, y);
    let x1 = seq!['<'] + (up + action + tag) + seq!['>'] + y;
    assert(free_of(pi, '<') && pi.len() > 0 && pi[0] == '?') by {
        reveal_strlit("?xml version=\"1.0\" encoding=\"utf-8\"?");
        assert(plain(pi, 30)) by {
            reveal_with_fuel(plain, 32);
        }
        assert(plain(pi, 0)) by {
            reveal_with_fuel(plain, 32);
        }
        lemma_plain_free(pi);
    }
    lemma_skip_tag(pi, b + (c + x1), n);
    assert(prefix_like(sp)) by {
        assert(sp.drop_last() =~= seq!['s']);
    }
    assert(prefix_like(up)) by {
        assert(up.drop_last() =~= seq!['u']);
    }
    assert(letters("Envelope"@) && "Envelope"@.len() == 8) by {
        reveal_strlit("Envelope");
    }
    assert(letters("Body"@) && "Body"@.len() == 4) by {
        reveal_strlit("Body");
    }
    lemma_tag_skip(sp, "Envelope"@, envelope_tag(), c + x1, n);
    lemma_tag_skip(sp, "Body"@, none, x1, n);
    assert(free_of(tag, '<') && tag.len() > 0 && tag[0] == ' ') by {
        reveal_strlit(" xmlns:u=\"");
        assert forall|i: int| 0 <= i < tag.len() implies #[trigger] tag[i] != '<' by {
            if i >= 10 && i < 10 + service.len() {
                assert(tag[i] == service[i - 10]);
            }
        }
    }
    lemma_tag_skip(up, action, tag, y, n);
}

proof fn lemma_urns(svc: Service)
    ensures
        free_of(svc.urn(), '<'),
{
    reveal_strlit("urn:schemas-upnp-org:service:AVTransport:1");
    reveal_strlit("urn:schemas-upnp-org:service:RenderingControl:1");
    reveal_strlit("urn:schemas-upnp-org:service:ConnectionManager:1");
    assert(plain(svc.urn(), 30)) by {
        reveal_with_fuel(plain, 32);
    }
    assert(plain(svc.urn(), 0)) by {
        reveal_with_fuel(plain, 32);
    }
    lemma_plain_free(svc.urn());
}

/// A text of digits and colons is taken as it is.
proof fn lemma_plain_content(s: Seq<char>)
    requires
        s.len() > 0,
        forall|i: int|
            0 <= i < s.len() ==> crate::num::is_digit(#[trigger] s[i]) || s[i] == ':' || ('A'
                <= s[i] && s[i] <= 'Z') || s[i] == '_',
    ensures
        free_of(s, '<'),
        decoded(trimmed(s)) == s,
{
    assert(free_of(s, '&'));
    assert(s.last() == s[s.len() - 1]);
    assert(trim_start(s) == s);
    assert(trimmed(s) == s);
    lemma_decode_plain(s);
}

proof fn lemma_clock_text(secs: nat)
    ensures
        free_of(crate::num::hms(secs), '<'),
        decoded(trimmed(crate::num::hms(secs))) == crate::num::hms(secs),
{
    let t = crate::num::hms(secs);
    let h = crate::num::dec(secs / 3600);
    let m = crate::num::dec2(secs % 3600 / 60);
    let s = crate::num::dec2(secs % 60);
    crate::num::lemma_dec_digits(secs / 3600);
    crate::num::lemma_dec2_digits(secs % 3600 / 60);
    crate::num::lemma_dec2_digits(secs % 60);
    reveal_strlit(":");
    assert forall|i: int| 0 <= i < t.len() implies crate::num::is_digit(#[trigger] t[i]) || t[i]
        == ':' || ('A' <= t[i] && t[i] <= 'Z') || t[i] == '_' by {
        if i < h.len() {
            assert(t[i] == h[i]);
        } else if i == h.len() {
        } else if i < h.len() + 1 + m.len() {
            assert(t[i] == m[i - h.len() - 1]);
        } else if i == h.len() + 1 + m.len() {
        } else {
            assert(t[i] == s[i - h.len() - m.len() - 2]);
        }
    }
    lemma_plain_content(t);
}

proof fn lemma_tag_letters()
    ensures
        letters("InstanceID"@) && "InstanceID"@.len() == 10,
        letters("Unit"@) && "Unit"@.len() == 4,
        letters("Target"@) && "Target"@.len() == 6,
        letters("Channel"@) && "Channel"@.len() == 7,
        letters("DesiredVolume"@) && "DesiredVolume"@.len() == 13,
        letters("CurrentURI"@) && "CurrentURI"@.len() == 10,
        letters("CurrentURIMetaData"@) && "CurrentURIMetaData"@.len() == 18,
        "Envelope"@.len() == 8,
        "Body"@.len() == 4,
        lower("InstanceID"@).len() == 10 && lower("InstanceID"@)[0] == 'i',
        lower("Unit"@).len() == 4 && lower("Unit"@)[0] == 'u',
        lower("Target"@).len() == 6,
        lower("Channel"@).len() == 7,
        lower("DesiredVolume"@).len() == 13,
        lower("CurrentURI"@).len() == 10 && lower("CurrentURI"@)[0] == 'c',
        lower("CurrentURIMetaData"@).len() == 18,
        lower("Envelope"@).len() == 8,
        lower("Body"@).len() == 4 && lower("Body"@)[0] == 'b',
        lower("Seek"@).len() == 4 && lower("Seek"@)[0] == 's',
        lower("SetVolume"@).len() == 9,
        lower("SetAVTransportURI"@).len() == 17,
{
    reveal_strlit("Seek");
    reveal_strlit("SetVolume");
    reveal_strlit("SetAVTransportURI");
    reveal_strlit("InstanceID");
    reveal_strlit("Unit");
    reveal_strlit("Target");
    reveal_strlit("Channel");
    reveal_strlit("DesiredVolume");
    reveal_strlit("CurrentURI");
    reveal_strlit("CurrentURIMetaData");
    reveal_strlit("Envelope");
    reveal_strlit("Body");
}

/// A seek as it is posted, element by element.
proof fn lemma_seek_shape(us: nat, x: Seq<char>)
    ensures
        seek_body(us) + x == element("InstanceID"@, "0"@) + (element("Unit"@, "REL_TIME"@) + (
        element("Target"@, crate::num::hms(us / 1_000_000)) + x)),
{
    let t = crate::num::hms(us / 1_000_000);
    reveal_strlit("<InstanceID>0</InstanceID><Unit>REL_TIME</Unit><Target>");
    reveal_strlit("</Target>");
    reveal_strlit("InstanceID");
    reveal_strlit("Unit");
    reveal_strlit("Target");
    reveal_strlit("REL_TIME");
    reveal_strlit("0");
    reveal_strlit("</");
    reveal_strlit(">");
    let a = element("InstanceID"@, "0"@);
    let b = element("Unit"@, "REL_TIME"@);
    let c = seq!['<'] + "Target"@ + seq!['>'];
    let d = "</"@ + "Target"@ + ">"@;
    assert("<InstanceID>0</InstanceID><Unit>REL_TIME</Unit><Target>"@ =~= a + b + c);
    assert("</Target>"@ =~= d);
    lemma_group3(a, b, c, t, d, x);
}

proof fn lemma_group3(
    a: Seq<char>,
    b: Seq<char>,
    c: Seq<char>,
    t: Seq<char>,
    d: Seq<char>,
    x: Seq<char>,
)
    ensures
        a + b + c + t + d + x == a + (b + (c + t + d + x)),
{
    assert(a + b + c + t + d + x =~= a + (b + (c + t + d + x)));
}

/// What is read of a seek that was posted.
proof fn lemma_seek_read(us: nat)
    ensures
        ({
            let e = envelope_text(Service::AvTransport.urn(), "Seek"@, seek_body(us));
            &&& text_of_tag(e, "Unit"@) == Some("REL_TIME"@)
            &&& text_of_tag(e, "Target"@) == Some(crate::num::hms(us / 1_000_000))
        }),
{
    let t = crate::num::hms(us / 1_000_000);
    let x = envelope_end("Seek"@);
    let y = element("Target"@, t) + x;
    lemma_tag_letters();
    lemma_urns(Service::AvTransport);
    lemma_seek_shape(us, x);
    lemma_clock_text(us / 1_000_000);
    assert(letters("Seek"@) && "Seek"@.len() == 4 && lower("Seek"@)[0] == 's') by {
        reveal_strlit("Seek");
    }
    assert(free_of("0"@, '<')) by {
        reveal_strlit("0");
    }
    assert(free_of("REL_TIME"@, '<') && decoded(trimmed("REL_TIME"@)) == "REL_TIME"@) by {
        reveal_strlit("REL_TIME");
        lemma_plain_content("REL_TIME"@);
    }
    lemma_in_envelope(Service::AvTransport.urn(), "Seek"@, seek_body(us), lower("Unit"@));
    lemma_in_envelope(Service::AvTransport.urn(), "Seek"@, seek_body(us), lower("Target"@));
    lemma_child_skip("InstanceID"@, "0"@, element("Unit"@, "REL_TIME"@) + y, lower("Unit"@));
    lemma_child_skip("InstanceID"@, "0"@, element("Unit"@, "REL_TIME"@) + y, lower("Target"@));
    lemma_child_hit("Unit"@, "REL_TIME"@, y);
    lemma_child_skip("Unit"@, "REL_TIME"@, y, lower("Target"@));
    lemma_child_hit("Target"@, t, x);
}

/// A volume as it is posted, element by element.
proof fn lemma_volume_shape(v: nat, x: Seq<char>)
    ensures
        volume_body(v) + x == element("InstanceID"@, "0"@) + (element("Channel"@, "Master"@) + (
        element("DesiredVolume"@, crate::num::dec(percent(v))) + x)),
{
    let t = crate::num::dec(percent(v));
    reveal_strlit("<InstanceID>0</InstanceID><Channel>Master</Channel><DesiredVolume>");
    reveal_strlit("</DesiredVolume>");
    reveal_strlit("InstanceID");
    reveal_strlit("Channel");
    reveal_strlit("DesiredVolume");
    reveal_strlit("Master");
    reveal_strlit("0");
    reveal_strlit("</");
    reveal_strlit(">");
    let a = element("InstanceID"@, "0"@);
    let b = element("Channel"@, "Master"@);
    let c = seq!['<'] + "DesiredVolume"@ + seq!['>'];
    let d = "</"@ + "DesiredVolume"@ + ">"@;
    assert("<InstanceID>0</InstanceID><Channel>Master</Channel><DesiredVolume>"@ =~= a + b + c);
    assert("</DesiredVolume>"@ =~= d);
    lemma_group3(a, b, c, t, d, x);
}

proof fn lemma_volume_read(v: nat)
    ensures
        text_of_tag(
            envelope_text(Service::RenderingControl.urn(), "SetVolume"@, volume_body(v)),
            "DesiredVolume"@,
        ) == Some(crate::num::dec(percent(v))),
{
    let t = crate::num::dec(percent(v));
    let x = envelope_end("SetVolume"@);
    let y = element("DesiredVolume"@, t) + x;
    lemma_tag_letters();
    lemma_urns(Service::RenderingControl);
    lemma_volume_shape(v, x);
    crate::num::lemma_dec_digits(percent(v));
    lemma_plain_content(t);
    assert(letters("SetVolume"@) && "SetVolume"@.len() == 9) by {
        reveal_strlit("SetVolume");
    }
    assert(free_of("0"@, '<')) by {
        reveal_strlit("0");
    }
    assert(free_of("Master"@, '<')) by {
        reveal_strlit("Master");
    }
    let n = lower("DesiredVolume"@);
    lemma_in_envelope(Service::RenderingControl.urn(), "SetVolume"@, volume_body(v), n);
    lemma_child_skip("InstanceID"@, "0"@, element("Channel"@, "Master"@) + y, n);
    lemma_child_skip("Channel"@, "Master"@, y, n);
    lemma_child_hit("DesiredVolume"@, t, x);
}

/// The address of an item as it is posted, element by element.
proof fn lemma_uri_shape(uri: Seq<char>, meta: Seq<char>, x: Seq<char>)
    ensures
        set_uri_body(uri, meta) + x == element("InstanceID"@, "0"@) + (element(
            "CurrentURI"@,
            encoded(uri),
        ) + (element("CurrentURIMetaData"@, encoded(meta)) + x)),
{
    reveal_strlit("<InstanceID>0</InstanceID><CurrentURI>");
    reveal_strlit("</CurrentURI><CurrentURIMetaData>");
    reveal_strlit("</CurrentURIMetaData>");
    reveal_strlit("InstanceID");
    reveal_strlit("CurrentURI");
    reveal_strlit("CurrentURIMetaData");
    reveal_strlit("0");
    reveal_strlit("</");
    reveal_strlit(">");
    let a = element("InstanceID"@, "0"@);
    let b = seq!['<'] + "CurrentURI"@ + seq!['>'];
    let c = "</"@ + "CurrentURI"@ + ">"@;
    let d = seq!['<'] + "CurrentURIMetaData"@ + seq!['>'];
    let e = "</"@ + "CurrentURIMetaData"@ + ">"@;
    assert("<InstanceID>0</InstanceID><CurrentURI>"@ =~= a + b);
    assert("</CurrentURI><CurrentURIMetaData>"@ =~= c + d);
    assert("</CurrentURIMetaData>"@ =~= e);
    lemma_group5(a, b, encoded(uri), c, d, encoded(meta), e, x);
}

proof fn lemma_group5(
    a: Seq<char>,
    b: Seq<char>,
    u: Seq<char>,
    c: Seq<char>,
    d: Seq<char>,
    m: Seq<char>,
    e: Seq<char>,
    x: Seq<char>,
)
    ensures
        (a + b) + u + (c + d) + m + e + x == a + ((b + u + c) + (d + m + e + x)),
{
    assert((a + b) + u + (c + d) + m + e + x =~= a + ((b + u + c) + (d + m + e + x)));
}

proof fn lemma_uri_read(uri: Seq<char>, meta: Seq<char>)
    ensures
        ({
            let e = envelope_text(
                Service::AvTransport.urn(),
                "SetAVTransportURI"@,
                set_uri_body(uri, meta),
            );
            &&& text_of_tag(e, "CurrentURI"@) == Some(trimmed(uri))
            &&& text_of_tag(e, "CurrentURIMetaData"@) == Some(trimmed(meta))
        }),
{
    let body = set_uri_body(uri, meta);
    let x = envelope_end("SetAVTransportURI"@);
    let y = element("CurrentURIMetaData"@, encoded(meta)) + x;
    lemma_tag_letters();
    lemma_urns(Service::AvTransport);
    lemma_uri_shape(uri, meta, x);
    lemma_encoded_free(uri);
    lemma_encoded_free(meta);
    lemma_text_back(uri);
    lemma_text_back(meta);
    assert(letters("SetAVTransportURI"@) && "SetAVTransportURI"@.len() == 17) by {
        reveal_strlit("SetAVTransportURI");
    }
    assert(free_of("0"@, '<')) by {
        reveal_strlit("0");
    }
    let n1 = lower("CurrentURI"@);
    let n2 = lower("CurrentURIMetaData"@);
    lemma_in_envelope(Service::AvTransport.urn(), "SetAVTransportURI"@, body, n1);
    lemma_in_envelope(Service::AvTransport.urn(), "SetAVTransportURI"@, body, n2);
    lemma_child_skip("InstanceID"@, "0"@, element("CurrentURI"@, encoded(uri)) + y, n1);
    lemma_child_skip("InstanceID"@, "0"@, element("CurrentURI"@, encoded(uri)) + y, n2);
    lemma_child_hit("CurrentURI"@, encoded(uri), y);
    lemma_child_skip("CurrentURI"@, encoded(uri), y, n2);
    lemma_child_hit("CurrentURIMetaData"@, encoded(meta), x);
}

/// A pause that is posted is taken for a pause, and a stop for a stop.
pub proof fn lemma_pause_and_stop_posted(s: SessionView, st: PlaybackState)
    ensures
        posts(RemoteAction::Pause).len() == 1,
        delivered(s, st, posts(RemoteAction::Pause)[0]) == (s, asks(CallView::Pause)),
        posts(RemoteAction::Stop).len() == 1,
        delivered(s, st, posts(RemoteAction::Stop)[0]) == (s, asks(CallView::Stop)),
{
    let p = posts(RemoteAction::Pause)[0];
    let q = posts(RemoteAction::Stop)[0];
    lemma_transport_actions(s, st, envelope_text(Service::AvTransport.urn(), p.1, p.2));
    lemma_transport_actions(s, st, envelope_text(Service::AvTransport.urn(), q.1, q.2));
}

/// To go on is posted as what a paused renderer takes for going on. A renderer
/// that is at work already is asked nothing by it.
pub proof fn lemma_resume_posted(s: SessionView, st: PlaybackState)
    requires
        s.pending is None,
    ensures
        posts(RemoteAction::Resume).len() == 1,
        st.status == PlaybackStatus::Paused ==> delivered(s, st, posts(RemoteAction::Resume)[0]) == (
            s,
            asks(CallView::Resume),
        ),
        st.status == PlaybackStatus::Playing ==> delivered(s, st, posts(RemoteAction::Resume)[0]) == (
            s,
            Ok::<(Option<CallView>, Seq<char>), SoapError>((None, Seq::empty())),
        ),
{
    let p = posts(RemoteAction::Resume)[0];
    lemma_action_names();
    lemma_play_goes_on(s, st, envelope_text(Service::AvTransport.urn(), p.1, p.2));
}

/// A seek that is posted is taken for a seek to the same second.
pub proof fn lemma_seek_posted(s: SessionView, st: PlaybackState, us: u64)
    ensures
        posts(RemoteAction::Seek(us)).len() == 1,
        delivered(s, st, posts(RemoteAction::Seek(us))[0]) == (
            s,
            asks(CallView::Seek(us as int - us as int % 1_000_000)),
        ),
{
    let p = posts(RemoteAction::Seek(us))[0];
    let secs = us as nat / 1_000_000;
    lemma_seek_read(us as nat);
    let h = secs / 3600;
    let m = secs % 3600 / 60;
    let c = secs % 60;
    assert(secs == 3600 * h + 60 * m + c && m < 60 && c < 60) by (nonlinear_arith)
        requires
            h == secs / 3600,
            m == secs % 3600 / 60,
            c == secs % 60,
    ;
    lemma_seek_by_clock(s, st, envelope_text(Service::AvTransport.urn(), p.1, p.2), h, m, c);
}

/// A volume that is posted is taken for the volume that is nearest to it in
/// whole percents: no more than half a percent away.
pub proof fn lemma_volume_posted(s: SessionView, st: PlaybackState, v: u32)
    requires
        v <= 1000,
    ensures
        posts(RemoteAction::SetVolume(v)).len() == 1,
        ({
            let (t, r) = delivered(s, st, posts(RemoteAction::SetVolume(v))[0]);
            &&& r is Ok
            &&& r->Ok_0.0 is Some
            &&& r->Ok_0.0->0 is SetVolume
            &&& -5 <= r->Ok_0.0->0->SetVolume_0 - v <= 5
            &&& v % 10 == 0 ==> r == asks(CallView::SetVolume(v as int))
        }),
{
    let p = posts(RemoteAction::SetVolume(v))[0];
    lemma_volume_read(v as nat);
    lemma_volume_set(
        s,
        st,
        envelope_text(Service::RenderingControl.urn(), p.1, p.2),
        percent(v as nat),
    );
}

proof fn lemma_didl_trimmed(item: QueueItem)
    ensures
        trimmed(didl_text(item)) == didl_text(item),
{
    reveal_strlit("<");
    reveal_strlit("</res></item></DIDL-Lite>");
    let d = didl_text(item);
    assert(d.len() > 0);
    assert(d[0] == '<');
    assert(d.last() == '>');
    assert(trim_start(d) == d);
}

/// What an item turns into that was posted with its description.
proof fn lemma_item_back(seq: nat, item: QueueItem)
    ensures
        ({
            let v = cast_item(seq, trimmed(item.stream_url@), didl_text(item));
            &&& v.stream_url == trimmed(item.stream_url@)
            &&& trimmed(item.title@).len() > 0 ==> v.title == trimmed(item.title@)
            &&& v.is_video == item.is_video
            &&& free_of(item.content_type@, '<') ==> v.subtitle == trimmed(item.subtitle@)
            &&& type_like(item.content_type@) && trimmed(item.content_type@).contains('/')
                ==> v.content_type == trimmed(item.content_type@)
        }),
{
    let uri = trimmed(item.stream_url@);
    lemma_metadata_comes_back(item);
    lemma_kind_comes_back(item, uri);
    lemma_cast_item(seq, uri, didl_text(item));
    if type_like(item.content_type@) && trimmed(item.content_type@).contains('/') {
        lemma_content_type_comes_back(item);
        reveal_strlit("*");
        if trimmed(item.content_type@) == "*"@ {
            let k = choose|k: int| 0 <= k < "*"@.len() && "*"@[k] == '/';
            assert("*"@[k] == '*');
        }
    }
    if trimmed(item.subtitle@).len() == 0 {
        assert(trimmed(item.subtitle@) =~= Seq::<char>::empty());
    }
}

/// An item that is loaded from afar is played there, and it alone: the renderer
/// at rest first only keeps it, and then starts it. It is the item with that
/// address, that title and that kind.
#[verifier::rlimit(60)]
pub proof fn lemma_load_posted(
    s: SessionView,
    st: PlaybackState,
    later: PlaybackState,
    item: QueueItem,
)
    requires
        st.status == PlaybackStatus::Stopped || st.status == PlaybackStatus::Idle || st.status
            == PlaybackStatus::Paused,
    ensures
        posts(RemoteAction::Load(item)).len() == 2,
        ({
            let (t, first) = delivered(s, st, posts(RemoteAction::Load(item))[0]);
            let (u, second) = delivered(t, later, posts(RemoteAction::Load(item))[1]);
            &&& first == Ok::<(Option<CallView>, Seq<char>), SoapError>((None, Seq::empty()))
            &&& u.current is Some
            &&& second == asks(CallView::Play(seq![u.current->0], 0))
            &&& u.pending is None
            &&& u.current->0.stream_url == trimmed(item.stream_url@)
            &&& trimmed(item.title@).len() > 0 ==> u.current->0.title == trimmed(item.title@)
            &&& u.current->0.is_video == item.is_video
            &&& free_of(item.content_type@, '<') ==> u.current->0.subtitle == trimmed(
                item.subtitle@,
            )
            &&& type_like(item.content_type@) && trimmed(item.content_type@).contains('/')
                ==> u.current->0.content_type == trimmed(item.content_type@)
        }),
{
    let p = posts(RemoteAction::Load(item))[0];
    let q = posts(RemoteAction::Load(item))[1];
    let urn = Service::AvTransport.urn();
    let body = envelope_text(urn, p.1, p.2);
    let again = envelope_text(urn, q.1, q.2);
    lemma_uri_read(item.stream_url@, didl_text(item));
    lemma_didl_trimmed(item);
    lemma_set_then_play(s, st, later, body, again);
    lemma_item_back(next_seq(s.item_seq), item);
}

/// Different things that a device is asked are posted as different things; two
/// seeks are alike where they go to the same second.
pub proof fn lemma_posts_differ(a: RemoteAction, b: RemoteAction)
    requires
        posts(a) == posts(b),
    ensures
        a is Nothing <==> b is Nothing,
        a is Load <==> b is Load,
        a is Pause <==> b is Pause,
        a is Resume <==> b is Resume,
        a is Stop <==> b is Stop,
        a is Seek <==> b is Seek,
        a is SetVolume <==> b is SetVolume,
{
    lemma_action_names();
    if posts(a).len() > 0 {
        assert(posts(a)[0].1 == posts(b)[0].1);
        assert(posts(a)[0].0 == posts(b)[0].0);
    }
}

/// Nothing is posted where nothing is asked.
pub proof fn lemma_nothing_posted()
    ensures
        posts(RemoteAction::Nothing).len() == 0,
{
}

// ---------------------------------------------------------------------------
// Answers
// ---------------------------------------------------------------------------

proof fn lemma_answer_letters()
    ensures
        letters("Track"@) && lower("Track"@).len() == 5 && "Track"@.len() == 5,
        letters("TrackDuration"@) && lower("TrackDuration"@).len() == 13 && lower(
            "TrackDuration"@,
        )[5] == 'd' && "TrackDuration"@.len() == 13,
        letters("TrackMetaData"@) && lower("TrackMetaData"@).len() == 13 && lower(
            "TrackMetaData"@,
        )[5] == 'm' && "TrackMetaData"@.len() == 13,
        letters("TrackURI"@) && lower("TrackURI"@).len() == 8 && "TrackURI"@.len() == 8,
        letters("RelTime"@) && lower("RelTime"@).len() == 7 && "RelTime"@.len() == 7,
        letters("NrTracks"@) && lower("NrTracks"@).len() == 8 && lower("NrTracks"@)[0] == 'n'
            && "NrTracks"@.len() == 8,
        letters("MediaDuration"@) && lower("MediaDuration"@).len() == 13 && "MediaDuration"@.len()
            == 13,
        letters("CurrentURI"@) && lower("CurrentURI"@).len() == 10 && "CurrentURI"@.len() == 10,
        letters("CurrentURIMetaData"@) && lower("CurrentURIMetaData"@).len() == 18
            && "CurrentURIMetaData"@.len() == 18,
        letters("NextURI"@) && lower("NextURI"@).len() == 7 && "NextURI"@.len() == 7,
        letters("CurrentTransportState"@) && "CurrentTransportState"@.len() == 21,
        letters("CurrentVolume"@) && "CurrentVolume"@.len() == 13,
        letters("CurrentMute"@) && "CurrentMute"@.len() == 11,
{
    reveal_strlit("Track");
    reveal_strlit("TrackDuration");
    reveal_strlit("TrackMetaData");
    reveal_strlit("TrackURI");
    reveal_strlit("RelTime");
    reveal_strlit("NrTracks");
    reveal_strlit("MediaDuration");
    reveal_strlit("CurrentURI");
    reveal_strlit("CurrentURIMetaData");
    reveal_strlit("NextURI");
    reveal_strlit("CurrentTransportState");
    reveal_strlit("CurrentVolume");
    reveal_strlit("CurrentMute");
}

/// What follows the elements of the position.
pub open spec fn position_end() -> Seq<char> {
    "<AbsTime>NOT_IMPLEMENTED</AbsTime><RelCount>2147483647</RelCount><AbsCount>2147483647</AbsCount>"@
}

proof fn lemma_position_shape(a: Seq<char>, b: Seq<char>, c: Seq<char>, d: Seq<char>, e: Seq<char>)
    ensures
        "<Track>"@ + a + "</Track><TrackDuration>"@ + b + "</TrackDuration><TrackMetaData>"@ + c
            + "</TrackMetaData><TrackURI>"@ + d + "</TrackURI><RelTime>"@ + e
            + "</RelTime><AbsTime>NOT_IMPLEMENTED</AbsTime><RelCount>2147483647</RelCount><AbsCount>2147483647</AbsCount>"@
            == element("Track"@, a) + (element("TrackDuration"@, b) + (element("TrackMetaData"@, c)
            + (element("TrackURI"@, d) + (element("RelTime"@, e) + position_end())))),
{
    reveal_strlit("<Track>");
    reveal_strlit("</Track><TrackDuration>");
    reveal_strlit("</TrackDuration><TrackMetaData>");
    reveal_strlit("</TrackMetaData><TrackURI>");
    reveal_strlit("</TrackURI><RelTime>");
    reveal_strlit(
        "</RelTime><AbsTime>NOT_IMPLEMENTED</AbsTime><RelCount>2147483647</RelCount><AbsCount>2147483647</AbsCount>",
    );
    reveal_strlit(
        "<AbsTime>NOT_IMPLEMENTED</AbsTime><RelCount>2147483647</RelCount><AbsCount>2147483647</AbsCount>",
    );
    reveal_strlit("Track");
    reveal_strlit("TrackDuration");
    reveal_strlit("TrackMetaData");
    reveal_strlit("TrackURI");
    reveal_strlit("RelTime");
    reveal_strlit("</");
    reveal_strlit(">");
    let lt = seq!['<'];
    let gt = seq!['>'];
    assert("<Track>"@ =~= lt + "Track"@ + gt);
    assert("</Track><TrackDuration>"@ =~= ("</"@ + "Track"@ + ">"@) + (lt + "TrackDuration"@ + gt));
    assert("</TrackDuration><TrackMetaData>"@ =~= ("</"@ + "TrackDuration"@ + ">"@) + (lt
        + "TrackMetaData"@ + gt));
    assert("</TrackMetaData><TrackURI>"@ =~= ("</"@ + "TrackMetaData"@ + ">"@) + (lt + "TrackURI"@
        + gt));
    assert("</TrackURI><RelTime>"@ =~= ("</"@ + "TrackURI"@ + ">"@) + (lt + "RelTime"@ + gt));
    assert("</RelTime><AbsTime>NOT_IMPLEMENTED</AbsTime><RelCount>2147483647</RelCount><AbsCount>2147483647</AbsCount>"@
        =~= ("</"@ + "RelTime"@ + ">"@) + position_end());
    lemma_five(
        lt + "Track"@ + gt,
        a,
        "</"@ + "Track"@ + ">"@,
        lt + "TrackDuration"@ + gt,
        b,
        "</"@ + "TrackDuration"@ + ">"@,
        lt + "TrackMetaData"@ + gt,
        c,
        "</"@ + "TrackMetaData"@ + ">"@,
        lt + "TrackURI"@ + gt,
        d,
        "</"@ + "TrackURI"@ + ">"@,
        lt + "RelTime"@ + gt,
        e,
        "</"@ + "RelTime"@ + ">"@,
        position_end(),
    );
}

proof fn lemma_five(
    o1: Seq<char>,
    a: Seq<char>,
    c1: Seq<char>,
    o2: Seq<char>,
    b: Seq<char>,
    c2: Seq<char>,
    o3: Seq<char>,
    c: Seq<char>,
    c3: Seq<char>,
    o4: Seq<char>,
    d: Seq<char>,
    c4: Seq<char>,
    o5: Seq<char>,
    e: Seq<char>,
    c5: Seq<char>,
    x: Seq<char>,
)
    ensures
        o1 + a + (c1 + o2) + b + (c2 + o3) + c + (c3 + o4) + d + (c4 + o5) + e + (c5 + x) == (o1 + a
            + c1) + ((o2 + b + c2) + ((o3 + c + c3) + ((o4 + d + c4) + ((o5 + e + c5) + x)))),
{
    assert(o1 + a + (c1 + o2) + b + (c2 + o3) + c + (c3 + o4) + d + (c4 + o5) + e + (c5 + x) =~= (o1
        + a + c1) + ((o2 + b + c2) + ((o3 + c + c3) + ((o4 + d + c4) + ((o5 + e + c5) + x)))));
}

/// The answer on the position tells the time played and the length of the track
/// in whole seconds, the number of the track, and its address.
pub proof fn lemma_position_told(s: SessionView, st: PlaybackState)
    ensures
        ({
            let out = position_text(s, st);
            &&& text_of_tag(out, "Track"@) == Some(
                crate::num::dec(
                    match st.current_index {
                        Some(i) => (i + 1) as nat,
                        None => if st.now_playing is Some {
                            1
                        } else {
                            0
                        },
                    },
                ),
            )
            &&& text_of_tag(out, "RelTime"@) == Some(
                crate::num::hms(st.position_us as nat / 1_000_000),
            )
            &&& st.now_playing is Some && st.duration_us > 0 ==> text_of_tag(out, "TrackDuration"@)
                == Some(crate::num::hms(st.duration_us as nat / 1_000_000))
            &&& st.now_playing is None ==> text_of_tag(out, "TrackDuration"@) == Some(
                crate::num::hms(0),
            )
            &&& st.now_playing is Some ==> text_of_tag(out, "TrackURI"@) == Some(
                trimmed(st.now_playing->0.stream_url@),
            )
            &&& st.now_playing is None ==> text_of_tag(out, "TrackURI"@) == Some(
                trimmed(s.current_uri),
            )
        }),
{
    let a = crate::num::dec(track_number(st));
    let b = crate::num::hms(track_secs(st));
    let c = encoded(s.current_meta);
    let uri = track_uri(s, st);
    let d = encoded(uri);
    let e = crate::num::hms(st.position_us as nat / 1_000_000);
    lemma_position_shape(a, b, c, d, e);
    lemma_answer_letters();
    lemma_clock_text(track_secs(st));
    lemma_clock_text(st.position_us as nat / 1_000_000);
    lemma_encoded_free(s.current_meta);
    lemma_encoded_free(uri);
    lemma_text_back(uri);
    crate::num::lemma_dec_digits(track_number(st));
    lemma_plain_content(a);
    let x5 = element("RelTime"@, e) + position_end();
    let x4 = element("TrackURI"@, d) + x5;
    let x3 = element("TrackMetaData"@, c) + x4;
    let x2 = element("TrackDuration"@, b) + x3;
    lemma_child_hit("Track"@, a, x2);
    let n2 = lower("TrackDuration"@);
    lemma_child_skip("Track"@, a, x2, n2);
    lemma_child_hit("TrackDuration"@, b, x3);
    let n4 = lower("TrackURI"@);
    lemma_child_skip("Track"@, a, x2, n4);
    lemma_child_skip("TrackDuration"@, b, x3, n4);
    lemma_child_skip("TrackMetaData"@, c, x4, n4);
    lemma_child_hit("TrackURI"@, d, x5);
    let n5 = lower("RelTime"@);
    lemma_child_skip("Track"@, a, x2, n5);
    lemma_child_skip("TrackDuration"@, b, x3, n5);
    lemma_child_skip("TrackMetaData"@, c, x4, n5);
    lemma_child_skip("TrackURI"@, d, x5, n5);
    lemma_child_hit("RelTime"@, e, position_end());
}

/// What follows the elements of the media.
pub open spec fn media_end(s: SessionView) -> Seq<char> {
    "<NextURIMetaData>"@ + encoded(s.next_meta)
        + "</NextURIMetaData><PlayMedium>NETWORK</PlayMedium><RecordMedium>NOT_IMPLEMENTED</RecordMedium><WriteStatus>NOT_IMPLEMENTED</WriteStatus>"@
}

proof fn lemma_media_shape(
    s: SessionView,
    a: Seq<char>,
    b: Seq<char>,
    c: Seq<char>,
    d: Seq<char>,
    e: Seq<char>,
)
    ensures
        "<NrTracks>"@ + a + "</NrTracks><MediaDuration>"@ + b + "</MediaDuration><CurrentURI>"@ + c
            + "</CurrentURI><CurrentURIMetaData>"@ + d + "</CurrentURIMetaData><NextURI>"@ + e
            + "</NextURI><NextURIMetaData>"@ + encoded(s.next_meta)
            + "</NextURIMetaData><PlayMedium>NETWORK</PlayMedium><RecordMedium>NOT_IMPLEMENTED</RecordMedium><WriteStatus>NOT_IMPLEMENTED</WriteStatus>"@
            == element("NrTracks"@, a) + (element("MediaDuration"@, b) + (element("CurrentURI"@, c)
            + (element("CurrentURIMetaData"@, d) + (element("NextURI"@, e) + media_end(s))))),
{
    reveal_strlit("<NrTracks>");
    reveal_strlit("</NrTracks><MediaDuration>");
    reveal_strlit("</MediaDuration><CurrentURI>");
    reveal_strlit("</CurrentURI><CurrentURIMetaData>");
    reveal_strlit("</CurrentURIMetaData><NextURI>");
    reveal_strlit("</NextURI><NextURIMetaData>");
    reveal_strlit("<NextURIMetaData>");
    reveal_strlit("NrTracks");
    reveal_strlit("MediaDuration");
    reveal_strlit("CurrentURI");
    reveal_strlit("CurrentURIMetaData");
    reveal_strlit("NextURI");
    reveal_strlit("</");
    reveal_strlit(">");
    let lt = seq!['<'];
    let gt = seq!['>'];
    let last = "</NextURIMetaData><PlayMedium>NETWORK</PlayMedium><RecordMedium>NOT_IMPLEMENTED</RecordMedium><WriteStatus>NOT_IMPLEMENTED</WriteStatus>"@;
    assert("<NrTracks>"@ =~= lt + "NrTracks"@ + gt);
    assert("</NrTracks><MediaDuration>"@ =~= ("</"@ + "NrTracks"@ + ">"@) + (lt + "MediaDuration"@
        + gt));
    assert("</MediaDuration><CurrentURI>"@ =~= ("</"@ + "MediaDuration"@ + ">"@) + (lt
        + "CurrentURI"@ + gt));
    assert("</CurrentURI><CurrentURIMetaData>"@ =~= ("</"@ + "CurrentURI"@ + ">"@) + (lt
        + "CurrentURIMetaData"@ + gt));
    assert("</CurrentURIMetaData><NextURI>"@ =~= ("</"@ + "CurrentURIMetaData"@ + ">"@) + (lt
        + "NextURI"@ + gt));
    let close = "</"@ + "NextURI"@ + ">"@;
    assert("</NextURI><NextURIMetaData>"@ =~= close + "<NextURIMetaData>"@);
    let head = "<NrTracks>"@ + a + "</NrTracks><MediaDuration>"@ + b
        + "</MediaDuration><CurrentURI>"@ + c + "</CurrentURI><CurrentURIMetaData>"@ + d
        + "</CurrentURIMetaData><NextURI>"@ + e;
    assert(head + (close + "<NextURIMetaData>"@) + encoded(s.next_meta) + last =~= head + (close
        + media_end(s)));
    lemma_five(
        lt + "NrTracks"@ + gt,
        a,
        "</"@ + "NrTracks"@ + ">"@,
        lt + "MediaDuration"@ + gt,
        b,
        "</"@ + "MediaDuration"@ + ">"@,
        lt + "CurrentURI"@ + gt,
        c,
        "</"@ + "CurrentURI"@ + ">"@,
        lt + "CurrentURIMetaData"@ + gt,
        d,
        "</"@ + "CurrentURIMetaData"@ + ">"@,
        lt + "NextURI"@ + gt,
        e,
        close,
        media_end(s),
    );
}

/// The answer on the media tells how many tracks there are, the length of what
/// plays, and the addresses that were set, for now and for next.
pub proof fn lemma_media_told(s: SessionView, st: PlaybackState)
    ensures
        ({
            let out = media_text(s, st);
            &&& st.queue@.len() > 0 ==> text_of_tag(out, "NrTracks"@) == Some(
                crate::num::dec(st.queue@.len()),
            )
            &&& st.queue@.len() == 0 && s.current_uri.len() > 0 ==> text_of_tag(out, "NrTracks"@)
                == Some(crate::num::dec(1))
            &&& text_of_tag(out, "MediaDuration"@) == Some(
                crate::num::hms(st.duration_us as nat / 1_000_000),
            )
            &&& text_of_tag(out, "CurrentURI"@) == Some(trimmed(s.current_uri))
            &&& text_of_tag(out, "CurrentURIMetaData"@) == Some(trimmed(s.current_meta))
            &&& text_of_tag(out, "NextURI"@) == Some(trimmed(s.next_uri))
        }),
{
    let a = crate::num::dec(media_tracks(s, st));
    let b = crate::num::hms(st.duration_us as nat / 1_000_000);
    let c = encoded(s.current_uri);
    let d = encoded(s.current_meta);
    let e = encoded(s.next_uri);
    lemma_media_shape(s, a, b, c, d, e);
    lemma_answer_letters();
    lemma_clock_text(st.duration_us as nat / 1_000_000);
    lemma_encoded_free(s.current_uri);
    lemma_encoded_free(s.current_meta);
    lemma_encoded_free(s.next_uri);
    lemma_text_back(s.current_uri);
    lemma_text_back(s.current_meta);
    lemma_text_back(s.next_uri);
    crate::num::lemma_dec_digits(media_tracks(s, st));
    lemma_plain_content(a);
    let x5 = element("NextURI"@, e) + media_end(s);
    let x4 = element("CurrentURIMetaData"@, d) + x5;
    let x3 = element("CurrentURI"@, c) + x4;
    let x2 = element("MediaDuration"@, b) + x3;
    lemma_child_hit("NrTracks"@, a, x2);
    let n2 = lower("MediaDuration"@);
    lemma_child_skip("NrTracks"@, a, x2, n2);
    lemma_child_hit("MediaDuration"@, b, x3);
    let n3 = lower("CurrentURI"@);
    lemma_child_skip("NrTracks"@, a, x2, n3);
    lemma_child_skip("MediaDuration"@, b, x3, n3);
    lemma_child_hit("CurrentURI"@, c, x4);
    let n4 = lower("CurrentURIMetaData"@);
    lemma_child_skip("NrTracks"@, a, x2, n4);
    lemma_child_skip("MediaDuration"@, b, x3, n4);
    lemma_child_skip("CurrentURI"@, c, x4, n4);
    lemma_child_hit("CurrentURIMetaData"@, d, x5);
    let n5 = lower("NextURI"@);
    lemma_child_skip("NrTracks"@, a, x2, n5);
    lemma_child_skip("MediaDuration"@, b, x3, n5);
    lemma_child_skip("CurrentURI"@, c, x4, n5);
    lemma_child_skip("CurrentURIMetaData"@, d, x5, n5);
    lemma_child_hit("NextURI"@, e, media_end(s));
}

/// The answer on the transport tells the state by its name.
pub proof fn lemma_transport_told(status: PlaybackStatus)
    ensures
        text_of_tag(transport_text(status), "CurrentTransportState"@) == Some(
            transport_name(status),
        ),
{
    let a = transport_name(status);
    let t = "CurrentTransportState"@;
    lemma_answer_letters();
    reveal_strlit("PLAYING");
    reveal_strlit("PAUSED_PLAYBACK");
    reveal_strlit("TRANSITIONING");
    reveal_strlit("STOPPED");
    lemma_plain_content(a);
    let last = "</CurrentTransportState><CurrentTransportStatus>OK</CurrentTransportStatus><CurrentSpeed>1</CurrentSpeed>"@;
    let x = last.skip(24);
    assert(transport_text(status) =~= element(t, a) + x) by {
        reveal_strlit("<CurrentTransportState>");
        reveal_strlit("CurrentTransportState");
        reveal_strlit(
            "</CurrentTransportState><CurrentTransportStatus>OK</CurrentTransportStatus><CurrentSpeed>1</CurrentSpeed>",
        );
        reveal_strlit("</");
        reveal_strlit(">");
        assert("<CurrentTransportState>"@ =~= seq!['<'] + t + seq!['>']);
        assert(last.take(24) =~= "</"@ + t + ">"@);
        assert(last =~= last.take(24) + x);
    }
    lemma_child_hit(t, a, x);
}

/// The answers on the volume and on silence tell them: the volume in whole
/// percents, and silence as a one.
pub proof fn lemma_loudness_told(s: SessionView, st: PlaybackState, body: Seq<char>)
    ensures
        ({
            let r = rendering_control_spec(s, st, "GetVolume"@, body).1;
            r is Ok && text_of_tag(r->Ok_0.1, "CurrentVolume"@) == Some(
                crate::num::dec(percent(st.volume_milli as nat)),
            )
        }),
        ({
            let r = rendering_control_spec(s, st, "GetMute"@, body).1;
            r is Ok && text_of_tag(r->Ok_0.1, "CurrentMute"@) == Some(
                if s.pre_mute_volume is Some {
                    "1"@
                } else {
                    "0"@
                },
            )
        }),
{
    let a = crate::num::dec(percent(st.volume_milli as nat));
    let b = if s.pre_mute_volume is Some {
        "1"@
    } else {
        "0"@
    };
    let none = Seq::<char>::empty();
    lemma_action_names();
    lemma_answer_letters();
    crate::num::lemma_dec_digits(percent(st.volume_milli as nat));
    lemma_plain_content(a);
    reveal_strlit("1");
    reveal_strlit("0");
    lemma_plain_content(b);
    assert("<CurrentVolume>"@ + a + "</CurrentVolume>"@ =~= element("CurrentVolume"@, a) + none) by {
        reveal_strlit("<CurrentVolume>");
        reveal_strlit("</CurrentVolume>");
        reveal_strlit("CurrentVolume");
        reveal_strlit("</");
        reveal_strlit(">");
        assert("<CurrentVolume>"@ =~= seq!['<'] + "CurrentVolume"@ + seq!['>']);
        assert("</CurrentVolume>"@ =~= "</"@ + "CurrentVolume"@ + ">"@);
    }
    assert("<CurrentMute>"@ + b + "</CurrentMute>"@ =~= element("CurrentMute"@, b) + none) by {
        reveal_strlit("<CurrentMute>");
        reveal_strlit("</CurrentMute>");
        reveal_strlit("CurrentMute");
        reveal_strlit("</");
        reveal_strlit(">");
        assert("<CurrentMute>"@ =~= seq!['<'] + "CurrentMute"@ + seq!['>']);
        assert("</CurrentMute>"@ =~= "</"@ + "CurrentMute"@ + ">"@);
    }
    lemma_child_hit("CurrentVolume"@, a, none);
    lemma_child_hit("CurrentMute"@, b, none);
}

proof fn lemma_unamp_plain(s: Seq<char>)
    requires
        free_of(s, '&'),
    ensures
        crate::upnp::unamp(s) == s,
        crate::upnp::unquad(s) == s,
    decreases s.len(),
{
    if s.len() > 0 {
        assert forall|c: char| entity(c).len() > 1 implies !#[trigger] crate::text::starts_with(
            s,
            entity(c),
        ) by {
            if crate::text::starts_with(s, entity(c)) {
                assert(s.subrange(0, entity(c).len() as int)[0] == entity(c)[0]);
                assert(s[0] == '&');
            }
        }
        assert(!crate::text::starts_with(s, entity('<')));
        assert(!crate::text::starts_with(s, entity('>')));
        assert(!crate::text::starts_with(s, entity('"')));
        assert(!crate::text::starts_with(s, entity('\'')));
        assert(!crate::text::starts_with(s, entity('&')));
        lemma_unamp_plain(s.skip(1));
        assert(seq![s[0]] + s.skip(1) =~= s);
    }
}

/// Both sides read a document in which nothing is escaped, and no element closes
/// itself, in the same way.
pub proof fn lemma_readers_agree(x: Seq<char>, low: Seq<char>, n: Seq<char>, k: int)
    requires
        0 <= k,
        x.len() == low.len(),
        free_of(x, '&'),
        forall|i: int| 0 < i < low.len() && low[i - 1] == '/' ==> #[trigger] low[i] != '>',
    ensures
        crate::upnp::element_text(x, low, n, k) == crate::mediarenderer::xml::element_text(
            x,
            low,
            n,
            k,
        ),
    decreases low.len() - k,
{
    if k < low.len() {
        crate::text::lemma_index_of(low, '<', k);
        if let Some(lt) = crate::text::index_of(low, '<', k) {
            let abs = lt + 1;
            crate::mediarenderer::xml::lemma_name_end(low, abs);
            if abs < low.len() && (low[abs] == '/' || low[abs] == '!' || low[abs] == '?') {
                lemma_readers_agree(x, low, n, abs);
            } else {
                let end = crate::mediarenderer::xml::name_end(low, abs);
                let name = low.subrange(abs, end);
                if crate::mediarenderer::xml::local_part(name) == n {
                    crate::text::lemma_index_of(low, '>', abs);
                    if let Some(gt) = crate::text::index_of(low, '>', abs) {
                        let close = "</"@ + name + ">"@;
                        crate::text::lemma_find_from(low, close, gt + 1);
                        if let Some(c) = crate::text::find_from(low, close, gt + 1) {
                            let t = trimmed(x.subrange(gt + 1, c));
                            crate::text::lemma_trimmed(x.subrange(gt + 1, c));
                            assert(free_of(t, '&')) by {
                                let whole = x.subrange(gt + 1, c);
                                let (a, b) = choose|a: int, b: int|
                                    0 <= a <= b <= whole.len() && t == #[trigger] whole.subrange(
                                        a,
                                        b,
                                    );
                                assert forall|i: int| 0 <= i < t.len() implies #[trigger] t[i]
                                    != '&' by {
                                    assert(t[i] == whole.subrange(a, b)[i]);
                                    assert(t[i] == x[gt + 1 + a + i]);
                                }
                            }
                            lemma_decode_plain(t);
                            lemma_unamp_plain(t);
                        }
                    }
                } else {
                    lemma_readers_agree(x, low, n, end);
                }
            }
        }
    }
}

/// What a renderer of this program says of its state is what the controlling
/// side takes it for: playing is playing, paused is paused, and rest is rest.
pub proof fn lemma_state_understood(status: PlaybackStatus)
    ensures
        ({
            let name = crate::upnp::tag_or_empty(
                transport_text(status),
                "CurrentTransportState"@,
            );
            &&& name == transport_name(status)
            &&& status == PlaybackStatus::Playing || status == PlaybackStatus::Paused || status
                == PlaybackStatus::Buffering ==> crate::upnp::transport_status(name) == Some(status)
            &&& status == PlaybackStatus::Stopped || status == PlaybackStatus::Idle
                ==> crate::upnp::at_rest(name)
        }),
{
    let x = transport_text(status);
    let low = lower(x);
    lemma_transport_told(status);
    lemma_transport_signs(status);
    assert forall|i: int| 0 < i < low.len() && low[i - 1] == '/' implies #[trigger] low[i] != '>' by {
        assert(low[i] == lower_char(x[i]));
        assert(low[i - 1] == lower_char(x[i - 1]));
    }
    lemma_readers_agree(x, low, lower("CurrentTransportState"@), 0);
    crate::upnp::lemma_status_understood(status);
}

/// No escape and no element that closes itself stands from a position on.
pub open spec fn unsigned(s: Seq<char>, from: int) -> bool
    decreases s.len() - from,
{
    from < 0 || from >= s.len() || (s[from] != '&' && (from + 1 < s.len() && s[from] == '/'
        ==> s[from + 1] != '>') && unsigned(s, from + 1))
}

proof fn lemma_unsigned(s: Seq<char>, from: int, i: int)
    requires
        0 <= from <= i < s.len(),
        unsigned(s, from),
    ensures
        s[i] != '&',
        i + 1 < s.len() && s[i] == '/' ==> s[i + 1] != '>',
    decreases i - from,
{
    if from < i {
        lemma_unsigned(s, from + 1, i);
    }
}

proof fn lemma_transport_signs(status: PlaybackStatus)
    ensures
        free_of(transport_text(status), '&'),
        forall|i: int|
            0 < i < transport_text(status).len() && transport_text(status)[i - 1] == '/'
                ==> #[trigger] transport_text(status)[i] != '>',
{
    let head = "<CurrentTransportState>"@;
    let a = transport_name(status);
    let tail = "</CurrentTransportState><CurrentTransportStatus>OK</CurrentTransportStatus><CurrentSpeed>1</CurrentSpeed>"@;
    let x = transport_text(status);
    reveal_strlit("<CurrentTransportState>");
    reveal_strlit(
        "</CurrentTransportState><CurrentTransportStatus>OK</CurrentTransportStatus><CurrentSpeed>1</CurrentSpeed>",
    );
    reveal_strlit("PLAYING");
    reveal_strlit("PAUSED_PLAYBACK");
    reveal_strlit("TRANSITIONING");
    reveal_strlit("STOPPED");
    assert(unsigned(head, 0)) by {
        reveal_with_fuel(unsigned, 32);
    }
    assert(unsigned(a, 0)) by {
        reveal_with_fuel(unsigned, 32);
    }
    assert(unsigned(tail, 90)) by {
        reveal_with_fuel(unsigned, 32);
    }
    assert(unsigned(tail, 60)) by {
        reveal_with_fuel(unsigned, 32);
    }
    assert(unsigned(tail, 30)) by {
        reveal_with_fuel(unsigned, 32);
    }
    assert(unsigned(tail, 0)) by {
        reveal_with_fuel(unsigned, 32);
    }
    let p = head.len() as int;
    let q = p + a.len();
    assert forall|i: int| 0 <= i < x.len() implies #[trigger] x[i] != '&' && (i + 1 < x.len() && x[i]
        == '/' ==> x[i + 1] != '>') by {
        if i < p {
            assert(x[i] == head[i]);
            lemma_unsigned(head, 0, i);
            if i + 1 < p {
                assert(x[i + 1] == head[i + 1]);
            } else {
                assert(head[p - 1] == '>');
            }
        } else if i < q {
            assert(x[i] == a[i - p]);
            lemma_unsigned(a, 0, i - p);
            if i + 1 < q {
                assert(x[i + 1] == a[i + 1 - p]);
            } else {
                assert(x[i + 1] == tail[0]);
            }
        } else {
            assert(x[i] == tail[i - q]);
            lemma_unsigned(tail, 0, i - q);
            if i + 1 < x.len() {
                assert(x[i + 1] == tail[i + 1 - q]);
            }
        }
    }
    assert forall|i: int| 0 < i < x.len() && x[i - 1] == '/' implies #[trigger] x[i] != '>' by {
        assert(x[i - 1] != '&');
    }
}

/// The event document comes out of its property set as it went in.
pub proof fn lemma_event_read(event: Seq<char>)
    ensures
        text_of_tag(propertyset_text(event), "LastChange"@) == Some(trimmed(event)),
{
    let head = "<?xml version=\"1.0\" encoding=\"utf-8\"?>\n<e:propertyset xmlns:e=\"urn:schemas-upnp-org:event-1-0\"><e:property><LastChange>"@;
    let pi = "?xml version=\"1.0\" encoding=\"utf-8\"?"@;
    let attr = " xmlns:e=\"urn:schemas-upnp-org:event-1-0\""@;
    let ep = seq!['e', ':'];
    let none = Seq::<char>::empty();
    let nl = seq!['\n'];
    let t = "LastChange"@;
    let n = lower(t);
    let c = encoded(event);
    let tail = "</LastChange></e:property></e:propertyset>"@;
    let x = tail.skip(13);
    let last = element(t, c) + x;
    let a3 = seq!['<'] + (ep + "property"@ + none) + seq!['>'];
    let a2 = seq!['<'] + (ep + "propertyset"@ + attr) + seq!['>'];
    reveal_strlit("?xml version=\"1.0\" encoding=\"utf-8\"?");
    reveal_strlit(" xmlns:e=\"urn:schemas-upnp-org:event-1-0\"");
    reveal_strlit("LastChange");
    reveal_strlit("property");
    reveal_strlit("propertyset");
    assert(propertyset_text(event) =~= seq!['<'] + pi + seq!['>'] + (nl + (a2 + (a3 + last)))) by {
        reveal_strlit(
            "<?xml version=\"1.0\" encoding=\"utf-8\"?>\n<e:propertyset xmlns:e=\"urn:schemas-upnp-org:event-1-0\"><e:property><LastChange>",
        );
        reveal_strlit("</LastChange></e:property></e:propertyset>");
        reveal_strlit("</");
        reveal_strlit(">");
        let open = seq!['<'] + t + seq!['>'];
        let close = "</"@ + t + ">"@;
        assert(head =~= seq!['<'] + pi + seq!['>'] + (nl + (a2 + (a3 + open))));
        assert(tail.take(13) =~= close);
        assert(tail =~= close + x);
        assert(propertyset_text(event) =~= head + c + (close + x));
        assert(last =~= open + c + close + x);
        lemma_nested(seq!['<'] + pi + seq!['>'], nl, a2, a3, open, c, close, x);
    }
    assert(free_of(pi, '<') && pi[0] == '?') by {
        assert(plain(pi, 30)) by {
            reveal_with_fuel(plain, 32);
        }
        assert(plain(pi, 0)) by {
            reveal_with_fuel(plain, 32);
        }
        lemma_plain_free(pi);
    }
    assert(free_of(attr, '<') && attr[0] == ' ') by {
        assert(plain(attr, 30)) by {
            reveal_with_fuel(plain, 32);
        }
        assert(plain(attr, 0)) by {
            reveal_with_fuel(plain, 32);
        }
        lemma_plain_free(attr);
    }
    assert(prefix_like(ep)) by {
        assert(ep.drop_last() =~= seq!['e']);
    }
    assert(letters(t) && t.len() == 10 && n.len() == 10);
    assert(letters("property"@) && "property"@.len() == 8 && lower("property"@).len() == 8);
    assert(letters("propertyset"@) && "propertyset"@.len() == 11 && lower("propertyset"@).len()
        == 11);
    lemma_skip_tag(pi, nl + (a2 + (a3 + last)), n);
    lemma_skip_text(nl, a2 + (a3 + last), n);
    lemma_tag_skip(ep, "propertyset"@, attr, a3 + last, n);
    lemma_tag_skip(ep, "property"@, none, last, n);
    lemma_encoded_free(event);
    lemma_text_back(event);
    lemma_child_hit(t, c, x);
}

proof fn lemma_nested(
    a: Seq<char>,
    b: Seq<char>,
    c: Seq<char>,
    d: Seq<char>,
    open: Seq<char>,
    t: Seq<char>,
    close: Seq<char>,
    x: Seq<char>,
)
    ensures
        (a + (b + (c + (d + open)))) + t + (close + x) == a + (b + (c + (d + (open + t + close
            + x)))),
{
    assert((a + (b + (c + (d + open)))) + t + (close + x) =~= a + (b + (c + (d + (open + t + close
        + x)))));
}

// ---------------------------------------------------------------------------
// Services
// ---------------------------------------------------------------------------

/// The block of a service in a description, with its type and its address.
pub open spec fn service_block(ty: Seq<char>, url: Seq<char>) -> Seq<char> {
    element("serviceType"@, ty) + element("controlURL"@, url)
}

/// A text that is taken as it is: no tag and no escape in it, and no blanks
/// round it.
pub open spec fn bare(s: Seq<char>) -> bool {
    &&& free_of(s, '<')
    &&& free_of(s, '>')
    &&& free_of(s, '&')
    &&& trimmed(s) == s
}

proof fn lemma_block_shape(ty: Seq<char>, url: Seq<char>)
    ensures
        service_block(ty, url) == "<serviceType>"@ + ty + "</serviceType>"@ + "<controlURL>"@ + url
            + "</controlURL>"@,
        letters("serviceType"@) && "serviceType"@.len() == 11 && lower("serviceType"@).len() == 11,
        letters("controlURL"@) && "controlURL"@.len() == 10 && lower("controlURL"@).len() == 10,
{
    reveal_strlit("<serviceType>");
    reveal_strlit("</serviceType>");
    reveal_strlit("<controlURL>");
    reveal_strlit("</controlURL>");
    reveal_strlit("serviceType");
    reveal_strlit("controlURL");
    reveal_strlit("</");
    reveal_strlit(">");
    assert("<serviceType>"@ =~= seq!['<'] + "serviceType"@ + seq!['>']);
    assert("</serviceType>"@ =~= "</"@ + "serviceType"@ + ">"@);
    assert("<controlURL>"@ =~= seq!['<'] + "controlURL"@ + seq!['>']);
    assert("</controlURL>"@ =~= "</"@ + "controlURL"@ + ">"@);
    assert(service_block(ty, url) =~= "<serviceType>"@ + ty + "</serviceType>"@ + "<controlURL>"@
        + url + "</controlURL>"@);
}

/// What each character of a block is.
proof fn lemma_block_signs(ty: Seq<char>, url: Seq<char>, i: int)
    requires
        bare(ty),
        bare(url),
        0 <= i < service_block(ty, url).len(),
    ensures
        ({
            let b = service_block(ty, url);
            &&& b[i] != '&'
            &&& b[i] == '<' ==> {
                ||| i == 0 && b[i + 1] == 's'
                ||| i == 13 + ty.len() && i + 9 < b.len() && b[i + 9] == 'T'
                ||| i == 27 + ty.len() && b[i + 1] == 'c'
                ||| i == 39 + ty.len() + url.len() && b[i + 2] == 'c'
            }
            &&& i > 0 && b[i - 1] == '/' ==> b[i] != '>'
        }),
{
    lemma_block_shape(ty, url);
    reveal_strlit("<serviceType>");
    reveal_strlit("</serviceType>");
    reveal_strlit("<controlURL>");
    reveal_strlit("</controlURL>");
    let b = service_block(ty, url);
    let n = ty.len() as int;
    let m = url.len() as int;
    assert(b.len() == 13 + n + 14 + 12 + m + 13);
    lemma_block_at(ty, url, i);
    if i > 0 {
        lemma_block_at(ty, url, i - 1);
    }
    if i + 1 < b.len() {
        lemma_block_at(ty, url, i + 1);
    }
    if i + 2 < b.len() {
        lemma_block_at(ty, url, i + 2);
    }
    if i + 9 < b.len() {
        lemma_block_at(ty, url, i + 9);
    }
}

proof fn lemma_block_at(ty: Seq<char>, url: Seq<char>, i: int)
    requires
        0 <= i < service_block(ty, url).len(),
    ensures
        ({
            let b = service_block(ty, url);
            let n = ty.len() as int;
            let m = url.len() as int;
            &&& b.len() == 52 + n + m
            &&& i < 13 ==> b[i] == "<serviceType>"@[i]
            &&& 13 <= i < 13 + n ==> b[i] == ty[i - 13]
            &&& 13 + n <= i < 27 + n ==> b[i] == "</serviceType>"@[i - 13 - n]
            &&& 27 + n <= i < 39 + n ==> b[i] == "<controlURL>"@[i - 27 - n]
            &&& 39 + n <= i < 39 + n + m ==> b[i] == url[i - 39 - n]
            &&& 39 + n + m <= i ==> b[i] == "</controlURL>"@[i - 39 - n - m]
        }),
{
    lemma_block_shape(ty, url);
    reveal_strlit("<serviceType>");
    reveal_strlit("</serviceType>");
    reveal_strlit("<controlURL>");
    reveal_strlit("</controlURL>");
}

/// The control address of a service is the one that stands in the block of its
/// type.
pub proof fn lemma_service_found(ty: Seq<char>, url: Seq<char>, wanted: Seq<char>)
    requires
        bare(ty),
        bare(url),
        crate::text::contains(ty, wanted),
    ensures
        ({
            let xml = "<service>"@ + service_block(ty, url) + "</service>"@;
            crate::upnp::service_control(xml, lower(xml), wanted, 0) == Some(url)
        }),
{
    let b = service_block(ty, url);
    let xml = "<service>"@ + b + "</service>"@;
    let low = lower(xml);
    let open = "<service"@;
    let close = "</service>"@;
    let at = 9 + b.len() as int;
    reveal_strlit("<service>");
    reveal_strlit("<service");
    reveal_strlit("</service>");
    assert(low.subrange(0, 8) =~= open);
    assert(crate::text::matches_at(low, open, 0));
    assert(crate::text::find_from(low, open, 0) == Some(0int));
    crate::text::lemma_index_of(low, '>', 0);
    assert(low[8] == '>');
    assert(crate::text::index_of(low, '>', 0) == Some(8int));
    assert(low.subrange(at, at + 10) =~= close);
    assert(crate::text::matches_at(low, close, at));
    assert forall|j: int| 9 <= j < at implies !crate::text::matches_at(low, close, j) by {
        if crate::text::matches_at(low, close, j) {
            let here = low.subrange(j, j + 10);
            assert(here[0] == '<' && here[1] == '/' && here[2] == 's' && here[9] == '>');
            lemma_block_signs(ty, url, j - 9);
            assert(xml[j] == b[j - 9]);
            assert(low[j] == lower_char(xml[j]));
            assert(low[j + 1] == lower_char(xml[j + 1]));
            assert(low[j + 2] == lower_char(xml[j + 2]));
            assert(low[j + 9] == lower_char(xml[j + 9]));
            lemma_block_at(ty, url, j - 9);
            assert(xml[j + 1] == b[j - 8]);
            if j - 7 < b.len() {
                assert(xml[j + 2] == b[j - 7]);
            }
            if j < b.len() {
                assert(xml[j + 9] == b[j]);
            }
        }
    }
    crate::text::lemma_find_from(low, close, 9);
    assert(crate::text::find_from(low, close, 9) == Some(at));
    assert(xml.subrange(9, at) =~= b);
    lemma_block_shape(ty, url);
    let lb = lower(b);
    assert forall|i: int| 0 <= i < b.len() implies #[trigger] b[i] != '&' by {
        lemma_block_signs(ty, url, i);
    }
    assert forall|i: int| 0 < i < lb.len() && lb[i - 1] == '/' implies #[trigger] lb[i] != '>' by {
        lemma_block_signs(ty, url, i);
        assert(lb[i] == lower_char(b[i]));
        assert(lb[i - 1] == lower_char(b[i - 1]));
    }
    let none = Seq::<char>::empty();
    let second = element("controlURL"@, url);
    assert(b =~= element("serviceType"@, ty) + (second + none));
    lemma_decode_plain(ty);
    lemma_decode_plain(url);
    lemma_child_hit("serviceType"@, ty, second + none);
    lemma_child_skip("serviceType"@, ty, second + none, lower("controlURL"@));
    lemma_child_hit("controlURL"@, url, none);
    lemma_readers_agree(b, lb, lower("serviceType"@), 0);
    lemma_readers_agree(b, lb, lower("controlURL"@), 0);
}

} // verus!
