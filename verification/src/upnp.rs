//! UPnP renderers on the network, seen from the controlling side: finding
//! them, describing them, and driving them.

use vstd::prelude::*;
use vstd::slice::slice_subrange;

use crate::mediarenderer::xml::find_name_end;
use crate::num::{clock_of, fmt_hms, push_dec};
use crate::queue::{QueueItem, QueueView};
use crate::remote::{limit_volume, After, Plan, Remote, RemoteAction, RemoteView};
use crate::renderer::{secs_to_us, PlaybackStatus, RendererCall, StateView};
use crate::text::{
    chars, eq_chars, find, find_after_last, find_char, has, lossy, match_at, split_at_char, str_eq,
    to_lower, trim,
};

verus! {

/// The type of the devices that are searched for.
pub const RENDERER_ST: &'static str = "urn:schemas-upnp-org:device:MediaRenderer:1";

pub const AV_TRANSPORT_SERVICE: &'static str = "urn:schemas-upnp-org:service:AVTransport:1";

pub const RENDERING_CONTROL_SERVICE: &'static str =
    "urn:schemas-upnp-org:service:RenderingControl:1";

/// The search that is multicast to find renderers.
pub const SEARCH_REQUEST: &'static str =
    "M-SEARCH * HTTP/1.1\r\nHOST: 239.255.255.250:1900\r\nMAN: \"ssdp:discover\"\r\nMX: 2\r\nST: urn:schemas-upnp-org:device:MediaRenderer:1\r\nUSER-AGENT: fin/1 UPnP/1.0\r\n\r\n";

/// A renderer on the network.
#[derive(Debug)]
pub struct UpnpDevice {
    pub udn: String,
    pub friendly_name: String,
    pub model: String,
    pub manufacturer: String,
    /// Where its answer came from (used only for display).
    pub address: String,
    /// Description document URL.
    pub location: String,
    /// Absolute URL to post AVTransport actions to.
    pub av_transport_control_url: String,
    /// Absolute URL to post RenderingControl actions to. Some small renderers
    /// have AVTransport only; their volume cannot be set.
    pub rendering_control_url: Option<String>,
}

impl Clone for UpnpDevice {
    fn clone(&self) -> (r: Self)
        ensures
            r == *self,
    {
        UpnpDevice {
            udn: self.udn.clone(),
            friendly_name: self.friendly_name.clone(),
            model: self.model.clone(),
            manufacturer: self.manufacturer.clone(),
            address: self.address.clone(),
            location: self.location.clone(),
            av_transport_control_url: self.av_transport_control_url.clone(),
            rendering_control_url: crate::queue::clone_opt(&self.rendering_control_url),
        }
    }
}

impl UpnpDevice {
    /// The name under which a device is shown: the first of its friendly name
    /// and its model that is not empty, else its unique name.
    pub open spec fn shown_as(self) -> Seq<char> {
        if self.friendly_name@.len() > 0 {
            self.friendly_name@
        } else if self.model@.len() > 0 {
            self.model@
        } else {
            self.udn@
        }
    }

    pub fn display_name(&self) -> (r: String)
        ensures
            r@ == self.shown_as(),
    {
        if !self.friendly_name.as_str().is_empty() {
            self.friendly_name.clone()
        } else if !self.model.as_str().is_empty() {
            self.model.clone()
        } else {
            self.udn.clone()
        }
    }
}

/// The value of the first header with this name in an SSDP message.
pub fn header(text: &str, name: &str) -> (r: Option<String>)
    ensures
        crate::text::opt_view(r) == crate::mediarenderer::ssdp::header_in(
            crate::text::lines(text@),
            name@,
        ),
{
    crate::mediarenderer::ssdp::header(text, name)
}

/// The value of the first header with this name in an SSDP message as it was
/// received.
pub fn header_bytes(packet: &[u8], name: &str) -> (r: Option<String>)
    ensures
        crate::text::opt_view(r) == crate::mediarenderer::ssdp::header_in(
            crate::text::lines(crate::text::utf8_lossy(packet@)),
            name@,
        ),
{
    header(lossy(packet).as_str(), name)
}

/// A text with every `&amp;` read as an ampersand.
pub open spec fn unamp(s: Seq<char>) -> Seq<char>
    decreases s.len(),
{
    if s.len() == 0 {
        s
    } else if crate::text::starts_with(s, crate::mediarenderer::xml::entity('&')) {
        seq!['&'] + unamp(s.skip(5))
    } else {
        seq![s[0]] + unamp(s.skip(1))
    }
}

/// A text with the four entities other than `&amp;` replaced.
pub open spec fn unquad(s: Seq<char>) -> Seq<char>
    decreases s.len(),
{
    if s.len() == 0 {
        s
    } else {
        match crate::mediarenderer::xml::leading_entity(s) {
            Some((c, n)) => if c == '&' {
                seq![s[0]] + unquad(s.skip(1))
            } else {
                seq![c] + unquad(s.skip(n))
            },
            None => seq![s[0]] + unquad(s.skip(1)),
        }
    }
}

/// How the controlling side reads XML text: ampersands first, so that a text
/// that was escaped twice comes out plain.
pub open spec fn lenient(s: Seq<char>) -> Seq<char> {
    unquad(unamp(s))
}

fn unamp_chars(s: &[char]) -> (r: Vec<char>)
    ensures
        r@ == unamp(s@),
{
    let amp: [char; 5] = ['&', 'a', 'm', 'p', ';'];
    proof {
        assert(amp@ =~= crate::mediarenderer::xml::entity('&'));
    }
    let mut out: Vec<char> = Vec::new();
    let mut i: usize = 0;
    proof {
        assert(s@.skip(0) =~= s@);
        assert(out@ + unamp(s@) =~= unamp(s@));
    }
    while i < s.len()
        invariant
            i <= s@.len(),
            amp@ == crate::mediarenderer::xml::entity('&'),
            out@ + unamp(s@.skip(i as int)) == unamp(s@),
        decreases s@.len() - i,
    {
        let ghost rest = s@.skip(i as int);
        let ghost before = out@;
        proof {
            if amp@.len() <= rest.len() {
                assert(rest.subrange(0, 5) =~= s@.subrange(i as int, i + 5));
            }
        }
        if match_at(s, &amp, i) {
            out.push('&');
            proof {
                assert(rest.skip(5) =~= s@.skip(i + 5));
                assert(out@ + unamp(rest.skip(5)) =~= before + (seq!['&'] + unamp(rest.skip(5))));
            }
            i += 5;
        } else {
            out.push(s[i]);
            proof {
                assert(rest.skip(1) =~= s@.skip(i + 1));
                assert(out@ + unamp(rest.skip(1)) =~= before + (seq![rest[0]] + unamp(
                    rest.skip(1),
                )));
            }
            i += 1;
        }
    }
    proof {
        assert(unamp(s@.skip(i as int)).len() == 0);
        assert(out@ =~= unamp(s@));
    }
    out
}

fn unquad_chars(s: &[char]) -> (r: String)
    ensures
        r@ == unquad(s@),
{
    let mut out: String = String::new();
    let mut i: usize = 0;
    proof {
        assert(s@.skip(0) =~= s@);
        assert(out@ + unquad(s@) =~= unquad(s@));
    }
    while i < s.len()
        invariant
            i <= s@.len(),
            out@ + unquad(s@.skip(i as int)) == unquad(s@),
        decreases s@.len() - i,
    {
        let ghost rest = s@.skip(i as int);
        let ghost before = out@;
        match crate::mediarenderer::xml::entity_here(s, i) {
            Some((c, n)) => {
                if c == '&' {
                    out.push(s[i]);
                    proof {
                        assert(rest.skip(1) =~= s@.skip(i + 1));
                        assert(out@ + unquad(rest.skip(1)) =~= before + (seq![rest[0]] + unquad(
                            rest.skip(1),
                        )));
                    }
                    i += 1;
                } else {
                    out.push(c);
                    proof {
                        assert(rest.skip(n as int) =~= s@.skip(i + n));
                        assert(out@ + unquad(rest.skip(n as int)) =~= before + (seq![c] + unquad(
                            rest.skip(n as int),
                        )));
                    }
                    i += n;
                }
            },
            None => {
                out.push(s[i]);
                proof {
                    assert(rest.skip(1) =~= s@.skip(i + 1));
                    assert(out@ + unquad(rest.skip(1)) =~= before + (seq![rest[0]] + unquad(
                        rest.skip(1),
                    )));
                }
                i += 1;
            },
        }
    }
    proof {
        assert(unquad(s@.skip(i as int)).len() == 0);
        assert(out@ =~= unquad(s@));
    }
    out
}

/// Replaces the entities in a text, ampersands first.
pub fn decode_entities(s: &str) -> (r: String)
    ensures
        r@ == lenient(s@),
{
    let cs: Vec<char> = chars(s);
    let plain: Vec<char> = unamp_chars(cs.as_slice());
    unquad_chars(plain.as_slice())
}

/// Writes a text so that XML takes it literally.
pub fn encode_entities(s: &str) -> (r: String)
    ensures
        r@ == crate::mediarenderer::xml::encoded(s@),
{
    crate::mediarenderer::xml::encode_entities(s)
}

/// The text of the first element at or behind `cursor` whose local name is
/// `needle`. The tags are looked up in `low`, the text is taken from `xml`.
pub open spec fn element_text(
    xml: Seq<char>,
    low: Seq<char>,
    needle: Seq<char>,
    cursor: int,
) -> Option<Seq<char>>
    decreases low.len() - cursor,
{
    if cursor < 0 || cursor >= low.len() {
        None
    } else {
        match crate::text::index_of(low, '<', cursor) {
            None => None,
            Some(lt) => {
                let abs = lt + 1;
                proof {
                    crate::text::lemma_index_of(low, '<', cursor);
                    crate::mediarenderer::xml::lemma_name_end(low, abs);
                }
                if abs < low.len() && (low[abs] == '/' || low[abs] == '!' || low[abs] == '?') {
                    element_text(xml, low, needle, abs)
                } else {
                    let end = crate::mediarenderer::xml::name_end(low, abs);
                    let name = low.subrange(abs, end);
                    if crate::mediarenderer::xml::local_part(name) == needle {
                        match crate::text::index_of(low, '>', abs) {
                            None => None,
                            Some(gt) => match crate::text::find_from(
                                low,
                                "</"@ + name + ">"@,
                                gt + 1,
                            ) {
                                None => None,
                                Some(close) => Some(
                                    lenient(crate::text::trimmed(xml.subrange(gt + 1, close))),
                                ),
                            },
                        }
                    } else {
                        element_text(xml, low, needle, end)
                    }
                }
            },
        }
    }
}

/// The text of the first element with this local name, upper and lower case
/// alike.
pub open spec fn text_of_tag(xml: Seq<char>, local_name: Seq<char>) -> Option<Seq<char>> {
    element_text(xml, crate::text::lower(xml), crate::text::lower(local_name), 0)
}

/// Extracts the text of the first `<tag>...</tag>` pair by the local name of
/// the tag.
pub fn tag_text(xml: &str, local_name: &str) -> (r: Option<String>)
    ensures
        crate::text::opt_view(r) == text_of_tag(xml@, local_name@),
{
    let cs: Vec<char> = chars(xml);
    let name: Vec<char> = chars(local_name);
    tag_chars(cs.as_slice(), name.as_slice())
}

fn tag_chars(xml: &[char], local_name: &[char]) -> (r: Option<String>)
    ensures
        crate::text::opt_view(r) == text_of_tag(xml@, local_name@),
{
    let low: Vec<char> = to_lower(xml);
    let needle: Vec<char> = to_lower(local_name);
    let mut cursor: usize = 0;
    while cursor < low.len()
        invariant
            low@ == crate::text::lower(xml@),
            low@.len() == xml@.len(),
            needle@ == crate::text::lower(local_name@),
            cursor <= low@.len(),
            text_of_tag(xml@, local_name@) == element_text(xml@, low@, needle@, cursor as int),
        decreases low@.len() - cursor,
    {
        let lt: usize = match find_char(low.as_slice(), '<', cursor) {
            Some(i) => i,
            None => {
                return None;
            },
        };
        let abs: usize = lt + 1;
        if abs < low.len() && (low[abs] == '/' || low[abs] == '!' || low[abs] == '?') {
            cursor = abs;
        } else {
            let end: usize = find_name_end(low.as_slice(), abs);
            let name: &[char] = slice_subrange(low.as_slice(), abs, end);
            let colon: usize = find_after_last(name, ':');
            let local: &[char] = slice_subrange(name, colon, name.len());
            proof {
                assert(local@ =~= crate::mediarenderer::xml::local_part(name@));
            }
            if eq_chars(local, needle.as_slice()) {
                let gt: usize = match find_char(low.as_slice(), '>', abs) {
                    Some(i) => i,
                    None => {
                        return None;
                    },
                };
                let close: Vec<char> = crate::mediarenderer::xml::close_tag(name);
                match find(low.as_slice(), close.as_slice(), gt + 1) {
                    Some(c) => {
                        let inner: &[char] = slice_subrange(xml, gt + 1, c);
                        let plain: Vec<char> = unamp_chars(trim(inner));
                        return Some(unquad_chars(plain.as_slice()));
                    },
                    None => {
                        return None;
                    },
                }
            }
            cursor = end;
        }
    }
    None
}

/// The `controlURL` of the first `<service>` block at or behind `cursor` whose
/// `serviceType` contains `service_type` and that has one.
pub open spec fn service_control(
    xml: Seq<char>,
    low: Seq<char>,
    service_type: Seq<char>,
    cursor: int,
) -> Option<Seq<char>>
    decreases low.len() - cursor,
{
    if cursor < 0 || cursor > low.len() {
        None
    } else {
        match crate::text::find_from(low, "<service"@, cursor) {
            None => None,
            Some(start) => match crate::text::index_of(low, '>', start) {
                None => None,
                Some(g) => match crate::text::find_from(low, "</service>"@, g + 1) {
                    None => None,
                    Some(end) => {
                        let block = xml.subrange(g + 1, end);
                        let next = end + "</service>"@.len();
                        let ty = text_of_tag(block, "serviceType"@);
                        let ctrl = text_of_tag(block, "controlURL"@);
                        proof {
                            crate::text::lemma_find_from(low, "<service"@, cursor);
                            crate::text::lemma_index_of(low, '>', start);
                            crate::text::lemma_find_from(low, "</service>"@, g + 1);
                        }
                        if ty is Some && crate::text::contains(ty->0, service_type) && ctrl is Some {
                            ctrl
                        } else {
                            service_control(xml, low, service_type, next)
                        }
                    },
                },
            },
        }
    }
}

/// The `controlURL` of a service in a description document, as it stands
/// there.
pub fn find_service_path(xml: &str, service_type: &str) -> (r: Option<String>)
    ensures
        crate::text::opt_view(r) == service_control(
            xml@,
            crate::text::lower(xml@),
            service_type@,
            0,
        ),
{
    let cs: Vec<char> = chars(xml);
    let low: Vec<char> = to_lower(cs.as_slice());
    let open: Vec<char> = chars("<service");
    let close: Vec<char> = chars("</service>");
    let type_tag: Vec<char> = chars("serviceType");
    let url_tag: Vec<char> = chars("controlURL");
    let mut cursor: usize = 0;
    loop
        invariant
            cs@ == xml@,
            low@ == crate::text::lower(xml@),
            low@.len() == xml@.len(),
            open@ == "<service"@,
            close@ == "</service>"@,
            type_tag@ == "serviceType"@,
            url_tag@ == "controlURL"@,
            cursor <= low@.len(),
            service_control(xml@, low@, service_type@, 0) == service_control(
                xml@,
                low@,
                service_type@,
                cursor as int,
            ),
        decreases low@.len() - cursor,
    {
        let start: usize = match find(low.as_slice(), open.as_slice(), cursor) {
            Some(i) => i,
            None => {
                return None;
            },
        };
        let g: usize = match find_char(low.as_slice(), '>', start) {
            Some(i) => i,
            None => {
                return None;
            },
        };
        let end: usize = match find(low.as_slice(), close.as_slice(), g + 1) {
            Some(i) => i,
            None => {
                return None;
            },
        };
        let block: &[char] = slice_subrange(cs.as_slice(), g + 1, end);
        let ty: Option<String> = tag_chars(block, type_tag.as_slice());
        let ctrl: Option<String> = tag_chars(block, url_tag.as_slice());
        let right: bool = match &ty {
            Some(t) => has(t.as_str(), service_type),
            None => false,
        };
        if right && ctrl.is_some() {
            return ctrl;
        }
        assert(low.len() == low@.len());
        cursor = end + close.len();
    }
}

/// Whether `url::Url::parse` takes a text.
pub uninterp spec fn url_parses(base: Seq<char>) -> bool;

/// Calls `url::Url::parse` and keeps whether it gave a URL. The claim: that
/// depends on the text alone.
#[verifier::external_body]
fn is_url(base: &str) -> (r: bool)
    ensures
        r == url_parses(base@),
{
    url::Url::parse(base).is_ok()
}

/// What `url::Url::join` makes of a base URL and a reference, written out.
pub uninterp spec fn url_joined(base: Seq<char>, reference: Seq<char>) -> Option<Seq<char>>;

/// Calls `url::Url::join` on the URL that the base parses to. The claim: the
/// outcome depends on the two texts alone, and there is none where the base is
/// no URL.
#[verifier::external_body]
fn url_join(base: &str, reference: &str) -> (r: Option<String>)
    ensures
        crate::text::opt_view(r) == url_joined(base@, reference@),
        !url_parses(base@) ==> r is None,
{
    match url::Url::parse(base) {
        Ok(b) => match b.join(reference) {
            Ok(u) => Some(u.to_string()),
            Err(_) => None,
        },
        Err(_) => None,
    }
}

/// The absolute control URL of a service: its `controlURL` resolved against
/// the address of the document.
pub open spec fn control_url(
    xml: Seq<char>,
    service_type: Seq<char>,
    base: Seq<char>,
) -> Option<Seq<char>> {
    match service_control(xml, crate::text::lower(xml), service_type, 0) {
        None => None,
        Some(c) => url_joined(base, c),
    }
}

/// Walks the `<service>` blocks of a description document and returns the
/// absolute `controlURL` of the service whose type contains the given text.
pub fn find_service_control(xml: &str, service_type: &str, base: &str) -> (r: Option<String>)
    ensures
        crate::text::opt_view(r) == control_url(xml@, service_type@, base@),
{
    match find_service_path(xml, service_type) {
        None => None,
        Some(c) => url_join(base, c.as_str()),
    }
}

/// Why a device cannot be used.
#[derive(Debug, Clone, Copy, PartialEq, Eq, Structural)]
pub enum DescribeError {
    /// The address of its description is no URL.
    BadLocation,
    /// It has no AVTransport service.
    NoAvTransport,
}

/// An element's text, or nothing.
pub open spec fn tag_or_empty(xml: Seq<char>, name: Seq<char>) -> Seq<char> {
    match text_of_tag(xml, name) {
        Some(t) => t,
        None => Seq::empty(),
    }
}

fn tag_or(xml: &str, name: &str) -> (r: String)
    ensures
        r@ == tag_or_empty(xml@, name@),
{
    match tag_text(xml, name) {
        Some(t) => t,
        None => String::new(),
    }
}

/// Whether a device is the one that a document describes, found at a location.
pub open spec fn described_by(
    d: UpnpDevice,
    body: Seq<char>,
    location: Seq<char>,
    address: Seq<char>,
) -> bool {
    &&& d.friendly_name@ == tag_or_empty(body, "friendlyName"@)
    &&& d.model@ == tag_or_empty(body, "modelName"@)
    &&& d.manufacturer@ == tag_or_empty(body, "manufacturer"@)
    &&& d.udn@ == (match text_of_tag(body, "UDN"@) {
        Some(u) => u,
        None => location,
    })
    &&& d.address@ == address
    &&& d.location@ == location
}

/// Puts a device together once its control URLs are known.
pub fn describe_with(
    body: &str,
    location: &str,
    address: &str,
    av_transport: Option<String>,
    rendering: Option<String>,
) -> (r: Result<UpnpDevice, DescribeError>)
    ensures
        r matches Ok(d) ==> described_by(d, body@, location@, address@),
        match r {
            Ok(d) => {
                &&& av_transport == Some(d.av_transport_control_url)
                &&& d.rendering_control_url == rendering
                &&& d.friendly_name@ == tag_or_empty(body@, "friendlyName"@)
                &&& d.model@ == tag_or_empty(body@, "modelName"@)
                &&& d.manufacturer@ == tag_or_empty(body@, "manufacturer"@)
                &&& d.udn@ == (match text_of_tag(body@, "UDN"@) {
                    Some(u) => u,
                    None => location@,
                })
                &&& d.address@ == address@
                &&& d.location@ == location@
            },
            Err(e) => av_transport is None && e == DescribeError::NoAvTransport,
        },
{
    let control: String = match av_transport {
        Some(u) => u,
        None => {
            return Err(DescribeError::NoAvTransport);
        },
    };
    let udn: String = match tag_text(body, "UDN") {
        Some(u) => u,
        None => location.to_owned(),
    };
    Ok(
        UpnpDevice {
            udn,
            friendly_name: tag_or(body, "friendlyName"),
            model: tag_or(body, "modelName"),
            manufacturer: tag_or(body, "manufacturer"),
            address: address.to_owned(),
            location: location.to_owned(),
            av_transport_control_url: control,
            rendering_control_url: rendering,
        },
    )
}

/// Reads a description document that was found at `location`.
pub fn describe(body: &str, location: &str, address: &str) -> (r: Result<
    UpnpDevice,
    DescribeError,
>)
    ensures
        r matches Ok(d) ==> described_by(d, body@, location@, address@),
        match r {
            Ok(d) => {
                &&& url_parses(location@)
                &&& control_url(body@, "AVTransport"@, location@) == Some(
                    d.av_transport_control_url@,
                )
                &&& crate::text::opt_view(d.rendering_control_url) == control_url(
                    body@,
                    "RenderingControl"@,
                    location@,
                )
                &&& d.friendly_name@ == tag_or_empty(body@, "friendlyName"@)
                &&& d.model@ == tag_or_empty(body@, "modelName"@)
                &&& d.manufacturer@ == tag_or_empty(body@, "manufacturer"@)
                &&& d.udn@ == (match text_of_tag(body@, "UDN"@) {
                    Some(u) => u,
                    None => location@,
                })
                &&& d.address@ == address@
                &&& d.location@ == location@
            },
            Err(DescribeError::BadLocation) => !url_parses(location@),
            Err(DescribeError::NoAvTransport) => url_parses(location@) && control_url(
                body@,
                "AVTransport"@,
                location@,
            ) is None,
        },
{
    if !is_url(location) {
        return Err(DescribeError::BadLocation);
    }
    let av_transport: Option<String> = find_service_control(body, "AVTransport", location);
    let rendering: Option<String> = find_service_control(body, "RenderingControl", location);
    describe_with(body, location, address, av_transport, rendering)
}

/// A clock time `H:MM:SS` in microseconds; what follows a third colon does not
/// count.
pub open spec fn clock_us(s: Seq<char>) -> Option<nat> {
    let t = crate::text::trimmed(s);
    if t.len() == 0 || t == "NOT_IMPLEMENTED"@ {
        None
    } else {
        let parts = crate::text::split(t, ':');
        if parts.len() < 3 {
            None
        } else {
            crate::num::clock(parts.take(3))
        }
    }
}

/// Parses `H:MM:SS[.fff]` into microseconds.
pub fn parse_hms(s: &str) -> (r: Option<u64>)
    ensures
        match r {
            Some(n) => clock_us(s@) == Some(n as nat),
            None => clock_us(s@) is None,
        },
{
    let cs: Vec<char> = chars(s);
    let t: &[char] = trim(cs.as_slice());
    let ni: Vec<char> = chars("NOT_IMPLEMENTED");
    if t.len() == 0 || eq_chars(t, ni.as_slice()) {
        return None;
    }
    let parts: Vec<Vec<char>> = split_at_char(t, ':');
    proof {
        assert(crate::text::views(parts@).len() == parts@.len());
        assert(forall|k: int|
            0 <= k < parts@.len() ==> crate::text::views(parts@)[k] == #[trigger] parts@[k]@);
    }
    if parts.len() < 3 {
        return None;
    }
    proof {
        let three = crate::text::views(parts@).take(3);
        assert(three =~= seq![parts@[0]@, parts@[1]@, parts@[2]@]);
    }
    clock_of(parts[0].as_slice(), parts[1].as_slice(), parts[2].as_slice())
}

/// A step forward or back in the queue, and the state told of the new
/// position, where there is one.
pub open spec fn stepped(r: RemoteView, q: QueueView) -> RemoteView {
    RemoteView {
        queue: q,
        state: if q.index is Some {
            StateView { current_index: q.index, ..r.state }
        } else {
            r.state
        },
    }
}

/// What each command does to the queue and the state, what the device is to
/// be asked, and what is left to do.
pub open spec fn command_spec(
    r: RemoteView,
    cmd: RendererCall,
    has_rendering: bool,
) -> (RemoteView, RemoteAction, After) {
    match cmd {
        RendererCall::Play(items, start) => {
            let t = r.played(items@, start as int);
            (t, t.load_current(), After::Nothing)
        },
        RendererCall::Enqueue(items) => {
            let t = RemoteView { queue: r.queue.appended(items@), ..r };
            (
                t,
                if r.queue.items.len() == 0 {
                    t.load_current()
                } else {
                    RemoteAction::Nothing
                },
                After::Sync,
            )
        },
        RendererCall::PlayNext(items) => {
            let t = RemoteView { queue: r.queue.inserted_next(items@), ..r };
            (
                t,
                if r.queue.items.len() == 0 {
                    t.load_current()
                } else {
                    RemoteAction::Nothing
                },
                After::Sync,
            )
        },
        RendererCall::Pause => (r, RemoteAction::Pause, After::Nothing),
        RendererCall::Resume => (r, RemoteAction::Resume, After::Nothing),
        RendererCall::Stop => (r.stopped(), RemoteAction::Stop, After::Nothing),
        RendererCall::Next => {
            let t = stepped(r, r.queue.advanced());
            (t, t.load_current(), After::Nothing)
        },
        RendererCall::Previous => {
            let t = stepped(r, r.queue.stepped_back());
            (t, t.load_current(), After::Nothing)
        },
        RendererCall::Seek(us) => (r, RemoteAction::Seek(us), After::Nothing),
        RendererCall::SetVolume(v) => (
            r,
            if has_rendering {
                RemoteAction::SetVolume(crate::remote::full_at_most(v))
            } else {
                RemoteAction::Nothing
            },
            After::Volume(crate::remote::full_at_most(v)),
        ),
        _ => (r, RemoteAction::Nothing, After::Nothing),
    }
}

/// Plans a command. `has_rendering` says whether the device has a
/// RenderingControl service. Without one the volume is only noted, so that the
/// user sees what was asked for.
pub fn handle_command(remote: &mut Remote, cmd: RendererCall, has_rendering: bool) -> (r: Plan)
    requires
        old(remote)@.queue.wf(),
    ensures
        (final(remote)@, r.action, r.after) == command_spec(old(remote)@, cmd, has_rendering),
        final(remote)@.queue.wf(),
{
    match cmd {
        RendererCall::Play(items, start) => remote.play(items, start),
        RendererCall::Enqueue(items) => remote.enqueue(items),
        RendererCall::PlayNext(items) => remote.play_next(items),
        RendererCall::Pause => Plan { action: RemoteAction::Pause, after: After::Nothing },
        RendererCall::Resume => Plan { action: RemoteAction::Resume, after: After::Nothing },
        RendererCall::Stop => {
            remote.stop();
            Plan { action: RemoteAction::Stop, after: After::Nothing }
        },
        RendererCall::Next => {
            if remote.queue.advance().is_some() {
                remote.state.current_index = remote.queue.current_index();
                Plan { action: remote.load_current(), after: After::Nothing }
            } else {
                Plan { action: RemoteAction::Nothing, after: After::Nothing }
            }
        },
        RendererCall::Previous => {
            if remote.queue.back().is_some() {
                remote.state.current_index = remote.queue.current_index();
                Plan { action: remote.load_current(), after: After::Nothing }
            } else {
                Plan { action: RemoteAction::Nothing, after: After::Nothing }
            }
        },
        RendererCall::Seek(us) => Plan { action: RemoteAction::Seek(us), after: After::Nothing },
        RendererCall::SetVolume(v) => {
            let v: u32 = limit_volume(v);
            let action: RemoteAction = if has_rendering {
                RemoteAction::SetVolume(v)
            } else {
                RemoteAction::Nothing
            };
            Plan { action, after: After::Volume(v) }
        },
        _ => Plan { action: RemoteAction::Nothing, after: After::Nothing },
    }
}

/// The state once the device has loaded an item and plays it.
pub open spec fn loaded(s: StateView, item: QueueItem) -> StateView {
    StateView {
        now_playing: Some(item),
        status: PlaybackStatus::Playing,
        duration_us: match item.duration_secs {
            Some(d) => crate::num::sat64(d as nat * 1_000_000) as u64,
            None => s.duration_us,
        },
        ..s
    }
}

/// Notes that the device has loaded an item and plays it.
pub fn load_done(remote: &mut Remote, item: &QueueItem)
    ensures
        final(remote)@ == (RemoteView { state: loaded(old(remote)@.state, *item), ..old(remote)@ }),
{
    remote.state.now_playing = Some(item.clone());
    remote.state.status = PlaybackStatus::Playing;
    if let Some(d) = item.duration_secs {
        remote.state.duration_us = secs_to_us(d);
    }
}

/// What a device says of its position: the time played and the length of the
/// track, as it writes them.
#[derive(Debug)]
pub struct PositionInfo {
    pub track_duration: String,
    pub rel_time: String,
}

/// What the name of a transport state means: the status, whether something is
/// at work, and whether it is at its end.
pub open spec fn transport_status(name: Seq<char>) -> Option<PlaybackStatus> {
    if name == "PLAYING"@ {
        Some(PlaybackStatus::Playing)
    } else if name == "PAUSED_PLAYBACK"@ || name == "PAUSED_RECORDING"@ {
        Some(PlaybackStatus::Paused)
    } else if name == "TRANSITIONING"@ {
        Some(PlaybackStatus::Buffering)
    } else {
        None
    }
}

/// The device has come to rest.
pub open spec fn at_rest(name: Seq<char>) -> bool {
    name == "STOPPED"@ || name == "NO_MEDIA_PRESENT"@
}

/// The state with a reported status and position.
pub open spec fn reported(
    s: StateView,
    was_active: bool,
    name: Seq<char>,
    info: Option<PositionInfo>,
) -> StateView {
    let status = match transport_status(name) {
        Some(t) => t,
        None => if at_rest(name) && !was_active {
            PlaybackStatus::Idle
        } else {
            s.status
        },
    };
    match info {
        None => StateView { status, ..s },
        Some(p) => StateView {
            status,
            position_us: match clock_us(p.rel_time@) {
                Some(us) => us as u64,
                None => s.position_us,
            },
            duration_us: match clock_us(p.track_duration@) {
                Some(us) => if us > 0 {
                    us as u64
                } else {
                    s.duration_us
                },
                None => s.duration_us,
            },
            ..s
        },
    }
}

/// What a poll of the device comes to: whether something is at work, the queue
/// and the state, and what to load. A rest counts as the end of a track only
/// where something was at work before; then the next item follows.
pub open spec fn poll_spec(
    r: RemoteView,
    was_active: bool,
    name: Seq<char>,
    info: Option<PositionInfo>,
) -> (bool, RemoteView, RemoteAction) {
    let t = RemoteView { state: reported(r.state, was_active, name, info), ..r };
    if transport_status(name) is Some {
        (true, t, RemoteAction::Nothing)
    } else if at_rest(name) && was_active {
        let q = t.queue.advanced();
        if q.index is Some {
            let u = stepped(t, q);
            (false, u, u.load_current())
        } else {
            (
                false,
                RemoteView {
                    queue: q,
                    state: StateView {
                        status: PlaybackStatus::Idle,
                        now_playing: None,
                        current_index: None,
                        ..t.state
                    },
                },
                RemoteAction::Nothing,
            )
        }
    } else {
        (was_active, t, RemoteAction::Nothing)
    }
}

fn note_position(remote: &mut Remote, info: &PositionInfo)
    ensures
        final(remote)@ == (RemoteView {
            state: StateView {
                position_us: match clock_us(info.rel_time@) {
                    Some(us) => us as u64,
                    None => old(remote)@.state.position_us,
                },
                duration_us: match clock_us(info.track_duration@) {
                    Some(us) => if us > 0 {
                        us as u64
                    } else {
                        old(remote)@.state.duration_us
                    },
                    None => old(remote)@.state.duration_us,
                },
                ..old(remote)@.state
            },
            ..old(remote)@
        }),
{
    if let Some(us) = parse_hms(info.rel_time.as_str()) {
        remote.state.position_us = us;
    }
    if let Some(us) = parse_hms(info.track_duration.as_str()) {
        if us > 0 {
            remote.state.duration_us = us;
        }
    }
}

/// Takes in a poll of the device.
pub fn poll_status(
    remote: &mut Remote,
    was_active: &mut bool,
    transport: &str,
    info: Option<PositionInfo>,
) -> (r: RemoteAction)
    requires
        old(remote)@.queue.wf(),
    ensures
        (*final(was_active), final(remote)@, r) == poll_spec(
            old(remote)@,
            *old(was_active),
            transport@,
            info,
        ),
        final(remote)@.queue.wf(),
{
    let mut ended: bool = false;
    if str_eq(transport, "PLAYING") {
        remote.state.status = PlaybackStatus::Playing;
        *was_active = true;
    } else if str_eq(transport, "PAUSED_PLAYBACK") || str_eq(transport, "PAUSED_RECORDING") {
        remote.state.status = PlaybackStatus::Paused;
        *was_active = true;
    } else if str_eq(transport, "TRANSITIONING") {
        remote.state.status = PlaybackStatus::Buffering;
        *was_active = true;
    } else if str_eq(transport, "STOPPED") || str_eq(transport, "NO_MEDIA_PRESENT") {
        if *was_active {
            ended = true;
        } else {
            remote.state.status = PlaybackStatus::Idle;
        }
    }
    if let Some(p) = &info {
        note_position(remote, p);
    }
    if ended {
        *was_active = false;
        if remote.queue.advance().is_some() {
            remote.state.current_index = remote.queue.current_index();
            remote.load_current()
        } else {
            remote.state.status = PlaybackStatus::Idle;
            remote.state.now_playing = None;
            remote.state.current_index = None;
            RemoteAction::Nothing
        }
    } else {
        RemoteAction::Nothing
    }
}

/// Notes that the device could not load the item that was to follow.
pub fn poll_load_failed(remote: &mut Remote)
    ensures
        final(remote)@ == (RemoteView {
            state: StateView { status: PlaybackStatus::Idle, ..old(remote)@.state },
            ..old(remote)@
        }),
{
    remote.state.status = PlaybackStatus::Idle;
}

/// A device that stays at rest is advanced once and no more: the queue moves
/// at the first poll behind the end, not at the next.
pub proof fn lemma_one_advance_per_end(
    r: RemoteView,
    name: Seq<char>,
    info: Option<PositionInfo>,
    later: Option<PositionInfo>,
)
    requires
        r.queue.wf(),
        at_rest(name),
        transport_status(name) is None,
    ensures
        ({
            let (active, once, _load) = poll_spec(r, true, name, info);
            let (still, twice, load) = poll_spec(once, active, name, later);
            &&& !active
            &&& !still
            &&& once.queue == r.queue.advanced()
            &&& twice.queue == once.queue
            &&& load == RemoteAction::Nothing
        }),
{
}

/// The names for a device at rest and for one at work differ.
pub proof fn lemma_rest_is_no_work(name: Seq<char>)
    requires
        at_rest(name),
    ensures
        transport_status(name) is None,
{
    reveal_strlit("STOPPED");
    reveal_strlit("NO_MEDIA_PRESENT");
    reveal_strlit("PLAYING");
    reveal_strlit("PAUSED_PLAYBACK");
    reveal_strlit("PAUSED_RECORDING");
    reveal_strlit("TRANSITIONING");
    assert(name[0] == 'S' || name[0] == 'N');
}

/// The envelope of an action.
pub open spec fn envelope_text(
    service: Seq<char>,
    action: Seq<char>,
    body: Seq<char>,
) -> Seq<char> {
    "<?xml version=\"1.0\" encoding=\"utf-8\"?><s:Envelope xmlns:s=\"http://schemas.xmlsoap.org/soap/envelope/\" s:encodingStyle=\"http://schemas.xmlsoap.org/soap/encoding/\"><s:Body><u:"@
        + action + " xmlns:u=\""@ + service + "\">"@ + body + "</u:"@ + action
        + "></s:Body></s:Envelope>"@
}

/// Writes the envelope of an action.
pub fn soap_envelope(service: &str, action: &str, body: &str) -> (r: String)
    ensures
        r@ == envelope_text(service@, action@, body@),
{
    let mut out: String =
        "<?xml version=\"1.0\" encoding=\"utf-8\"?><s:Envelope xmlns:s=\"http://schemas.xmlsoap.org/soap/envelope/\" s:encodingStyle=\"http://schemas.xmlsoap.org/soap/encoding/\"><s:Body><u:".to_owned();
    out.push_str(action);
    out.push_str(" xmlns:u=\"");
    out.push_str(service);
    out.push_str("\">");
    out.push_str(body);
    out.push_str("</u:");
    out.push_str(action);
    out.push_str("></s:Body></s:Envelope>");
    out
}

/// The value of the SOAPACTION header of an action.
pub fn soap_action(service: &str, action: &str) -> (r: String)
    ensures
        r@ == "\""@ + service@ + "#"@ + action@ + "\""@,
{
    let mut out: String = "\"".to_owned();
    out.push_str(service);
    out.push_str("#");
    out.push_str(action);
    out.push_str("\"");
    out
}

/// An action that is to be posted to one of a device's services.
#[derive(Debug)]
pub struct SoapCall {
    /// Whether it goes to RenderingControl; else it goes to AVTransport.
    pub rendering: bool,
    pub action: &'static str,
    pub body: String,
}

/// The arguments of an action without any of its own.
pub const INSTANCE: &'static str = "<InstanceID>0</InstanceID>";

/// `SetAVTransportURI` for an item.
pub open spec fn set_uri_body(uri: Seq<char>, metadata: Seq<char>) -> Seq<char> {
    "<InstanceID>0</InstanceID><CurrentURI>"@ + crate::mediarenderer::xml::encoded(uri)
        + "</CurrentURI><CurrentURIMetaData>"@ + crate::mediarenderer::xml::encoded(metadata)
        + "</CurrentURIMetaData>"@
}

/// `Seek` to a position of whole seconds.
pub open spec fn seek_body(us: nat) -> Seq<char> {
    "<InstanceID>0</InstanceID><Unit>REL_TIME</Unit><Target>"@ + crate::num::hms(us / 1_000_000)
        + "</Target>"@
}

/// `SetVolume` of the master channel in percent.
pub open spec fn volume_body(volume_milli: nat) -> Seq<char> {
    "<InstanceID>0</InstanceID><Channel>Master</Channel><DesiredVolume>"@ + crate::num::dec(
        crate::mediarenderer::soap::percent(volume_milli),
    ) + "</DesiredVolume>"@
}

/// A post of an action, as a value.
pub open spec fn post(rendering: bool, action: Seq<char>, body: Seq<char>) -> (
    bool,
    Seq<char>,
    Seq<char>,
) {
    (rendering, action, body)
}

/// The posts that carry out what the device is to be asked, in order. The
/// next is sent only where the one before was taken.
pub open spec fn posts(action: RemoteAction) -> Seq<(bool, Seq<char>, Seq<char>)> {
    match action {
        RemoteAction::Nothing => Seq::empty(),
        RemoteAction::Load(item) => seq![
            post(false, "SetAVTransportURI"@, set_uri_body(item.stream_url@, didl_text(item))),
            post(false, "Play"@, "<InstanceID>0</InstanceID><Speed>1</Speed>"@),
        ],
        RemoteAction::Pause => seq![post(false, "Pause"@, INSTANCE@)],
        RemoteAction::Resume => seq![
            post(false, "Play"@, "<InstanceID>0</InstanceID><Speed>1</Speed>"@),
        ],
        RemoteAction::Stop => seq![post(false, "Stop"@, INSTANCE@)],
        RemoteAction::Seek(us) => seq![post(false, "Seek"@, seek_body(us as nat))],
        RemoteAction::SetVolume(v) => seq![post(true, "SetVolume"@, volume_body(v as nat))],
    }
}

/// What a list of posts holds.
pub open spec fn post_views(v: Seq<SoapCall>) -> Seq<(bool, Seq<char>, Seq<char>)> {
    v.map_values(|c: SoapCall| post(c.rendering, c.action@, c.body@))
}

fn set_uri(uri: &str, metadata: &str) -> (r: String)
    ensures
        r@ == set_uri_body(uri@, metadata@),
{
    let mut out: String = "<InstanceID>0</InstanceID><CurrentURI>".to_owned();
    out.push_str(encode_entities(uri).as_str());
    out.push_str("</CurrentURI><CurrentURIMetaData>");
    out.push_str(encode_entities(metadata).as_str());
    out.push_str("</CurrentURIMetaData>");
    out
}

/// Writes the posts that carry out what the device is to be asked.
pub fn soap_calls(action: &RemoteAction) -> (r: Vec<SoapCall>)
    ensures
        post_views(r@) == posts(*action),
        *action is Pause ==> r@.len() == 1 && !r@[0].rendering && r@[0].action@ == "Pause"@,
        *action is Stop ==> r@.len() == 1 && !r@[0].rendering && r@[0].action@ == "Stop"@,
        *action is Resume ==> r@.len() == 1 && !r@[0].rendering && r@[0].action@ == "Play"@,
        *action is Seek ==> r@.len() == 1 && !r@[0].rendering && r@[0].action@ == "Seek"@,
        *action is SetVolume ==> r@.len() == 1 && r@[0].rendering && r@[0].action@ == "SetVolume"@,
        *action is Load ==> r@.len() == 2 && r@[0].action@ == "SetAVTransportURI"@ && r@[1].action@
            == "Play"@,
        *action is Nothing ==> r@.len() == 0,
{
    let mut v: Vec<SoapCall> = Vec::new();
    match action {
        RemoteAction::Nothing => {},
        RemoteAction::Load(item) => {
            let metadata: String = didl_lite(item);
            let body: String = set_uri(item.stream_url.as_str(), metadata.as_str());
            v.push(SoapCall { rendering: false, action: "SetAVTransportURI", body });
            v.push(
                SoapCall {
                    rendering: false,
                    action: "Play",
                    body: "<InstanceID>0</InstanceID><Speed>1</Speed>".to_owned(),
                },
            );
        },
        RemoteAction::Pause => {
            v.push(SoapCall { rendering: false, action: "Pause", body: INSTANCE.to_owned() });
        },
        RemoteAction::Resume => {
            v.push(
                SoapCall {
                    rendering: false,
                    action: "Play",
                    body: "<InstanceID>0</InstanceID><Speed>1</Speed>".to_owned(),
                },
            );
        },
        RemoteAction::Stop => {
            v.push(SoapCall { rendering: false, action: "Stop", body: INSTANCE.to_owned() });
        },
        RemoteAction::Seek(us) => {
            let mut body: String =
                "<InstanceID>0</InstanceID><Unit>REL_TIME</Unit><Target>".to_owned();
            body.push_str(fmt_hms(*us).as_str());
            body.push_str("</Target>");
            v.push(SoapCall { rendering: false, action: "Seek", body });
        },
        RemoteAction::SetVolume(level) => {
            let mut body: String =
                "<InstanceID>0</InstanceID><Channel>Master</Channel><DesiredVolume>".to_owned();
            push_dec(&mut body, crate::mediarenderer::soap::volume_percent(*level) as u64);
            body.push_str("</DesiredVolume>");
            v.push(SoapCall { rendering: true, action: "SetVolume", body });
        },
    }
    proof {
        assert(post_views(v@) =~= posts(*action));
    }
    v
}

/// The name of a transport state in the answer to `GetTransportInfo`.
pub fn transport_in(answer: &str) -> (r: String)
    ensures
        r@ == tag_or_empty(answer@, "CurrentTransportState"@),
{
    tag_or(answer, "CurrentTransportState")
}

/// The position in the answer to `GetPositionInfo`.
pub fn position_in(answer: &str) -> (r: PositionInfo)
    ensures
        r.track_duration@ == tag_or_empty(answer@, "TrackDuration"@),
        r.rel_time@ == tag_or_empty(answer@, "RelTime"@),
{
    PositionInfo {
        track_duration: tag_or(answer, "TrackDuration"),
        rel_time: tag_or(answer, "RelTime"),
    }
}

/// The artist lines of an item's metadata.
pub open spec fn artist_text(subtitle: Seq<char>) -> Seq<char> {
    if subtitle.len() == 0 {
        Seq::empty()
    } else {
        let a = crate::mediarenderer::xml::encoded(subtitle);
        "<upnp:artist>"@ + a + "</upnp:artist><dc:creator>"@ + a + "</dc:creator>"@
    }
}

/// The artwork line of an item's metadata.
pub open spec fn artwork_text(image: Option<Seq<char>>) -> Seq<char> {
    match image {
        Some(u) => "<upnp:albumArtURI>"@ + crate::mediarenderer::xml::encoded(u)
            + "</upnp:albumArtURI>"@,
        None => Seq::empty(),
    }
}

/// The class of an item.
pub open spec fn class_of(is_video: bool) -> Seq<char> {
    if is_video {
        "object.item.videoItem"@
    } else {
        "object.item.audioItem.musicTrack"@
    }
}

/// The root's tag of a DIDL-Lite document.
pub const DIDL_ROOT: &'static str =
    "DIDL-Lite xmlns=\"urn:schemas-upnp-org:metadata-1-0/DIDL-Lite/\" xmlns:dc=\"http://purl.org/dc/elements/1.1/\" xmlns:upnp=\"urn:schemas-upnp-org:metadata-1-0/upnp/\"";

/// The tag of the one item in it.
pub const DIDL_ITEM: &'static str = "item id=\"0\" parentID=\"-1\" restricted=\"1\"";

/// The DIDL-Lite document of an item.
pub open spec fn didl_text(item: QueueItem) -> Seq<char> {
    "<"@ + DIDL_ROOT@ + "><"@ + DIDL_ITEM@ + "><dc:title>"@ + crate::mediarenderer::xml::encoded(
        item.title@,
    ) + "</dc:title>"@ + artist_text(item.subtitle@) + "<upnp:class>"@ + class_of(item.is_video) + "</upnp:class>"@ + artwork_text(
        crate::text::opt_view(item.image_url),
    ) + "<res protocolInfo=\"http-get:*:"@ + item.content_type@ + ":*\">"@
        + crate::mediarenderer::xml::encoded(item.stream_url@)
        + "</res></item></DIDL-Lite>"@
}

/// Minimal metadata, so that renderers that want some do not reject the URI.
pub fn didl_lite(item: &QueueItem) -> (r: String)
    ensures
        r@ == didl_text(*item),
{
    let mut artist: String = String::new();
    if !item.subtitle.as_str().is_empty() {
        let a: String = encode_entities(item.subtitle.as_str());
        artist.push_str("<upnp:artist>");
        artist.push_str(a.as_str());
        artist.push_str("</upnp:artist><dc:creator>");
        artist.push_str(a.as_str());
        artist.push_str("</dc:creator>");
        proof {
            assert(artist@ =~= artist_text(item.subtitle@));
        }
    }
    let mut image: String = String::new();
    if let Some(u) = &item.image_url {
        image.push_str("<upnp:albumArtURI>");
        image.push_str(encode_entities(u.as_str()).as_str());
        image.push_str("</upnp:albumArtURI>");
        proof {
            assert(image@ =~= artwork_text(crate::text::opt_view(item.image_url)));
        }
    }
    let mut out: String = "<".to_owned();
    out.push_str(DIDL_ROOT);
    out.push_str("><");
    out.push_str(DIDL_ITEM);
    out.push_str("><dc:title>");
    out.push_str(encode_entities(item.title.as_str()).as_str());
    out.push_str("</dc:title>");
    out.push_str(artist.as_str());
    out.push_str("<upnp:class>");
    if item.is_video {
        out.push_str("object.item.videoItem");
    } else {
        out.push_str("object.item.audioItem.musicTrack");
    }
    out.push_str("</upnp:class>");
    out.push_str(image.as_str());
    out.push_str("<res protocolInfo=\"http-get:*:");
    out.push_str(item.content_type.as_str());
    out.push_str(":*\">");
    out.push_str(encode_entities(item.stream_url.as_str()).as_str());
    out.push_str("</res></item></DIDL-Lite>");
    out
}

/// A pause, going on, a stop and a seek are asked of the device as such; but
/// for the stop, which empties the queue, they change nothing here.
pub proof fn lemma_transport_asked(r: RemoteView, us: u64, has_rendering: bool)
    ensures
        command_spec(r, RendererCall::Pause, has_rendering) == (
            r,
            RemoteAction::Pause,
            After::Nothing,
        ),
        command_spec(r, RendererCall::Resume, has_rendering) == (
            r,
            RemoteAction::Resume,
            After::Nothing,
        ),
        command_spec(r, RendererCall::Seek(us), has_rendering) == (
            r,
            RemoteAction::Seek(us),
            After::Nothing,
        ),
        command_spec(r, RendererCall::Stop, has_rendering).1 == RemoteAction::Stop,
        command_spec(r, RendererCall::Stop, has_rendering).0.queue.items.len() == 0,
        command_spec(r, RendererCall::Stop, has_rendering).0.queue.index is None,
        command_spec(r, RendererCall::Stop, has_rendering).0.state.now_playing is None,
        command_spec(r, RendererCall::Stop, has_rendering).0.state.status
            == PlaybackStatus::Stopped,
{
}

/// A step leads to the item behind the current one, or to the one before it, and
/// the device is told to load that one; the place is told, and nothing else of
/// the state changes. Behind the last item there is nothing to load.
pub proof fn lemma_steps_load(r: RemoteView, has_rendering: bool)
    requires
        r.queue.wf(),
        r.queue.index is Some,
    ensures
        ({
            let (t, action, after) = command_spec(r, RendererCall::Next, has_rendering);
            let i = r.queue.index->0;
            &&& t.queue.items == r.queue.items
            &&& after == After::Nothing
            &&& t.state == (StateView { current_index: t.state.current_index, ..r.state })
            &&& i + 1 < r.queue.items.len() ==> {
                &&& t.queue.index == Some(i + 1)
                &&& t.state.current_index == Some(i + 1)
                &&& action == RemoteAction::Load(r.queue.items[i + 1])
            }
            &&& i + 1 == r.queue.items.len() ==> {
                &&& t.queue.index is None
                &&& t.state == r.state
                &&& action == RemoteAction::Nothing
            }
        }),
        ({
            let (t, action, after) = command_spec(r, RendererCall::Previous, has_rendering);
            let i = r.queue.index->0;
            let to = if i > 0 {
                i - 1
            } else {
                0
            };
            &&& t.queue.items == r.queue.items
            &&& after == After::Nothing
            &&& t.queue.index == Some(to)
            &&& t.state == (StateView { current_index: Some(to), ..r.state })
            &&& action == RemoteAction::Load(r.queue.items[to])
        }),
{
}

/// Where an item follows, a step forward and one back lead to the item where
/// they began, and the device loads it again.
pub proof fn lemma_next_then_previous(r: RemoteView, has_rendering: bool)
    requires
        r.queue.wf(),
        r.queue.index is Some,
        r.queue.index->0 + 1 < r.queue.items.len(),
    ensures
        ({
            let on = command_spec(r, RendererCall::Next, has_rendering).0;
            let (back, action, _after) = command_spec(on, RendererCall::Previous, has_rendering);
            &&& back.queue == r.queue
            &&& action == RemoteAction::Load(r.queue.items[r.queue.index->0])
        }),
{
}

/// What is to be played is the queue, and the device loads the item to start
/// with. Items that are added leave the current one where it is, and the device
/// loads nothing, unless the queue was empty: then it loads the first of them.
pub proof fn lemma_items_taken(
    r: RemoteView,
    items: Vec<QueueItem>,
    start: usize,
    has_rendering: bool,
)
    requires
        r.queue.wf(),
    ensures
        ({
            let (t, action, after) = command_spec(
                r,
                RendererCall::Play(items, start),
                has_rendering,
            );
            &&& t.queue.items == items@
            &&& t.state.queue == items@
            &&& t.state.status == PlaybackStatus::Buffering
            &&& after == After::Nothing
            &&& start < items@.len() ==> t.queue.index == Some(start as int) && action
                == RemoteAction::Load(items@[start as int]) && t.state.now_playing == Some(
                items@[start as int],
            )
            &&& 0 < items@.len() <= start ==> action == RemoteAction::Load(items@.last())
            &&& items@.len() == 0 ==> action == RemoteAction::Nothing
        }),
        ({
            let (t, action, after) = command_spec(r, RendererCall::Enqueue(items), has_rendering);
            &&& t.queue.items == r.queue.items + items@
            &&& t.state == r.state
            &&& after == After::Sync
            &&& r.queue.items.len() > 0 ==> t.queue.index == r.queue.index && action
                == RemoteAction::Nothing
            &&& r.queue.items.len() == 0 && items@.len() > 0 ==> action == RemoteAction::Load(
                items@[0],
            )
        }),
        ({
            let (t, action, after) = command_spec(r, RendererCall::PlayNext(items), has_rendering);
            &&& t.state == r.state
            &&& after == After::Sync
            &&& r.queue.index is Some ==> {
                let at = r.queue.index->0 + 1;
                &&& t.queue.index == r.queue.index
                &&& action == RemoteAction::Nothing
                &&& t.queue.items == r.queue.items.subrange(0, at) + items@
                    + r.queue.items.subrange(at, r.queue.items.len() as int)
            }
            &&& r.queue.items.len() == 0 && items@.len() > 0 ==> action == RemoteAction::Load(
                items@[0],
            )
        }),
{
    if r.queue.index is Some {
        let at = r.queue.index->0 + 1;
        assert(r.queue.inserted_next(items@).items =~= r.queue.items.subrange(0, at) + items@
            + r.queue.items.subrange(at, r.queue.items.len() as int));
    }
}

/// A volume goes to the device where it can take one, and is noted in any case:
/// at most the full one.
pub proof fn lemma_volume_asked(r: RemoteView, v: u32, has_rendering: bool)
    ensures
        ({
            let (t, action, after) = command_spec(r, RendererCall::SetVolume(v), has_rendering);
            let wanted: u32 = if v < 1000 {
                v
            } else {
                1000
            };
            &&& t == r
            &&& has_rendering ==> action == RemoteAction::SetVolume(wanted)
            &&& !has_rendering ==> action == RemoteAction::Nothing
            &&& t.finished(after, true).state.volume_milli == wanted
            &&& t.finished(after, false).state.volume_milli == r.state.volume_milli
        }),
{
}

/// An item that the device has loaded is the one that plays, with the length
/// that is told of it.
pub proof fn lemma_loaded(s: StateView, item: QueueItem)
    ensures
        loaded(s, item).now_playing == Some(item),
        loaded(s, item).status == PlaybackStatus::Playing,
        item.duration_secs is Some && item.duration_secs->0 * 1_000_000 <= u64::MAX ==> loaded(
            s,
            item,
        ).duration_us == item.duration_secs->0 * 1_000_000,
        item.duration_secs is None ==> loaded(s, item).duration_us == s.duration_us,
        loaded(s, item).volume_milli == s.volume_milli,
        loaded(s, item).queue == s.queue,
        loaded(s, item).current_index == s.current_index,
{
}

/// What a renderer of this program says of its state is understood: each status
/// comes back as itself, and rest as rest.
pub proof fn lemma_status_understood(status: PlaybackStatus)
    ensures
        ({
            let name = crate::mediarenderer::soap::transport_name(status);
            &&& status == PlaybackStatus::Playing || status == PlaybackStatus::Paused || status
                == PlaybackStatus::Buffering ==> transport_status(name) == Some(status)
            &&& status == PlaybackStatus::Stopped || status == PlaybackStatus::Idle ==> at_rest(
                name,
            ) && transport_status(name) is None
        }),
{
    lemma_rest_is_no_work("STOPPED"@);
    reveal_strlit("PLAYING");
    reveal_strlit("PAUSED_PLAYBACK");
    reveal_strlit("PAUSED_RECORDING");
    reveal_strlit("TRANSITIONING");
    assert("PLAYING"@[1] == 'L' && "PAUSED_PLAYBACK"@[1] == 'A' && "PAUSED_RECORDING"@[1] == 'A'
        && "TRANSITIONING"@[1] == 'R');
}

/// A poll follows the device: what it reports is what is shown, and where it
/// has come to rest after work the next item is loaded, or, behind the last,
/// nothing plays any more. A device that rests and has not worked is idle.
pub proof fn lemma_poll_follows(
    r: RemoteView,
    was_active: bool,
    status: PlaybackStatus,
    info: Option<PositionInfo>,
)
    requires
        r.queue.wf(),
        r.queue.index is Some,
    ensures
        ({
            let name = crate::mediarenderer::soap::transport_name(status);
            let (active, t, action) = poll_spec(r, was_active, name, info);
            let resting = status == PlaybackStatus::Stopped || status == PlaybackStatus::Idle;
            let i = r.queue.index->0;
            &&& !resting ==> active && t.state.status == status && t.queue == r.queue && action
                == RemoteAction::Nothing
            &&& resting ==> !active
            &&& resting && !was_active ==> t.state.status == PlaybackStatus::Idle && t.queue
                == r.queue && action == RemoteAction::Nothing
            &&& resting && was_active && i + 1 < r.queue.items.len() ==> {
                &&& t.queue.index == Some(i + 1)
                &&& t.state.current_index == Some(i + 1)
                &&& action == RemoteAction::Load(r.queue.items[i + 1])
            }
            &&& resting && was_active && i + 1 == r.queue.items.len() ==> {
                &&& t.queue.index is None
                &&& t.state.now_playing is None
                &&& t.state.status == PlaybackStatus::Idle
                &&& action == RemoteAction::Nothing
            }
            &&& t.queue.items == r.queue.items
            &&& t.state.volume_milli == r.state.volume_milli
        }),
{
    lemma_status_understood(status);
}

/// The time that a device tells as hours, minutes and seconds is the position
/// that is shown, and the length where it tells one; what it does not tell
/// stays.
pub proof fn lemma_times_shown(
    s: StateView,
    was_active: bool,
    name: Seq<char>,
    info: PositionInfo,
    at: nat,
    length: nat,
)
    requires
        at * 1_000_000 <= u64::MAX,
        length * 1_000_000 <= u64::MAX,
        length > 0,
    ensures
        info.rel_time@ == crate::num::hms(at) ==> reported(
            s,
            was_active,
            name,
            Some(info),
        ).position_us == at * 1_000_000,
        info.track_duration@ == crate::num::hms(length) ==> reported(
            s,
            was_active,
            name,
            Some(info),
        ).duration_us == length * 1_000_000,
        info.rel_time@ == "NOT_IMPLEMENTED"@ ==> reported(
            s,
            was_active,
            name,
            Some(info),
        ).position_us == s.position_us,
        info.track_duration@.len() == 0 ==> reported(
            s,
            was_active,
            name,
            Some(info),
        ).duration_us == s.duration_us,
        reported(s, was_active, name, None).position_us == s.position_us,
        reported(s, was_active, name, None).duration_us == s.duration_us,
{
    lemma_clock_read(at);
    lemma_clock_read(length);
    assert(crate::text::trimmed("NOT_IMPLEMENTED"@) == "NOT_IMPLEMENTED"@) by {
        reveal_strlit("NOT_IMPLEMENTED");
        assert(crate::text::trim_start("NOT_IMPLEMENTED"@) == "NOT_IMPLEMENTED"@);
    }
    if info.track_duration@.len() == 0 {
        let t = info.track_duration@;
        assert(crate::text::trim_start(t) == t);
        assert(crate::text::trimmed(t) == t);
    }
}

/// A clock time is read as the seconds that it was written for.
pub proof fn lemma_clock_read(secs: nat)
    ensures
        clock_us(crate::num::hms(secs)) == Some(crate::num::sat64(secs * 1_000_000)),
{
    crate::num::lemma_hms_parts(secs);
    crate::num::lemma_hms_round_trip(secs);
    let parts = crate::text::split(crate::num::hms(secs), ':');
    assert(parts.take(3) =~= parts);
}

/// A device is shown by its friendly name where it has one, then by its model,
/// and otherwise by its unique name.
pub proof fn lemma_device_shown(d: UpnpDevice)
    ensures
        d.friendly_name@.len() > 0 ==> d.shown_as() == d.friendly_name@,
        d.friendly_name@.len() == 0 && d.model@.len() > 0 ==> d.shown_as() == d.model@,
        d.friendly_name@.len() == 0 && d.model@.len() == 0 ==> d.shown_as() == d.udn@,
{
}

/// The envelope of an action holds its arguments as they are, and names its
/// service.
pub proof fn lemma_envelope_holds(service: Seq<char>, action: Seq<char>, body: Seq<char>)
    ensures
        exists|a: Seq<char>, b: Seq<char>|
            envelope_text(service, action, body) == #[trigger] (a + body + b),
        exists|a: Seq<char>, b: Seq<char>|
            envelope_text(service, action, body) == #[trigger] (a + service + b),
{
    let head = "<?xml version=\"1.0\" encoding=\"utf-8\"?><s:Envelope xmlns:s=\"http://schemas.xmlsoap.org/soap/envelope/\" s:encodingStyle=\"http://schemas.xmlsoap.org/soap/encoding/\"><s:Body><u:"@;
    let a = head + action + " xmlns:u=\""@ + service + "\">"@;
    let b = "</u:"@ + action + "></s:Body></s:Envelope>"@;
    assert(envelope_text(service, action, body) =~= a + body + b);
    let c = head + action + " xmlns:u=\""@;
    let d = "\">"@ + body + b;
    assert(envelope_text(service, action, body) =~= c + service + d);
}

proof fn lemma_unamp_over(p: Seq<char>, x: Seq<char>)
    requires
        forall|i: int| 0 <= i < p.len() ==> #[trigger] p[i] != '&',
    ensures
        unamp(p + x) == p + unamp(x),
    decreases p.len(),
{
    let s = p + x;
    if p.len() == 0 {
        assert(s =~= x);
        assert(p + unamp(x) =~= unamp(x));
    } else {
        let amp = crate::mediarenderer::xml::entity('&');
        assert(s[0] == p[0]);
        if crate::text::starts_with(s, amp) {
            assert(s.subrange(0, amp.len() as int)[0] == amp[0]);
        }
        assert(s.skip(1) =~= p.skip(1) + x);
        assert forall|i: int| 0 <= i < p.skip(1).len() implies #[trigger] p.skip(1)[i] != '&' by {
            assert(p.skip(1)[i] == p[i + 1]);
        }
        lemma_unamp_over(p.skip(1), x);
        assert(seq![s[0]] + (p.skip(1) + unamp(x)) =~= p + unamp(x));
    }
}

/// A text without ampersands that was encoded is read back as it was; so is one
/// that was not encoded.
pub proof fn lemma_lenient_back(s: Seq<char>)
    requires
        forall|i: int| 0 <= i < s.len() ==> #[trigger] s[i] != '&',
    ensures
        lenient(crate::mediarenderer::xml::encoded(s)) == s,
        unamp(crate::mediarenderer::xml::encoded(s)) == crate::mediarenderer::xml::encoded(s),
    decreases s.len(),
{
    let e = crate::mediarenderer::xml::encoded(s);
    if s.len() == 0 {
        assert(e =~= s);
    } else {
        let c = s[0];
        let t = s.skip(1);
        assert(s =~= seq![c] + t);
        assert forall|i: int| 0 <= i < t.len() implies #[trigger] t[i] != '&' by {
            assert(t[i] == s[i + 1]);
        }
        lemma_lenient_back(t);
        let x = crate::mediarenderer::xml::encoded(t);
        let ent = crate::mediarenderer::xml::entity(c);
        crate::mediarenderer::xml::lemma_encoded_front(c, t);
        crate::mediarenderer::xml::lemma_leading_entity(c, x);
        assert(e == ent + x);
        let amp = crate::mediarenderer::xml::entity('&');
        if ent.len() == 1 {
            assert(ent =~= seq![c]);
            lemma_unamp_over(ent, x);
        } else {
            assert(e[0] == ent[0] && e[1] == ent[1] && e[2] == ent[2]);
            if crate::text::starts_with(e, amp) {
                assert(e.subrange(0, amp.len() as int)[1] == amp[1]);
                assert(e.subrange(0, amp.len() as int)[2] == amp[2]);
            }
            assert(e.skip(1) =~= ent.skip(1) + x);
            lemma_unamp_over(ent.skip(1), x);
            assert(seq![e[0]] + (ent.skip(1) + x) =~= e);
        }
        assert(unamp(e) == e);
        match crate::mediarenderer::xml::leading_entity(e) {
            Some((d, n)) => {
                assert(d == c);
                assert(unquad(e) == seq![c] + unquad(x));
            },
            None => {
                assert(e[0] == c);
                assert(e.skip(1) =~= x);
                assert(unquad(e) == seq![c] + unquad(x));
            },
        }
        assert(unquad(x) == t);
    }
}

/// A device is what its document says: its name, its model and its maker, each
/// from its own element; its unique name too, or else where the document was
/// found.
pub proof fn lemma_described(
    d: UpnpDevice,
    body: Seq<char>,
    location: Seq<char>,
    address: Seq<char>,
)
    requires
        described_by(d, body, location, address),
    ensures
        text_of_tag(body, "friendlyName"@) is Some ==> d.friendly_name@ == text_of_tag(
            body,
            "friendlyName"@,
        )->0,
        text_of_tag(body, "modelName"@) is Some ==> d.model@ == text_of_tag(
            body,
            "modelName"@,
        )->0,
        text_of_tag(body, "manufacturer"@) is Some ==> d.manufacturer@ == text_of_tag(
            body,
            "manufacturer"@,
        )->0,
        text_of_tag(body, "UDN"@) is Some ==> d.udn@ == text_of_tag(body, "UDN"@)->0,
        text_of_tag(body, "UDN"@) is None ==> d.udn@ == location,
        text_of_tag(body, "friendlyName"@) is None ==> d.friendly_name@.len() == 0,
        d.address@ == address,
        d.location@ == location,
{
}

/// Where no item is current, a step forward starts with the first one, and one
/// back leads nowhere; with no items there is nothing to load.
pub proof fn lemma_steps_from_nowhere(r: RemoteView, has_rendering: bool)
    requires
        r.queue.index is None,
    ensures
        ({
            let (t, action, after) = command_spec(r, RendererCall::Next, has_rendering);
            &&& t.queue.items == r.queue.items
            &&& after == After::Nothing
            &&& r.queue.items.len() > 0 ==> t.queue.index == Some(0int) && t.state.current_index
                == Some(0int) && action == RemoteAction::Load(r.queue.items[0])
            &&& r.queue.items.len() == 0 ==> t == r && action == RemoteAction::Nothing
        }),
        command_spec(r, RendererCall::Previous, has_rendering) == (
            r,
            RemoteAction::Nothing,
            After::Nothing,
        ),
{
}

/// Shuffle, repeat and taking entries out are not offered here: nothing changes,
/// and the device is asked nothing.
pub proof fn lemma_not_offered(
    r: RemoteView,
    has_rendering: bool,
    on: bool,
    mode: crate::queue::RepeatMode,
    i: usize,
)
    ensures
        command_spec(r, RendererCall::SetShuffle(on), has_rendering) == (
            r,
            RemoteAction::Nothing,
            After::Nothing,
        ),
        command_spec(r, RendererCall::SetRepeat(mode), has_rendering) == (
            r,
            RemoteAction::Nothing,
            After::Nothing,
        ),
        command_spec(r, RendererCall::RemoveFromQueue(i), has_rendering) == (
            r,
            RemoteAction::Nothing,
            After::Nothing,
        ),
{
}

/// A name that is none of the known ones changes neither the status nor the
/// queue, and what was known of the device's work stays.
pub proof fn lemma_unknown_state(r: RemoteView, was_active: bool, name: Seq<char>)
    requires
        name.len() == 0,
    ensures
        poll_spec(r, was_active, name, None) == (was_active, r, RemoteAction::Nothing),
{
    reveal_strlit("STOPPED");
    reveal_strlit("NO_MEDIA_PRESENT");
    reveal_strlit("PLAYING");
    reveal_strlit("PAUSED_PLAYBACK");
    reveal_strlit("PAUSED_RECORDING");
    reveal_strlit("TRANSITIONING");
    assert("STOPPED"@.len() > 0 && "NO_MEDIA_PRESENT"@.len() > 0 && "PLAYING"@.len() > 0
        && "PAUSED_PLAYBACK"@.len() > 0 && "PAUSED_RECORDING"@.len() > 0 && "TRANSITIONING"@.len()
        > 0);
}

/// The names of the states, as devices write them.
pub proof fn lemma_state_names()
    ensures
        transport_status("PLAYING"@) == Some(PlaybackStatus::Playing),
        transport_status("PAUSED_PLAYBACK"@) == Some(PlaybackStatus::Paused),
        transport_status("PAUSED_RECORDING"@) == Some(PlaybackStatus::Paused),
        transport_status("TRANSITIONING"@) == Some(PlaybackStatus::Buffering),
        at_rest("STOPPED"@),
        at_rest("NO_MEDIA_PRESENT"@),
        transport_status("STOPPED"@) is None,
        transport_status("NO_MEDIA_PRESENT"@) is None,
{
    lemma_rest_is_no_work("STOPPED"@);
    lemma_rest_is_no_work("NO_MEDIA_PRESENT"@);
    reveal_strlit("PLAYING");
    reveal_strlit("PAUSED_PLAYBACK");
    reveal_strlit("PAUSED_RECORDING");
    reveal_strlit("TRANSITIONING");
    assert("PLAYING"@[1] == 'L' && "PAUSED_PLAYBACK"@[1] == 'A' && "PAUSED_RECORDING"@[1] == 'A'
        && "TRANSITIONING"@[1] == 'R');
}

} // verus!
