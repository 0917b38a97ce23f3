//! SSDP presence: announcements, answers to searches, and the parting words.
//! This is the discovery half of being a MediaRenderer.

use vstd::prelude::*;
use vstd::slice::slice_subrange;

use crate::mediarenderer::http::server_header;
use crate::mediarenderer::soap::Service;
use crate::text::{
    begins, chars, eq_chars, find_char, from_chars, has, lossy, split_lines, str_eq, to_lower, trim,
};

verus! {

/// The address and port of SSDP.
pub const SSDP_ADDR: &'static str = "239.255.255.250:1900";

/// The type of this device.
pub const DEVICE_TYPE: &'static str = "urn:schemas-upnp-org:device:MediaRenderer:1";

/// A notification type and the unique service name that goes with it.
pub type TargetView = (Seq<char>, Seq<char>);

/// The target for a type under a device name.
pub open spec fn typed(udn: Seq<char>, nt: Seq<char>) -> TargetView {
    (nt, udn + "::"@ + nt)
}

/// What a root MediaRenderer announces and answers for: the root device, the
/// device itself, its type and its three services.
pub open spec fn target_list(udn: Seq<char>) -> Seq<TargetView> {
    seq![
        typed(udn, "upnp:rootdevice"@),
        (udn, udn),
        typed(udn, DEVICE_TYPE@),
        typed(udn, "urn:schemas-upnp-org:service:AVTransport:1"@),
        typed(udn, "urn:schemas-upnp-org:service:RenderingControl:1"@),
        typed(udn, "urn:schemas-upnp-org:service:ConnectionManager:1"@),
    ]
}

/// What a list of targets holds.
pub open spec fn target_views(v: Seq<(String, String)>) -> Seq<TargetView> {
    v.map_values(|p: (String, String)| (p.0@, p.1@))
}

fn typed_target(udn: &str, nt: &str) -> (r: (String, String))
    ensures
        (r.0@, r.1@) == typed(udn@, nt@),
{
    let mut usn: String = udn.to_owned();
    usn.push_str("::");
    usn.push_str(nt);
    (nt.to_owned(), usn)
}

/// The (NT, USN) pairs that a root MediaRenderer must announce and answer for.
pub fn targets(udn: &str) -> (r: Vec<(String, String)>)
    ensures
        target_views(r@) == target_list(udn@),
{
    let mut v: Vec<(String, String)> = Vec::new();
    v.push(typed_target(udn, "upnp:rootdevice"));
    v.push((udn.to_owned(), udn.to_owned()));
    v.push(typed_target(udn, DEVICE_TYPE));
    v.push(typed_target(udn, "urn:schemas-upnp-org:service:AVTransport:1"));
    v.push(typed_target(udn, "urn:schemas-upnp-org:service:RenderingControl:1"));
    v.push(typed_target(udn, "urn:schemas-upnp-org:service:ConnectionManager:1"));
    proof {
        assert(target_views(v@) =~= target_list(udn@));
    }
    v
}

/// The announcement of a target.
pub open spec fn alive_text(t: TargetView, location: Seq<char>, os: Seq<char>) -> Seq<char> {
    "NOTIFY * HTTP/1.1\r\nHOST: 239.255.255.250:1900\r\nCACHE-CONTROL: max-age=1800\r\nLOCATION: "@
        + location + "\r\nNT: "@ + t.0 + "\r\nNTS: ssdp:alive\r\nSERVER: "@
        + crate::mediarenderer::http::server_text(os) + "\r\nUSN: "@ + t.1
        + "\r\nBOOTID.UPNP.ORG: 1\r\nCONFIGID.UPNP.ORG: 1\r\n\r\n"@
}

/// Writes the announcement of a target.
pub fn alive_message(target: &(String, String), location: &str, os: &str) -> (r: String)
    ensures
        r@ == alive_text((target.0@, target.1@), location@, os@),
{
    let mut out: String =
        "NOTIFY * HTTP/1.1\r\nHOST: 239.255.255.250:1900\r\nCACHE-CONTROL: max-age=1800\r\nLOCATION: ".to_owned();
    out.push_str(location);
    out.push_str("\r\nNT: ");
    out.push_str(target.0.as_str());
    out.push_str("\r\nNTS: ssdp:alive\r\nSERVER: ");
    out.push_str(server_header(os).as_str());
    out.push_str("\r\nUSN: ");
    out.push_str(target.1.as_str());
    out.push_str("\r\nBOOTID.UPNP.ORG: 1\r\nCONFIGID.UPNP.ORG: 1\r\n\r\n");
    out
}

/// The parting words for a target.
pub open spec fn byebye_text(t: TargetView) -> Seq<char> {
    "NOTIFY * HTTP/1.1\r\nHOST: 239.255.255.250:1900\r\nNT: "@ + t.0
        + "\r\nNTS: ssdp:byebye\r\nUSN: "@ + t.1
        + "\r\nBOOTID.UPNP.ORG: 1\r\nCONFIGID.UPNP.ORG: 1\r\n\r\n"@
}

/// Writes the parting words for a target.
pub fn byebye_message(target: &(String, String)) -> (r: String)
    ensures
        r@ == byebye_text((target.0@, target.1@)),
{
    let mut out: String = "NOTIFY * HTTP/1.1\r\nHOST: 239.255.255.250:1900\r\nNT: ".to_owned();
    out.push_str(target.0.as_str());
    out.push_str("\r\nNTS: ssdp:byebye\r\nUSN: ");
    out.push_str(target.1.as_str());
    out.push_str("\r\nBOOTID.UPNP.ORG: 1\r\nCONFIGID.UPNP.ORG: 1\r\n\r\n");
    out
}

/// The value of a line `name: value`, if it is one with this name.
pub open spec fn line_value(line: Seq<char>, name: Seq<char>) -> Option<Seq<char>> {
    match crate::text::index_of(line, ':', 0) {
        None => None,
        Some(i) => if crate::text::lower(crate::text::trimmed(line.take(i))) == crate::text::lower(
            name,
        ) {
            Some(crate::text::trimmed(line.skip(i + 1)))
        } else {
            None
        },
    }
}

/// The value of the first header with this name, upper and lower case alike.
pub open spec fn header_in(lines: Seq<Seq<char>>, name: Seq<char>) -> Option<Seq<char>>
    decreases lines.len(),
{
    if lines.len() == 0 {
        None
    } else {
        match line_value(lines[0], name) {
            Some(v) => Some(v),
            None => header_in(lines.skip(1), name),
        }
    }
}

fn value_of_line(line: &[char], name: &[char]) -> (r: Option<String>)
    ensures
        crate::text::opt_view(r) == line_value(line@, name@),
{
    let low_name: Vec<char> = to_lower(name);
    let n: usize = line.len();
    match find_char(line, ':', 0) {
        None => None,
        Some(i) => {
            let key: &[char] = slice_subrange(line, 0, i);
            let value: &[char] = slice_subrange(line, i + 1, n);
            proof {
                assert(key@ =~= line@.take(i as int));
                assert(value@ =~= line@.skip(i as int + 1));
            }
            let low: Vec<char> = to_lower(trim(key));
            if eq_chars(low.as_slice(), low_name.as_slice()) {
                Some(from_chars(trim(value)))
            } else {
                None
            }
        },
    }
}

/// The value of the first header with this name in an SSDP message.
pub fn header(text: &str, name: &str) -> (r: Option<String>)
    ensures
        crate::text::opt_view(r) == header_in(crate::text::lines(text@), name@),
{
    let cs: Vec<char> = chars(text);
    let name_chars: Vec<char> = chars(name);
    let lines: Vec<Vec<char>> = split_lines(cs.as_slice());
    let ghost all = crate::text::views(lines@);
    let mut i: usize = 0;
    proof {
        assert(all.skip(0) =~= all);
    }
    while i < lines.len()
        invariant
            i <= lines@.len(),
            all == crate::text::views(lines@),
            all == crate::text::lines(text@),
            name_chars@ == name@,
            header_in(all, name@) == header_in(all.skip(i as int), name@),
        decreases lines@.len() - i,
    {
        proof {
            assert(all.skip(i as int)[0] == lines@[i as int]@);
            assert(all.skip(i as int).skip(1) =~= all.skip(i as int + 1));
        }
        let v: Option<String> = value_of_line(lines[i].as_slice(), name_chars.as_slice());
        if v.is_some() {
            return v;
        }
        i += 1;
    }
    None
}

/// The search target of a message, where it is a search.
pub open spec fn search_target(text: Seq<char>) -> Option<Seq<char>> {
    let lines = crate::text::lines(text);
    if !crate::text::starts_with(text, "M-SEARCH"@) {
        None
    } else {
        match (header_in(lines, "ST"@), header_in(lines, "MAN"@)) {
            (Some(st), Some(man)) => if crate::text::contains(man, "ssdp:discover"@) {
                Some(st)
            } else {
                None
            },
            _ => None,
        }
    }
}

/// Reads the search target of a message, where it is a search.
pub fn parse_search(text: &str) -> (r: Option<String>)
    ensures
        crate::text::opt_view(r) == search_target(text@),
{
    if !begins(text, "M-SEARCH") {
        return None;
    }
    match (header(text, "ST"), header(text, "MAN")) {
        (Some(st), Some(man)) => if has(man.as_str(), "ssdp:discover") {
            Some(st)
        } else {
            None
        },
        _ => None,
    }
}

/// Reads the search target of a message as it was received.
pub fn parse_search_bytes(packet: &[u8]) -> (r: Option<String>)
    ensures
        crate::text::opt_view(r) == search_target(crate::text::utf8_lossy(packet@)),
{
    parse_search(lossy(packet).as_str())
}

/// The targets that a search means: all of them, or the one with its type.
/// Each comes with the type that its answer names.
pub open spec fn matched(targets: Seq<TargetView>, st: Seq<char>) -> Seq<TargetView>
    decreases targets.len(),
{
    if targets.len() == 0 {
        Seq::empty()
    } else {
        let t = targets.last();
        if st == "ssdp:all"@ || st == t.0 {
            matched(targets.drop_last(), st).push(t)
        } else {
            matched(targets.drop_last(), st)
        }
    }
}

/// The targets that this device answers a search with.
pub fn search_matches(udn: &str, st: &str) -> (r: Vec<(String, String)>)
    ensures
        target_views(r@) == matched(target_list(udn@), st@),
{
    let all: Vec<(String, String)> = targets(udn);
    let ghost av = target_views(all@);
    let mut out: Vec<(String, String)> = Vec::new();
    let mut i: usize = 0;
    proof {
        assert(av.take(0).len() == 0);
        assert(target_views(out@) =~= matched(av.take(0), st@));
    }
    while i < all.len()
        invariant
            i <= all@.len(),
            av == target_views(all@),
            target_views(out@) == matched(av.take(i as int), st@),
        decreases all@.len() - i,
    {
        proof {
            assert(av.take(i as int + 1).drop_last() =~= av.take(i as int));
            assert(av.take(i as int + 1).last() == (all@[i as int].0@, all@[i as int].1@));
        }
        if str_eq(st, "ssdp:all") || str_eq(st, all[i].0.as_str()) {
            let pair: (String, String) = (all[i].0.clone(), all[i].1.clone());
            let ghost before = target_views(out@);
            out.push(pair);
            proof {
                assert(target_views(out@) =~= before.push((pair.0@, pair.1@)));
            }
        }
        i += 1;
    }
    proof {
        assert(av.take(i as int) =~= av);
    }
    out
}

/// The answer to a search for one target.
pub open spec fn reply_text(
    t: TargetView,
    date: Seq<char>,
    location: Seq<char>,
    os: Seq<char>,
) -> Seq<char> {
    "HTTP/1.1 200 OK\r\nCACHE-CONTROL: max-age=1800\r\nDATE: "@ + date
        + "\r\nEXT: \r\nLOCATION: "@ + location + "\r\nSERVER: "@
        + crate::mediarenderer::http::server_text(os) + "\r\nST: "@ + t.0 + "\r\nUSN: "@ + t.1
        + "\r\nBOOTID.UPNP.ORG: 1\r\nCONFIGID.UPNP.ORG: 1\r\n\r\n"@
}

/// Writes the answer to a search for one target. A search for all is answered
/// with the target's own type, and any other search has that very type.
pub fn reply_message(target: &(String, String), date: &str, location: &str, os: &str) -> (r: String)
    ensures
        r@ == reply_text((target.0@, target.1@), date@, location@, os@),
{
    let mut out: String =
        "HTTP/1.1 200 OK\r\nCACHE-CONTROL: max-age=1800\r\nDATE: ".to_owned();
    out.push_str(date);
    out.push_str("\r\nEXT: \r\nLOCATION: ");
    out.push_str(location);
    out.push_str("\r\nSERVER: ");
    out.push_str(server_header(os).as_str());
    out.push_str("\r\nST: ");
    out.push_str(target.0.as_str());
    out.push_str("\r\nUSN: ");
    out.push_str(target.1.as_str());
    out.push_str("\r\nBOOTID.UPNP.ORG: 1\r\nCONFIGID.UPNP.ORG: 1\r\n\r\n");
    out
}

/// Every answer names the type that was searched for, unless all were.
pub proof fn lemma_reply_names_target(targets: Seq<TargetView>, st: Seq<char>, i: int)
    requires
        0 <= i < matched(targets, st).len(),
        st != "ssdp:all"@,
    ensures
        matched(targets, st)[i].0 == st,
    decreases targets.len(),
{
    if targets.len() > 0 {
        let rest = matched(targets.drop_last(), st);
        if i < rest.len() {
            lemma_reply_names_target(targets.drop_last(), st, i);
        }
    }
}

/// A search for all is answered with every target, in order.
pub proof fn lemma_search_all(targets: Seq<TargetView>)
    ensures
        matched(targets, "ssdp:all"@) == targets,
    decreases targets.len(),
{
    if targets.len() > 0 {
        lemma_search_all(targets.drop_last());
        assert(targets.drop_last().push(targets.last()) =~= targets);
    }
}

/// A renderer answers for six things: the root device, itself, its type and its
/// three services, each under its own name.
pub proof fn lemma_targets(udn: Seq<char>)
    ensures
        target_list(udn).len() == 6,
        target_list(udn)[0] == ("upnp:rootdevice"@, udn + "::"@ + "upnp:rootdevice"@),
        target_list(udn)[1] == (udn, udn),
        target_list(udn)[2] == (
            "urn:schemas-upnp-org:device:MediaRenderer:1"@,
            udn + "::"@ + "urn:schemas-upnp-org:device:MediaRenderer:1"@,
        ),
        forall|svc: Service| #[trigger]
            target_list(udn).contains((svc.urn(), udn + "::"@ + svc.urn())),
{
    let t = target_list(udn);
    assert(t[3] == (Service::AvTransport.urn(), udn + "::"@ + Service::AvTransport.urn()));
    assert(t[4] == (
        Service::RenderingControl.urn(),
        udn + "::"@ + Service::RenderingControl.urn(),
    ));
    assert(t[5] == (
        Service::ConnectionManager.urn(),
        udn + "::"@ + Service::ConnectionManager.urn(),
    ));
    assert forall|svc: Service| #[trigger]
        t.contains((svc.urn(), udn + "::"@ + svc.urn())) by {
        match svc {
            Service::AvTransport => {
                assert(t[3] == (svc.urn(), udn + "::"@ + svc.urn()));
            },
            Service::RenderingControl => {
                assert(t[4] == (svc.urn(), udn + "::"@ + svc.urn()));
            },
            Service::ConnectionManager => {
                assert(t[5] == (svc.urn(), udn + "::"@ + svc.urn()));
            },
        }
    }
}

/// A search for a type that the device has is answered by it.
pub proof fn lemma_search_answered(targets: Seq<TargetView>, i: int)
    requires
        0 <= i < targets.len(),
    ensures
        matched(targets, targets[i].0).contains(targets[i]),
    decreases targets.len(),
{
    let st = targets[i].0;
    let rest = targets.drop_last();
    let all = matched(targets, st);
    if i < rest.len() {
        assert(rest[i] == targets[i]);
        lemma_search_answered(rest, i);
        let front = matched(rest, st);
        let k = choose|k: int| 0 <= k < front.len() && front[k] == targets[i];
        assert(all[k] == targets[i]);
    } else {
        assert(targets.last() == targets[i]);
        assert(all.last() == targets[i]);
        assert(all[all.len() - 1] == targets[i]);
    }
}

/// The value of a header line is what stands behind the first colon, whatever
/// the case of the name and the blanks round it.
pub proof fn lemma_line_read(name: Seq<char>, asked: Seq<char>, value: Seq<char>)
    requires
        forall|i: int| 0 <= i < name.len() ==> #[trigger] name[i] != ':',
        crate::text::trimmed(name) == name,
    ensures
        crate::text::lower(name) == crate::text::lower(asked) ==> line_value(
            name + seq![':'] + value,
            asked,
        ) == Some(crate::text::trimmed(value)),
        crate::text::lower(name) != crate::text::lower(asked) ==> line_value(
            name + seq![':'] + value,
            asked,
        ) is None,
{
    let s = name + seq![':'] + value;
    crate::text::lemma_index_of(s, ':', 0);
    assert(s[name.len() as int] == ':');
    assert forall|i: int| 0 <= i < name.len() implies #[trigger] s[i] != ':' by {
        assert(s[i] == name[i]);
    }
    assert(s.take(name.len() as int) =~= name);
    assert(s.skip(name.len() as int + 1) =~= value);
}

/// The first line with the name counts; others are passed over.
pub proof fn lemma_first_header(lines: Seq<Seq<char>>, name: Seq<char>, i: int)
    requires
        0 <= i < lines.len(),
        line_value(lines[i], name) is Some,
        forall|k: int| 0 <= k < i ==> line_value(#[trigger] lines[k], name) is None,
    ensures
        header_in(lines, name) == line_value(lines[i], name),
    decreases i,
{
    if i > 0 {
        assert(line_value(lines[0], name) is None);
        let rest = lines.skip(1);
        assert(rest[i - 1] == lines[i]);
        assert forall|k: int| 0 <= k < i - 1 implies line_value(#[trigger] rest[k], name) is None by {
            assert(rest[k] == lines[k + 1]);
        }
        lemma_first_header(rest, name, i - 1);
    }
}

/// Only a search is taken for one, and only one that asks for devices; its
/// target is the one that it names.
pub proof fn lemma_search_read(text: Seq<char>)
    ensures
        !crate::text::starts_with(text, "M-SEARCH"@) ==> search_target(text) is None,
        header_in(crate::text::lines(text), "ST"@) is None ==> search_target(text) is None,
        header_in(crate::text::lines(text), "MAN"@) is None ==> search_target(text) is None,
        search_target(text) is Some ==> search_target(text) == header_in(
            crate::text::lines(text),
            "ST"@,
        ),
        crate::text::starts_with(text, "M-SEARCH"@) && header_in(crate::text::lines(text), "ST"@)
            is Some && header_in(crate::text::lines(text), "MAN"@) is Some && crate::text::contains(
            header_in(crate::text::lines(text), "MAN"@)->0,
            "ssdp:discover"@,
        ) ==> search_target(text) == header_in(crate::text::lines(text), "ST"@),
{
}

/// What is announced, answered and taken back names its target by type and by
/// unique name; the first two say where the description is.
pub proof fn lemma_messages(t: TargetView, location: Seq<char>, date: Seq<char>, os: Seq<char>)
    ensures
        exists|a: Seq<char>, b: Seq<char>|
            alive_text(t, location, os) == #[trigger] (a + ("\r\nLOCATION: "@ + location + "\r\nNT: "@
                + t.0 + "\r\nNTS: ssdp:alive\r\n"@) + b),
        exists|a: Seq<char>, b: Seq<char>|
            byebye_text(t) == #[trigger] (a + ("\r\nNT: "@ + t.0
                + "\r\nNTS: ssdp:byebye\r\nUSN: "@ + t.1 + "\r\n"@) + b),
        exists|a: Seq<char>, b: Seq<char>|
            reply_text(t, date, location, os) == #[trigger] (a + ("\r\nLOCATION: "@ + location
                + "\r\n"@) + b),
        exists|a: Seq<char>, b: Seq<char>|
            reply_text(t, date, location, os) == #[trigger] (a + ("\r\nST: "@ + t.0
                + "\r\nUSN: "@ + t.1 + "\r\n"@) + b),
{
    reveal_strlit(
        "NOTIFY * HTTP/1.1\r\nHOST: 239.255.255.250:1900\r\nCACHE-CONTROL: max-age=1800\r\nLOCATION: ",
    );
    reveal_strlit("\r\nLOCATION: ");
    reveal_strlit("\r\nNTS: ssdp:alive\r\nSERVER: ");
    reveal_strlit("\r\nNTS: ssdp:alive\r\n");
    reveal_strlit("NOTIFY * HTTP/1.1\r\nHOST: 239.255.255.250:1900\r\nNT: ");
    reveal_strlit("\r\nNT: ");
    reveal_strlit("\r\nBOOTID.UPNP.ORG: 1\r\nCONFIGID.UPNP.ORG: 1\r\n\r\n");
    reveal_strlit("\r\n");
    reveal_strlit("\r\nEXT: \r\nLOCATION: ");
    reveal_strlit("\r\nSERVER: ");
    let end = "\r\nBOOTID.UPNP.ORG: 1\r\nCONFIGID.UPNP.ORG: 1\r\n\r\n"@;
    let srv = crate::mediarenderer::http::server_text(os);
    let n = "NOTIFY * HTTP/1.1\r\nHOST: 239.255.255.250:1900\r\nCACHE-CONTROL: max-age=1800\r\nLOCATION: "@;
    let a = n.take(n.len() - 12);
    assert(n =~= a + "\r\nLOCATION: "@);
    let al = "\r\nNTS: ssdp:alive\r\nSERVER: "@;
    assert(al =~= "\r\nNTS: ssdp:alive\r\n"@ + al.skip(19));
    let b = al.skip(19) + srv + "\r\nUSN: "@ + t.1 + end;
    assert(alive_text(t, location, os) =~= a + ("\r\nLOCATION: "@ + location + "\r\nNT: "@ + t.0
        + "\r\nNTS: ssdp:alive\r\n"@) + b);
    let m = "NOTIFY * HTTP/1.1\r\nHOST: 239.255.255.250:1900\r\nNT: "@;
    let c = m.take(m.len() - 6);
    assert(m =~= c + "\r\nNT: "@);
    assert(end =~= "\r\n"@ + end.skip(2));
    assert(byebye_text(t) =~= c + ("\r\nNT: "@ + t.0 + "\r\nNTS: ssdp:byebye\r\nUSN: "@ + t.1
        + "\r\n"@) + end.skip(2));
    let x = "\r\nEXT: \r\nLOCATION: "@;
    assert(x =~= x.take(7) + "\r\nLOCATION: "@);
    let sv = "\r\nSERVER: "@;
    assert(sv =~= "\r\n"@ + sv.skip(2));
    let head = "HTTP/1.1 200 OK\r\nCACHE-CONTROL: max-age=1800\r\nDATE: "@ + date;
    let rest = sv.skip(2) + srv + "\r\nST: "@ + t.0 + "\r\nUSN: "@ + t.1 + end;
    assert(reply_text(t, date, location, os) =~= (head + x.take(7)) + ("\r\nLOCATION: "@ + location
        + "\r\n"@) + rest);
    let front = head + x + location + sv + srv;
    assert(reply_text(t, date, location, os) =~= front + ("\r\nST: "@ + t.0 + "\r\nUSN: "@ + t.1
        + "\r\n"@) + end.skip(2));
}

} // verus!
