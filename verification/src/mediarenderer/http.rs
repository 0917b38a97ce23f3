//! HTTP/1.1 as far as the UPnP endpoints need it: one request per connection.

use vstd::prelude::*;
use vstd::slice::slice_subrange;

use crate::config::VERSION;
use crate::mediarenderer::desc::{
    av_transport_scpd, connection_manager_scpd, device_description, rendering_control_scpd,
};
use crate::mediarenderer::soap::Service;
use crate::num::{parse_nat, push_dec};
use crate::text::{
    chars, eq_ignore_case, find, find_char, from_chars, split_lines, str_eq, take_word, text_of,
    trim,
};

verus! {

/// The most bytes that the head of a request may have.
pub const MAX_HEAD: usize = 32768;

/// The most bytes that the body of a request may have.
pub const MAX_BODY: usize = 262144;

/// The text of a header: its name and its value.
pub type HeaderView = (Seq<char>, Seq<char>);

/// What a list of headers holds.
pub open spec fn header_views(h: Seq<(String, String)>) -> Seq<HeaderView> {
    h.map_values(|p: (String, String)| (p.0@, p.1@))
}

/// The value of the first header with this name, upper and lower case alike.
pub open spec fn header_value(h: Seq<HeaderView>, name: Seq<char>) -> Option<Seq<char>>
    decreases h.len(),
{
    if h.len() == 0 {
        None
    } else if crate::text::lower(h[0].0) == crate::text::lower(name) {
        Some(h[0].1)
    } else {
        header_value(h.skip(1), name)
    }
}

/// Finds the first header with this name.
fn find_header<'a>(headers: &'a Vec<(String, String)>, name: &str) -> (r: Option<&'a str>)
    ensures
        match r {
            Some(v) => header_value(header_views(headers@), name@) == Some(v@),
            None => header_value(header_views(headers@), name@) is None,
        },
{
    let mut i: usize = 0;
    let ghost all = header_views(headers@);
    proof {
        assert(all.skip(0) =~= all);
    }
    while i < headers.len()
        invariant
            i <= headers@.len(),
            all == header_views(headers@),
            header_value(all, name@) == header_value(all.skip(i as int), name@),
        decreases headers@.len() - i,
    {
        proof {
            assert(all.skip(i as int)[0] == all[i as int]);
            assert(all.skip(i as int).skip(1) =~= all.skip(i as int + 1));
        }
        if eq_ignore_case(headers[i].0.as_str(), name) {
            return Some(headers[i].1.as_str());
        }
        i += 1;
    }
    None
}

/// A request.
#[derive(Debug)]
pub struct Request {
    pub method: String,
    pub path: String,
    pub headers: Vec<(String, String)>,
    pub body: Vec<u8>,
}

impl Request {
    /// The value of the first header with this name.
    pub fn header(&self, name: &str) -> (r: Option<&str>)
        ensures
            match r {
                Some(v) => header_value(header_views(self.headers@), name@) == Some(v@),
                None => header_value(header_views(self.headers@), name@) is None,
            },
    {
        find_header(&self.headers, name)
    }
}

/// A response.
#[derive(Debug)]
pub struct Response {
    pub status: u16,
    pub reason: &'static str,
    pub headers: Vec<(String, String)>,
    pub body: Vec<u8>,
}

/// A response as a value.
pub ghost struct ResponseView {
    pub status: nat,
    pub reason: Seq<char>,
    pub headers: Seq<HeaderView>,
    pub body: Seq<u8>,
}

impl View for Response {
    type V = ResponseView;

    open spec fn view(&self) -> ResponseView {
        ResponseView {
            status: self.status as nat,
            reason: self.reason@,
            headers: header_views(self.headers@),
            body: self.body@,
        }
    }
}

/// A response without headers and body.
pub open spec fn empty_response(status: nat, reason: Seq<char>) -> ResponseView {
    ResponseView { status, reason, headers: Seq::empty(), body: Seq::empty() }
}

/// A response with an XML document.
pub open spec fn xml_response(status: nat, reason: Seq<char>, doc: Seq<char>) -> ResponseView {
    ResponseView {
        status,
        reason,
        headers: seq![("Content-Type"@, "text/xml; charset=\"utf-8\""@)],
        body: vstd::utf8::encode_utf8(doc),
    }
}

impl Response {
    pub fn new(status: u16, reason: &'static str) -> (r: Self)
        ensures
            r@ == empty_response(status as nat, reason@),
    {
        let r: Response = Response { status, reason, headers: Vec::new(), body: Vec::new() };
        proof {
            assert(header_views(r.headers@) =~= Seq::empty());
            assert(r.body@ =~= Seq::empty());
        }
        r
    }

    pub fn xml(status: u16, reason: &'static str, body: String) -> (r: Self)
        ensures
            r@ == xml_response(status as nat, reason@, body@),
    {
        let mut r: Response = Response::new(status, reason);
        r.push_header("Content-Type", "text/xml; charset=\"utf-8\"");
        r.body = vstd::slice::slice_to_vec(body.as_str().as_bytes());
        proof {
            assert(r@.headers =~= seq![("Content-Type"@, "text/xml; charset=\"utf-8\""@)]);
        }
        r
    }

    pub fn empty(status: u16, reason: &'static str) -> (r: Self)
        ensures
            r@ == empty_response(status as nat, reason@),
    {
        Response::new(status, reason)
    }

    /// Adds a header.
    pub fn push_header(&mut self, name: &str, value: &str)
        ensures
            final(self)@ == (ResponseView {
                headers: old(self)@.headers.push((name@, value@)),
                ..old(self)@
            }),
    {
        let ghost before = header_views(self.headers@);
        self.headers.push((name.to_owned(), value.to_owned()));
        proof {
            assert(header_views(self.headers@) =~= before.push((name@, value@)));
        }
    }
}

/// Where the blank line stands that ends the head of a request.
pub open spec fn head_end(buf: Seq<u8>, from: int) -> Option<int>
    decreases buf.len() - from,
{
    if from < 0 || from + 4 > buf.len() {
        None
    } else if buf[from] == 13 && buf[from + 1] == 10 && buf[from + 2] == 13 && buf[from + 3] == 10 {
        Some(from)
    } else {
        head_end(buf, from + 1)
    }
}

/// Finds the blank line that ends the head of a request.
pub fn find_head_end(buf: &[u8]) -> (r: Option<usize>)
    ensures
        match r {
            Some(i) => head_end(buf@, 0) == Some(i as int) && i + 4 <= buf@.len(),
            None => head_end(buf@, 0) is None,
        },
{
    let mut i: usize = 0;
    let n: usize = buf.len();
    while i < n && n - i >= 4
        invariant
            i <= n,
            n == buf@.len(),
            head_end(buf@, 0) == head_end(buf@, i as int),
        decreases n - i,
    {
        if buf[i] == 13 && buf[i + 1] == 10 && buf[i + 2] == 13 && buf[i + 3] == 10 {
            return Some(i);
        }
        i += 1;
    }
    None
}

/// Why a request is not answered.
#[derive(Debug, Clone, Copy, PartialEq, Eq, Structural)]
pub enum HttpError {
    HeadTooLarge,
    EmptyRequest,
    MissingMethod,
    MissingPath,
    BodyTooLarge,
}

/// What to do with the bytes of a request that have come so far.
#[derive(Debug, Clone, Copy, PartialEq, Eq, Structural)]
pub enum HeadStep {
    /// The head ends before this position.
    Complete(usize),
    /// More bytes are needed.
    Read,
    /// The head is too large.
    TooLarge,
}

/// Looks whether the head of a request is there.
pub fn head_step(buf: &[u8]) -> (r: HeadStep)
    ensures
        match r {
            HeadStep::Complete(i) => head_end(buf@, 0) == Some(i as int) && i + 4 <= buf@.len(),
            HeadStep::TooLarge => head_end(buf@, 0) is None && buf@.len() > MAX_HEAD,
            HeadStep::Read => head_end(buf@, 0) is None && buf@.len() <= MAX_HEAD,
        },
{
    match find_head_end(buf) {
        Some(i) => HeadStep::Complete(i),
        None => if buf.len() > MAX_HEAD {
            HeadStep::TooLarge
        } else {
            HeadStep::Read
        },
    }
}

/// The path of a request target: without scheme, host, query and fragment.
pub open spec fn target_path(target: Seq<char>) -> Seq<char> {
    let path = match crate::text::find_from(target, "://"@, 0) {
        None => target,
        Some(i) => {
            let rest = target.skip(i + 3);
            match crate::text::index_of(rest, '/', 0) {
                Some(j) => rest.skip(j),
                None => "/"@,
            }
        },
    };
    crate::mediarenderer::xml::without_query(path)
}

fn path_of_target(target: &[char]) -> (r: String)
    ensures
        r@ == target_path(target@),
{
    let sep: Vec<char> = chars("://");
    let root: Vec<char> = chars("/");
    proof {
        reveal_strlit("://");
    }
    let n: usize = target.len();
    let path: &[char] = match find(target, sep.as_slice(), 0) {
        None => target,
        Some(i) => {
            let rest: &[char] = slice_subrange(target, i + 3, n);
            proof {
                assert(rest@ =~= target@.skip(i + 3));
            }
            match find_char(rest, '/', 0) {
                Some(j) => {
                    let tail: &[char] = slice_subrange(rest, j, rest.len());
                    proof {
                        assert(tail@ =~= rest@.skip(j as int));
                    }
                    tail
                },
                None => root.as_slice(),
            }
        },
    };
    let cut: &[char] = crate::mediarenderer::xml::cut_query(path);
    from_chars(cut)
}

/// The headers in the lines of a head: those with a colon, name and value
/// without the white space round them.
pub open spec fn header_lines(lines: Seq<Seq<char>>) -> Seq<HeaderView>
    decreases lines.len(),
{
    if lines.len() == 0 {
        Seq::empty()
    } else {
        let l = lines.last();
        match crate::text::index_of(l, ':', 0) {
            None => header_lines(lines.drop_last()),
            Some(i) => header_lines(lines.drop_last()).push(
                (crate::text::trimmed(l.take(i)), crate::text::trimmed(l.skip(i + 1))),
            ),
        }
    }
}

fn read_headers(lines: &Vec<Vec<char>>) -> (r: Vec<(String, String)>)
    requires
        lines@.len() > 0,
    ensures
        header_views(r@) == header_lines(crate::text::views(lines@).skip(1)),
{
    let ghost all = crate::text::views(lines@).skip(1);
    let mut out: Vec<(String, String)> = Vec::new();
    let mut i: usize = 1;
    proof {
        assert(all.take(0).len() == 0);
        assert(header_views(out@) =~= header_lines(all.take(0)));
    }
    while i < lines.len()
        invariant
            1 <= i <= lines@.len(),
            all == crate::text::views(lines@).skip(1),
            header_views(out@) == header_lines(all.take(i - 1)),
        decreases lines@.len() - i,
    {
        let l: &[char] = lines[i].as_slice();
        let n: usize = l.len();
        proof {
            assert(all[i - 1] == l@);
            assert(all.take(i as int).drop_last() =~= all.take(i - 1));
            assert(all.take(i as int).last() == l@);
        }
        match find_char(l, ':', 0) {
            None => {},
            Some(c) => {
                let k: &[char] = slice_subrange(l, 0, c);
                let v: &[char] = slice_subrange(l, c + 1, n);
                proof {
                    assert(k@ =~= l@.take(c as int));
                    assert(v@ =~= l@.skip(c as int + 1));
                }
                let key: String = from_chars(trim(k));
                let value: String = from_chars(trim(v));
                let ghost before = header_views(out@);
                out.push((key, value));
                proof {
                    assert(header_views(out@) =~= before.push((key@, value@)));
                }
            },
        }
        i += 1;
    }
    proof {
        assert(all.take(i - 1) =~= all);
    }
    out
}

/// The length of the body that a head announces: a number in the first
/// `Content-Length` header, else none.
pub open spec fn announced_length(h: Seq<HeaderView>) -> nat {
    match header_value(h, "content-length"@) {
        None => 0,
        Some(v) => match crate::num::parsed_nat(v, usize::MAX as nat) {
            Some(n) => n,
            None => 0,
        },
    }
}

/// The head of a request.
#[derive(Debug)]
pub struct Head {
    pub method: String,
    pub path: String,
    pub headers: Vec<(String, String)>,
    pub content_length: usize,
}

/// What the head of a request says: the method, the path, the headers and the
/// length of the body.
pub open spec fn head_of(text: Seq<char>) -> Result<
    (Seq<char>, Seq<char>, Seq<HeaderView>, nat),
    HttpError,
> {
    let lines = crate::text::lines(text);
    if lines.len() == 0 {
        Err(HttpError::EmptyRequest)
    } else {
        match crate::text::next_word(lines[0]) {
            None => Err(HttpError::MissingMethod),
            Some((method, rest)) => match crate::text::next_word(rest) {
                None => Err(HttpError::MissingPath),
                Some((target, _)) => {
                    let headers = header_lines(lines.skip(1));
                    if announced_length(headers) > MAX_BODY {
                        Err(HttpError::BodyTooLarge)
                    } else {
                        Ok(
                            (
                                crate::text::upper_case(method),
                                target_path(target),
                                headers,
                                announced_length(headers),
                            ),
                        )
                    }
                },
            },
        }
    }
}

fn content_length(headers: &Vec<(String, String)>) -> (r: usize)
    ensures
        r == announced_length(header_views(headers@)),
{
    match find_header(headers, "content-length") {
        None => 0,
        Some(v) => {
            let cs: Vec<char> = chars(v);
            match parse_nat(cs.as_slice(), usize::MAX as u64) {
                Some(n) => n as usize,
                None => 0,
            }
        },
    }
}

/// Reads the head of a request.
pub fn parse_head(text: &str) -> (r: Result<Head, HttpError>)
    ensures
        match r {
            Ok(h) => head_of(text@) == Ok::<
                (Seq<char>, Seq<char>, Seq<HeaderView>, nat),
                HttpError,
            >((h.method@, h.path@, header_views(h.headers@), h.content_length as nat)),
            Err(e) => head_of(text@) == Err::<
                (Seq<char>, Seq<char>, Seq<HeaderView>, nat),
                HttpError,
            >(e),
        },
        r is Ok ==> r->Ok_0.content_length <= MAX_BODY,
{
    let cs: Vec<char> = chars(text);
    let lines: Vec<Vec<char>> = split_lines(cs.as_slice());
    proof {
        assert(crate::text::views(lines@).len() == lines@.len());
    }
    if lines.len() == 0 {
        return Err(HttpError::EmptyRequest);
    }
    let (method, rest) = match take_word(lines[0].as_slice()) {
        Some(p) => p,
        None => {
            return Err(HttpError::MissingMethod);
        },
    };
    let target: &[char] = match take_word(rest) {
        Some((t, _)) => t,
        None => {
            return Err(HttpError::MissingPath);
        },
    };
    let headers: Vec<(String, String)> = read_headers(&lines);
    let length: usize = content_length(&headers);
    if length > MAX_BODY {
        return Err(HttpError::BodyTooLarge);
    }
    let plain: String = from_chars(method);
    Ok(
        Head {
            method: crate::text::to_upper(plain.as_str()),
            path: path_of_target(target),
            headers,
            content_length: length,
        },
    )
}

/// Reads the head of a request from the bytes before its blank line.
pub fn parse_head_bytes(buf: &[u8], end: usize) -> (r: Result<Head, HttpError>)
    requires
        end <= buf@.len(),
    ensures
        match r {
            Ok(h) => head_of(crate::text::utf8_lossy(buf@.take(end as int))) == Ok::<
                (Seq<char>, Seq<char>, Seq<HeaderView>, nat),
                HttpError,
            >((h.method@, h.path@, header_views(h.headers@), h.content_length as nat)),
            Err(e) => head_of(crate::text::utf8_lossy(buf@.take(end as int))) == Err::<
                (Seq<char>, Seq<char>, Seq<HeaderView>, nat),
                HttpError,
            >(e),
        },
        r is Ok ==> r->Ok_0.content_length <= MAX_BODY,
{
    let head: &[u8] = slice_subrange(buf, 0, end);
    proof {
        assert(head@ =~= buf@.take(end as int));
    }
    let text: String = text_of(head);
    parse_head(text.as_str())
}

impl Head {
    /// More bytes of the body are needed.
    pub fn needs_more(&self, body: &Vec<u8>) -> (r: bool)
        ensures
            r == (body@.len() < self.content_length),
    {
        body.len() < self.content_length
    }

    /// The request with the bytes that came behind its head; what goes beyond
    /// the announced length is dropped.
    pub fn with_body(self, body: Vec<u8>) -> (r: Request)
        ensures
            r.method == self.method,
            r.path == self.path,
            r.headers == self.headers,
            r.body@ == (if body@.len() > self.content_length {
                body@.take(self.content_length as int)
            } else {
                body@
            }),
    {
        let mut body: Vec<u8> = body;
        body.truncate(self.content_length);
        Request { method: self.method, path: self.path, headers: self.headers, body }
    }
}

/// How this device presents itself on the network.
#[derive(Debug)]
pub struct Options {
    /// Name shown in the device pickers of control points.
    pub friendly_name: String,
    /// Bare UUID, without the `uuid:` prefix. It should stay the same over
    /// restarts, so that control points remember the device.
    pub uuid: String,
    /// TCP port of the description, control and event server; 0 for any.
    pub port: u16,
}

impl Clone for Options {
    fn clone(&self) -> (r: Self)
        ensures
            r == *self,
    {
        Options { friendly_name: self.friendly_name.clone(), uuid: self.uuid.clone(), port: self.port }
    }
}

impl Options {
    /// The unique device name.
    pub open spec fn device_name(self) -> Seq<char> {
        "uuid:"@ + self.uuid@
    }

    pub fn udn(&self) -> (r: String)
        ensures
            r@ == self.device_name(),
    {
        let mut out: String = "uuid:".to_owned();
        out.push_str(self.uuid.as_str());
        out
    }
}

/// How the server names itself on an operating system.
pub open spec fn server_text(os: Seq<char>) -> Seq<char> {
    os + " UPnP/1.0 fin/"@ + VERSION@
}

/// The value of the `Server` header on an operating system.
pub fn server_header(os: &str) -> (r: String)
    ensures
        r@ == server_text(os@),
{
    let mut out: String = os.to_owned();
    out.push_str(" UPnP/1.0 fin/");
    out.push_str(VERSION);
    out
}

/// Headers as they are written, one line each.
pub open spec fn headers_text(h: Seq<HeaderView>) -> Seq<char>
    decreases h.len(),
{
    if h.len() == 0 {
        Seq::empty()
    } else {
        headers_text(h.drop_last()) + (h.last().0 + ": "@ + h.last().1 + "\r\n"@)
    }
}

/// The head of a response.
pub open spec fn response_head_text(r: ResponseView, os: Seq<char>) -> Seq<char> {
    "HTTP/1.1 "@ + crate::num::dec(r.status) + " "@ + r.reason + "\r\n"@ + headers_text(r.headers)
        + "Server: "@ + server_text(os) + "\r\nContent-Length: "@ + crate::num::dec(r.body.len())
        + "\r\nConnection: close\r\n\r\n"@
}

/// Writes the head of a response.
pub fn response_head(resp: &Response, os: &str) -> (r: String)
    ensures
        r@ == response_head_text(resp@, os@),
{
    let mut list: String = String::new();
    let ghost all = header_views(resp.headers@);
    let mut i: usize = 0;
    proof {
        assert(all.take(0).len() == 0);
    }
    while i < resp.headers.len()
        invariant
            i <= resp.headers@.len(),
            all == header_views(resp.headers@),
            list@ == headers_text(all.take(i as int)),
        decreases resp.headers@.len() - i,
    {
        let ghost before = list@;
        list.push_str(resp.headers[i].0.as_str());
        list.push_str(": ");
        list.push_str(resp.headers[i].1.as_str());
        list.push_str("\r\n");
        proof {
            let h = all[i as int];
            assert(all.take(i as int + 1).drop_last() =~= all.take(i as int));
            assert(list@ =~= before + (h.0 + ": "@ + h.1 + "\r\n"@));
        }
        i += 1;
    }
    proof {
        assert(all.take(i as int) =~= all);
    }
    let mut out: String = "HTTP/1.1 ".to_owned();
    push_dec(&mut out, resp.status as u64);
    out.push_str(" ");
    out.push_str(resp.reason);
    out.push_str("\r\n");
    out.push_str(list.as_str());
    out.push_str("Server: ");
    out.push_str(server_header(os).as_str());
    out.push_str("\r\nContent-Length: ");
    push_dec(&mut out, resp.body.len() as u64);
    out.push_str("\r\nConnection: close\r\n\r\n");
    out
}

/// The body goes out unless only the head was asked for.
pub fn sends_body(method: &str) -> (r: bool)
    ensures
        r == (method@ != "HEAD"@),
{
    !str_eq(method, "HEAD")
}

/// Where a request leads.
#[derive(Debug)]
pub enum Route {
    /// The answer is at hand.
    Answer(Response),
    /// An action of a service.
    Control(Service),
    /// A subscription to a service's events.
    Event(Service),
}

/// A route as a value.
pub ghost enum RouteView {
    Answer(ResponseView),
    Control(Service),
    Event(Service),
}

impl View for Route {
    type V = RouteView;

    open spec fn view(&self) -> RouteView {
        match *self {
            Route::Answer(r) => RouteView::Answer(r@),
            Route::Control(s) => RouteView::Control(s),
            Route::Event(s) => RouteView::Event(s),
        }
    }
}

/// The service whose actions are posted to a path.
pub open spec fn control_service(path: Seq<char>) -> Option<Service> {
    if path == Service::AvTransport.control_path() {
        Some(Service::AvTransport)
    } else if path == Service::RenderingControl.control_path() {
        Some(Service::RenderingControl)
    } else if path == Service::ConnectionManager.control_path() {
        Some(Service::ConnectionManager)
    } else {
        None
    }
}

/// The service whose events are subscribed at a path.
pub open spec fn event_service(path: Seq<char>) -> Option<Service> {
    if path == Service::AvTransport.event_path() {
        Some(Service::AvTransport)
    } else if path == Service::RenderingControl.event_path() {
        Some(Service::RenderingControl)
    } else if path == Service::ConnectionManager.event_path() {
        Some(Service::ConnectionManager)
    } else {
        None
    }
}

/// Where each method and path lead.
pub open spec fn route_of(opts: Options, method: Seq<char>, path: Seq<char>) -> RouteView {
    let get = method == "GET"@ || method == "HEAD"@;
    let missing = RouteView::Answer(empty_response(404, "Not Found"@));
    if get && path == "/description.xml"@ {
        RouteView::Answer(
            xml_response(
                200,
                "OK"@,
                crate::mediarenderer::desc::device_text(opts.friendly_name@, opts.uuid@),
            ),
        )
    } else if get && path == "/scpd/AVTransport.xml"@ {
        RouteView::Answer(
            xml_response(
                200,
                "OK"@,
                crate::mediarenderer::desc::scpd_text(
                    crate::mediarenderer::desc::av_transport_actions(),
                    crate::mediarenderer::desc::av_transport_vars(),
                ),
            ),
        )
    } else if get && path == "/scpd/RenderingControl.xml"@ {
        RouteView::Answer(
            xml_response(
                200,
                "OK"@,
                crate::mediarenderer::desc::scpd_text(
                    crate::mediarenderer::desc::rendering_control_actions(),
                    crate::mediarenderer::desc::rendering_control_vars(),
                ),
            ),
        )
    } else if get && path == "/scpd/ConnectionManager.xml"@ {
        RouteView::Answer(
            xml_response(
                200,
                "OK"@,
                crate::mediarenderer::desc::scpd_text(
                    crate::mediarenderer::desc::connection_manager_actions(),
                    crate::mediarenderer::desc::connection_manager_vars(),
                ),
            ),
        )
    } else if method == "POST"@ {
        match control_service(path) {
            Some(s) => RouteView::Control(s),
            None => missing,
        }
    } else if method == "SUBSCRIBE"@ || method == "UNSUBSCRIBE"@ {
        match event_service(path) {
            Some(s) => RouteView::Event(s),
            None => missing,
        }
    } else {
        missing
    }
}

/// Routes a request.
pub fn route(opts: &Options, method: &str, path: &str) -> (r: Route)
    ensures
        r@ == route_of(*opts, method@, path@),
{
    let get: bool = str_eq(method, "GET") || str_eq(method, "HEAD");
    if get && str_eq(path, "/description.xml") {
        Route::Answer(
            Response::xml(
                200,
                "OK",
                device_description(opts.friendly_name.as_str(), opts.uuid.as_str()),
            ),
        )
    } else if get && str_eq(path, "/scpd/AVTransport.xml") {
        Route::Answer(Response::xml(200, "OK", av_transport_scpd()))
    } else if get && str_eq(path, "/scpd/RenderingControl.xml") {
        Route::Answer(Response::xml(200, "OK", rendering_control_scpd()))
    } else if get && str_eq(path, "/scpd/ConnectionManager.xml") {
        Route::Answer(Response::xml(200, "OK", connection_manager_scpd()))
    } else if str_eq(method, "POST") {
        proof {
            crate::mediarenderer::soap::lemma_all_paths_distinct();
        }
        match Service::from_control_path(path) {
            Some(s) => Route::Control(s),
            None => Route::Answer(Response::empty(404, "Not Found")),
        }
    } else if str_eq(method, "SUBSCRIBE") || str_eq(method, "UNSUBSCRIBE") {
        proof {
            crate::mediarenderer::soap::lemma_all_paths_distinct();
        }
        match Service::from_event_path(path) {
            Some(s) => Route::Event(s),
            None => Route::Answer(Response::empty(404, "Not Found")),
        }
    } else {
        Route::Answer(Response::empty(404, "Not Found"))
    }
}

/// The response to an action, once it is settled.
pub open spec fn soap_response_of(
    svc: Service,
    action: Seq<char>,
    answer: Result<Seq<char>, crate::mediarenderer::soap::SoapError>,
) -> ResponseView {
    match answer {
        Ok(out) => xml_response(
            200,
            "OK"@,
            crate::mediarenderer::soap::answer_text(svc, action, out),
        ),
        Err(e) => xml_response(
            500,
            "Internal Server Error"@,
            crate::mediarenderer::soap::fault_text(e),
        ),
    }
}

/// Answers an action, once it is settled.
pub fn soap_response(
    svc: Service,
    action: &str,
    answer: Result<String, crate::mediarenderer::soap::SoapError>,
) -> (r: Response)
    ensures
        r@ == soap_response_of(
            svc,
            action@,
            match answer {
                Ok(out) => Ok(out@),
                Err(e) => Err(e),
            },
        ),
{
    match answer {
        Ok(out) => Response::xml(
            200,
            "OK",
            crate::mediarenderer::soap::answer_envelope(svc, action, out.as_str()),
        ),
        Err(e) => Response::xml(
            500,
            "Internal Server Error",
            crate::mediarenderer::soap::fault_envelope(e),
        ),
    }
}

/// The first header of a name counts, whatever the case of its name.
pub proof fn lemma_first_header(h: Seq<HeaderView>, name: Seq<char>, i: int)
    requires
        0 <= i < h.len(),
        crate::text::lower(h[i].0) == crate::text::lower(name),
        forall|k: int|
            0 <= k < i ==> crate::text::lower((#[trigger] h[k]).0) != crate::text::lower(name),
    ensures
        header_value(h, name) == Some(h[i].1),
    decreases i,
{
    if i > 0 {
        assert(crate::text::lower(h[0].0) != crate::text::lower(name));
        let rest = h.skip(1);
        assert(rest[i - 1] == h[i]);
        assert forall|k: int| 0 <= k < i - 1 implies crate::text::lower((#[trigger] rest[k]).0)
            != crate::text::lower(name) by {
            assert(rest[k] == h[k + 1]);
        }
        lemma_first_header(rest, name, i - 1);
    }
}

/// The body is as long as its header says, and without one there is none.
pub proof fn lemma_length_read(h: Seq<HeaderView>, n: nat)
    ensures
        header_value(h, "content-length"@) is None ==> announced_length(h) == 0,
        header_value(h, "content-length"@) == Some(crate::num::dec(n)) && n <= usize::MAX
            ==> announced_length(h) == n,
{
    crate::num::lemma_parse_dec(n, usize::MAX as nat);
}

/// The head ends at the first blank line and nowhere before.
pub proof fn lemma_head_end(buf: Seq<u8>, from: int)
    requires
        0 <= from,
    ensures
        match head_end(buf, from) {
            Some(i) => {
                &&& from <= i
                &&& i + 4 <= buf.len()
                &&& buf.subrange(i, i + 4) == seq![13u8, 10u8, 13u8, 10u8]
                &&& forall|k: int|
                    from <= k < i ==> #[trigger] buf.subrange(k, k + 4) != seq![
                        13u8,
                        10u8,
                        13u8,
                        10u8,
                    ]
            },
            None => forall|k: int|
                from <= k && k + 4 <= buf.len() ==> #[trigger] buf.subrange(k, k + 4) != seq![
                    13u8,
                    10u8,
                    13u8,
                    10u8,
                ],
        },
    decreases buf.len() - from,
{
    let blank = seq![13u8, 10u8, 13u8, 10u8];
    if from + 4 <= buf.len() {
        let here = buf.subrange(from, from + 4);
        if buf[from] == 13 && buf[from + 1] == 10 && buf[from + 2] == 13 && buf[from + 3] == 10 {
            assert(here =~= blank);
        } else {
            if here == blank {
                assert(here[0] == buf[from] && here[1] == buf[from + 1] && here[2] == buf[from + 2]
                    && here[3] == buf[from + 3]);
                assert(blank[0] == 13 && blank[1] == 10 && blank[2] == 13 && blank[3] == 10);
            }
            lemma_head_end(buf, from + 1);
        }
    }
}

/// A head line with a colon is a header: what stands before it is the name, what
/// stands behind it the value. They stand in the order of their lines.
pub proof fn lemma_header_lines(lines: Seq<Seq<char>>, name: Seq<char>, value: Seq<char>)
    requires
        forall|i: int| 0 <= i < name.len() ==> #[trigger] name[i] != ':',
    ensures
        header_lines(lines.push(name + seq![':'] + value)) == header_lines(lines).push(
            (crate::text::trimmed(name), crate::text::trimmed(value)),
        ),
        header_lines(Seq::empty()).len() == 0,
{
    let l = name + seq![':'] + value;
    let all = lines.push(l);
    crate::text::lemma_index_of(l, ':', 0);
    assert(l[name.len() as int] == ':');
    assert forall|i: int| 0 <= i < name.len() implies #[trigger] l[i] != ':' by {
        assert(l[i] == name[i]);
    }
    assert(l.take(name.len() as int) =~= name);
    assert(l.skip(name.len() as int + 1) =~= value);
    assert(all.drop_last() =~= lines);
    assert(all.last() == l);
}

proof fn lemma_methods()
    ensures
        "GET"@.len() == 3,
        "HEAD"@.len() == 4 && "HEAD"@[0] == 'H',
        "POST"@.len() == 4 && "POST"@[0] == 'P',
        "SUBSCRIBE"@.len() == 9,
        "UNSUBSCRIBE"@.len() == 11,
        "/description.xml"@.len() == 16 && "/description.xml"@[1] == 'd',
        "/scpd/AVTransport.xml"@.len() == 21 && "/scpd/AVTransport.xml"@[1] == 's',
        "/scpd/RenderingControl.xml"@.len() == 26 && "/scpd/RenderingControl.xml"@[1] == 's',
        "/scpd/ConnectionManager.xml"@.len() == 27 && "/scpd/ConnectionManager.xml"@[1] == 's',
{
    reveal_strlit("GET");
    reveal_strlit("HEAD");
    reveal_strlit("POST");
    reveal_strlit("SUBSCRIBE");
    reveal_strlit("UNSUBSCRIBE");
    reveal_strlit("/description.xml");
    reveal_strlit("/scpd/AVTransport.xml");
    reveal_strlit("/scpd/RenderingControl.xml");
    reveal_strlit("/scpd/ConnectionManager.xml");
}

/// What is posted to the path of a service is an action of that service, and a
/// subscription at the path of its events is one to these. Each service has its
/// own document, the device has one, and any other path leads nowhere.
pub proof fn lemma_routes(opts: Options, svc: Service)
    ensures
        route_of(opts, "POST"@, svc.control_path()) == RouteView::Control(svc),
        route_of(opts, "SUBSCRIBE"@, svc.event_path()) == RouteView::Event(svc),
        route_of(opts, "UNSUBSCRIBE"@, svc.event_path()) == RouteView::Event(svc),
        route_of(opts, "GET"@, "/description.xml"@) == RouteView::Answer(
            xml_response(
                200,
                "OK"@,
                crate::mediarenderer::desc::device_text(opts.friendly_name@, opts.uuid@),
            ),
        ),
        route_of(opts, "GET"@, "/scpd/AVTransport.xml"@) == RouteView::Answer(
            xml_response(
                200,
                "OK"@,
                crate::mediarenderer::desc::scpd_text(
                    crate::mediarenderer::desc::av_transport_actions(),
                    crate::mediarenderer::desc::av_transport_vars(),
                ),
            ),
        ),
        route_of(opts, "GET"@, "/scpd/RenderingControl.xml"@) == RouteView::Answer(
            xml_response(
                200,
                "OK"@,
                crate::mediarenderer::desc::scpd_text(
                    crate::mediarenderer::desc::rendering_control_actions(),
                    crate::mediarenderer::desc::rendering_control_vars(),
                ),
            ),
        ),
        route_of(opts, "GET"@, "/scpd/ConnectionManager.xml"@) == RouteView::Answer(
            xml_response(
                200,
                "OK"@,
                crate::mediarenderer::desc::scpd_text(
                    crate::mediarenderer::desc::connection_manager_actions(),
                    crate::mediarenderer::desc::connection_manager_vars(),
                ),
            ),
        ),
        route_of(opts, "GET"@, Seq::empty()) == RouteView::Answer(
            empty_response(404, "Not Found"@),
        ),
        route_of(opts, "POST"@, Seq::empty()) == RouteView::Answer(
            empty_response(404, "Not Found"@),
        ),
        route_of(opts, "POST"@, svc.event_path()) == RouteView::Answer(
            empty_response(404, "Not Found"@),
        ),
{
    lemma_methods();
    crate::mediarenderer::soap::lemma_all_paths_distinct();
    crate::mediarenderer::soap::lemma_paths_distinct(Service::AvTransport, svc);
    crate::mediarenderer::soap::lemma_paths_distinct(Service::RenderingControl, svc);
    crate::mediarenderer::soap::lemma_paths_distinct(Service::ConnectionManager, svc);
    crate::mediarenderer::soap::lemma_path_lengths(Service::AvTransport);
    crate::mediarenderer::soap::lemma_path_lengths(Service::RenderingControl);
    crate::mediarenderer::soap::lemma_path_lengths(Service::ConnectionManager);
}

/// An answer is sent as one, a failure as a fault; both are XML documents.
pub proof fn lemma_soap_responses(
    svc: Service,
    action: Seq<char>,
    out: Seq<char>,
    e: crate::mediarenderer::soap::SoapError,
)
    ensures
        soap_response_of(svc, action, Ok(out)).status == 200,
        soap_response_of(svc, action, Ok(out)).body == vstd::utf8::encode_utf8(
            crate::mediarenderer::soap::answer_text(svc, action, out),
        ),
        soap_response_of(svc, action, Err(e)).status == 500,
        soap_response_of(svc, action, Err(e)).body == vstd::utf8::encode_utf8(
            crate::mediarenderer::soap::fault_text(e),
        ),
        soap_response_of(svc, action, Ok(out)).headers == seq![
            ("Content-Type"@, "text/xml; charset=\"utf-8\""@),
        ],
        empty_response(404, "Not Found"@).body.len() == 0,
{
}

/// Without a scheme and a query, the path of a target is the target.
pub proof fn lemma_plain_target(path: Seq<char>)
    requires
        crate::text::find_from(path, "://"@, 0) is None,
    ensures
        target_path(path) == crate::mediarenderer::xml::without_query(path),
{
}

/// The head of a response tells its status, its headers and the length of its
/// body.
pub proof fn lemma_response_head(r: ResponseView, os: Seq<char>)
    ensures
        exists|b: Seq<char>|
            response_head_text(r, os) == "HTTP/1.1 "@ + crate::num::dec(r.status) + " "@ + r.reason
                + "\r\n"@ + #[trigger] (headers_text(r.headers) + b),
        exists|a: Seq<char>, b: Seq<char>|
            response_head_text(r, os) == #[trigger] (a + ("\r\nContent-Length: "@ + crate::num::dec(
                r.body.len(),
            )) + b),
        forall|h: Seq<HeaderView>, name: Seq<char>, value: Seq<char>|
            headers_text(#[trigger] h.push((name, value))) == headers_text(h) + (name + ": "@
                + value + "\r\n"@),
{
    let first = "HTTP/1.1 "@ + crate::num::dec(r.status) + " "@ + r.reason + "\r\n"@;
    let tail = "Server: "@ + server_text(os) + "\r\nContent-Length: "@ + crate::num::dec(
        r.body.len(),
    ) + "\r\nConnection: close\r\n\r\n"@;
    assert(response_head_text(r, os) =~= first + (headers_text(r.headers) + tail));
    let a = first + headers_text(r.headers) + "Server: "@ + server_text(os);
    let len = "\r\nContent-Length: "@ + crate::num::dec(r.body.len());
    assert(response_head_text(r, os) =~= a + len + "\r\nConnection: close\r\n\r\n"@);
    assert forall|h: Seq<HeaderView>, name: Seq<char>, value: Seq<char>|
        headers_text(#[trigger] h.push((name, value))) == headers_text(h) + (name + ": "@ + value
            + "\r\n"@) by {
        assert(h.push((name, value)).drop_last() =~= h);
    }
}

/// The device is known by its id, and names itself as this program.
pub proof fn lemma_device_named(opts: Options, os: Seq<char>)
    ensures
        opts.device_name() == "uuid:"@ + opts.uuid@,
        server_text(os) == os + " UPnP/1.0 fin/"@ + VERSION@,
{
}

/// The first line of a head names the method and the target, and the lines
/// behind it are its headers. A body that is too long is refused, and so is a
/// head without a method or a path.
pub proof fn lemma_head_read(text: Seq<char>)
    ensures
        crate::text::lines(text).len() == 0 ==> head_of(text) == Err::<
            (Seq<char>, Seq<char>, Seq<HeaderView>, nat),
            HttpError,
        >(HttpError::EmptyRequest),
        crate::text::lines(text).len() > 0 && crate::text::next_word(crate::text::lines(text)[0])
            is None ==> head_of(text) == Err::<
            (Seq<char>, Seq<char>, Seq<HeaderView>, nat),
            HttpError,
        >(HttpError::MissingMethod),
        head_of(text) matches Ok((method, path, headers, length)) ==> {
            let lines = crate::text::lines(text);
            let (first, rest) = crate::text::next_word(lines[0])->0;
            let (target, _tail) = crate::text::next_word(rest)->0;
            &&& lines.len() > 0
            &&& crate::text::next_word(lines[0]) is Some
            &&& method == crate::text::upper_case(first)
            &&& crate::text::next_word(rest) is Some
            &&& path == target_path(target)
            &&& headers == header_lines(lines.skip(1))
            &&& length == announced_length(headers)
            &&& length <= 262144
        },
        crate::text::lines(text).len() > 0 && announced_length(
            header_lines(crate::text::lines(text).skip(1)),
        ) > 262144 ==> head_of(text) is Err,
{
}

} // verus!
