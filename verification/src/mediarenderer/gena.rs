//! Eventing: subscriptions of control points, and the `LastChange` documents
//! that they are sent.

use vstd::prelude::*;
use vstd::slice::slice_subrange;

use crate::ids::{is_uuid, new_uuid};
use crate::mediarenderer::desc::SINK_PROTOCOL_INFO;
use crate::mediarenderer::http::{Request, Response};
use crate::mediarenderer::soap::{transport_state, volume_percent, Service, Session};
use crate::mediarenderer::xml::encode_entities;
use crate::num::{fmt_hms, push_dec, push_next};
use crate::renderer::PlaybackState;
use crate::text::{chars, from_chars, match_at, split_at_char, str_eq, trim};

verus! {

/// How long a subscription lasts, in seconds.
pub const TIMEOUT_SECS: u64 = 1800;

/// How long a subscription lasts, in milliseconds.
pub const TIMEOUT_MS: u64 = 1_800_000;

/// When a subscription ends that begins now; at the end of time at the latest.
pub open spec fn end_of(now_ms: u64) -> u64 {
    if now_ms + TIMEOUT_MS > u64::MAX {
        u64::MAX
    } else {
        (now_ms + TIMEOUT_MS) as u64
    }
}

fn subscription_end(now_ms: u64) -> (r: u64)
    ensures
        r == end_of(now_ms),
{
    if now_ms > u64::MAX - TIMEOUT_MS {
        u64::MAX
    } else {
        now_ms + TIMEOUT_MS
    }
}

/// A control point that wants to hear of changes.
#[derive(Debug)]
pub struct Subscription {
    pub sid: String,
    pub service: Service,
    pub callbacks: Vec<String>,
    /// When the subscription ends, in milliseconds.
    pub expires_ms: u64,
    /// The number of the next event.
    pub seq: u32,
}

/// A subscription as a value.
pub ghost struct SubView {
    pub sid: Seq<char>,
    pub service: Service,
    pub callbacks: Seq<Seq<char>>,
    pub expires_ms: u64,
    pub seq: u32,
}

/// What a list of strings holds.
pub open spec fn texts(v: Seq<String>) -> Seq<Seq<char>> {
    v.map_values(|s: String| s@)
}

impl View for Subscription {
    type V = SubView;

    open spec fn view(&self) -> SubView {
        SubView {
            sid: self.sid@,
            service: self.service,
            callbacks: texts(self.callbacks@),
            expires_ms: self.expires_ms,
            seq: self.seq,
        }
    }
}

/// What a list of subscriptions holds.
pub open spec fn sub_views(s: Seq<Subscription>) -> Seq<SubView> {
    s.map_values(|x: Subscription| x@)
}

/// The first position at or behind `from` of a subscription with this id.
pub open spec fn sub_index(s: Seq<SubView>, sid: Seq<char>, from: int) -> Option<int>
    decreases s.len() - from,
{
    if from < 0 || from >= s.len() {
        None
    } else if s[from].sid == sid {
        Some(from)
    } else {
        sub_index(s, sid, from + 1)
    }
}

/// `s` without the commas at its front.
pub open spec fn strip_commas(s: Seq<char>) -> Seq<char>
    decreases s.len(),
{
    if s.len() > 0 && s[0] == ',' {
        strip_commas(s.skip(1))
    } else {
        s
    }
}

/// The URL in one piece of a CALLBACK header: `<` and an HTTP URL.
pub open spec fn callback_in(part: Seq<char>) -> Option<Seq<char>> {
    let t = crate::text::trimmed(strip_commas(crate::text::trimmed(part)));
    if t.len() > 0 && t[0] == '<' && crate::text::starts_with(t.skip(1), "http"@) {
        Some(t.skip(1))
    } else {
        None
    }
}

/// The URLs in the pieces of a CALLBACK header.
pub open spec fn callbacks_in(parts: Seq<Seq<char>>) -> Seq<Seq<char>>
    decreases parts.len(),
{
    if parts.len() == 0 {
        Seq::empty()
    } else {
        match callback_in(parts.last()) {
            Some(u) => callbacks_in(parts.drop_last()).push(u),
            None => callbacks_in(parts.drop_last()),
        }
    }
}

/// The URLs in a CALLBACK header, such as `<http://a/1><http://a/2>`.
pub open spec fn callback_urls(header: Seq<char>) -> Seq<Seq<char>> {
    callbacks_in(crate::text::split(header, '>'))
}

fn callback_url(part: &[char]) -> (r: Option<String>)
    ensures
        crate::text::opt_view(r) == callback_in(part@),
{
    let t: &[char] = trim(part);
    let mut a: usize = 0;
    proof {
        assert(t@.skip(0) =~= t@);
    }
    while a < t.len() && t[a] == ','
        invariant
            a <= t@.len(),
            strip_commas(t@) == strip_commas(t@.skip(a as int)),
        decreases t@.len() - a,
    {
        proof {
            assert(t@.skip(a as int).skip(1) =~= t@.skip(a as int + 1));
        }
        a += 1;
    }
    let u: &[char] = slice_subrange(t, a, t.len());
    proof {
        assert(u@ =~= t@.skip(a as int));
    }
    let v: &[char] = trim(u);
    if v.len() == 0 || v[0] != '<' {
        return None;
    }
    let url: &[char] = slice_subrange(v, 1, v.len());
    proof {
        assert(url@ =~= v@.skip(1));
    }
    let http: Vec<char> = chars("http");
    if match_at(url, http.as_slice(), 0) {
        Some(from_chars(url))
    } else {
        None
    }
}

/// Reads the URLs of a CALLBACK header.
pub fn parse_callbacks(header: &str) -> (r: Vec<String>)
    ensures
        texts(r@) == callback_urls(header@),
{
    let cs: Vec<char> = chars(header);
    let parts: Vec<Vec<char>> = split_at_char(cs.as_slice(), '>');
    let ghost all = crate::text::views(parts@);
    let mut out: Vec<String> = Vec::new();
    let mut i: usize = 0;
    proof {
        assert(all.take(0).len() == 0);
        assert(texts(out@) =~= callbacks_in(all.take(0)));
    }
    while i < parts.len()
        invariant
            i <= parts@.len(),
            all == crate::text::views(parts@),
            texts(out@) == callbacks_in(all.take(i as int)),
        decreases parts@.len() - i,
    {
        proof {
            assert(all.take(i as int + 1).drop_last() =~= all.take(i as int));
            assert(all.take(i as int + 1).last() == parts@[i as int]@);
        }
        match callback_url(parts[i].as_slice()) {
            Some(u) => {
                let ghost before = texts(out@);
                out.push(u);
                proof {
                    assert(texts(out@) =~= before.push(u@));
                }
            },
            None => {},
        }
        i += 1;
    }
    proof {
        assert(all.take(i as int) =~= all);
    }
    out
}

/// The answer to a subscription.
pub open spec fn sub_ok_of(sid: Seq<char>) -> crate::mediarenderer::http::ResponseView {
    crate::mediarenderer::http::ResponseView {
        status: 200,
        reason: "OK"@,
        headers: seq![("SID"@, sid), ("TIMEOUT"@, "Second-1800"@)],
        body: Seq::empty(),
    }
}

pub fn sub_ok(sid: &str) -> (r: Response)
    ensures
        r@ == sub_ok_of(sid@),
{
    let mut r: Response = Response::empty(200, "OK");
    r.push_header("SID", sid);
    r.push_header("TIMEOUT", "Second-1800");
    proof {
        assert(r@.headers =~= seq![("SID"@, sid@), ("TIMEOUT"@, "Second-1800"@)]);
    }
    r
}

/// The refusal of a subscription.
pub open spec fn refused() -> crate::mediarenderer::http::ResponseView {
    crate::mediarenderer::http::empty_response(412, "Precondition Failed"@)
}

/// An event that is to be sent.
#[derive(Debug)]
pub struct Notice {
    pub sid: String,
    pub callbacks: Vec<String>,
    pub seq: u32,
}

/// An event as a value.
pub ghost struct NoticeView {
    pub sid: Seq<char>,
    pub callbacks: Seq<Seq<char>>,
    pub seq: u32,
}

impl View for Notice {
    type V = NoticeView;

    open spec fn view(&self) -> NoticeView {
        NoticeView { sid: self.sid@, callbacks: texts(self.callbacks@), seq: self.seq }
    }
}

/// The value of a header of a request.
pub open spec fn req_header(req: Request, name: Seq<char>) -> Option<Seq<char>> {
    crate::mediarenderer::http::header_value(
        crate::mediarenderer::http::header_views(req.headers@),
        name,
    )
}

/// SUBSCRIBE: with a known id the subscription lasts longer; with a callback
/// a new one begins, under the given id, and its first event is due at once.
pub open spec fn subscribe_spec(
    subs: Seq<SubView>,
    svc: Service,
    req: Request,
    now_ms: u64,
    sid: Seq<char>,
) -> (Seq<SubView>, crate::mediarenderer::http::ResponseView, Option<NoticeView>) {
    match req_header(req, "sid"@) {
        Some(known) => match sub_index(subs, known, 0) {
            Some(i) => (
                subs.update(
                    i,
                    SubView { expires_ms: end_of(now_ms), ..subs[i] },
                ),
                sub_ok_of(known),
                None,
            ),
            None => (subs, refused(), None),
        },
        None => match req_header(req, "callback"@) {
            None => (subs, refused(), None),
            Some(c) => {
                let urls = callback_urls(c);
                if urls.len() == 0 {
                    (subs, refused(), None)
                } else {
                    (
                        subs.push(
                            SubView {
                                sid,
                                service: svc,
                                callbacks: urls,
                                expires_ms: end_of(now_ms),
                                seq: 1,
                            },
                        ),
                        sub_ok_of(sid),
                        Some(NoticeView { sid, callbacks: urls, seq: 0 }),
                    )
                }
            },
        },
    }
}

/// An optional event as a value.
pub open spec fn opt_notice(n: Option<Notice>) -> Option<NoticeView> {
    match n {
        Some(n) => Some(n@),
        None => None,
    }
}

fn find_sub(subs: &Vec<Subscription>, sid: &str) -> (r: Option<usize>)
    ensures
        match r {
            Some(i) => sub_index(sub_views(subs@), sid@, 0) == Some(i as int) && i < subs@.len()
                && subs@[i as int].sid@ == sid@,
            None => sub_index(sub_views(subs@), sid@, 0) is None,
        },
{
    let mut i: usize = 0;
    while i < subs.len()
        invariant
            i <= subs@.len(),
            sub_index(sub_views(subs@), sid@, 0) == sub_index(sub_views(subs@), sid@, i as int),
        decreases subs@.len() - i,
    {
        if str_eq(subs[i].sid.as_str(), sid) {
            return Some(i);
        }
        i += 1;
    }
    None
}

/// Copies a list of strings.
pub fn clone_texts(v: &Vec<String>) -> (r: Vec<String>)
    ensures
        r@ == v@,
{
    let mut r: Vec<String> = Vec::new();
    let mut i: usize = 0;
    while i < v.len()
        invariant
            i <= v@.len(),
            r@ == v@.take(i as int),
        decreases v@.len() - i,
    {
        r.push(v[i].clone());
        i += 1;
        proof {
            assert(r@ =~= v@.take(i as int));
        }
    }
    proof {
        assert(v@.take(i as int) =~= v@);
    }
    r
}

/// Answers SUBSCRIBE; a new subscription goes under the given id.
pub fn subscribe_with(
    subs: &mut Vec<Subscription>,
    svc: Service,
    req: &Request,
    now_ms: u64,
    sid: String,
) -> (r: (Response, Option<Notice>))
    ensures
        (sub_views(final(subs)@), r.0@, opt_notice(r.1)) == subscribe_spec(
            sub_views(old(subs)@),
            svc,
            *req,
            now_ms,
            sid@,
        ),
{
    let ghost before = sub_views(subs@);
    if let Some(known) = req.header("sid") {
        return match find_sub(subs, known) {
            Some(i) => {
                let answer: Response = sub_ok(known);
                let sub: &mut Subscription = &mut subs[i];
                sub.expires_ms = subscription_end(now_ms);
                proof {
                    assert(sub_views(subs@) =~= before.update(
                        i as int,
                        SubView { expires_ms: end_of(now_ms), ..before[i as int] },
                    ));
                }
                (answer, None)
            },
            None => (Response::empty(412, "Precondition Failed"), None),
        };
    }
    let callback: &str = match req.header("callback") {
        Some(c) => c,
        None => {
            return (Response::empty(412, "Precondition Failed"), None);
        },
    };
    let callbacks: Vec<String> = parse_callbacks(callback);
    if callbacks.len() == 0 {
        return (Response::empty(412, "Precondition Failed"), None);
    }
    let answer: Response = sub_ok(sid.as_str());
    let notice: Notice = Notice { sid: sid.clone(), callbacks: clone_texts(&callbacks), seq: 0 };
    let sub: Subscription = Subscription {
        sid,
        service: svc,
        callbacks,
        expires_ms: subscription_end(now_ms),
        seq: 1,
    };
    subs.push(sub);
    proof {
        assert(sub_views(subs@) =~= before.push(sub@));
    }
    (answer, Some(notice))
}

/// Answers SUBSCRIBE; a new subscription goes under a fresh id.
pub fn subscribe(subs: &mut Vec<Subscription>, svc: Service, req: &Request, now_ms: u64) -> (r: (
    Response,
    Option<Notice>,
))
    ensures
        exists|id: Seq<char>| #[trigger]
            is_uuid(id) && (sub_views(final(subs)@), r.0@, opt_notice(r.1)) == subscribe_spec(
                sub_views(old(subs)@),
                svc,
                *req,
                now_ms,
                "uuid:"@ + id,
            ),
{
    let id: String = new_uuid();
    let mut sid: String = "uuid:".to_owned();
    sid.push_str(id.as_str());
    let r: (Response, Option<Notice>) = subscribe_with(subs, svc, req, now_ms, sid);
    proof {
        assert(is_uuid(id@));
    }
    r
}

/// The subscriptions with another id.
pub open spec fn without_sid(subs: Seq<Subscription>, sid: Seq<char>) -> Seq<Subscription> {
    subs.filter(other_sid(sid))
}

/// Whether a subscription has another id.
pub open spec fn other_sid(sid: Seq<char>) -> spec_fn(Subscription) -> bool {
    |s: Subscription| s.sid@ != sid
}

/// The subscriptions that last beyond a moment.
pub open spec fn alive_at(subs: Seq<Subscription>, now_ms: u64) -> Seq<Subscription> {
    subs.filter(|s: Subscription| s.expires_ms > now_ms)
}

/// Drops the subscriptions with this id.
pub fn drop_sid(subs: &mut Vec<Subscription>, sid: &str) -> (r: bool)
    ensures
        final(subs)@ == without_sid(old(subs)@, sid@),
        r == (final(subs)@.len() < old(subs)@.len()),
{
    let ghost all = subs@;
    let ghost keep = other_sid(sid@);
    let ghost mut k: int = 0;
    let n: usize = subs.len();
    let mut i: usize = 0;
    proof {
        reveal(Seq::filter);
        assert(all.take(0).filter(keep) =~= Seq::empty());
        assert(Seq::<Subscription>::empty() + all.skip(0) =~= all);
    }
    while i < subs.len()
        invariant
            0 <= k <= all.len(),
            keep == other_sid(sid@),
            i == all.take(k).filter(keep).len(),
            subs@ == all.take(k).filter(keep) + all.skip(k),
        decreases all.len() - k,
    {
        proof {
            reveal(Seq::filter);
            assert(subs@[i as int] == all[k]);
            assert(all.take(k + 1).drop_last() =~= all.take(k));
            assert(all.take(k + 1).last() == all[k]);
        }
        if str_eq(subs[i].sid.as_str(), sid) {
            let ghost before = subs@;
            let _gone: Subscription = subs.remove(i);
            proof {
                assert(subs@ =~= all.take(k + 1).filter(keep) + all.skip(k + 1));
                k = k + 1;
            }
        } else {
            proof {
                assert(subs@ =~= all.take(k + 1).filter(keep) + all.skip(k + 1));
                k = k + 1;
            }
            i += 1;
        }
    }
    proof {
        assert(all.skip(k).len() == 0);
        assert(all.take(k) =~= all);
        assert(subs@ =~= all.filter(keep));
    }
    subs.len() < n
}

/// Drops the subscriptions that are over.
pub fn expire(subs: &mut Vec<Subscription>, now_ms: u64)
    ensures
        final(subs)@ == alive_at(old(subs)@, now_ms),
{
    let ghost all = subs@;
    let ghost keep = |s: Subscription| s.expires_ms > now_ms;
    let ghost mut k: int = 0;
    let mut i: usize = 0;
    proof {
        reveal(Seq::filter);
        assert(all.take(0).filter(keep) =~= Seq::empty());
        assert(Seq::<Subscription>::empty() + all.skip(0) =~= all);
    }
    while i < subs.len()
        invariant
            0 <= k <= all.len(),
            keep == (|s: Subscription| s.expires_ms > now_ms),
            i == all.take(k).filter(keep).len(),
            subs@ == all.take(k).filter(keep) + all.skip(k),
        decreases all.len() - k,
    {
        proof {
            reveal(Seq::filter);
            assert(subs@[i as int] == all[k]);
            assert(all.take(k + 1).drop_last() =~= all.take(k));
            assert(all.take(k + 1).last() == all[k]);
        }
        if subs[i].expires_ms > now_ms {
            proof {
                assert(subs@ =~= all.take(k + 1).filter(keep) + all.skip(k + 1));
                k = k + 1;
            }
            i += 1;
        } else {
            let _gone: Subscription = subs.remove(i);
            proof {
                assert(subs@ =~= all.take(k + 1).filter(keep) + all.skip(k + 1));
                k = k + 1;
            }
        }
    }
    proof {
        assert(all.skip(k).len() == 0);
        assert(all.take(k) =~= all);
        assert(subs@ =~= all.filter(keep));
    }
}

/// Answers UNSUBSCRIBE.
pub fn unsubscribe(subs: &mut Vec<Subscription>, req: &Request) -> (r: Response)
    ensures
        match req_header(*req, "sid"@) {
            None => final(subs)@ == old(subs)@ && r@ == refused(),
            Some(sid) => final(subs)@ == without_sid(old(subs)@, sid) && r@ == (
            if final(subs)@.len() < old(subs)@.len() {
                crate::mediarenderer::http::empty_response(200, "OK"@)
            } else {
                refused()
            }),
        },
{
    match req.header("sid") {
        None => Response::empty(412, "Precondition Failed"),
        Some(sid) => if drop_sid(subs, sid) {
            Response::empty(200, "OK")
        } else {
            Response::empty(412, "Precondition Failed")
        },
    }
}

/// A new subscription can be ended under the id that its answer named: none
/// with that id is left.
pub proof fn lemma_unsubscribe_ends(subs: Seq<Subscription>, sid: Seq<char>)
    ensures
        forall|i: int|
            0 <= i < without_sid(subs, sid).len() ==> (#[trigger] without_sid(subs, sid)[i]).sid@
                != sid,
        without_sid(without_sid(subs, sid), sid) == without_sid(subs, sid),
{
    broadcast use vstd::seq_lib::group_filter_ensures;

    let keep = other_sid(sid);
    let after = without_sid(subs, sid);
    assert forall|i: int| 0 <= i < after.len() implies (#[trigger] after[i]).sid@ != sid by {
        assert(keep(after[i]));
    }
    lemma_filter_all(after, keep);
}

proof fn lemma_filter_all(s: Seq<Subscription>, keep: spec_fn(Subscription) -> bool)
    requires
        forall|i: int| 0 <= i < s.len() ==> keep(#[trigger] s[i]),
    ensures
        s.filter(keep) == s,
    decreases s.len(),
{
    reveal(Seq::filter);
    if s.len() > 0 {
        lemma_filter_all(s.drop_last(), keep);
        assert(keep(s[s.len() - 1]));
        assert(s.drop_last().push(s.last()) =~= s);
    }
}

/// The events that are due to the subscribers of a service.
pub open spec fn due(subs: Seq<SubView>, svc: Service) -> Seq<NoticeView>
    decreases subs.len(),
{
    if subs.len() == 0 {
        Seq::empty()
    } else {
        let s = subs.last();
        if s.service == svc {
            due(subs.drop_last(), svc).push(
                NoticeView { sid: s.sid, callbacks: s.callbacks, seq: s.seq },
            )
        } else {
            due(subs.drop_last(), svc)
        }
    }
}

/// A subscription after an event of the service was numbered: the next one
/// has the next number, and behind the last number comes zero.
pub open spec fn counted(s: SubView, svc: Service) -> SubView {
    if s.service == svc {
        SubView {
            seq: if s.seq == u32::MAX {
                0
            } else {
                (s.seq + 1) as u32
            },
            ..s
        }
    } else {
        s
    }
}

/// Numbers an event for every subscriber of a service.
pub fn number_event(subs: &mut Vec<Subscription>, svc: Service) -> (r: Vec<Notice>)
    ensures
        r@.map_values(|n: Notice| n@) == due(sub_views(old(subs)@), svc),
        sub_views(final(subs)@) == sub_views(old(subs)@).map_values(|s: SubView| counted(s, svc)),
{
    let ghost all = sub_views(subs@);
    let mut out: Vec<Notice> = Vec::new();
    let mut i: usize = 0;
    let n: usize = subs.len();
    proof {
        assert(all.take(0).len() == 0);
        assert(out@.map_values(|n: Notice| n@) =~= due(all.take(0), svc));
    }
    while i < n
        invariant
            i <= n,
            n == subs@.len(),
            n == all.len(),
            forall|k: int| 0 <= k < i ==> (#[trigger] subs@[k])@ == counted(all[k], svc),
            forall|k: int| i <= k < n ==> (#[trigger] subs@[k])@ == all[k],
            out@.map_values(|n: Notice| n@) == due(all.take(i as int), svc),
        decreases n - i,
    {
        proof {
            assert(all.take(i as int + 1).drop_last() =~= all.take(i as int));
            assert(all.take(i as int + 1).last() == all[i as int]);
            assert(subs@[i as int]@ == all[i as int]);
        }
        if subs[i].service == svc {
            let notice: Notice = Notice {
                sid: subs[i].sid.clone(),
                callbacks: clone_texts(&subs[i].callbacks),
                seq: subs[i].seq,
            };
            let ghost before = out@.map_values(|n: Notice| n@);
            out.push(notice);
            proof {
                assert(out@.map_values(|n: Notice| n@) =~= before.push(notice@));
            }
            let next: u32 = if subs[i].seq == u32::MAX {
                0
            } else {
                subs[i].seq + 1
            };
            let sub: &mut Subscription = &mut subs[i];
            sub.seq = next;
        }
        i += 1;
    }
    proof {
        assert(all.take(i as int) =~= all);
        assert(sub_views(subs@) =~= all.map_values(|s: SubView| counted(s, svc)));
    }
    out
}

/// What the AVTransport events are built from.
#[derive(Debug)]
pub struct AvSnapshot {
    pub transport: &'static str,
    pub uri: String,
    pub duration: String,
    pub n_tracks: usize,
    /// The place of the current track.
    pub track: Option<usize>,
}

/// A snapshot as a value.
pub ghost struct AvView {
    pub transport: Seq<char>,
    pub uri: Seq<char>,
    pub duration: Seq<char>,
    pub n_tracks: nat,
    pub track: nat,
}

impl View for AvSnapshot {
    type V = AvView;

    open spec fn view(&self) -> AvView {
        AvView {
            transport: self.transport@,
            uri: self.uri@,
            duration: self.duration@,
            n_tracks: self.n_tracks as nat,
            track: match self.track {
                Some(i) => (i + 1) as nat,
                None => 0,
            },
        }
    }
}

impl Default for AvSnapshot {
    fn default() -> (r: Self)
        ensures
            r@ == (AvView {
                transport: ""@,
                uri: Seq::empty(),
                duration: Seq::empty(),
                n_tracks: 0,
                track: 0,
            }),
    {
        AvSnapshot {
            transport: "",
            uri: String::new(),
            duration: String::new(),
            n_tracks: 0,
            track: None,
        }
    }
}

impl AvSnapshot {
    /// Whether two snapshots are the same.
    pub fn same(&self, o: &AvSnapshot) -> (r: bool)
        ensures
            r == (self@ == o@),
    {
        str_eq(self.transport, o.transport) && str_eq(self.uri.as_str(), o.uri.as_str()) && str_eq(
            self.duration.as_str(),
            o.duration.as_str(),
        ) && self.n_tracks == o.n_tracks && match (self.track, o.track) {
            (Some(i), Some(j)) => i == j,
            (None, None) => true,
            _ => false,
        }
    }
}

/// What the RenderingControl events are built from.
#[derive(Debug, Clone, Copy, PartialEq, Eq, Structural)]
pub struct RcSnapshot {
    pub volume: u32,
    pub muted: bool,
}

impl Default for RcSnapshot {
    fn default() -> (r: Self)
        ensures
            r == (RcSnapshot { volume: 0, muted: false }),
    {
        RcSnapshot { volume: 0, muted: false }
    }
}

/// The AVTransport side of a renderer's state.
pub open spec fn av_of(st: PlaybackState) -> AvView {
    AvView {
        transport: crate::mediarenderer::soap::transport_name(st.status),
        uri: match st.now_playing {
            Some(item) => item.stream_url@,
            None => Seq::empty(),
        },
        duration: crate::num::hms(st.duration_us as nat / 1_000_000),
        n_tracks: st.queue@.len(),
        track: match st.current_index {
            Some(i) => (i + 1) as nat,
            None => 0,
        },
    }
}

pub fn av_snapshot(state: &PlaybackState) -> (r: AvSnapshot)
    ensures
        r@ == av_of(*state),
{
    AvSnapshot {
        transport: transport_state(state.status),
        uri: match &state.now_playing {
            Some(item) => item.stream_url.clone(),
            None => String::new(),
        },
        duration: fmt_hms(state.duration_us),
        n_tracks: state.queue.len(),
        track: state.current_index,
    }
}

pub fn rc_snapshot(state: &PlaybackState, session: &Session) -> (r: RcSnapshot)
    ensures
        r.volume == crate::mediarenderer::soap::percent(state.volume_milli as nat),
        r.muted == (session.pre_mute_volume is Some),
{
    RcSnapshot {
        volume: volume_percent(state.volume_milli),
        muted: session.pre_mute_volume.is_some(),
    }
}

/// A property set round an event document, which is escaped inside it.
pub open spec fn propertyset_text(event: Seq<char>) -> Seq<char> {
    "<?xml version=\"1.0\" encoding=\"utf-8\"?>\n<e:propertyset xmlns:e=\"urn:schemas-upnp-org:event-1-0\"><e:property><LastChange>"@
        + crate::mediarenderer::xml::encoded(event)
        + "</LastChange></e:property></e:propertyset>"@
}

pub fn propertyset(last_change_event: &str) -> (r: String)
    ensures
        r@ == propertyset_text(last_change_event@),
{
    let mut out: String =
        "<?xml version=\"1.0\" encoding=\"utf-8\"?>\n<e:propertyset xmlns:e=\"urn:schemas-upnp-org:event-1-0\"><e:property><LastChange>".to_owned();
    out.push_str(encode_entities(last_change_event).as_str());
    out.push_str("</LastChange></e:property></e:propertyset>");
    out
}

/// The event document of the AVTransport service.
pub open spec fn av_event(snap: AvView, uri: Seq<char>, meta: Seq<char>) -> Seq<char> {
    let track_uri = if snap.uri.len() == 0 {
        uri
    } else {
        snap.uri
    };
    let u = crate::mediarenderer::xml::encoded(track_uri);
    let m = crate::mediarenderer::xml::encoded(meta);
    "<Event xmlns=\"urn:schemas-upnp-org:metadata-1-0/AVT/\"><InstanceID val=\"0\"><TransportState val=\""@
        + snap.transport
        + "\"/><TransportStatus val=\"OK\"/><CurrentPlayMode val=\"NORMAL\"/><NumberOfTracks val=\""@
        + crate::num::dec(snap.n_tracks) + "\"/><CurrentTrack val=\""@ + crate::num::dec(snap.track)
        + "\"/><CurrentTrackDuration val=\""@ + snap.duration + "\"/><CurrentTrackURI val=\""@ + u
        + "\"/><CurrentTrackMetaData val=\""@ + m + "\"/><AVTransportURI val=\""@ + u
        + "\"/><AVTransportURIMetaData val=\""@ + m + "\"/></InstanceID></Event>"@
}

/// What the subscribers of the AVTransport service are sent.
pub fn av_propertyset(state: &PlaybackState, session: &Session) -> (r: String)
    ensures
        r@ == propertyset_text(
            av_event(av_of(*state), session.current_uri@, session.current_meta@),
        ),
{
    let snap: AvSnapshot = av_snapshot(state);
    let uri: String = if snap.uri.as_str().is_empty() {
        encode_entities(session.current_uri.as_str())
    } else {
        encode_entities(snap.uri.as_str())
    };
    let meta: String = encode_entities(session.current_meta.as_str());
    let mut out: String =
        "<Event xmlns=\"urn:schemas-upnp-org:metadata-1-0/AVT/\"><InstanceID val=\"0\"><TransportState val=\"".to_owned();
    out.push_str(snap.transport);
    out.push_str(
        "\"/><TransportStatus val=\"OK\"/><CurrentPlayMode val=\"NORMAL\"/><NumberOfTracks val=\"",
    );
    push_dec(&mut out, snap.n_tracks as u64);
    out.push_str("\"/><CurrentTrack val=\"");
    match snap.track {
        Some(i) => {
            push_next(&mut out, i);
        },
        None => {
            push_dec(&mut out, 0);
        },
    }
    out.push_str("\"/><CurrentTrackDuration val=\"");
    out.push_str(snap.duration.as_str());
    out.push_str("\"/><CurrentTrackURI val=\"");
    out.push_str(uri.as_str());
    out.push_str("\"/><CurrentTrackMetaData val=\"");
    out.push_str(meta.as_str());
    out.push_str("\"/><AVTransportURI val=\"");
    out.push_str(uri.as_str());
    out.push_str("\"/><AVTransportURIMetaData val=\"");
    out.push_str(meta.as_str());
    out.push_str("\"/></InstanceID></Event>");
    propertyset(out.as_str())
}

/// The event document of the RenderingControl service.
pub open spec fn rc_event(volume: nat, muted: bool) -> Seq<char> {
    "<Event xmlns=\"urn:schemas-upnp-org:metadata-1-0/RCS/\"><InstanceID val=\"0\"><Volume channel=\"Master\" val=\""@
        + crate::num::dec(volume) + "\"/><Mute channel=\"Master\" val=\""@ + (if muted {
        "1"@
    } else {
        "0"@
    }) + "\"/></InstanceID></Event>"@
}

/// What the subscribers of the RenderingControl service are sent.
pub fn rc_propertyset(state: &PlaybackState, session: &Session) -> (r: String)
    ensures
        r@ == propertyset_text(
            rc_event(
                crate::mediarenderer::soap::percent(state.volume_milli as nat),
                session.pre_mute_volume is Some,
            ),
        ),
{
    let snap: RcSnapshot = rc_snapshot(state, session);
    let mut out: String =
        "<Event xmlns=\"urn:schemas-upnp-org:metadata-1-0/RCS/\"><InstanceID val=\"0\"><Volume channel=\"Master\" val=\"".to_owned();
    push_dec(&mut out, snap.volume as u64);
    out.push_str("\"/><Mute channel=\"Master\" val=\"");
    if snap.muted {
        out.push_str("1");
    } else {
        out.push_str("0");
    }
    out.push_str("\"/></InstanceID></Event>");
    propertyset(out.as_str())
}

/// What the subscribers of the ConnectionManager service are sent: its plain
/// variables.
pub open spec fn cm_text() -> Seq<char> {
    "<?xml version=\"1.0\" encoding=\"utf-8\"?>\n<e:propertyset xmlns:e=\"urn:schemas-upnp-org:event-1-0\"><e:property><SourceProtocolInfo></SourceProtocolInfo></e:property><e:property><SinkProtocolInfo>"@
        + crate::mediarenderer::xml::encoded(SINK_PROTOCOL_INFO@)
        + "</SinkProtocolInfo></e:property><e:property><CurrentConnectionIDs>0</CurrentConnectionIDs></e:property></e:propertyset>"@
}

pub fn cm_propertyset() -> (r: String)
    ensures
        r@ == cm_text(),
{
    let mut out: String =
        "<?xml version=\"1.0\" encoding=\"utf-8\"?>\n<e:propertyset xmlns:e=\"urn:schemas-upnp-org:event-1-0\"><e:property><SourceProtocolInfo></SourceProtocolInfo></e:property><e:property><SinkProtocolInfo>".to_owned();
    out.push_str(encode_entities(SINK_PROTOCOL_INFO).as_str());
    out.push_str(
        "</SinkProtocolInfo></e:property><e:property><CurrentConnectionIDs>0</CurrentConnectionIDs></e:property></e:propertyset>",
    );
    out
}

/// What a service's subscribers are sent.
pub open spec fn event_text(svc: Service, st: PlaybackState, session: Session) -> Seq<char> {
    match svc {
        Service::AvTransport => propertyset_text(
            av_event(av_of(st), session.current_uri@, session.current_meta@),
        ),
        Service::RenderingControl => propertyset_text(
            rc_event(
                crate::mediarenderer::soap::percent(st.volume_milli as nat),
                session.pre_mute_volume is Some,
            ),
        ),
        Service::ConnectionManager => cm_text(),
    }
}

/// Writes what a service's subscribers are sent.
pub fn event_body(svc: Service, state: &PlaybackState, session: &Session) -> (r: String)
    ensures
        r@ == event_text(svc, *state, *session),
{
    match svc {
        Service::AvTransport => av_propertyset(state, session),
        Service::RenderingControl => rc_propertyset(state, session),
        Service::ConnectionManager => cm_propertyset(),
    }
}

/// The RenderingControl side of a renderer's state.
pub open spec fn rc_of(st: PlaybackState, session: Session) -> RcSnapshot {
    RcSnapshot {
        volume: crate::mediarenderer::soap::percent(st.volume_milli as nat) as u32,
        muted: session.pre_mute_volume is Some,
    }
}

/// An event of a service, with all who are to hear of it.
#[derive(Debug)]
pub struct Event {
    pub service: Service,
    pub body: String,
    pub notices: Vec<Notice>,
}

/// An event with its hearers, as a value.
pub ghost struct EventView {
    pub service: Service,
    pub body: Seq<char>,
    pub notices: Seq<NoticeView>,
}

impl View for Event {
    type V = EventView;

    open spec fn view(&self) -> EventView {
        EventView {
            service: self.service,
            body: self.body@,
            notices: self.notices@.map_values(|n: Notice| n@),
        }
    }
}

/// What the subscribers were told last.
#[derive(Debug)]
pub struct Watcher {
    pub av: AvSnapshot,
    pub rc: RcSnapshot,
}

/// The subscriptions after an event of a service, where there was one.
pub open spec fn told(subs: Seq<SubView>, svc: Service, changed: bool) -> Seq<SubView> {
    if changed {
        subs.map_values(|s: SubView| counted(s, svc))
    } else {
        subs
    }
}

/// The event of a service, where something has changed.
pub open spec fn event_if(
    changed: bool,
    svc: Service,
    subs: Seq<SubView>,
    st: PlaybackState,
    session: Session,
) -> Seq<EventView> {
    if changed {
        seq![
            EventView {
                service: svc,
                body: event_text(svc, st, session),
                notices: due(subs, svc),
            },
        ]
    } else {
        Seq::empty()
    }
}

/// Whoever is still subscribed at a moment.
pub open spec fn listening(subs: Seq<Subscription>, now_ms: u64) -> Seq<SubView> {
    sub_views(alive_at(subs, now_ms))
}

/// What there is to tell: first of the AVTransport service, then of
/// RenderingControl, each only where its side of the state has changed.
pub open spec fn to_tell(
    w: Watcher,
    subs: Seq<SubView>,
    st: PlaybackState,
    session: Session,
) -> Seq<EventView> {
    let av = w.av@ != av_of(st);
    let rc = w.rc != rc_of(st, session);
    event_if(av, Service::AvTransport, subs, st, session) + event_if(
        rc,
        Service::RenderingControl,
        told(subs, Service::AvTransport, av),
        st,
        session,
    )
}

/// The subscriptions once they were told.
pub open spec fn after_telling(
    w: Watcher,
    subs: Seq<SubView>,
    st: PlaybackState,
    session: Session,
) -> Seq<SubView> {
    told(
        told(subs, Service::AvTransport, w.av@ != av_of(st)),
        Service::RenderingControl,
        w.rc != rc_of(st, session),
    )
}

fn event_of(
    subs: &mut Vec<Subscription>,
    svc: Service,
    state: &PlaybackState,
    session: &Session,
) -> (r: Event)
    ensures
        seq![r@] == event_if(true, svc, sub_views(old(subs)@), *state, *session),
        sub_views(final(subs)@) == told(sub_views(old(subs)@), svc, true),
{
    let body: String = event_body(svc, state, session);
    let notices: Vec<Notice> = number_event(subs, svc);
    Event { service: svc, body, notices }
}

impl Watcher {
    /// Nobody was told anything yet.
    pub fn new() -> (r: Self)
        ensures
            r.av@ == (AvView {
                transport: ""@,
                uri: Seq::empty(),
                duration: Seq::empty(),
                n_tracks: 0,
                track: 0,
            }),
            r.rc == (RcSnapshot { volume: 0, muted: false }),
    {
        Watcher { av: AvSnapshot::default(), rc: RcSnapshot::default() }
    }

    /// Drops the subscriptions that are over, and says what the others are to
    /// be told.
    pub fn tick(
        &mut self,
        subs: &mut Vec<Subscription>,
        state: &PlaybackState,
        session: &Session,
        now_ms: u64,
    ) -> (r: Vec<Event>)
        ensures
            r@.map_values(|e: Event| e@) == to_tell(
                *old(self),
                listening(old(subs)@, now_ms),
                *state,
                *session,
            ),
            sub_views(final(subs)@) == after_telling(
                *old(self),
                listening(old(subs)@, now_ms),
                *state,
                *session,
            ),
            final(self).av@ == av_of(*state),
            final(self).rc == rc_of(*state, *session),
    {
        expire(subs, now_ms);
        let mut out: Vec<Event> = Vec::new();
        let ghost live = sub_views(subs@);
        let av: AvSnapshot = av_snapshot(state);
        let av_changed: bool = !av.same(&self.av);
        if av_changed {
            let e: Event = event_of(subs, Service::AvTransport, state, session);
            out.push(e);
        }
        let ghost first = event_if(av_changed, Service::AvTransport, live, *state, *session);
        proof {
            assert(out@.map_values(|e: Event| e@) =~= first);
        }
        let rc: RcSnapshot = rc_snapshot(state, session);
        let rc_changed: bool = rc != self.rc;
        let ghost mid = out@;
        if rc_changed {
            let e: Event = event_of(subs, Service::RenderingControl, state, session);
            out.push(e);
            proof {
                assert(out@.map_values(|e: Event| e@) =~= mid.map_values(|e: Event| e@) + seq![e@]);
            }
        } else {
            proof {
                assert(first + Seq::<EventView>::empty() =~= first);
            }
        }
        self.av = av;
        self.rc = rc;
        out
    }
}

/// As long as nothing changes, nobody is told anything: whatever was told
/// once is not told again.
pub proof fn lemma_told_once(w: Watcher, subs: Seq<SubView>, st: PlaybackState, session: Session)
    requires
        w.av@ == av_of(st),
        w.rc == rc_of(st, session),
    ensures
        to_tell(w, subs, st, session).len() == 0,
        after_telling(w, subs, st, session) == subs,
{
}

/// A subscription with a callback begins at once: it is added under the id that
/// its answer names, for its service, lasts half an hour, and its first event,
/// the one with the number zero, is due; the next one has the number one.
pub proof fn lemma_subscription_begins(
    subs: Seq<SubView>,
    svc: Service,
    req: Request,
    now_ms: u64,
    sid: Seq<char>,
)
    requires
        req_header(req, "sid"@) is None,
        req_header(req, "callback"@) is Some,
        callback_urls(req_header(req, "callback"@)->0).len() > 0,
        now_ms <= u64::MAX - 1_800_000,
    ensures
        ({
            let urls = callback_urls(req_header(req, "callback"@)->0);
            let (after, answer, first) = subscribe_spec(subs, svc, req, now_ms, sid);
            &&& after.len() == subs.len() + 1
            &&& after.drop_last() == subs
            &&& after.last().sid == sid
            &&& after.last().service == svc
            &&& after.last().callbacks == urls
            &&& after.last().expires_ms == now_ms + 1_800_000
            &&& after.last().seq == 1
            &&& answer.status == 200
            &&& answer.headers.contains(("SID"@, sid))
            &&& first == Some(NoticeView { sid, callbacks: urls, seq: 0 })
        }),
{
    let (after, answer, _first) = subscribe_spec(subs, svc, req, now_ms, sid);
    assert(after.drop_last() =~= subs);
    assert(answer.headers[0] == ("SID"@, sid));
}

/// A subscription that is renewed lasts half an hour from then on and is
/// otherwise as it was, and so are all others; no event is due by it.
pub proof fn lemma_subscription_renewed(
    subs: Seq<SubView>,
    svc: Service,
    req: Request,
    now_ms: u64,
    sid: Seq<char>,
    i: int,
)
    requires
        req_header(req, "sid"@) is Some,
        0 <= i < subs.len(),
        subs[i].sid == req_header(req, "sid"@)->0,
        forall|k: int| 0 <= k < i ==> (#[trigger] subs[k]).sid != req_header(req, "sid"@)->0,
        now_ms <= u64::MAX - 1_800_000,
    ensures
        ({
            let (after, answer, first) = subscribe_spec(subs, svc, req, now_ms, sid);
            &&& after.len() == subs.len()
            &&& after[i] == (SubView { expires_ms: (now_ms + 1_800_000) as u64, ..subs[i] })
            &&& forall|k: int| 0 <= k < subs.len() && k != i ==> #[trigger] after[k] == subs[k]
            &&& answer.status == 200
            &&& answer.headers.contains(("SID"@, subs[i].sid))
            &&& first is None
        }),
{
    lemma_sub_index_at(subs, req_header(req, "sid"@)->0, 0, i);
    let (_after, answer, _first) = subscribe_spec(subs, svc, req, now_ms, sid);
    assert(answer.headers[0] == ("SID"@, subs[i].sid));
}

proof fn lemma_sub_index_at(subs: Seq<SubView>, sid: Seq<char>, from: int, i: int)
    requires
        0 <= from <= i < subs.len(),
        subs[i].sid == sid,
        forall|k: int| from <= k < i ==> (#[trigger] subs[k]).sid != sid,
    ensures
        sub_index(subs, sid, from) == Some(i),
    decreases i - from,
{
    if from < i {
        lemma_sub_index_at(subs, sid, from + 1, i);
    }
}

proof fn lemma_sub_index_none(subs: Seq<SubView>, sid: Seq<char>, from: int)
    requires
        0 <= from,
        forall|k: int| from <= k < subs.len() ==> (#[trigger] subs[k]).sid != sid,
    ensures
        sub_index(subs, sid, from) is None,
    decreases subs.len() - from,
{
    if from < subs.len() {
        lemma_sub_index_none(subs, sid, from + 1);
    }
}

/// A renewal under an id that nobody has, and a subscription that says nowhere
/// to send its events, is refused and changes nothing.
pub proof fn lemma_subscription_refused(
    subs: Seq<SubView>,
    svc: Service,
    req: Request,
    now_ms: u64,
    sid: Seq<char>,
)
    requires
        (req_header(req, "sid"@) is Some && forall|k: int|
            0 <= k < subs.len() ==> (#[trigger] subs[k]).sid != req_header(req, "sid"@)->0) || (
        req_header(req, "sid"@) is None && (req_header(req, "callback"@) is None || callback_urls(
            req_header(req, "callback"@)->0,
        ).len() == 0)),
    ensures
        ({
            let (after, answer, first) = subscribe_spec(subs, svc, req, now_ms, sid);
            &&& after == subs
            &&& answer.status == 412
            &&& first is None
        }),
{
    if req_header(req, "sid"@) is Some {
        lemma_sub_index_none(subs, req_header(req, "sid"@)->0, 0);
    }
}

/// Every subscriber of the service hears of an event, under its own number and
/// at its own address, and no other does.
pub proof fn lemma_event_reaches(subs: Seq<SubView>, svc: Service, i: int)
    requires
        0 <= i < subs.len(),
    ensures
        subs[i].service == svc ==> due(subs, svc).contains(
            NoticeView { sid: subs[i].sid, callbacks: subs[i].callbacks, seq: subs[i].seq },
        ),
        forall|k: int|
            0 <= k < due(subs, svc).len() ==> exists|j: int|
                0 <= j < subs.len() && (#[trigger] subs[j]).service == svc && (#[trigger] due(
                    subs,
                    svc,
                )[k]) == (NoticeView {
                    sid: subs[j].sid,
                    callbacks: subs[j].callbacks,
                    seq: subs[j].seq,
                }),
    decreases subs.len(),
{
    let rest = subs.drop_last();
    let all = due(subs, svc);
    let front = due(rest, svc);
    let last = subs.len() - 1;
    assert(subs.last() == subs[last]);
    if rest.len() > 0 {
        let m = if i < rest.len() {
            i
        } else {
            0
        };
        lemma_event_reaches(rest, svc, m);
    } else {
        assert(front.len() == 0);
    }
    if subs[i].service == svc {
        let n = NoticeView { sid: subs[i].sid, callbacks: subs[i].callbacks, seq: subs[i].seq };
        if i < last {
            assert(rest[i] == subs[i]);
            let k = choose|k: int| 0 <= k < front.len() && front[k] == n;
            assert(all[k] == n);
        } else {
            assert(all.last() == n);
            assert(all[all.len() - 1] == n);
        }
    }
    assert forall|k: int| 0 <= k < all.len() implies exists|j: int|
        0 <= j < subs.len() && (#[trigger] subs[j]).service == svc && (#[trigger] all[k]) == (
        NoticeView { sid: subs[j].sid, callbacks: subs[j].callbacks, seq: subs[j].seq }) by {
        if k < front.len() {
            assert(all[k] == front[k]);
            let j = choose|j: int|
                0 <= j < rest.len() && (#[trigger] rest[j]).service == svc && front[k] == (
                NoticeView { sid: rest[j].sid, callbacks: rest[j].callbacks, seq: rest[j].seq });
            assert(rest[j] == subs[j]);
        } else {
            assert(all[k] == NoticeView {
                sid: subs[last].sid,
                callbacks: subs[last].callbacks,
                seq: subs[last].seq,
            });
        }
    }
}

/// The numbers of a subscriber's events go up by one; those of the subscribers
/// of another service stay.
pub proof fn lemma_events_numbered(s: SubView, svc: Service)
    ensures
        s.service != svc ==> counted(s, svc) == s,
        s.service == svc && s.seq < u32::MAX ==> counted(s, svc).seq == s.seq + 1,
        s.service == svc && s.seq == u32::MAX ==> counted(s, svc).seq == 0,
        counted(s, svc).sid == s.sid,
        counted(s, svc).callbacks == s.callbacks,
        counted(s, svc).expires_ms == s.expires_ms,
        counted(s, svc).service == s.service,
{
}

/// A subscription is heard until it ends and not any longer; another one than
/// the one that is ended goes on.
pub proof fn lemma_subscriptions_end(subs: Seq<Subscription>, now_ms: u64, sid: Seq<char>, i: int)
    requires
        0 <= i < subs.len(),
    ensures
        subs[i].expires_ms > now_ms <==> alive_at(subs, now_ms).contains(subs[i]),
        subs[i].sid@ != sid <==> without_sid(subs, sid).contains(subs[i]),
{
    broadcast use vstd::seq_lib::group_filter_ensures;

    let alive = |s: Subscription| s.expires_ms > now_ms;
    let other = other_sid(sid);
    assert(subs.contains(subs[i]));
    if alive_at(subs, now_ms).contains(subs[i]) {
        assert(subs.filter(alive).contains(subs[i]));
        let k = choose|k: int|
            0 <= k < subs.filter(alive).len() && subs.filter(alive)[k] == subs[i];
        assert(alive(subs.filter(alive)[k]));
    }
    if subs[i].expires_ms > now_ms {
        assert(alive(subs[i]));
        assert(subs.filter(alive).contains(subs[i]));
    }
    if without_sid(subs, sid).contains(subs[i]) {
        let k = choose|k: int|
            0 <= k < subs.filter(other).len() && subs.filter(other)[k] == subs[i];
        assert(other(subs.filter(other)[k]));
    }
    if subs[i].sid@ != sid {
        assert(other(subs[i]));
        assert(subs.filter(other).contains(subs[i]));
    }
}

/// What the events are built from is the state: its status, what plays, its
/// length, the tracks and the place among them; the volume in percent, and
/// whether it is silent.
pub proof fn lemma_event_state(st: PlaybackState, session: Session)
    ensures
        av_of(st).transport == crate::mediarenderer::soap::transport_name(st.status),
        st.now_playing is Some ==> av_of(st).uri == st.now_playing->0.stream_url@,
        st.now_playing is None ==> av_of(st).uri.len() == 0,
        av_of(st).duration == crate::num::hms(st.duration_us as nat / 1_000_000),
        av_of(st).n_tracks == st.queue@.len(),
        st.current_index is Some ==> av_of(st).track == st.current_index->0 + 1,
        st.current_index is None ==> av_of(st).track == 0,
        rc_of(st, session).muted <==> session.pre_mute_volume is Some,
        st.volume_milli <= 1000 && st.volume_milli % 10 == 0 ==> rc_of(st, session).volume * 10
            == st.volume_milli,
{
}

/// Where the volume or the silence has changed, the subscribers of the
/// RenderingControl service are told, and where what plays has, those of the
/// AVTransport service; each once.
pub proof fn lemma_changes_told(w: Watcher, subs: Seq<SubView>, st: PlaybackState, session: Session)
    ensures
        ({
            let events = to_tell(w, subs, st, session);
            let av = w.av@ != av_of(st);
            let rc = w.rc != rc_of(st, session);
            &&& av && rc ==> events.len() == 2 && events[0].service == Service::AvTransport
                && events[1].service == Service::RenderingControl
            &&& av && !rc ==> events.len() == 1 && events[0].service == Service::AvTransport
            &&& !av && rc ==> events.len() == 1 && events[0].service == Service::RenderingControl
            &&& !av && !rc ==> events.len() == 0
            &&& av ==> events[0].notices == due(subs, Service::AvTransport) && events[0].body
                == event_text(Service::AvTransport, st, session)
            &&& rc ==> events.last().body == event_text(Service::RenderingControl, st, session)
        }),
{
}

/// An address in angle brackets is where events go, where it is one of the web;
/// the brackets are not part of it.
pub proof fn lemma_callback_read(url: Seq<char>)
    requires
        crate::text::starts_with(url, "http"@),
        forall|i: int| 0 <= i < url.len() ==> #[trigger] url[i] != '>',
        !crate::text::is_space(url.last()),
    ensures
        callback_urls(seq!['<'] + url + seq!['>']) == seq![url],
{
    reveal_strlit("http");
    let h = seq!['<'] + url + seq!['>'];
    let part = seq!['<'] + url;
    let none = Seq::<char>::empty();
    let k = part.len() as int;
    crate::text::lemma_index_of(h, '>', 0);
    assert(h[k] == '>');
    assert forall|i: int| 0 <= i < k implies #[trigger] h[i] != '>' by {
        if i > 0 {
            assert(h[i] == url[i - 1]);
        }
    }
    assert(h.take(k) =~= part);
    assert(h.skip(k + 1) =~= none);
    crate::text::lemma_index_of(none, '>', 0);
    assert(crate::text::split(none, '>') =~= seq![none]);
    let parts = crate::text::split(h, '>');
    assert(parts =~= seq![part, none]);
    assert(part[0] == '<');
    assert(part.last() == url.last());
    assert(crate::text::trim_start(part) == part);
    assert(crate::text::trimmed(part) == part);
    assert(strip_commas(part) == part);
    assert(part.skip(1) =~= url);
    assert(crate::text::trim_start(none) == none);
    assert(crate::text::trimmed(none) == none);
    assert(strip_commas(none) == none);
    assert(callback_in(none) is None);
    assert(callback_in(part) == Some(url));
    assert(parts.drop_last() =~= seq![part]);
    assert(seq![part].drop_last() =~= Seq::<Seq<char>>::empty());
    assert(callbacks_in(Seq::<Seq<char>>::empty()) =~= Seq::<Seq<char>>::empty());
    assert(callbacks_in(seq![part]) =~= seq![url]);
}

/// An event holds a text at some place.
pub open spec fn holds(event: Seq<char>, part: Seq<char>) -> bool {
    exists|a: Seq<char>, b: Seq<char>| event == #[trigger] (a + part + b)
}

proof fn lemma_holds(event: Seq<char>, a: Seq<char>, part: Seq<char>, b: Seq<char>)
    requires
        event == a + part + b,
    ensures
        holds(event, part),
{
}

/// The event of the RenderingControl service tells the volume as a number and
/// silence as a one.
pub proof fn lemma_loudness_event(volume: nat, muted: bool)
    ensures
        holds(rc_event(volume, muted), "val=\""@ + crate::num::dec(volume)
            + "\"/><Mute channel=\"Master\" val=\""@),
        holds(
            rc_event(volume, muted),
            "\"/><Mute channel=\"Master\" val=\""@ + (if muted {
                "1"@
            } else {
                "0"@
            }) + "\"/></InstanceID></Event>"@,
        ),
{
    let head = "<Event xmlns=\"urn:schemas-upnp-org:metadata-1-0/RCS/\"><InstanceID val=\"0\"><Volume channel=\"Master\" val=\""@;
    let mid = "\"/><Mute channel=\"Master\" val=\""@;
    let end = "\"/></InstanceID></Event>"@;
    let bit = if muted {
        "1"@
    } else {
        "0"@
    };
    let v = crate::num::dec(volume);
    reveal_strlit(
        "<Event xmlns=\"urn:schemas-upnp-org:metadata-1-0/RCS/\"><InstanceID val=\"0\"><Volume channel=\"Master\" val=\"",
    );
    reveal_strlit("val=\"");
    let front = head.take(head.len() - 5);
    assert(head =~= front + "val=\""@);
    let e = rc_event(volume, muted);
    assert(e =~= front + ("val=\""@ + v + mid) + (bit + end));
    lemma_holds(e, front, "val=\""@ + v + mid, bit + end);
    let none = Seq::<char>::empty();
    assert(e =~= (head + v) + (mid + bit + end) + none);
    lemma_holds(e, head + v, mid + bit + end, none);
}

/// The event of the AVTransport service tells the state, how many tracks there
/// are and which one it is, its length, and the address of what plays, or the
/// one that was set where nothing does; each under its own name.
pub proof fn lemma_transport_event(snap: AvView, uri: Seq<char>, meta: Seq<char>)
    ensures
        ({
            let at = crate::mediarenderer::xml::encoded(
                if snap.uri.len() == 0 {
                    uri
                } else {
                    snap.uri
                },
            );
            let about = crate::mediarenderer::xml::encoded(meta);
            av_event(snap, uri, meta)
                == "<Event xmlns=\"urn:schemas-upnp-org:metadata-1-0/AVT/\"><InstanceID val=\"0\"><TransportState val=\""@
                + snap.transport
                + "\"/><TransportStatus val=\"OK\"/><CurrentPlayMode val=\"NORMAL\"/><NumberOfTracks val=\""@
                + crate::num::dec(snap.n_tracks) + "\"/><CurrentTrack val=\""@ + crate::num::dec(
                snap.track,
            ) + "\"/><CurrentTrackDuration val=\""@ + snap.duration
                + "\"/><CurrentTrackURI val=\""@ + at + "\"/><CurrentTrackMetaData val=\""@ + about
                + "\"/><AVTransportURI val=\""@ + at + "\"/><AVTransportURIMetaData val=\""@ + about
                + "\"/></InstanceID></Event>"@
        }),
{
}

/// What the subscribers of a service are sent is an event of that service.
pub proof fn lemma_event_kinds(st: PlaybackState, session: Session)
    ensures
        event_text(Service::AvTransport, st, session) == propertyset_text(
            av_event(av_of(st), session.current_uri@, session.current_meta@),
        ),
        event_text(Service::RenderingControl, st, session) == propertyset_text(
            rc_event(
                crate::mediarenderer::soap::percent(st.volume_milli as nat),
                session.pre_mute_volume is Some,
            ),
        ),
{
}

} // verus!
