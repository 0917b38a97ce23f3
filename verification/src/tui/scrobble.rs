//! What the server is told of the tracks that are played.

use vstd::prelude::*;

use crate::jellyfin::Post;
use crate::media::{listen_start_ms, MediaClient};
use crate::models::{ticks, BaseItem, BaseView};
use crate::queue::{QueueItem, UPNP_CAST_ID_PREFIX};
use crate::renderer::{PlaybackState, PlaybackStatus, RendererKind};
use crate::subsonic::Call;
use crate::text::str_eq;
use crate::tui::app::{entry_base, entry_item};

verus! {

/// The time between two reports of one track's progress, in milliseconds.
pub const PROGRESS_MS: u64 = 10000;

/// The item that is reported for an entry of the queue.
pub open spec fn reported_base(q: QueueItem) -> BaseView {
    BaseView {
        media_type: Some(
            if q.is_video {
                "Video"@
            } else {
                "Audio"@
            },
        ),
        is_folder: Some(false),
        ..entry_base(q)
    }
}

/// The item that is reported for an entry of the queue.
pub fn queue_item_to_base_item(q: &QueueItem) -> (r: BaseItem)
    ensures
        r@ == reported_base(*q),
{
    let mut r: BaseItem = entry_item(q);
    r.media_type = Some(
        if q.is_video {
            "Video".to_owned()
        } else {
            "Audio".to_owned()
        },
    );
    r.is_folder = Some(false);
    r
}

/// The item that is reported for a track of which only its id is known.
pub open spec fn stub_base(id: Seq<char>) -> BaseView {
    BaseView {
        id,
        name: id,
        type_: "Audio"@,
        album: None,
        album_id: None,
        album_artist: None,
        artists: None,
        series_name: None,
        production_year: None,
        run_time_ticks: None,
        media_type: Some("Audio"@),
        container: None,
        index_number: None,
        parent_index_number: None,
        image_tags: None,
        is_folder: Some(false),
        overview: None,
    }
}

fn stub(id: &String) -> (r: BaseItem)
    ensures
        r@ == stub_base(id@),
{
    BaseItem {
        id: id.clone(),
        name: id.clone(),
        type_: "Audio".to_owned(),
        album: None,
        album_id: None,
        album_artist: None,
        artists: None,
        series_name: None,
        production_year: None,
        run_time_ticks: None,
        media_type: Some("Audio".to_owned()),
        container: None,
        index_number: None,
        parent_index_number: None,
        image_tags: None,
        is_folder: Some(false),
        overview: None,
    }
}

/// A report to the server.
#[derive(Debug)]
pub enum Report {
    Started(BaseItem),
    /// With the seconds that have played.
    Progress(BaseItem, u64),
    /// With the seconds that have played.
    Stopped(BaseItem, u64),
}

/// A report as a value.
pub ghost enum ReportView {
    Started(BaseView),
    Progress(BaseView, u64),
    Stopped(BaseView, u64),
}

impl View for Report {
    type V = ReportView;

    open spec fn view(&self) -> ReportView {
        match *self {
            Report::Started(b) => ReportView::Started(b@),
            Report::Progress(b, s) => ReportView::Progress(b@, s),
            Report::Stopped(b, s) => ReportView::Stopped(b@, s),
        }
    }
}

/// What reports hold.
pub open spec fn report_views(v: Seq<Report>) -> Seq<ReportView> {
    v.map_values(|r: Report| r@)
}

/// What the server was last told.
#[derive(Debug)]
pub struct Scrobbler {
    /// The track that it knows to be playing.
    pub reported: Option<String>,
    /// When it was last told of that track, in milliseconds.
    pub last_ms: u64,
    /// The session in which it is told.
    pub session_id: String,
}

/// What the server was last told, as a value.
pub ghost struct ScrobblerView {
    pub reported: Option<Seq<char>>,
    pub last_ms: u64,
    pub session_id: Seq<char>,
}

impl View for Scrobbler {
    type V = ScrobblerView;

    open spec fn view(&self) -> ScrobblerView {
        ScrobblerView {
            reported: crate::text::opt_view(self.reported),
            last_ms: self.last_ms,
            session_id: self.session_id@,
        }
    }
}

/// An id that the media server does not know: another device pushed the item.
pub open spec fn foreign(id: Seq<char>) -> bool {
    crate::text::starts_with(id, UPNP_CAST_ID_PREFIX@)
}

/// The track that is heard: what plays, unless it is a video or was pushed by
/// another device.
pub open spec fn heard(now_playing: Option<QueueItem>) -> Option<QueueItem> {
    match now_playing {
        Some(q) => if q.is_video || foreign(q.id@) {
            None
        } else {
            Some(q)
        },
        None => None,
    }
}

/// What is reported of a state, and what the server knows then.
pub open spec fn scrobbled(
    s: ScrobblerView,
    kind: RendererKind,
    status: PlaybackStatus,
    now_playing: Option<QueueItem>,
    position_us: u64,
    now_ms: u64,
) -> (ScrobblerView, Seq<ReportView>) {
    let secs = position_us / 1000000;
    if kind != RendererKind::Mpv {
        // Other devices report for themselves.
        (s, Seq::empty())
    } else {
        match (s.reported, heard(now_playing)) {
            (Some(old), Some(q)) => if old == q.id@ {
                if status == PlaybackStatus::Playing && now_ms - s.last_ms >= PROGRESS_MS {
                    (
                        ScrobblerView { last_ms: now_ms, ..s },
                        seq![ReportView::Progress(reported_base(q), secs)],
                    )
                } else {
                    (s, Seq::empty())
                }
            } else {
                (
                    ScrobblerView { reported: Some(q.id@), last_ms: now_ms, ..s },
                    seq![
                        ReportView::Stopped(stub_base(old), secs),
                        ReportView::Started(reported_base(q)),
                    ],
                )
            },
            (None, Some(q)) => (
                ScrobblerView { reported: Some(q.id@), last_ms: now_ms, ..s },
                seq![ReportView::Started(reported_base(q))],
            ),
            (Some(old), None) => (
                ScrobblerView { reported: None, ..s },
                seq![ReportView::Stopped(stub_base(old), secs)],
            ),
            (None, None) => (s, Seq::empty()),
        }
    }
}

fn pushed(out: &mut Vec<Report>, r: Report)
    ensures
        report_views(final(out)@) == report_views(old(out)@).push(r@),
{
    let ghost before = out@;
    out.push(r);
    proof {
        assert(report_views(out@) =~= report_views(before).push(r@));
    }
}

impl Scrobbler {
    /// Nothing was told yet.
    pub fn new(session_id: String, now_ms: u64) -> (r: Self)
        ensures
            r@ == (ScrobblerView { reported: None, last_ms: now_ms, session_id: session_id@ }),
    {
        Scrobbler { reported: None, last_ms: now_ms, session_id }
    }

    /// What is to be reported of a state.
    pub fn emit_scrobble_events(
        &mut self,
        kind: RendererKind,
        state: &PlaybackState,
        now_ms: u64,
    ) -> (r: Vec<Report>)
        ensures
            (final(self)@, report_views(r@)) == scrobbled(
                old(self)@,
                kind,
                state.status,
                state.now_playing,
                state.position_us,
                now_ms,
            ),
    {
        let mut out: Vec<Report> = Vec::new();
        proof {
            assert(report_views(out@) =~= Seq::<ReportView>::empty());
        }
        if kind != RendererKind::Mpv {
            return out;
        }
        let secs: u64 = state.position_us / 1000000;
        let current: Option<&QueueItem> = match &state.now_playing {
            Some(q) => if q.is_video || q.is_upnp_cast() {
                None
            } else {
                Some(q)
            },
            None => None,
        };
        match current {
            Some(q) => {
                let mut old: Option<BaseItem> = None;
                if let Some(id) = &self.reported {
                    if str_eq(id.as_str(), q.id.as_str()) {
                        if state.status == PlaybackStatus::Playing && now_ms >= self.last_ms
                            && now_ms - self.last_ms >= PROGRESS_MS {
                            self.last_ms = now_ms;
                            pushed(&mut out, Report::Progress(queue_item_to_base_item(q), secs));
                            proof {
                                assert(report_views(out@) =~= seq![
                                    ReportView::Progress(reported_base(*q), secs),
                                ]);
                            }
                        }
                        return out;
                    }
                    old = Some(stub(id));
                }
                let ghost had = old;
                if let Some(b) = old {
                    pushed(&mut out, Report::Stopped(b, secs));
                }
                pushed(&mut out, Report::Started(queue_item_to_base_item(q)));
                self.reported = Some(q.id.clone());
                self.last_ms = now_ms;
                proof {
                    if had is Some {
                        assert(report_views(out@) =~= seq![
                            ReportView::Stopped(had->0@, secs),
                            ReportView::Started(reported_base(*q)),
                        ]);
                    } else {
                        assert(report_views(out@) =~= seq![
                            ReportView::Started(reported_base(*q)),
                        ]);
                    }
                }
            },
            None => {
                let mut old: Option<BaseItem> = None;
                if let Some(id) = &self.reported {
                    old = Some(stub(id));
                }
                if let Some(b) = old {
                    let ghost had = b@;
                    pushed(&mut out, Report::Stopped(b, secs));
                    self.reported = None;
                    proof {
                        assert(report_views(out@) =~= seq![ReportView::Stopped(had, secs)]);
                    }
                }
            },
        }
        out
    }
}

/// A request by which a server is told something.
#[derive(Debug)]
pub enum ReportRequest {
    /// A Jellyfin server is told so.
    Post(Post),
    /// A Subsonic server is told so.
    Call(Call),
    /// There is nothing to tell it.
    Nothing,
}

/// The call by which a Subsonic server is told of a report: what has begun, and
/// what was heard and since when. Progress is not told.
pub open spec fn subsonic_told(
    report: ReportView,
    now_ms: nat,
) -> Option<crate::subsonic::CallView> {
    match report {
        ReportView::Started(b) => Some(crate::subsonic::scrobble_call(b.id, false, now_ms)),
        ReportView::Progress(_, _) => None,
        ReportView::Stopped(b, secs) => Some(
            crate::subsonic::scrobble_call(
                b.id,
                true,
                crate::media::listen_start(now_ms, secs as nat),
            ),
        ),
    }
}

/// The path and the body by which a Jellyfin server is told of a report.
pub open spec fn jellyfin_told(report: ReportView, session: Seq<char>) -> (
    Seq<char>,
    crate::json::Tree,
) {
    match report {
        ReportView::Started(b) => (
            "/Sessions/Playing"@,
            crate::jellyfin::started_body(b.id, session),
        ),
        ReportView::Progress(b, secs) => (
            "/Sessions/Playing/Progress"@,
            crate::jellyfin::progress_body(
                b.id,
                session,
                crate::models::secs_to_ticks(secs as nat),
                false,
            ),
        ),
        ReportView::Stopped(b, secs) => (
            "/Sessions/Playing/Stopped"@,
            crate::jellyfin::stopped_body(
                b.id,
                session,
                crate::models::secs_to_ticks(secs as nat),
            ),
        ),
    }
}

impl MediaClient {
    /// How a report is made to the server.
    pub fn report(&self, report: &Report, session_id: &str, now_ms: u64) -> (r: ReportRequest)
        ensures
            *self is Subsonic ==> match subsonic_told(report@, now_ms as nat) {
                Some(c) => r is Call && r->Call_0@ == c,
                None => r is Nothing,
            },
            *self is Jellyfin ==> {
                let (path, body) = jellyfin_told(report@, session_id@);
                r is Post && r->Post_0.url@ == self.base() + path && r->Post_0.body@ == body
            },
            match (*self, report@, r) {
                (MediaClient::Jellyfin(c), ReportView::Started(b), ReportRequest::Post(p)) => {
                    &&& p.url@ == c@.base_url + "/Sessions/Playing"@
                    &&& p.body@ == crate::json::Tree::Object(
                        seq![
                            ("ItemId"@, crate::json::Tree::Text(b.id)),
                            ("PlaySessionId"@, crate::json::Tree::Text(session_id@)),
                            ("CanSeek"@, crate::json::Tree::Bool(true)),
                        ],
                    )
                },
                (MediaClient::Jellyfin(c), ReportView::Progress(b, secs), ReportRequest::Post(p)) => {
                    &&& p.url@ == c@.base_url + "/Sessions/Playing/Progress"@
                    &&& p.body@ == crate::json::Tree::Object(
                        seq![
                            ("ItemId"@, crate::json::Tree::Text(b.id)),
                            ("PlaySessionId"@, crate::json::Tree::Text(session_id@)),
                            (
                                "PositionTicks"@,
                                crate::json::Tree::Number(
                                    crate::num::dec_int(
                                        crate::models::secs_to_ticks(secs as nat),
                                    ),
                                ),
                            ),
                            ("IsPaused"@, crate::json::Tree::Bool(false)),
                            ("CanSeek"@, crate::json::Tree::Bool(true)),
                            ("EventName"@, crate::json::Tree::Text("TimeUpdate"@)),
                        ],
                    )
                },
                (MediaClient::Jellyfin(c), ReportView::Stopped(b, secs), ReportRequest::Post(p)) => {
                    &&& p.url@ == c@.base_url + "/Sessions/Playing/Stopped"@
                    &&& p.body@ == crate::json::Tree::Object(
                        seq![
                            ("ItemId"@, crate::json::Tree::Text(b.id)),
                            ("PlaySessionId"@, crate::json::Tree::Text(session_id@)),
                            (
                                "PositionTicks"@,
                                crate::json::Tree::Number(
                                    crate::num::dec_int(
                                        crate::models::secs_to_ticks(secs as nat),
                                    ),
                                ),
                            ),
                        ],
                    )
                },
                (MediaClient::Subsonic(_), ReportView::Started(b), ReportRequest::Call(c)) => c@
                    == crate::subsonic::scrobble_call(b.id, false, now_ms as nat),
                (MediaClient::Subsonic(_), ReportView::Stopped(b, secs), ReportRequest::Call(c)) => c@
                    == crate::subsonic::scrobble_call(
                    b.id,
                    true,
                    if secs * 1000 >= now_ms {
                        0
                    } else {
                        (now_ms - secs * 1000) as nat
                    },
                ),
                (
                    MediaClient::Subsonic(_),
                    ReportView::Progress(_, _),
                    ReportRequest::Nothing,
                ) => true,
                _ => false,
            },
    {
        match self {
            MediaClient::Jellyfin(c) => match report {
                Report::Started(b) => ReportRequest::Post(c.report_started(b, session_id)),
                Report::Progress(b, secs) => ReportRequest::Post(
                    c.report_progress(b, session_id, ticks(*secs), false),
                ),
                Report::Stopped(b, secs) => ReportRequest::Post(
                    c.report_stopped(b, session_id, ticks(*secs)),
                ),
            },
            MediaClient::Subsonic(c) => match report {
                Report::Started(b) => ReportRequest::Call(c.scrobble_now_playing(b, now_ms)),
                Report::Progress(_, _) => ReportRequest::Nothing,
                Report::Stopped(b, secs) => ReportRequest::Call(
                    c.scrobble_submission(b, Some(listen_start_ms(now_ms, *secs)), now_ms),
                ),
            },
        }
    }
}

// ---------------------------------------------------------------------------
// Laws
// ---------------------------------------------------------------------------

/// One look at the player.
pub ghost struct Look {
    pub status: PlaybackStatus,
    pub now_playing: Option<QueueItem>,
    pub position_us: u64,
    pub now_ms: u64,
}

/// What is reported over a row of looks at the local player, and what the
/// server knows in the end.
pub open spec fn scrobbled_over(s: ScrobblerView, looks: Seq<Look>) -> (
    ScrobblerView,
    Seq<ReportView>,
)
    decreases looks.len(),
{
    if looks.len() == 0 {
        (s, Seq::empty())
    } else {
        let (mid, early) = scrobbled_over(s, looks.drop_last());
        let l = looks.last();
        let (end, late) = scrobbled(
            mid,
            RendererKind::Mpv,
            l.status,
            l.now_playing,
            l.position_us,
            l.now_ms,
        );
        (end, early + late)
    }
}

/// What the server knows to be playing after some reports, where they make
/// sense one after the other: a start comes when nothing plays, and a progress
/// or an end is about what plays.
pub open spec fn told(reports: Seq<ReportView>) -> Option<Option<Seq<char>>>
    decreases reports.len(),
{
    if reports.len() == 0 {
        Some(None)
    } else {
        match (told(reports.drop_last()), reports.last()) {
            (Some(None), ReportView::Started(b)) => Some(Some(b.id)),
            (Some(Some(id)), ReportView::Progress(b, _)) => if b.id == id {
                Some(Some(id))
            } else {
                None
            },
            (Some(Some(id)), ReportView::Stopped(b, _)) => if b.id == id {
                Some(None)
            } else {
                None
            },
            _ => None,
        }
    }
}

/// Over any row of looks the server is told a sensible story: every track that
/// it hears of is started once and stopped before the next one starts, progress
/// is only of the track that plays, and what it knows in the end is what
/// plays.
pub proof fn lemma_reports_make_sense(s: ScrobblerView, looks: Seq<Look>)
    requires
        s.reported is None,
    ensures
        told(scrobbled_over(s, looks).1) == Some(scrobbled_over(s, looks).0.reported),
        looks.len() > 0 ==> scrobbled_over(s, looks).0.reported == (match heard(
            looks.last().now_playing,
        ) {
            Some(q) => Some(q.id@),
            None => None,
        }),
    decreases looks.len(),
{
    if looks.len() > 0 {
        lemma_reports_make_sense(s, looks.drop_last());
        let (mid, early) = scrobbled_over(s, looks.drop_last());
        let l = looks.last();
        let (end, late) = scrobbled(
            mid,
            RendererKind::Mpv,
            l.status,
            l.now_playing,
            l.position_us,
            l.now_ms,
        );
        if late.len() == 0 {
            assert(early + late =~= early);
        } else if late.len() == 1 {
            assert((early + late).drop_last() =~= early);
        } else {
            reveal_with_fuel(told, 3);
            assert((early + late).drop_last().drop_last() =~= early);
            assert((early + late).drop_last().last() == late[0]);
            assert((early + late).last() == late[1]);
        }
    }
}

/// The track that a report is about.
pub open spec fn about(r: ReportView) -> Seq<char> {
    match r {
        ReportView::Started(b) => b.id,
        ReportView::Progress(b, _) => b.id,
        ReportView::Stopped(b, _) => b.id,
    }
}

/// Over any row of looks, the server hears nothing of what other devices push
/// at this one.
pub proof fn lemma_foreign_unreported(s: ScrobblerView, looks: Seq<Look>)
    requires
        s.reported is Some ==> !foreign(s.reported->0),
    ensures
        scrobbled_over(s, looks).0.reported is Some ==> !foreign(
            scrobbled_over(s, looks).0.reported->0,
        ),
        forall|i: int|
            0 <= i < scrobbled_over(s, looks).1.len() ==> !foreign(
                about(#[trigger] scrobbled_over(s, looks).1[i]),
            ),
    decreases looks.len(),
{
    if looks.len() > 0 {
        lemma_foreign_unreported(s, looks.drop_last());
    }
}

/// Other devices report for themselves: while one plays, nothing is told, and
/// nothing that was told is forgotten.
pub proof fn lemma_remote_is_silent(
    s: ScrobblerView,
    kind: RendererKind,
    status: PlaybackStatus,
    now_playing: Option<QueueItem>,
    position_us: u64,
    now_ms: u64,
)
    requires
        kind != RendererKind::Mpv,
    ensures
        scrobbled(s, kind, status, now_playing, position_us, now_ms) == (
            s,
            Seq::<ReportView>::empty(),
        ),
{
}

/// A track that begins is reported as begun, under its own id and name, once;
/// the one before it is reported as ended, with the whole seconds that the
/// position says.
pub proof fn lemma_starts_and_ends(
    s: ScrobblerView,
    status: PlaybackStatus,
    q: QueueItem,
    position_us: u64,
    now_ms: u64,
)
    requires
        !q.is_video,
        !foreign(q.id@),
        s.reported != Some(q.id@),
    ensures
        ({
            let (t, r) = scrobbled(s, RendererKind::Mpv, status, Some(q), position_us, now_ms);
            &&& t.reported == Some(q.id@)
            &&& t.last_ms == now_ms
            &&& r.last() is Started
            &&& r.last()->Started_0.id == q.id@
            &&& r.last()->Started_0.name == q.title@
            &&& s.reported is None ==> r.len() == 1
            &&& s.reported is Some ==> {
                &&& r.len() == 2
                &&& r[0] is Stopped
                &&& r[0]->Stopped_0.id == s.reported->0
                &&& r[0]->Stopped_1 == position_us / 1_000_000
            }
        }),
        ({
            let (t, r) = scrobbled(s, RendererKind::Mpv, status, None, position_us, now_ms);
            &&& t.reported is None
            &&& s.reported is None ==> r.len() == 0
            &&& s.reported is Some ==> {
                &&& r.len() == 1
                &&& r[0] is Stopped
                &&& r[0]->Stopped_0.id == s.reported->0
                &&& r[0]->Stopped_1 == position_us / 1_000_000
            }
        }),
{
}

/// While a track plays, its progress is reported every ten seconds and not more
/// often, with the whole seconds of its position; while it is paused, nothing
/// is.
pub proof fn lemma_progress_reported(
    s: ScrobblerView,
    status: PlaybackStatus,
    q: QueueItem,
    position_us: u64,
    now_ms: u64,
)
    requires
        !q.is_video,
        !foreign(q.id@),
        s.reported == Some(q.id@),
    ensures
        ({
            let (t, r) = scrobbled(s, RendererKind::Mpv, status, Some(q), position_us, now_ms);
            let due = status == PlaybackStatus::Playing && now_ms >= s.last_ms + 10_000;
            &&& t.reported == s.reported
            &&& due ==> {
                &&& r.len() == 1
                &&& r[0] is Progress
                &&& r[0]->Progress_0.id == q.id@
                &&& r[0]->Progress_1 == position_us / 1_000_000
                &&& t.last_ms == now_ms
            }
            &&& !due ==> r.len() == 0 && t == s
        }),
{
}

/// A video, and what another device pushed at this one, is not heard; all else
/// is.
pub proof fn lemma_heard(q: QueueItem)
    ensures
        heard(None) is None,
        q.is_video ==> heard(Some(q)) is None,
        foreign(q.id@) ==> heard(Some(q)) is None,
        !q.is_video && !foreign(q.id@) ==> heard(Some(q)) == Some(q),
        forall|n: nat, uri: Seq<char>, didl: Seq<char>|
            foreign(#[trigger] crate::mediarenderer::soap::cast_item(n, uri, didl).id),
{
    assert forall|n: nat, uri: Seq<char>, didl: Seq<char>|
        foreign(#[trigger] crate::mediarenderer::soap::cast_item(n, uri, didl).id) by {
        crate::mediarenderer::soap::lemma_cast_item(n, uri, didl);
    }
}

/// An entry of the queue is reported as the item that it was made of: its id,
/// its name and its kind.
pub proof fn lemma_reported_item(q: QueueItem)
    ensures
        reported_base(q).id == q.id@,
        reported_base(q).name == q.title@,
        reported_base(q).media_type == Some(
            if q.is_video {
                "Video"@
            } else {
                "Audio"@
            },
        ),
        reported_base(q).is_folder == Some(false),
        stub_base(q.id@).id == q.id@,
{
}

/// A Subsonic server is told what has begun as not yet heard, and what has ended
/// as heard since it began: so many seconds ago as have played. Each report is
/// of its own track.
pub proof fn lemma_subsonic_told(b: BaseView, secs: u64, now_ms: nat)
    ensures
        subsonic_told(ReportView::Started(b), now_ms) == Some(
            crate::subsonic::CallView {
                endpoint: "scrobble"@,
                params: seq![
                    ("id"@, b.id),
                    ("submission"@, "false"@),
                    ("time"@, crate::num::dec(now_ms)),
                ],
            },
        ),
        1000 * secs <= now_ms ==> subsonic_told(ReportView::Stopped(b, secs), now_ms) == Some(
            crate::subsonic::CallView {
                endpoint: "scrobble"@,
                params: seq![
                    ("id"@, b.id),
                    ("submission"@, "true"@),
                    ("time"@, crate::num::dec((now_ms - 1000 * secs) as nat)),
                ],
            },
        ),
        subsonic_told(ReportView::Progress(b, secs), now_ms) is None,
{
    crate::media::lemma_listen_start(now_ms, secs as nat);
}

/// A Jellyfin server is told of the start, the progress and the end of a track
/// at an address of their own, each under the track's id and with its position.
pub proof fn lemma_jellyfin_told(b: BaseView, secs: u64, session: Seq<char>)
    requires
        secs * 10_000_000 <= i64::MAX,
    ensures
        jellyfin_told(ReportView::Started(b), session).0 == "/Sessions/Playing"@,
        jellyfin_told(ReportView::Progress(b, secs), session).0 == "/Sessions/Playing/Progress"@,
        jellyfin_told(ReportView::Stopped(b, secs), session).0 == "/Sessions/Playing/Stopped"@,
        jellyfin_told(ReportView::Started(b), session).1.at("ItemId"@) == Some(
            crate::json::Tree::Text(b.id),
        ),
        jellyfin_told(ReportView::Progress(b, secs), session).1.at("ItemId"@) == Some(
            crate::json::Tree::Text(b.id),
        ),
        jellyfin_told(ReportView::Progress(b, secs), session).1.at("PositionTicks"@) == Some(
            crate::json::Tree::Number(crate::num::dec_int(secs * 10_000_000)),
        ),
        jellyfin_told(ReportView::Stopped(b, secs), session).1.at("ItemId"@) == Some(
            crate::json::Tree::Text(b.id),
        ),
        jellyfin_told(ReportView::Stopped(b, secs), session).1.at("PositionTicks"@) == Some(
            crate::json::Tree::Number(crate::num::dec_int(secs * 10_000_000)),
        ),
{
    let t = crate::models::secs_to_ticks(secs as nat);
    crate::models::lemma_secs_to_ticks(secs as nat);
    crate::jellyfin::lemma_reports_said(b.id, session, t, false);
}

} // verus!
