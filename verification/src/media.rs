//! One client for both kinds of media server: which kind a server is, and what
//! the same wish comes to for each of them.

use vstd::prelude::*;
use vstd::slice::slice_subrange;

use crate::jellyfin::{slice_view, JellyfinClient, StreamFormat};
use crate::models::{AuthResult, BaseItem};
use crate::subsonic::SubsonicClient;
use crate::text::{chars, cut_end_char, from_chars, has};

verus! {

/// The kind of a server.
#[derive(Debug, Clone, Copy, PartialEq, Eq, Structural)]
pub enum ServerKind {
    Jellyfin,
    Subsonic,
}

impl Default for ServerKind {
    fn default() -> (r: Self)
        ensures
            r == ServerKind::Jellyfin,
    {
        ServerKind::Jellyfin
    }
}

impl ServerKind {
    /// The name of a kind.
    pub open spec fn name(self) -> Seq<char> {
        match self {
            ServerKind::Jellyfin => "jellyfin"@,
            ServerKind::Subsonic => "subsonic"@,
        }
    }

    pub fn label(&self) -> (r: &'static str)
        ensures
            r@ == self.name(),
    {
        match self {
            ServerKind::Jellyfin => "jellyfin",
            ServerKind::Subsonic => "subsonic",
        }
    }
}

/// The address at which a server of one kind answers without a login.
pub open spec fn probe_text(kind: ServerKind, url: Seq<char>) -> Seq<char> {
    crate::text::trim_end_char(url, '/') + (match kind {
        ServerKind::Jellyfin => "/System/Info/Public"@,
        ServerKind::Subsonic => "/rest/ping.view?c=fin&v=1.16.1&f=json"@,
    })
}

/// The address at which a server of one kind answers without a login.
pub fn probe_url(kind: ServerKind, url: &str) -> (r: String)
    ensures
        r@ == probe_text(kind, url@),
{
    let all: Vec<char> = chars(url);
    let mut r: String = from_chars(cut_end_char(&all, '/'));
    match kind {
        ServerKind::Jellyfin => {
            r.push_str("/System/Info/Public");
        },
        ServerKind::Subsonic => {
            r.push_str("/rest/ping.view?c=fin&v=1.16.1&f=json");
        },
    }
    r
}

/// Whether an answer is one of a server of the kind that was asked for.
pub open spec fn answers_as(kind: ServerKind, success: bool, text: Seq<char>) -> bool {
    success && match kind {
        ServerKind::Jellyfin => crate::text::contains(text, "Jellyfin"@),
        ServerKind::Subsonic => crate::text::contains(text, "subsonic-response"@),
    }
}

/// Whether an answer is one of a server of the kind that was asked for.
pub fn is_answer_of(kind: ServerKind, success: bool, text: &str) -> (r: bool)
    ensures
        r == answers_as(kind, success, text@),
{
    success && match kind {
        ServerKind::Jellyfin => has(text, "Jellyfin"),
        ServerKind::Subsonic => has(text, "subsonic-response"),
    }
}

/// What both probes found: one kind of server, or a reason each why not.
#[derive(Debug)]
pub enum Probed {
    Kind(ServerKind),
    Neither(String),
}

/// The message on a server that is of neither kind.
pub open spec fn neither_text(base: Seq<char>, jellyfin: Seq<char>, subsonic: Seq<char>) -> Seq<
    char,
> {
    "could not detect server type at "@ + base + ":\n  jellyfin probe: "@ + jellyfin
        + "\n  subsonic probe: "@ + subsonic
}

/// Why an answer is not one of a server of the kind that was asked for.
pub open spec fn refusal_text(kind: ServerKind, status: Seq<char>, text: Seq<char>) -> Seq<char> {
    match kind {
        ServerKind::Jellyfin => "/System/Info/Public didn't look like Jellyfin"@,
        ServerKind::Subsonic => "/rest/ping.view returned "@ + status + ": "@ + (if text.len()
            <= 80 {
            text
        } else {
            text.take(80)
        }),
    }
}

/// Says why an answer is not one of a server of the kind that was asked for.
pub fn refusal(kind: ServerKind, status: &str, text: &str) -> (r: String)
    ensures
        r@ == refusal_text(kind, status@, text@),
{
    match kind {
        ServerKind::Jellyfin => "/System/Info/Public didn't look like Jellyfin".to_owned(),
        ServerKind::Subsonic => {
            let mut r: String = "/rest/ping.view returned ".to_owned();
            r.push_str(status);
            r.push_str(": ");
            let all: Vec<char> = chars(text);
            if all.len() <= 80 {
                r.push_str(text);
            } else {
                let head: &[char] = slice_subrange(all.as_slice(), 0, 80);
                proof {
                    assert(head@ =~= text@.take(80));
                }
                r.push_str(from_chars(head).as_str());
            }
            r
        },
    }
}

/// The kind of a server, given which of the probes succeeded and which of them
/// came first.
pub open spec fn probed_kind(jellyfin: bool, subsonic: bool, subsonic_first: bool) -> Option<
    ServerKind,
> {
    if jellyfin && !(subsonic && subsonic_first) {
        Some(ServerKind::Jellyfin)
    } else if subsonic {
        Some(ServerKind::Subsonic)
    } else {
        None
    }
}

/// Decides between the two kinds after both probes; a reason stands for a
/// probe that failed. Where both succeed, the one that answered first wins.
pub fn probe_server(
    url: &str,
    jellyfin: Option<String>,
    subsonic: Option<String>,
    subsonic_first: bool,
) -> (r: Probed)
    ensures
        match probed_kind(jellyfin is None, subsonic is None, subsonic_first) {
            Some(k) => r == Probed::Kind(k),
            None => r is Neither,
        },
        match (jellyfin, subsonic) {
            (None, None) => r == Probed::Kind(
                if subsonic_first {
                    ServerKind::Subsonic
                } else {
                    ServerKind::Jellyfin
                },
            ),
            (None, Some(_)) => r == Probed::Kind(ServerKind::Jellyfin),
            (Some(_), None) => r == Probed::Kind(ServerKind::Subsonic),
            (Some(j), Some(s)) => r is Neither && r->Neither_0@ == neither_text(
                crate::text::trim_end_char(url@, '/'),
                j@,
                s@,
            ),
        },
{
    match jellyfin {
        None => if subsonic_first && subsonic.is_none() {
            Probed::Kind(ServerKind::Subsonic)
        } else {
            Probed::Kind(ServerKind::Jellyfin)
        },
        Some(j) => match subsonic {
            None => Probed::Kind(ServerKind::Subsonic),
            Some(s) => {
                let all: Vec<char> = chars(url);
                let base: String = from_chars(cut_end_char(&all, '/'));
                let mut text: String = "could not detect server type at ".to_owned();
                text.push_str(base.as_str());
                text.push_str(":\n  jellyfin probe: ");
                text.push_str(j.as_str());
                text.push_str("\n  subsonic probe: ");
                text.push_str(s.as_str());
                Probed::Neither(text)
            },
        },
    }
}

/// When a listen began, in milliseconds: now, less the position in the track.
pub open spec fn listen_start(now_ms: nat, position_secs: nat) -> nat {
    if position_secs * 1000 >= now_ms {
        0
    } else {
        (now_ms - position_secs * 1000) as nat
    }
}

/// The time at which a listen began: now, less the position in the track.
pub fn listen_start_ms(now_ms: u64, position_secs: u64) -> (r: u64)
    ensures
        r == listen_start(now_ms as nat, position_secs as nat),
        r == (if position_secs * 1000 >= now_ms {
            0
        } else {
            now_ms - position_secs * 1000
        }),
{
    if position_secs > u64::MAX / 1000 {
        return 0;
    }
    let ms: u64 = position_secs * 1000;
    if ms >= now_ms {
        0
    } else {
        now_ms - ms
    }
}

/// A client of either kind.
#[derive(Debug)]
pub enum MediaClient {
    Jellyfin(JellyfinClient),
    Subsonic(SubsonicClient),
}

/// Someone who is logged in.
#[derive(Debug)]
pub struct LoggedIn {
    pub kind: ServerKind,
    pub auth: AuthResult,
    pub device_id: String,
    pub client: MediaClient,
}

/// What a finished login comes to.
pub fn login_any(client: MediaClient, auth: AuthResult) -> (r: LoggedIn)
    ensures
        r.kind == client.kind_of(),
        r.auth == auth,
        r.device_id@ == client.device(),
        r.client == client,
{
    LoggedIn { kind: client.kind(), auth, device_id: client.device_id().to_owned(), client }
}

/// A client with the login of an earlier run. For a Subsonic server the name
/// of the user counts, and the token is the password.
pub fn client_from_stored(
    kind: ServerKind,
    url: &str,
    device_name: &str,
    device_id: &str,
    user_id: &str,
    user_name: &str,
    access_token: &str,
) -> (r: MediaClient)
    ensures
        r.kind_of() == kind,
        match r {
            MediaClient::Jellyfin(c) => c@ == (crate::jellyfin::ClientView {
                base_url: crate::text::trim_end_char(url@, '/'),
                device_id: device_id@,
                device_name: device_name@,
                access_token: Some(access_token@),
                user_id: Some(user_id@),
            }),
            MediaClient::Subsonic(c) => c@ == (crate::subsonic::ClientView {
                base_url: crate::text::trim_end_char(url@, '/'),
                device_id: device_id@,
                username: Some(user_name@),
                password: Some(access_token@),
            }),
        },
{
    match kind {
        ServerKind::Jellyfin => MediaClient::Jellyfin(
            JellyfinClient::with_credentials(url, device_name, device_id, user_id, access_token),
        ),
        ServerKind::Subsonic => MediaClient::Subsonic(
            SubsonicClient::with_credentials(url, device_id, user_name, access_token),
        ),
    }
}

/// Why a stream has no address.
#[derive(Debug, Clone, Copy, PartialEq, Eq, Structural)]
pub enum StreamError {
    Jellyfin(crate::jellyfin::ClientError),
    Subsonic(crate::subsonic::LoginMissing),
}

impl MediaClient {
    pub open spec fn kind_of(self) -> ServerKind {
        match self {
            MediaClient::Jellyfin(_) => ServerKind::Jellyfin,
            MediaClient::Subsonic(_) => ServerKind::Subsonic,
        }
    }

    pub open spec fn base(self) -> Seq<char> {
        match self {
            MediaClient::Jellyfin(c) => c@.base_url,
            MediaClient::Subsonic(c) => c@.base_url,
        }
    }

    pub open spec fn device(self) -> Seq<char> {
        match self {
            MediaClient::Jellyfin(c) => c@.device_id,
            MediaClient::Subsonic(c) => c@.device_id,
        }
    }

    /// Whether this is the address of an item's stream.
    pub open spec fn streams_at(
        self,
        item: BaseItem,
        format: StreamFormat,
        url: Seq<char>,
    ) -> bool {
        match self {
            MediaClient::Jellyfin(c) => c@.access_token is Some && exists|session: Seq<char>|
                crate::ids::is_uuid(session) && url == #[trigger] c@.stream_text(
                    c@.access_token->0,
                    item@,
                    format,
                    session,
                ),
            MediaClient::Subsonic(c) => exists|salt: Seq<char>|
                crate::subsonic::is_salt(salt) && Ok::<Seq<char>, crate::subsonic::LoginMissing>(url)
                    == #[trigger] c@.stream(item@.id, salt),
        }
    }

    /// Whether this is the address of an item's picture.
    pub open spec fn pictures_at(
        self,
        id: Seq<char>,
        tag: Seq<char>,
        width: nat,
        url: Seq<char>,
    ) -> bool {
        match self {
            MediaClient::Jellyfin(c) => url == c@.base_url + "/Items/"@ + id
                + "/Images/Primary?tag="@ + tag + "&fillWidth="@ + crate::num::dec(width)
                + "&format=jpg"@,
            MediaClient::Subsonic(c) => exists|salt: Seq<char>|
                crate::subsonic::is_salt(salt) && url == #[trigger] c@.picture(id, width, salt),
        }
    }

    /// Whether what a login gave is there.
    pub open spec fn has_login(self) -> bool {
        match self {
            MediaClient::Jellyfin(c) => c@.access_token is Some,
            MediaClient::Subsonic(c) => c@.username is Some && c@.password is Some,
        }
    }

    pub fn kind(&self) -> (r: ServerKind)
        ensures
            r == self.kind_of(),
    {
        match self {
            MediaClient::Jellyfin(_) => ServerKind::Jellyfin,
            MediaClient::Subsonic(_) => ServerKind::Subsonic,
        }
    }

    pub fn base_url(&self) -> (r: &str)
        ensures
            r@ == self.base(),
    {
        match self {
            MediaClient::Jellyfin(c) => c.base_url(),
            MediaClient::Subsonic(c) => c.base_url(),
        }
    }

    pub fn device_id(&self) -> (r: &str)
        ensures
            r@ == self.device(),
    {
        match self {
            MediaClient::Jellyfin(c) => c.device_id(),
            MediaClient::Subsonic(c) => c.device_id(),
        }
    }

    /// The token of a login; a Subsonic server gives none.
    pub fn access_token(&self) -> (r: Option<&str>)
        ensures
            slice_view(r) == (match *self {
                MediaClient::Jellyfin(c) => c@.access_token,
                MediaClient::Subsonic(_) => None,
            }),
    {
        match self {
            MediaClient::Jellyfin(c) => c.access_token(),
            MediaClient::Subsonic(_) => None,
        }
    }

    pub fn user_id(&self) -> (r: Option<&str>)
        ensures
            slice_view(r) == (match *self {
                MediaClient::Jellyfin(c) => c@.user_id,
                MediaClient::Subsonic(_) => None,
            }),
    {
        match self {
            MediaClient::Jellyfin(c) => c.user_id(),
            MediaClient::Subsonic(_) => None,
        }
    }

    /// The address of an item's stream.
    pub fn stream_url(&self, item: &BaseItem, format: StreamFormat) -> (r: Result<
        String,
        StreamError,
    >)
        ensures
            r is Ok <==> self.has_login(),
            match r {
                Ok(url) => self.streams_at(*item, format, url@),
                Err(StreamError::Jellyfin(e)) => *self matches MediaClient::Jellyfin(c)
                    && c@.access_token is None && e
                    == crate::jellyfin::ClientError::NoAccessToken,
                Err(StreamError::Subsonic(e)) => *self matches MediaClient::Subsonic(c) && (
                match e {
                    crate::subsonic::LoginMissing::User => c@.username is None,
                    crate::subsonic::LoginMissing::Password => c@.username is Some
                        && c@.password is None,
                }),
            },
    {
        match self {
            MediaClient::Jellyfin(c) => match c.stream_url(item, format) {
                Ok(u) => Ok(u),
                Err(e) => Err(StreamError::Jellyfin(e)),
            },
            MediaClient::Subsonic(c) => match c.stream_url(item) {
                Ok(u) => Ok(u),
                Err(e) => Err(StreamError::Subsonic(e)),
            },
        }
    }

    /// The address of an item's picture.
    pub fn image_url(&self, item_id: &str, tag: &str, width: u32) -> (r: String)
        ensures
            self.pictures_at(item_id@, tag@, width as nat, r@),
    {
        match self {
            MediaClient::Jellyfin(c) => c.image_url(item_id, tag, width),
            MediaClient::Subsonic(c) => c.image_url(item_id, width),
        }
    }
}

/// Each kind of server has its own name, is asked at an address of its own, and
/// is known by a word of its own; an answer that reports a failure is none.
pub proof fn lemma_kinds_of_servers(url: Seq<char>, text: Seq<char>)
    ensures
        ServerKind::Jellyfin.name() == "jellyfin"@,
        ServerKind::Subsonic.name() == "subsonic"@,
        probe_text(ServerKind::Jellyfin, url) == crate::text::trim_end_char(url, '/')
            + "/System/Info/Public"@,
        probe_text(ServerKind::Subsonic, url) == crate::text::trim_end_char(url, '/')
            + "/rest/ping.view?c=fin&v=1.16.1&f=json"@,
        answers_as(ServerKind::Jellyfin, true, text) <==> crate::text::contains(text, "Jellyfin"@),
        answers_as(ServerKind::Subsonic, true, text) <==> crate::text::contains(
            text,
            "subsonic-response"@,
        ),
        !answers_as(ServerKind::Jellyfin, false, text),
        !answers_as(ServerKind::Subsonic, false, text),
{
}

/// The message on a server of neither kind holds both reasons, that of the
/// Jellyfin probe first.
pub proof fn lemma_neither_told(base: Seq<char>, jellyfin: Seq<char>, subsonic: Seq<char>)
    ensures
        neither_text(base, jellyfin, subsonic) == ("could not detect server type at "@ + base
            + ":\n  jellyfin probe: "@) + jellyfin + ("\n  subsonic probe: "@ + subsonic),
{
    assert(neither_text(base, jellyfin, subsonic) =~= ("could not detect server type at "@ + base
        + ":\n  jellyfin probe: "@) + jellyfin + ("\n  subsonic probe: "@ + subsonic));
}

/// A client has a login where it can build the address of a stream: a token for
/// a Jellyfin server, a name and a password for a Subsonic one.
pub proof fn lemma_login_needed(c: MediaClient)
    ensures
        c matches MediaClient::Jellyfin(j) ==> c.kind_of() == ServerKind::Jellyfin && c.base()
            == j@.base_url && c.device() == j@.device_id && (c.has_login() <==> j@.access_token
            is Some),
        c matches MediaClient::Subsonic(s) ==> c.kind_of() == ServerKind::Subsonic && c.base()
            == s@.base_url && c.device() == s@.device_id && (c.has_login() <==> s@.username is Some
            && s@.password is Some),
{
}

/// A listen began so many seconds ago as the position says, and not before the
/// beginning of time.
pub proof fn lemma_listen_start(now_ms: nat, position_secs: nat)
    ensures
        1000 * position_secs <= now_ms ==> listen_start(now_ms, position_secs) + 1000
            * position_secs == now_ms,
        1000 * position_secs > now_ms ==> listen_start(now_ms, position_secs) == 0,
{
}

/// A server is of the kind whose probe succeeded; where both did, of the one
/// that came first; where none did, of neither.
pub proof fn lemma_probed(subsonic_first: bool)
    ensures
        probed_kind(true, false, subsonic_first) == Some(ServerKind::Jellyfin),
        probed_kind(false, true, subsonic_first) == Some(ServerKind::Subsonic),
        probed_kind(true, true, true) == Some(ServerKind::Subsonic),
        probed_kind(true, true, false) == Some(ServerKind::Jellyfin),
        probed_kind(false, false, subsonic_first) is None,
{
}

/// Why a server is not of a kind: a short answer is told whole, a long one up to
/// its eightieth character.
pub proof fn lemma_refusals(status: Seq<char>, text: Seq<char>)
    ensures
        text.len() <= 80 ==> refusal_text(ServerKind::Subsonic, status, text)
            == "/rest/ping.view returned "@ + status + ": "@ + text,
        text.len() > 80 ==> refusal_text(ServerKind::Subsonic, status, text)
            == "/rest/ping.view returned "@ + status + ": "@ + text.subrange(0, 80),
        refusal_text(ServerKind::Jellyfin, status, text)
            == "/System/Info/Public didn't look like Jellyfin"@,
{
}

} // verus!
