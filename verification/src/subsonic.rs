//! A client of a server that speaks Subsonic: what it asks, and how it reads
//! the answers.
//!
//! Every request carries a fresh salt and the digest of password and salt; the
//! password itself never leaves this client.

use vstd::prelude::*;

use crate::escape::esc;
use crate::ids::fresh_id;
use crate::jellyfin::{pair_views, push_pair, query_string, query_text, slice_view};
use crate::json::{object, push_field, Json, Tree};
use crate::models::{base_views, push_base, ticks, AuthResult, AuthUser, BaseItem, BaseView};
use crate::num::{push_dec, push_int};
use crate::queue::clone_opt;
use crate::text::{chars, cut_end_char, from_chars, has_str, opt_view, str_eq};

verus! {

/// The version of the protocol that is spoken.
pub const API_VERSION: &'static str = "1.16.1";

/// The name under which this client announces itself.
pub const CLIENT_NAME: &'static str = "fin";

/// What `md5::compute` makes of a text, in hexadecimal.
pub uninterp spec fn md5_text(s: Seq<char>) -> Seq<char>;

/// Calls `md5::compute` of the crate `md5` on the UTF-8 of a text, and writes
/// the digest with `{:x}`. The claim: the outcome depends on the text alone,
/// and has two hexadecimal digits for each of the sixteen bytes of a digest.
#[verifier::external_body]
fn digest(s: &str) -> (r: String)
    ensures
        r@ == md5_text(s@),
        r@.len() == 32,
        forall|i: int| 0 <= i < r@.len() ==> crate::text::is_hex(#[trigger] r@[i]),
{
    format!("{:x}", md5::compute(s.as_bytes()))
}

/// The digest of a text, in hexadecimal.
pub fn md5_hex(input: &str) -> (r: String)
    ensures
        r@ == md5_text(input@),
        r@.len() == 32,
        forall|i: int| 0 <= i < r@.len() ==> crate::text::is_hex(#[trigger] r@[i]),
{
    digest(input)
}

/// Calls `Rng::random_range` of the crate `rand` on the generator of the
/// thread, over the numbers from 0 up to 35. The claim: the number is one of
/// them.
#[verifier::external_body]
fn random_below_36() -> (r: u8)
    ensures
        r < 36,
{
    rand::Rng::random_range(&mut rand::rng(), 0u8..36)
}

/// The character that stands for a number below 36.
pub open spec fn base36(n: int) -> char {
    if n < 10 {
        (48 + n) as char
    } else {
        (87 + n) as char
    }
}

/// A digit or a letter in lower case.
pub open spec fn is_salt_char(c: char) -> bool {
    ('0' <= c <= '9') || ('a' <= c <= 'z')
}

/// A salt: eight digits or letters in lower case.
pub open spec fn is_salt(s: Seq<char>) -> bool {
    s.len() == 8 && forall|i: int| 0 <= i < s.len() ==> is_salt_char(#[trigger] s[i])
}

/// The salt that some numbers below 36 stand for.
pub open spec fn salt_text(numbers: Seq<u8>) -> Seq<char> {
    numbers.map_values(|n: u8| base36(n as int))
}

/// Writes numbers below 36 as a salt.
pub fn salt_from(numbers: &Vec<u8>) -> (r: String)
    requires
        forall|i: int| 0 <= i < numbers@.len() ==> #[trigger] numbers@[i] < 36,
    ensures
        r@ == salt_text(numbers@),
        forall|i: int| 0 <= i < r@.len() ==> is_salt_char(#[trigger] r@[i]),
{
    let mut r: String = String::new();
    let mut i: usize = 0;
    while i < numbers.len()
        invariant
            i <= numbers@.len(),
            forall|j: int| 0 <= j < numbers@.len() ==> #[trigger] numbers@[j] < 36,
            r@.len() == i,
            forall|j: int| 0 <= j < i ==> #[trigger] r@[j] == base36(numbers@[j] as int),
        decreases numbers@.len() - i,
    {
        let n: u8 = numbers[i];
        r.push(if n < 10 {
            (48 + n) as char
        } else {
            (87 + n) as char
        });
        i += 1;
    }
    proof {
        assert(r@ =~= salt_text(numbers@));
    }
    r
}

/// A salt.
pub fn random_salt() -> (r: String)
    ensures
        is_salt(r@),
{
    let mut numbers: Vec<u8> = Vec::new();
    while numbers.len() < 8
        invariant
            numbers@.len() <= 8,
            forall|j: int| 0 <= j < numbers@.len() ==> #[trigger] numbers@[j] < 36,
        decreases 8 - numbers@.len(),
    {
        numbers.push(random_below_36());
    }
    salt_from(&numbers)
}

/// Why a request cannot be built.
#[derive(Debug, Clone, Copy, PartialEq, Eq, Structural)]
pub enum LoginMissing {
    User,
    Password,
}

/// A call of the server's interface.
#[derive(Debug)]
pub struct Call {
    pub endpoint: &'static str,
    pub params: Vec<(&'static str, String)>,
}

/// A call as a value.
pub ghost struct CallView {
    pub endpoint: Seq<char>,
    pub params: Seq<(Seq<char>, Seq<char>)>,
}

impl View for Call {
    type V = CallView;

    open spec fn view(&self) -> CallView {
        CallView { endpoint: self.endpoint@, params: pair_views(self.params@) }
    }
}

/// What browsing comes to.
#[derive(Debug)]
pub enum Browse {
    /// The tracks of an album.
    Tracks(Call),
    Playlists(Call),
    Albums(Call),
    /// There is nothing of that kind.
    Nothing,
}

/// A client of one server.
#[derive(Debug)]
pub struct SubsonicClient {
    base_url: String,
    device_id: String,
    username: Option<String>,
    password: Option<String>,
}

/// A client as a value.
pub ghost struct ClientView {
    pub base_url: Seq<char>,
    pub device_id: Seq<char>,
    pub username: Option<Seq<char>>,
    pub password: Option<Seq<char>>,
}

impl View for SubsonicClient {
    type V = ClientView;

    closed spec fn view(&self) -> ClientView {
        ClientView {
            base_url: self.base_url@,
            device_id: self.device_id@,
            username: opt_view(self.username),
            password: opt_view(self.password),
        }
    }
}

impl ClientView {
    /// The parameters that every request carries, with a salt.
    pub open spec fn auth(self, salt: Seq<char>) -> Result<
        Seq<(Seq<char>, Seq<char>)>,
        LoginMissing,
    > {
        match (self.username, self.password) {
            (None, _) => Err(LoginMissing::User),
            (Some(_), None) => Err(LoginMissing::Password),
            (Some(u), Some(p)) => Ok(
                seq![
                    ("u"@, u),
                    ("t"@, md5_text(p + salt)),
                    ("s"@, salt),
                    ("v"@, API_VERSION@),
                    ("c"@, CLIENT_NAME@),
                    ("f"@, "json"@),
                ],
            ),
        }
    }

    /// The address of a call, with a salt.
    pub open spec fn rest(self, call: CallView, salt: Seq<char>) -> Result<
        Seq<char>,
        LoginMissing,
    > {
        match self.auth(salt) {
            Ok(a) => Ok(
                self.base_url + "/rest/"@ + call.endpoint + ".view?"@ + query_text(
                    a + call.params,
                ),
            ),
            Err(e) => Err(e),
        }
    }

    /// The address of an item's stream, with a salt.
    pub open spec fn stream(self, id: Seq<char>, salt: Seq<char>) -> Result<
        Seq<char>,
        LoginMissing,
    > {
        match self.auth(salt) {
            Ok(a) => Ok(
                self.base_url + "/rest/stream.view?"@ + query_text(a) + "&id="@
                    + crate::escape::percent_encoded(id),
            ),
            Err(e) => Err(e),
        }
    }

    /// The address of a picture, with a salt. Without a login it lacks the
    /// parameters for it.
    pub open spec fn picture(self, id: Seq<char>, size: nat, salt: Seq<char>) -> Seq<char> {
        self.base_url + "/rest/getCoverArt.view?"@ + (match self.auth(salt) {
            Ok(a) => query_text(a),
            Err(_) => Seq::empty(),
        }) + "&id="@ + crate::escape::percent_encoded(id) + "&size="@ + crate::num::dec(size)
    }
}

/// A text that may be missing for a reason.
pub open spec fn text_result(r: Result<String, LoginMissing>) -> Result<Seq<char>, LoginMissing> {
    match r {
        Ok(s) => Ok(s@),
        Err(e) => Err(e),
    }
}

/// The smaller of two numbers.
pub open spec fn at_most(n: nat, max: nat) -> nat {
    if n < max {
        n
    } else {
        max
    }
}

/// A call with one parameter.
pub open spec fn call1(endpoint: Seq<char>, key: Seq<char>, value: Seq<char>) -> CallView {
    CallView { endpoint, params: seq![(key, value)] }
}

/// A call without parameters.
pub open spec fn call0(endpoint: Seq<char>) -> CallView {
    CallView { endpoint, params: Seq::empty() }
}

fn plain_call(endpoint: &'static str) -> (r: Call)
    ensures
        r@ == call0(endpoint@),
{
    let params: Vec<(&'static str, String)> = Vec::new();
    proof {
        assert(pair_views(params@) =~= Seq::empty());
    }
    Call { endpoint, params }
}

fn id_call(endpoint: &'static str, id: &str) -> (r: Call)
    ensures
        r@ == call1(endpoint@, "id"@, id@),
{
    let mut params: Vec<(&'static str, String)> = Vec::new();
    push_pair(&mut params, "id", id.to_owned());
    proof {
        assert(pair_views(params@) =~= seq![("id"@, id@)]);
    }
    Call { endpoint, params }
}

fn decimal(n: u64) -> (r: String)
    ensures
        r@ == crate::num::dec(n as nat),
{
    let mut r: String = String::new();
    push_dec(&mut r, n);
    proof {
        assert(r@ =~= crate::num::dec(n as nat));
    }
    r
}

/// What browsing comes to, as a value.
pub ghost enum BrowseView {
    Tracks(CallView),
    Playlists(CallView),
    Albums(CallView),
    Nothing,
}

impl View for Browse {
    type V = BrowseView;

    open spec fn view(&self) -> BrowseView {
        match *self {
            Browse::Tracks(c) => BrowseView::Tracks(c@),
            Browse::Playlists(c) => BrowseView::Playlists(c@),
            Browse::Albums(c) => BrowseView::Albums(c@),
            Browse::Nothing => BrowseView::Nothing,
        }
    }
}

/// What browsing comes to, given the parent, the kinds and the number that is
/// wanted.
pub open spec fn browsed(
    parent: Option<Seq<char>>,
    kinds: Seq<Seq<char>>,
    limit: Option<u32>,
) -> BrowseView {
    match parent {
        Some(id) => BrowseView::Tracks(call1("getAlbum"@, "id"@, id)),
        None => if kinds.contains("Playlist"@) {
            BrowseView::Playlists(call0("getPlaylists"@))
        } else if kinds.contains("Audio"@) || kinds.contains("MusicAlbum"@) {
            BrowseView::Albums(
                albums_call(
                    at_most(
                        match limit {
                            Some(l) => l as nat,
                            None => 500,
                        },
                        500,
                    ),
                ),
            )
        } else {
            BrowseView::Nothing
        },
    }
}

/// The call that searches for some words.
pub open spec fn search_call(query: Seq<char>, limit: nat) -> CallView {
    let per = crate::num::dec(at_most(limit, 50));
    CallView {
        endpoint: "search3"@,
        params: seq![
            ("query"@, query),
            ("songCount"@, per),
            ("albumCount"@, per),
            ("artistCount"@, per),
        ],
    }
}

/// The call that stars something, or takes the star away.
pub open spec fn star_call(id: Seq<char>, star: bool) -> CallView {
    call1(
        if star {
            "star"@
        } else {
            "unstar"@
        },
        "id"@,
        id,
    )
}

impl SubsonicClient {
    /// A client that is not logged in, with a device id of its own.
    pub fn new(base_url: &str) -> (r: Self)
        ensures
            r@.base_url == crate::text::trim_end_char(base_url@, '/'),
            crate::ids::is_uuid(r@.device_id),
            r@.username is None,
            r@.password is None,
    {
        let all: Vec<char> = chars(base_url);
        SubsonicClient {
            base_url: from_chars(cut_end_char(&all, '/')),
            device_id: fresh_id(),
            username: None,
            password: None,
        }
    }

    /// A client that is logged in already.
    pub fn with_credentials(base_url: &str, device_id: &str, username: &str, password: &str) -> (r:
        Self)
        ensures
            r@ == (ClientView {
                base_url: crate::text::trim_end_char(base_url@, '/'),
                device_id: device_id@,
                username: Some(username@),
                password: Some(password@),
            }),
    {
        let mut c = SubsonicClient::new(base_url);
        c.device_id = device_id.to_owned();
        c.username = Some(username.to_owned());
        c.password = Some(password.to_owned());
        c
    }

    pub fn base_url(&self) -> (r: &str)
        ensures
            r@ == self@.base_url,
    {
        self.base_url.as_str()
    }

    pub fn device_id(&self) -> (r: &str)
        ensures
            r@ == self@.device_id,
    {
        self.device_id.as_str()
    }

    pub fn username(&self) -> (r: Option<String>)
        ensures
            opt_view(r) == self@.username,
    {
        clone_opt(&self.username)
    }

    pub fn password(&self) -> (r: Option<String>)
        ensures
            opt_view(r) == self@.password,
    {
        clone_opt(&self.password)
    }

    /// Takes a user's name and password, and gives the call that proves them.
    pub fn login(&mut self, username: &str, password: &str) -> (r: Call)
        ensures
            final(self)@ == (ClientView {
                username: Some(username@),
                password: Some(password@),
                ..old(self)@
            }),
            r@ == call0("ping"@),
    {
        self.username = Some(username.to_owned());
        self.password = Some(password.to_owned());
        self.ping()
    }

    /// What a login comes to, once the server has confirmed it: the password
    /// takes the place of a token.
    pub fn auth_result(&self, username: &str, password: &str) -> (r: AuthResult)
        ensures
            r.access_token@ == password@,
            r.server_id@ == self@.base_url,
            r.user.id@ == username@,
            r.user.name@ == username@,
    {
        AuthResult {
            access_token: password.to_owned(),
            server_id: self.base_url.clone(),
            user: AuthUser { id: username.to_owned(), name: username.to_owned() },
        }
    }

    /// The cheapest call there is.
    pub fn ping(&self) -> (r: Call)
        ensures
            r@ == call0("ping"@),
    {
        plain_call("ping")
    }

    /// Browses: the tracks of an album, the playlists, or the albums. Of video
    /// such a server knows nothing.
    pub fn items(&self, parent: Option<&str>, kinds: &[&str], limit: Option<u32>) -> (r: Browse)
        ensures
            r@ == browsed(slice_view(parent), crate::text::str_views(kinds@), limit),
            ({
                let k = crate::text::str_views(kinds@);
                match slice_view(parent) {
                    Some(id) => r is Tracks && r->Tracks_0@ == call1("getAlbum"@, "id"@, id),
                    None => if k.contains("Playlist"@) {
                        r is Playlists && r->Playlists_0@ == call0("getPlaylists"@)
                    } else if k.contains("Audio"@) || k.contains("MusicAlbum"@) {
                        r is Albums && r->Albums_0@ == albums_call(
                            at_most(
                                match limit {
                                    Some(l) => l as nat,
                                    None => 500,
                                },
                                500,
                            ),
                        )
                    } else {
                        r is Nothing
                    },
                }
            }),
    {
        if let Some(id) = parent {
            return Browse::Tracks(id_call("getAlbum", id));
        }
        if has_str(kinds, "Playlist") {
            return Browse::Playlists(self.playlists());
        }
        if has_str(kinds, "Audio") || has_str(kinds, "MusicAlbum") {
            let size: u32 = match limit {
                Some(l) => if l < 500 {
                    l
                } else {
                    500
                },
                None => 500,
            };
            return Browse::Albums(album_list(size));
        }
        Browse::Nothing
    }

    /// A search, with at most fifty hits of each kind.
    pub fn search(&self, query: &str, limit: u32) -> (r: Call)
        ensures
            r@ == search_call(query@, limit as nat),
            ({
                let per = crate::num::dec(at_most(limit as nat, 50));
                r@ == CallView {
                    endpoint: "search3"@,
                    params: seq![
                        ("query"@, query@),
                        ("songCount"@, per),
                        ("albumCount"@, per),
                        ("artistCount"@, per),
                    ],
                }
            }),
    {
        let per: u64 = if limit < 50 {
            limit as u64
        } else {
            50
        };
        let mut params: Vec<(&'static str, String)> = Vec::new();
        push_pair(&mut params, "query", query.to_owned());
        push_pair(&mut params, "songCount", decimal(per));
        push_pair(&mut params, "albumCount", decimal(per));
        push_pair(&mut params, "artistCount", decimal(per));
        proof {
            let p = crate::num::dec(per as nat);
            assert(pair_views(params@) =~= seq![
                ("query"@, query@),
                ("songCount"@, p),
                ("albumCount"@, p),
                ("artistCount"@, p),
            ]);
        }
        Call { endpoint: "search3", params }
    }

    pub fn playlists(&self) -> (r: Call)
        ensures
            r@ == call0("getPlaylists"@),
    {
        plain_call("getPlaylists")
    }

    pub fn playlist_items(&self, id: &str) -> (r: Call)
        ensures
            r@ == call1("getPlaylist"@, "id"@, id@),
    {
        id_call("getPlaylist", id)
    }

    /// Everything that the user has starred.
    pub fn starred(&self) -> (r: Call)
        ensures
            r@ == call0("getStarred2"@),
    {
        plain_call("getStarred2")
    }

    /// Stars something, or takes the star away.
    pub fn set_star(&self, id: &str, star: bool) -> (r: Call)
        ensures
            r@ == star_call(id@, star),
            r@ == call1(
                if star {
                    "star"@
                } else {
                    "unstar"@
                },
                "id"@,
                id@,
            ),
    {
        id_call(
            if star {
                "star"
            } else {
                "unstar"
            },
            id,
        )
    }

    /// The report that a track has begun to play.
    pub fn scrobble_now_playing(&self, item: &BaseItem, now_ms: u64) -> (r: Call)
        ensures
            r@ == scrobble_call(item@.id, false, now_ms as nat),
    {
        scrobble(item.id.as_str(), false, now_ms)
    }

    /// The report that a track was heard: at the given time, or now.
    pub fn scrobble_submission(&self, item: &BaseItem, time_ms: Option<u64>, now_ms: u64) -> (r:
        Call)
        ensures
            r@ == scrobble_call(
                item@.id,
                true,
                match time_ms {
                    Some(t) => t as nat,
                    None => now_ms as nat,
                },
            ),
    {
        scrobble(
            item.id.as_str(),
            true,
            match time_ms {
                Some(t) => t,
                None => now_ms,
            },
        )
    }

    /// The parameters that every request carries, with a salt.
    fn auth_params(&self, salt: &str) -> (r: Result<Vec<(&'static str, String)>, LoginMissing>)
        ensures
            match r {
                Ok(q) => self@.auth(salt@) == Ok::<Seq<(Seq<char>, Seq<char>)>, LoginMissing>(
                    pair_views(q@),
                ),
                Err(e) => self@.auth(salt@) == Err::<Seq<(Seq<char>, Seq<char>)>, LoginMissing>(
                    e,
                ),
            },
    {
        let user: String = match &self.username {
            Some(u) => u.clone(),
            None => {
                return Err(LoginMissing::User);
            },
        };
        let password: String = match &self.password {
            Some(p) => p.clone(),
            None => {
                return Err(LoginMissing::Password);
            },
        };
        let ghost u = user@;
        let ghost p = password@;
        let mut salted: String = password;
        salted.push_str(salt);
        let token: String = md5_hex(salted.as_str());
        let mut q: Vec<(&'static str, String)> = Vec::new();
        push_pair(&mut q, "u", user);
        push_pair(&mut q, "t", token);
        push_pair(&mut q, "s", salt.to_owned());
        push_pair(&mut q, "v", API_VERSION.to_owned());
        push_pair(&mut q, "c", CLIENT_NAME.to_owned());
        push_pair(&mut q, "f", "json".to_owned());
        proof {
            assert(pair_views(q@) =~= seq![
                ("u"@, u),
                ("t"@, md5_text(p + salt@)),
                ("s"@, salt@),
                ("v"@, API_VERSION@),
                ("c"@, CLIENT_NAME@),
                ("f"@, "json"@),
            ]);
        }
        Ok(q)
    }

    /// The address of a call, with a given salt.
    pub fn rest_url_with(&self, call: Call, salt: &str) -> (r: Result<String, LoginMissing>)
        ensures
            text_result(r) == self@.rest(call@, salt@),
    {
        match self.auth_params(salt) {
            Ok(auth) => {
                let mut q: Vec<(&'static str, String)> = auth;
                let ghost a = pair_views(q@);
                let mut more: Vec<(&'static str, String)> = call.params;
                q.append(&mut more);
                proof {
                    assert(pair_views(q@) =~= a + call@.params);
                }
                let qs: String = query_string(&q);
                let mut url: String = self.base_url.clone();
                url.push_str("/rest/");
                url.push_str(call.endpoint);
                url.push_str(".view?");
                url.push_str(qs.as_str());
                Ok(url)
            },
            Err(e) => Err(e),
        }
    }

    /// The address of a call, with a salt of its own.
    pub fn rest_url(&self, call: Call) -> (r: Result<String, LoginMissing>)
        ensures
            exists|salt: Seq<char>|
                is_salt(salt) && text_result(r) == #[trigger] self@.rest(call@, salt),
    {
        let salt: String = random_salt();
        self.rest_url_with(call, salt.as_str())
    }

    /// The address of an item's stream, with a given salt.
    pub fn stream_url_with(&self, item: &BaseItem, salt: &str) -> (r: Result<
        String,
        LoginMissing,
    >)
        ensures
            text_result(r) == self@.stream(item@.id, salt@),
    {
        match self.auth_params(salt) {
            Ok(auth) => {
                let qs: String = query_string(&auth);
                let id: String = esc(item.id.as_str());
                let mut url: String = self.base_url.clone();
                url.push_str("/rest/stream.view?");
                url.push_str(qs.as_str());
                url.push_str("&id=");
                url.push_str(id.as_str());
                Ok(url)
            },
            Err(e) => Err(e),
        }
    }

    /// The address of an item's stream. The server picks the container.
    pub fn stream_url(&self, item: &BaseItem) -> (r: Result<String, LoginMissing>)
        ensures
            exists|salt: Seq<char>|
                is_salt(salt) && text_result(r) == #[trigger] self@.stream(item@.id, salt),
    {
        let salt: String = random_salt();
        self.stream_url_with(item, salt.as_str())
    }

    /// The address of a picture, with a given salt.
    pub fn image_url_with(&self, item_id: &str, size: u32, salt: &str) -> (r: String)
        ensures
            r@ == self@.picture(item_id@, size as nat, salt@),
    {
        let qs: String = match self.auth_params(salt) {
            Ok(auth) => query_string(&auth),
            Err(_) => {
                let none: String = String::new();
                proof {
                    assert(none@ =~= Seq::empty());
                }
                none
            },
        };
        let id: String = esc(item_id);
        let mut url: String = self.base_url.clone();
        url.push_str("/rest/getCoverArt.view?");
        url.push_str(qs.as_str());
        url.push_str("&id=");
        url.push_str(id.as_str());
        url.push_str("&size=");
        push_dec(&mut url, size as u64);
        url
    }

    /// The address of a picture.
    pub fn image_url(&self, item_id: &str, size: u32) -> (r: String)
        ensures
            exists|salt: Seq<char>|
                is_salt(salt) && r@ == #[trigger] self@.picture(item_id@, size as nat, salt),
    {
        let salt: String = random_salt();
        self.image_url_with(item_id, size, salt.as_str())
    }
}

/// The call for the albums, by name.
pub open spec fn albums_call(size: nat) -> CallView {
    CallView {
        endpoint: "getAlbumList2"@,
        params: seq![("type"@, "alphabeticalByName"@), ("size"@, crate::num::dec(size))],
    }
}

fn album_list(size: u32) -> (r: Call)
    ensures
        r@ == albums_call(size as nat),
{
    let mut params: Vec<(&'static str, String)> = Vec::new();
    push_pair(&mut params, "type", "alphabeticalByName".to_owned());
    push_pair(&mut params, "size", decimal(size as u64));
    proof {
        assert(pair_views(params@) =~= albums_call(size as nat).params);
    }
    Call { endpoint: "getAlbumList2", params }
}

/// The report on a track.
pub open spec fn scrobble_call(id: Seq<char>, submission: bool, time_ms: nat) -> CallView {
    CallView {
        endpoint: "scrobble"@,
        params: seq![
            ("id"@, id),
            ("submission"@, crate::jellyfin::bool_text(submission)),
            ("time"@, crate::num::dec(time_ms)),
        ],
    }
}

fn scrobble(id: &str, submission: bool, time_ms: u64) -> (r: Call)
    ensures
        r@ == scrobble_call(id@, submission, time_ms as nat),
{
    let mut params: Vec<(&'static str, String)> = Vec::new();
    push_pair(&mut params, "id", id.to_owned());
    push_pair(
        &mut params,
        "submission",
        if submission {
            "true".to_owned()
        } else {
            "false".to_owned()
        },
    );
    push_pair(&mut params, "time", decimal(time_ms));
    proof {
        assert(pair_views(params@) =~= scrobble_call(id@, submission, time_ms as nat).params);
    }
    Call { endpoint: "scrobble", params }
}

// ---------------------------------------------------------------------------
// Answers
// ---------------------------------------------------------------------------

/// The status of an answer that does not tell one.
pub fn default_status() -> (r: String)
    ensures
        r@ == "failed"@,
{
    "failed".to_owned()
}

/// What an answer says of a failure.
#[derive(Debug)]
pub struct SubsonicError {
    pub code: Option<i32>,
    pub message: Option<String>,
}

/// A failure that a server reported.
#[derive(Debug)]
pub struct Failure {
    pub code: i32,
    pub message: String,
}

impl Failure {
    /// The failure in words.
    pub fn text(&self) -> (r: String)
        ensures
            r@ == "subsonic error "@ + crate::num::dec_int(self.code as int) + ": "@
                + self.message@,
    {
        let mut r: String = "subsonic error ".to_owned();
        push_int(&mut r, self.code as i64);
        r.push_str(": ");
        r.push_str(self.message.as_str());
        r
    }
}

/// The code of a failure, and what it says.
pub open spec fn failure_of(error: Option<SubsonicError>) -> (i32, Seq<char>) {
    match error {
        Some(e) => (
            match e.code {
                Some(c) => c,
                None => -1i32,
            },
            match e.message {
                Some(m) => m@,
                None => "unknown"@,
            },
        ),
        None => (-1i32, "unknown"@),
    }
}

/// What a status and an error come to.
pub open spec fn checked(
    status: Seq<char>,
    error: Option<SubsonicError>,
    r: Result<(), Failure>,
) -> bool {
    match r {
        Ok(_) => status == "ok"@,
        Err(f) => status != "ok"@ && (f.code, f.message@) == failure_of(error),
    }
}

/// Whether an answer reports success, and if not, what went wrong.
pub fn check_status(status: &str, error: &Option<SubsonicError>) -> (r: Result<(), Failure>)
    ensures
        checked(status@, *error, r),
{
    if str_eq(status, "ok") {
        return Ok(());
    }
    match error {
        Some(e) => Err(
            Failure {
                code: match e.code {
                    Some(c) => c,
                    None => -1,
                },
                message: match &e.message {
                    Some(m) => m.clone(),
                    None => "unknown".to_owned(),
                },
            },
        ),
        None => Err(Failure { code: -1, message: "unknown".to_owned() }),
    }
}

/// An answer without content.
#[derive(Debug)]
pub struct PingResp {
    pub status: String,
    pub error: Option<SubsonicError>,
}

impl PingResp {
    pub fn check(&self) -> (r: Result<(), Failure>)
        ensures
            checked(self.status@, self.error, r),
    {
        check_status(self.status.as_str(), &self.error)
    }
}

/// An album.
#[derive(Debug)]
pub struct Album {
    pub id: String,
    pub name: String,
    pub artist: Option<String>,
    pub year: Option<i32>,
    pub duration: Option<u64>,
    pub song_count: Option<u32>,
    pub cover_art: Option<String>,
}

/// A track.
#[derive(Debug)]
pub struct Song {
    pub id: String,
    pub title: String,
    pub album: Option<String>,
    pub album_id: Option<String>,
    pub artist: Option<String>,
    pub track: Option<i32>,
    pub disc_number: Option<i32>,
    pub year: Option<i32>,
    pub duration: Option<u64>,
}

/// A playlist.
#[derive(Debug)]
pub struct Playlist {
    pub id: String,
    pub name: String,
    pub song_count: Option<u32>,
    pub duration: Option<u64>,
}

/// Albums by name.
#[derive(Debug)]
pub struct AlbumList2 {
    pub album: Vec<Album>,
}

/// The answer with albums.
#[derive(Debug)]
pub struct AlbumListResp {
    pub status: String,
    pub error: Option<SubsonicError>,
    pub album_list2: Option<AlbumList2>,
}

impl AlbumListResp {
    pub fn check(&self) -> (r: Result<(), Failure>)
        ensures
            checked(self.status@, self.error, r),
    {
        check_status(self.status.as_str(), &self.error)
    }

    pub fn album_list2(self) -> (r: Option<AlbumList2>)
        ensures
            r == self.album_list2,
    {
        self.album_list2
    }
}

/// An album with its tracks.
#[derive(Debug)]
pub struct AlbumWithSongs {
    pub song: Vec<Song>,
}

/// The answer with an album.
#[derive(Debug)]
pub struct AlbumResp {
    pub status: String,
    pub error: Option<SubsonicError>,
    pub album: Option<AlbumWithSongs>,
}

impl AlbumResp {
    pub fn check(&self) -> (r: Result<(), Failure>)
        ensures
            checked(self.status@, self.error, r),
    {
        check_status(self.status.as_str(), &self.error)
    }

    pub fn album(self) -> (r: Option<AlbumWithSongs>)
        ensures
            r == self.album,
    {
        self.album
    }
}

/// Albums and tracks, of a search or with a star.
#[derive(Debug)]
pub struct Found {
    pub album: Option<Vec<Album>>,
    pub song: Option<Vec<Song>>,
}

/// The answer to a search.
#[derive(Debug)]
pub struct SearchResp {
    pub status: String,
    pub error: Option<SubsonicError>,
    pub search_result3: Option<Found>,
}

impl SearchResp {
    pub fn check(&self) -> (r: Result<(), Failure>)
        ensures
            checked(self.status@, self.error, r),
    {
        check_status(self.status.as_str(), &self.error)
    }

    pub fn search_result3(self) -> (r: Option<Found>)
        ensures
            r == self.search_result3,
    {
        self.search_result3
    }
}

/// The answer with what has a star.
#[derive(Debug)]
pub struct StarredResp {
    pub status: String,
    pub error: Option<SubsonicError>,
    pub starred2: Option<Found>,
}

impl StarredResp {
    pub fn check(&self) -> (r: Result<(), Failure>)
        ensures
            checked(self.status@, self.error, r),
    {
        check_status(self.status.as_str(), &self.error)
    }

    pub fn starred2(self) -> (r: Option<Found>)
        ensures
            r == self.starred2,
    {
        self.starred2
    }
}

/// All playlists.
#[derive(Debug)]
pub struct Playlists {
    pub playlist: Vec<Playlist>,
}

/// The answer with playlists.
#[derive(Debug)]
pub struct PlaylistsResp {
    pub status: String,
    pub error: Option<SubsonicError>,
    pub playlists: Option<Playlists>,
}

impl PlaylistsResp {
    pub fn check(&self) -> (r: Result<(), Failure>)
        ensures
            checked(self.status@, self.error, r),
    {
        check_status(self.status.as_str(), &self.error)
    }

    pub fn playlists(self) -> (r: Option<Playlists>)
        ensures
            r == self.playlists,
    {
        self.playlists
    }
}

/// A playlist with its tracks.
#[derive(Debug)]
pub struct PlaylistWithEntries {
    pub entry: Option<Vec<Song>>,
}

/// The answer with a playlist.
#[derive(Debug)]
pub struct PlaylistResp {
    pub status: String,
    pub error: Option<SubsonicError>,
    pub playlist: Option<PlaylistWithEntries>,
}

impl PlaylistResp {
    pub fn check(&self) -> (r: Result<(), Failure>)
        ensures
            checked(self.status@, self.error, r),
    {
        check_status(self.status.as_str(), &self.error)
    }

    pub fn playlist(self) -> (r: Option<PlaylistWithEntries>)
        ensures
            r == self.playlist,
    {
        self.playlist
    }
}

// ---------------------------------------------------------------------------
// Items
// ---------------------------------------------------------------------------

/// A length in ticks, where it is told.
pub open spec fn opt_ticks(secs: Option<u64>) -> Option<i64> {
    match secs {
        Some(s) => Some(crate::models::secs_to_ticks(s as nat) as i64),
        None => None,
    }
}

fn to_ticks(secs: Option<u64>) -> (r: Option<i64>)
    ensures
        r == opt_ticks(secs),
{
    match secs {
        Some(s) => Some(ticks(s)),
        None => None,
    }
}

/// A count as a number with a sign, in 32 bits.
pub open spec fn signed32(n: int) -> int {
    if n > i32::MAX {
        n - 0x1_0000_0000
    } else {
        n
    }
}

/// A count, where it is told.
pub open spec fn opt_count(n: Option<u32>) -> Option<i32> {
    match n {
        Some(c) => Some(signed32(c as int) as i32),
        None => None,
    }
}

fn to_count(n: Option<u32>) -> (r: Option<i32>)
    ensures
        r == opt_count(n),
{
    match n {
        Some(c) => if c <= 0x7fff_ffff {
            Some(c as i32)
        } else {
            let below: u32 = u32::MAX - c;
            Some(-(below as i32) - 1)
        },
        None => None,
    }
}

/// The item that an album is.
pub open spec fn album_view(a: Album) -> BaseView {
    BaseView {
        id: a.id@,
        name: a.name@,
        type_: "MusicAlbum"@,
        album: None,
        album_id: None,
        album_artist: opt_view(a.artist),
        artists: None,
        series_name: None,
        production_year: a.year,
        run_time_ticks: opt_ticks(a.duration),
        media_type: None,
        container: None,
        index_number: opt_count(a.song_count),
        parent_index_number: None,
        image_tags: match a.cover_art {
            Some(c) => Some(Tree::Object(seq![("Primary"@, Tree::Text(c@))])),
            None => None,
        },
        is_folder: Some(true),
        overview: None,
    }
}

/// The item that a track is.
pub open spec fn song_view(s: Song) -> BaseView {
    BaseView {
        id: s.id@,
        name: s.title@,
        type_: "Audio"@,
        album: opt_view(s.album),
        album_id: opt_view(s.album_id),
        album_artist: None,
        artists: match s.artist {
            Some(a) => Some(seq![a@]),
            None => None,
        },
        series_name: None,
        production_year: s.year,
        run_time_ticks: opt_ticks(s.duration),
        media_type: Some("Audio"@),
        container: None,
        index_number: s.track,
        parent_index_number: s.disc_number,
        image_tags: None,
        is_folder: Some(false),
        overview: None,
    }
}

/// The item that a playlist is.
pub open spec fn playlist_view(p: Playlist) -> BaseView {
    BaseView {
        id: p.id@,
        name: p.name@,
        type_: "Playlist"@,
        album: None,
        album_id: None,
        album_artist: None,
        artists: None,
        series_name: None,
        production_year: None,
        run_time_ticks: opt_ticks(p.duration),
        media_type: None,
        container: None,
        index_number: opt_count(p.song_count),
        parent_index_number: None,
        image_tags: None,
        is_folder: Some(true),
        overview: None,
    }
}

pub fn album_to_base_item(a: Album) -> (r: BaseItem)
    ensures
        r@ == album_view(a),
        r.id@ == a.id@,
        r.name@ == a.name@,
        r.type_@ == "MusicAlbum"@,
        opt_view(r.album_artist) == opt_view(a.artist),
        r.production_year == a.year,
{
    let image_tags: Option<Json> = match a.cover_art {
        Some(c) => {
            let ghost cv = c@;
            let mut fields: Vec<(String, Json)> = Vec::new();
            push_field(&mut fields, "Primary", Json::Text(c));
            proof {
                assert(crate::json::field_views(fields@) =~= seq![("Primary"@, Tree::Text(cv))]);
            }
            Some(object(fields))
        },
        None => None,
    };
    BaseItem {
        id: a.id,
        name: a.name,
        type_: "MusicAlbum".to_owned(),
        album: None,
        album_id: None,
        album_artist: a.artist,
        artists: None,
        series_name: None,
        production_year: a.year,
        run_time_ticks: to_ticks(a.duration),
        media_type: None,
        container: None,
        index_number: to_count(a.song_count),
        parent_index_number: None,
        image_tags,
        is_folder: Some(true),
        overview: None,
    }
}

pub fn song_to_base_item(s: Song) -> (r: BaseItem)
    ensures
        r@ == song_view(s),
        r.id@ == s.id@,
        r.name@ == s.title@,
        r.type_@ == "Audio"@,
        opt_view(r.album) == opt_view(s.album),
        opt_view(r.album_id) == opt_view(s.album_id),
        r.production_year == s.year,
        r.index_number == s.track,
        r.parent_index_number == s.disc_number,
{
    let artists: Option<Vec<String>> = match s.artist {
        Some(a) => {
            let mut v: Vec<String> = Vec::new();
            let ghost av = a@;
            v.push(a);
            proof {
                assert(crate::text::string_views(v@) =~= seq![av]);
            }
            Some(v)
        },
        None => None,
    };
    BaseItem {
        id: s.id,
        name: s.title,
        type_: "Audio".to_owned(),
        album: s.album,
        album_id: s.album_id,
        album_artist: None,
        artists,
        series_name: None,
        production_year: s.year,
        run_time_ticks: to_ticks(s.duration),
        media_type: Some("Audio".to_owned()),
        container: None,
        index_number: s.track,
        parent_index_number: s.disc_number,
        image_tags: None,
        is_folder: Some(false),
        overview: None,
    }
}

pub fn playlist_to_base_item(p: Playlist) -> (r: BaseItem)
    ensures
        r@ == playlist_view(p),
        r.id@ == p.id@,
        r.name@ == p.name@,
        r.type_@ == "Playlist"@,
{
    BaseItem {
        id: p.id,
        name: p.name,
        type_: "Playlist".to_owned(),
        album: None,
        album_id: None,
        album_artist: None,
        artists: None,
        series_name: None,
        production_year: None,
        run_time_ticks: to_ticks(p.duration),
        media_type: None,
        container: None,
        index_number: to_count(p.song_count),
        parent_index_number: None,
        image_tags: None,
        is_folder: Some(true),
        overview: None,
    }
}

/// The items that albums are.
pub open spec fn album_views(v: Seq<Album>) -> Seq<BaseView> {
    v.map_values(|a: Album| album_view(a))
}

/// The items that tracks are.
pub open spec fn song_views(v: Seq<Song>) -> Seq<BaseView> {
    v.map_values(|s: Song| song_view(s))
}

/// The items that playlists are.
pub open spec fn playlist_views(v: Seq<Playlist>) -> Seq<BaseView> {
    v.map_values(|p: Playlist| playlist_view(p))
}

fn push_albums(out: &mut Vec<BaseItem>, albums: Vec<Album>)
    ensures
        base_views(final(out)@) == base_views(old(out)@) + album_views(albums@),
{
    let ghost all = albums@;
    let ghost before = base_views(out@);
    let mut rest: Vec<Album> = albums;
    let n: usize = rest.len();
    let mut i: usize = 0;
    while i < n
        invariant
            i <= n,
            n == all.len(),
            rest@ == all.skip(i as int),
            base_views(out@) == before + album_views(all).take(i as int),
        decreases n - i,
    {
        let a: Album = rest.remove(0);
        push_base(out, album_to_base_item(a));
        i += 1;
        proof {
            assert(rest@ =~= all.skip(i as int));
            assert(album_views(all).take(i as int) =~= album_views(all).take(i - 1).push(
                album_view(all[i - 1]),
            ));
            assert(base_views(out@) =~= before + album_views(all).take(i as int));
        }
    }
    proof {
        assert(album_views(all).take(i as int) =~= album_views(all));
    }
}

fn push_songs(out: &mut Vec<BaseItem>, songs: Vec<Song>)
    ensures
        base_views(final(out)@) == base_views(old(out)@) + song_views(songs@),
{
    let ghost all = songs@;
    let ghost before = base_views(out@);
    let mut rest: Vec<Song> = songs;
    let n: usize = rest.len();
    let mut i: usize = 0;
    while i < n
        invariant
            i <= n,
            n == all.len(),
            rest@ == all.skip(i as int),
            base_views(out@) == before + song_views(all).take(i as int),
        decreases n - i,
    {
        let s: Song = rest.remove(0);
        push_base(out, song_to_base_item(s));
        i += 1;
        proof {
            assert(rest@ =~= all.skip(i as int));
            assert(song_views(all).take(i as int) =~= song_views(all).take(i - 1).push(
                song_view(all[i - 1]),
            ));
            assert(base_views(out@) =~= before + song_views(all).take(i as int));
        }
    }
    proof {
        assert(song_views(all).take(i as int) =~= song_views(all));
    }
}

/// Why an answer holds no items.
#[derive(Debug)]
pub enum AnswerError {
    Failed(Failure),
    NotFound,
}

/// A check as part of an answer.
fn pass(r: Result<(), Failure>) -> (s: Result<(), AnswerError>)
    ensures
        match r {
            Ok(_) => s is Ok,
            Err(f) => s == Err::<(), AnswerError>(AnswerError::Failed(f)),
        },
{
    match r {
        Ok(_) => Ok(()),
        Err(f) => Err(AnswerError::Failed(f)),
    }
}

/// The items of an answer that reports success; otherwise what went wrong.
pub open spec fn answered(
    status: Seq<char>,
    error: Option<SubsonicError>,
    items: Option<Seq<BaseView>>,
    r: Result<Vec<BaseItem>, AnswerError>,
) -> bool {
    match r {
        Ok(v) => status == "ok"@ && items == Some(base_views(v@)),
        Err(AnswerError::Failed(f)) => checked(status, error, Err(f)),
        Err(AnswerError::NotFound) => status == "ok"@ && items is None,
    }
}

/// The albums of an answer.
pub fn albums_in(resp: AlbumListResp) -> (r: Result<Vec<BaseItem>, AnswerError>)
    ensures
        answered(
            resp.status@,
            resp.error,
            Some(
                match resp.album_list2 {
                    Some(l) => album_views(l.album@),
                    None => Seq::empty(),
                },
            ),
            r,
        ),
{
    match pass(resp.check()) {
        Ok(_) => {},
        Err(e) => {
            return Err(e);
        },
    }
    let mut out: Vec<BaseItem> = Vec::new();
    proof {
        assert(base_views(out@) =~= Seq::empty());
    }
    if let Some(l) = resp.album_list2() {
        push_albums(&mut out, l.album);
        proof {
            assert(base_views(out@) =~= album_views(l.album@));
        }
    }
    Ok(out)
}

/// The tracks of an album.
pub fn tracks_in(resp: AlbumResp) -> (r: Result<Vec<BaseItem>, AnswerError>)
    ensures
        answered(
            resp.status@,
            resp.error,
            match resp.album {
                Some(a) => Some(song_views(a.song@)),
                None => None,
            },
            r,
        ),
{
    match pass(resp.check()) {
        Ok(_) => {},
        Err(e) => {
            return Err(e);
        },
    }
    match resp.album() {
        Some(a) => {
            let mut out: Vec<BaseItem> = Vec::new();
            push_songs(&mut out, a.song);
            proof {
                assert(base_views(out@) =~= song_views(a.song@));
            }
            Ok(out)
        },
        None => Err(AnswerError::NotFound),
    }
}

/// Albums first, then tracks.
pub open spec fn found_views(f: Option<Found>) -> Seq<BaseView> {
    match f {
        Some(f) => (match f.album {
            Some(a) => album_views(a@),
            None => Seq::empty(),
        }) + (match f.song {
            Some(s) => song_views(s@),
            None => Seq::empty(),
        }),
        None => Seq::empty(),
    }
}

fn found_items(f: Option<Found>) -> (r: Vec<BaseItem>)
    ensures
        base_views(r@) == found_views(f),
{
    let mut out: Vec<BaseItem> = Vec::new();
    proof {
        assert(base_views(out@) =~= Seq::empty());
    }
    if let Some(f) = f {
        if let Some(a) = f.album {
            push_albums(&mut out, a);
        }
        if let Some(s) = f.song {
            push_songs(&mut out, s);
        }
        proof {
            assert(base_views(out@) =~= found_views(Some(f)));
        }
    }
    out
}

/// The hits of a search: albums first, then tracks.
pub fn hits_in(resp: SearchResp) -> (r: Result<Vec<BaseItem>, AnswerError>)
    ensures
        answered(resp.status@, resp.error, Some(found_views(resp.search_result3)), r),
{
    match pass(resp.check()) {
        Ok(_) => Ok(found_items(resp.search_result3())),
        Err(e) => Err(e),
    }
}

/// What has a star: albums first, then tracks.
pub fn starred_in(resp: StarredResp) -> (r: Result<Vec<BaseItem>, AnswerError>)
    ensures
        answered(resp.status@, resp.error, Some(found_views(resp.starred2)), r),
{
    match pass(resp.check()) {
        Ok(_) => Ok(found_items(resp.starred2())),
        Err(e) => Err(e),
    }
}

/// The playlists of an answer.
pub fn playlists_in(resp: PlaylistsResp) -> (r: Result<Vec<BaseItem>, AnswerError>)
    ensures
        answered(
            resp.status@,
            resp.error,
            Some(
                match resp.playlists {
                    Some(l) => playlist_views(l.playlist@),
                    None => Seq::empty(),
                },
            ),
            r,
        ),
{
    match pass(resp.check()) {
        Ok(_) => {},
        Err(e) => {
            return Err(e);
        },
    }
    let mut out: Vec<BaseItem> = Vec::new();
    proof {
        assert(base_views(out@) =~= Seq::empty());
    }
    if let Some(l) = resp.playlists() {
        let ghost all = l.playlist@;
        let mut rest: Vec<Playlist> = l.playlist;
        let n: usize = rest.len();
        let mut i: usize = 0;
        while i < n
            invariant
                i <= n,
                n == all.len(),
                rest@ == all.skip(i as int),
                base_views(out@) == playlist_views(all).take(i as int),
            decreases n - i,
        {
            let p: Playlist = rest.remove(0);
            push_base(&mut out, playlist_to_base_item(p));
            i += 1;
            proof {
                assert(rest@ =~= all.skip(i as int));
                assert(playlist_views(all).take(i as int) =~= playlist_views(all).take(
                    i - 1,
                ).push(playlist_view(all[i - 1])));
                assert(base_views(out@) =~= playlist_views(all).take(i as int));
            }
        }
        proof {
            assert(playlist_views(all).take(i as int) =~= playlist_views(all));
        }
    }
    Ok(out)
}

/// The tracks of a playlist.
pub fn entries_in(resp: PlaylistResp) -> (r: Result<Vec<BaseItem>, AnswerError>)
    ensures
        answered(
            resp.status@,
            resp.error,
            match resp.playlist {
                Some(p) => Some(
                    match p.entry {
                        Some(s) => song_views(s@),
                        None => Seq::empty(),
                    },
                ),
                None => None,
            },
            r,
        ),
{
    match pass(resp.check()) {
        Ok(_) => {},
        Err(e) => {
            return Err(e);
        },
    }
    match resp.playlist() {
        Some(p) => {
            let mut out: Vec<BaseItem> = Vec::new();
            proof {
                assert(base_views(out@) =~= Seq::empty());
            }
            if let Some(s) = p.entry {
                push_songs(&mut out, s);
                proof {
                    assert(base_views(out@) =~= song_views(s@));
                }
            }
            Ok(out)
        },
        None => Err(AnswerError::NotFound),
    }
}

/// No request carries the password: beside the salt, only the digest of both
/// stands for it.
pub proof fn lemma_password_hidden(a: ClientView, b: ClientView, call: CallView, salt: Seq<char>)
    requires
        a.base_url == b.base_url,
        a.username is Some,
        a.username == b.username,
        a.password is Some,
        b.password is Some,
        md5_text(a.password->0 + salt) == md5_text(b.password->0 + salt),
    ensures
        a.rest(call, salt) == b.rest(call, salt),
{
}

/// The item made of a track is that track: it has the track's id and title,
/// whatever the album, and is a piece of audio that can be played. Its album,
/// artist, place and year are those of the track, and so is its length.
pub proof fn lemma_song_item(s: Song)
    ensures
        ({
            let v = song_view(s);
            &&& v.id == s.id@
            &&& v.name == s.title@
            &&& v.kind() == crate::models::ItemKind::Audio
            &&& v.kind().playable()
            &&& v.is_folder == Some(false)
            &&& v.album == opt_view(s.album)
            &&& v.album_id == opt_view(s.album_id)
            &&& v.index_number == s.track
            &&& v.parent_index_number == s.disc_number
            &&& v.production_year == s.year
            &&& s.artist is Some ==> v.performers() == s.artist->0@
            &&& s.artist is None ==> v.performers().len() == 0
            &&& s.duration is None ==> v.run_time_ticks is None
            &&& s.duration is Some && s.duration->0 * 10_000_000 <= i64::MAX
                ==> v.run_time_ticks is Some && crate::models::ticks_to_secs(
                v.run_time_ticks->0 as int,
            ) == s.duration->0
        }),
{
    crate::models::lemma_kind_names();
    if let Some(a) = s.artist {
        assert(crate::text::joined(seq![a@], ", "@) =~= a@) by {
            reveal_with_fuel(crate::text::joined, 2);
        }
    }
    if let Some(d) = s.duration {
        if d * 10_000_000 <= i64::MAX {
            crate::models::lemma_ticks_round_trip(d as nat);
        }
    }
}

/// Two tracks that differ in their titles are shown by different names, though
/// they are of one album.
pub proof fn lemma_song_names_differ(a: Song, b: Song)
    ensures
        song_view(a).name == song_view(b).name <==> a.title@ == b.title@,
        song_view(a).id == song_view(b).id <==> a.id@ == b.id@,
{
}

/// The item made of an album is that album: its id and its name, its artist and
/// year, as something to look into and not to play.
pub proof fn lemma_album_item(a: Album)
    ensures
        ({
            let v = album_view(a);
            &&& v.id == a.id@
            &&& v.name == a.name@
            &&& v.kind() == crate::models::ItemKind::MusicAlbum
            &&& !v.kind().playable()
            &&& v.is_folder == Some(true)
            &&& a.artist is Some ==> v.line() == a.artist->0@
            &&& v.album_artist == opt_view(a.artist)
            &&& v.production_year == a.year
            &&& a.song_count is Some && a.song_count->0 <= i32::MAX ==> v.index_number is Some
                && v.index_number->0 == a.song_count->0
            &&& a.cover_art is Some <==> v.image_tags is Some
            &&& a.duration is Some && a.duration->0 * 10_000_000 <= i64::MAX
                ==> v.run_time_ticks is Some && crate::models::ticks_to_secs(
                v.run_time_ticks->0 as int,
            ) == a.duration->0
        }),
{
    crate::models::lemma_kind_names();
    if let Some(d) = a.duration {
        if d * 10_000_000 <= i64::MAX {
            crate::models::lemma_ticks_round_trip(d as nat);
        }
    }
}

/// The item made of a playlist is that playlist: its id, its name and how many
/// tracks it has.
pub proof fn lemma_playlist_item(p: Playlist)
    ensures
        ({
            let v = playlist_view(p);
            &&& v.id == p.id@
            &&& v.name == p.name@
            &&& v.kind() == crate::models::ItemKind::Playlist
            &&& v.is_folder == Some(true)
            &&& p.song_count is Some && p.song_count->0 <= i32::MAX ==> v.index_number is Some
                && v.index_number->0 == p.song_count->0
            &&& p.song_count is None ==> v.index_number is None
            &&& p.duration is Some && p.duration->0 * 10_000_000 <= i64::MAX
                ==> v.run_time_ticks is Some && crate::models::ticks_to_secs(
                v.run_time_ticks->0 as int,
            ) == p.duration->0
        }),
{
    crate::models::lemma_kind_names();
    if let Some(d) = p.duration {
        if d * 10_000_000 <= i64::MAX {
            crate::models::lemma_ticks_round_trip(d as nat);
        }
    }
}

/// The items of a list stand in the order of the list, one for each entry.
pub proof fn lemma_lists_in_order(
    albums: Seq<Album>,
    songs: Seq<Song>,
    playlists: Seq<Playlist>,
    i: int,
)
    ensures
        album_views(albums).len() == albums.len(),
        song_views(songs).len() == songs.len(),
        playlist_views(playlists).len() == playlists.len(),
        0 <= i < albums.len() ==> album_views(albums)[i].id == albums[i].id@
            && album_views(albums)[i].name == albums[i].name@,
        0 <= i < songs.len() ==> song_views(songs)[i].id == songs[i].id@ && song_views(
            songs,
        )[i].name == songs[i].title@,
        0 <= i < playlists.len() ==> playlist_views(playlists)[i].id == playlists[i].id@
            && playlist_views(playlists)[i].name == playlists[i].name@,
{
}

/// Of what was found, all albums come first and then all tracks; nothing is
/// left out.
pub proof fn lemma_found_order(albums: Vec<Album>, songs: Vec<Song>, i: int)
    ensures
        ({
            let f = found_views(Some(Found { album: Some(albums), song: Some(songs) }));
            &&& f.len() == albums@.len() + songs@.len()
            &&& 0 <= i < albums@.len() ==> f[i].id == albums@[i].id@
            &&& 0 <= i < songs@.len() ==> f[albums@.len() + i].id == songs@[i].id@
        }),
        found_views(Some(Found { album: None, song: Some(songs) })).len() == songs@.len(),
        found_views(Some(Found { album: Some(albums), song: None })).len() == albums@.len(),
        found_views(None).len() == 0,
{
}

/// An answer has items where it reports success and only there; a failure is
/// told with the code and the words of the server.
pub proof fn lemma_answers(
    status: Seq<char>,
    error: Option<SubsonicError>,
    items: Option<Seq<BaseView>>,
    r: Result<Vec<BaseItem>, AnswerError>,
)
    requires
        answered(status, error, items, r),
    ensures
        r is Ok <==> status == "ok"@ && items is Some,
        r is Ok ==> r->Ok_0@.len() == items->0.len(),
        r is Ok ==> forall|i: int|
            0 <= i < items->0.len() ==> (#[trigger] r->Ok_0@[i])@ == items->0[i],
        status != "ok"@ ==> r is Err && r->Err_0 is Failed,
        status != "ok"@ && error is Some && error->0.code is Some ==> r->Err_0->Failed_0.code
            == error->0.code->0,
        status != "ok"@ && error is Some && error->0.message is Some
            ==> r->Err_0->Failed_0.message@ == error->0.message->0@,
        status == "ok"@ && items is None ==> r is Err && r->Err_0 is NotFound,
{
    if let Ok(v) = r {
        assert forall|i: int| 0 <= i < items->0.len() implies (#[trigger] v@[i])@ == items->0[i] by {
            assert(base_views(v@)[i] == v@[i]@);
        }
    }
}

/// A request is signed by the user's name, the salt, and the digest of the
/// password followed by the salt; it asks for the version and the format that
/// are spoken. Without a name or a password there is no request.
pub proof fn lemma_signed(c: ClientView, salt: Seq<char>)
    ensures
        c.username is None ==> c.auth(salt) == Err::<Seq<(Seq<char>, Seq<char>)>, LoginMissing>(
            LoginMissing::User,
        ),
        c.username is Some && c.password is None ==> c.auth(salt) == Err::<
            Seq<(Seq<char>, Seq<char>)>,
            LoginMissing,
        >(LoginMissing::Password),
        c.username is Some && c.password is Some ==> {
            let q = c.auth(salt)->Ok_0;
            &&& c.auth(salt) is Ok
            &&& q.len() == 6
            &&& q[0] == ("u"@, c.username->0)
            &&& q[1] == ("t"@, md5_text(c.password->0 + salt))
            &&& q[2] == ("s"@, salt)
            &&& q[3] == ("v"@, "1.16.1"@)
            &&& q[4] == ("c"@, "fin"@)
            &&& q[5] == ("f"@, "json"@)
        },
{
}

/// A call goes to its own endpoint on the server, signed, and with its own
/// parameters behind the signature.
pub proof fn lemma_call_address(
    c: ClientView,
    call: CallView,
    id: Seq<char>,
    size: nat,
    salt: Seq<char>,
)
    requires
        c.username is Some,
        c.password is Some,
    ensures
        ({
            let signed = seq![
                ("u"@, c.username->0),
                ("t"@, md5_text(c.password->0 + salt)),
                ("s"@, salt),
                ("v"@, "1.16.1"@),
                ("c"@, "fin"@),
                ("f"@, "json"@),
            ];
            &&& c.rest(call, salt) == Ok::<Seq<char>, LoginMissing>(
                c.base_url + "/rest/"@ + call.endpoint + ".view?"@ + query_text(
                    signed + call.params,
                ),
            )
            &&& c.stream(id, salt) == Ok::<Seq<char>, LoginMissing>(
                c.base_url + "/rest/stream.view?"@ + query_text(signed) + "&id="@
                    + crate::escape::percent_encoded(id),
            )
            &&& c.picture(id, size, salt) == c.base_url + "/rest/getCoverArt.view?"@ + query_text(
                signed,
            ) + "&id="@ + crate::escape::percent_encoded(id) + "&size="@ + crate::num::dec(size)
        }),
{
}

/// What the calls hold: the endpoint that was named, and the parameters under
/// their keys.
pub proof fn lemma_calls(endpoint: Seq<char>, key: Seq<char>, value: Seq<char>, n: nat, max: nat)
    ensures
        call0(endpoint).endpoint == endpoint,
        call0(endpoint).params.len() == 0,
        call1(endpoint, key, value).endpoint == endpoint,
        call1(endpoint, key, value).params == seq![(key, value)],
        albums_call(n).endpoint == "getAlbumList2"@,
        albums_call(n).params == seq![
            ("type"@, "alphabeticalByName"@),
            ("size"@, crate::num::dec(n)),
        ],
        at_most(n, max) <= n && at_most(n, max) <= max,
        at_most(n, max) == n || at_most(n, max) == max,
{
}

/// A report that a track was heard and one that it has begun differ in that
/// alone; both name the track and the time.
pub proof fn lemma_scrobble_calls(id: Seq<char>, time_ms: nat, heard: bool)
    ensures
        scrobble_call(id, heard, time_ms).endpoint == "scrobble"@,
        scrobble_call(id, heard, time_ms).params == seq![
            ("id"@, id),
            (
                "submission"@,
                if heard {
                    "true"@
                } else {
                    "false"@
                },
            ),
            ("time"@, crate::num::dec(time_ms)),
        ],
{
}

/// A salt tells its numbers apart, and is made of digits and small letters.
pub proof fn lemma_salt(a: u8, b: u8)
    requires
        a < 36,
        b < 36,
    ensures
        is_salt_char(base36(a as int)),
        base36(a as int) == base36(b as int) ==> a == b,
        base36(0) == '0',
        base36(10) == 'a',
        base36(35) == 'z',
{
}

/// A length in seconds is ten million times as many ticks; a count that fits is
/// kept.
pub proof fn lemma_units(secs: u64, n: u32)
    ensures
        secs * 10_000_000 <= i64::MAX ==> opt_ticks(Some(secs)) is Some && opt_ticks(Some(secs))->0
            == secs * 10_000_000,
        opt_ticks(None) is None,
        n <= i32::MAX ==> opt_count(Some(n)) is Some && opt_count(Some(n))->0 == n,
        opt_count(None) is None,
{
}

/// To browse an album is to ask for its tracks, by its id; otherwise playlists
/// or albums are asked for, as the kinds say, and never more than five hundred.
/// Of video there is nothing.
pub proof fn lemma_browsed(id: Seq<char>, kinds: Seq<Seq<char>>, n: u32)
    ensures
        browsed(Some(id), kinds, Some(n)) == BrowseView::Tracks(
            CallView { endpoint: "getAlbum"@, params: seq![("id"@, id)] },
        ),
        kinds.contains("Playlist"@) ==> browsed(None, kinds, Some(n)) is Playlists && browsed(
            None,
            kinds,
            Some(n),
        )->Playlists_0.endpoint == "getPlaylists"@,
        !kinds.contains("Playlist"@) && (kinds.contains("Audio"@) || kinds.contains("MusicAlbum"@))
            && n <= 500 ==> browsed(None, kinds, Some(n)) == BrowseView::Albums(
            CallView {
                endpoint: "getAlbumList2"@,
                params: seq![
                    ("type"@, "alphabeticalByName"@),
                    ("size"@, crate::num::dec(n as nat)),
                ],
            },
        ),
        !kinds.contains("Playlist"@) && !kinds.contains("Audio"@) && !kinds.contains(
            "MusicAlbum"@,
        ) ==> browsed(None, kinds, Some(n)) == BrowseView::Nothing,
{
}

/// A search carries its words, and asks for as many tracks, albums and artists
/// as are wanted, up to fifty.
pub proof fn lemma_searched(query: Seq<char>, n: nat)
    ensures
        search_call(query, n).endpoint == "search3"@,
        search_call(query, n).params[0] == ("query"@, query),
        n <= 50 ==> search_call(query, n).params[1] == ("songCount"@, crate::num::dec(n)),
        n <= 50 ==> search_call(query, n).params[2] == ("albumCount"@, crate::num::dec(n)),
        n > 50 ==> search_call(query, n).params[1] == ("songCount"@, crate::num::dec(50)),
{
}

/// A star is given and taken by different calls, for the same thing.
pub proof fn lemma_starred(id: Seq<char>)
    ensures
        star_call(id, true).endpoint == "star"@,
        star_call(id, false).endpoint == "unstar"@,
        star_call(id, true).endpoint != star_call(id, false).endpoint,
        star_call(id, true).params == seq![("id"@, id)],
        star_call(id, false).params == seq![("id"@, id)],
{
    reveal_strlit("star");
    reveal_strlit("unstar");
    assert("star"@.len() == 4 && "unstar"@.len() == 6);
}

/// A failure is told by its code and its words; where the server gives none, it
/// is unknown.
pub proof fn lemma_failures(e: SubsonicError)
    ensures
        e.code is Some ==> failure_of(Some(e)).0 == e.code->0,
        e.code is None ==> failure_of(Some(e)).0 == -1,
        e.message is Some ==> failure_of(Some(e)).1 == e.message->0@,
        e.message is None ==> failure_of(Some(e)).1 == "unknown"@,
        failure_of(None) == (-1i32, "unknown"@),
{
}

/// A call is not signed without a login: the missing part is named, and there is
/// no address. A picture is asked for all the same.
pub proof fn lemma_unsigned(c: ClientView, call: CallView, id: Seq<char>, salt: Seq<char>)
    requires
        c.username is None || c.password is None,
    ensures
        c.rest(call, salt) is Err,
        c.stream(id, salt) is Err,
        c.username is None ==> c.rest(call, salt)->Err_0 == LoginMissing::User,
        c.username is Some ==> c.rest(call, salt)->Err_0 == LoginMissing::Password,
{
}

} // verus!
